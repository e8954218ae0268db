use vstd::prelude::*;

use crate::address::Address;
use crate::fees::{compute_fees, prize_pool_of, reward_of, reward_per_winner, FeeSchedule};

verus! {

/// The longest match identifier a market accepts, in UTF-8 bytes.
pub const MAX_MATCH_ID_LEN: usize = 64;

/// The three results a prediction can name.
#[derive(Clone, Copy, Debug, PartialEq, Eq, Structural)]
pub enum MatchOutcome {
    Home,
    Draw,
    Away,
}

/// Where a market stands in its life. Only `Open` and `Resolved` are ever
/// produced; `Live` and `Cancelled` are kept for later transitions.
#[derive(Clone, Copy, Debug, PartialEq, Eq, Structural)]
pub enum MarketStatus {
    Open,
    Live,
    Resolved,
    Cancelled,
}

/// Who may resolve a market, chosen when it is created.
#[derive(Clone, Copy, Debug, PartialEq, Eq, Structural)]
pub enum ResolverPolicy {
    /// Only the market's creator.
    CreatorOnly,
    /// The creator, or anyone who joined the market.
    CreatorOrParticipant,
}

/// Why an operation on a market was refused. A refused operation changes nothing.
#[derive(Clone, Copy, Debug, PartialEq, Eq, Structural)]
pub enum MarketError {
    InvalidMatchId,
    MatchIdTooLong,
    ZeroEntryFee,
    InvalidKickoffTime,
    InvalidEndTime,
    InvalidFeeSchedule,
    MarketNotOpen,
    MarketAlreadyStarted,
    AlreadyJoined,
    InsufficientFunds,
    PoolOverflow,
    ParticipantOverflow,
    CountOverflow,
    UnauthorizedResolver,
    MarketAlreadyResolved,
    MarketNotEnded,
    MarketNotResolved,
    ParticipantNotFound,
    AlreadyWithdrawn,
    NotAWinner,
    NoWinners,
}

/// The class of a refusal: malformed input, counter overflow, a resolver
/// without authority, the wrong lifecycle state, missing funds, a second
/// record for one user, or one of the three withdrawal refusals.
#[derive(Clone, Copy, Debug, PartialEq, Eq, Structural)]
pub enum ErrorKind {
    Validation,
    Arithmetic,
    Authorization,
    State,
    Funds,
    Duplicate,
    AlreadyWithdrawn,
    NotAWinner,
    NoWinners,
}

impl MarketError {
    pub open spec fn spec_kind(&self) -> ErrorKind {
        match self {
            MarketError::InvalidMatchId | MarketError::MatchIdTooLong | MarketError::ZeroEntryFee
            | MarketError::InvalidKickoffTime | MarketError::InvalidEndTime
            | MarketError::InvalidFeeSchedule => ErrorKind::Validation,
            MarketError::PoolOverflow | MarketError::ParticipantOverflow
            | MarketError::CountOverflow => ErrorKind::Arithmetic,
            MarketError::UnauthorizedResolver => ErrorKind::Authorization,
            MarketError::MarketNotOpen | MarketError::MarketAlreadyStarted
            | MarketError::MarketAlreadyResolved | MarketError::MarketNotEnded
            | MarketError::MarketNotResolved | MarketError::ParticipantNotFound => ErrorKind::State,
            MarketError::InsufficientFunds => ErrorKind::Funds,
            MarketError::AlreadyJoined => ErrorKind::Duplicate,
            MarketError::AlreadyWithdrawn => ErrorKind::AlreadyWithdrawn,
            MarketError::NotAWinner => ErrorKind::NotAWinner,
            MarketError::NoWinners => ErrorKind::NoWinners,
        }
    }

    /// The class this refusal belongs to.
    pub fn kind(&self) -> (r: ErrorKind)
        ensures
            r == self.spec_kind(),
    {
        match self {
            MarketError::InvalidMatchId | MarketError::MatchIdTooLong | MarketError::ZeroEntryFee
            | MarketError::InvalidKickoffTime | MarketError::InvalidEndTime
            | MarketError::InvalidFeeSchedule => ErrorKind::Validation,
            MarketError::PoolOverflow | MarketError::ParticipantOverflow
            | MarketError::CountOverflow => ErrorKind::Arithmetic,
            MarketError::UnauthorizedResolver => ErrorKind::Authorization,
            MarketError::MarketNotOpen | MarketError::MarketAlreadyStarted
            | MarketError::MarketAlreadyResolved | MarketError::MarketNotEnded
            | MarketError::MarketNotResolved | MarketError::ParticipantNotFound => ErrorKind::State,
            MarketError::InsufficientFunds => ErrorKind::Funds,
            MarketError::AlreadyJoined => ErrorKind::Duplicate,
            MarketError::AlreadyWithdrawn => ErrorKind::AlreadyWithdrawn,
            MarketError::NotAWinner => ErrorKind::NotAWinner,
            MarketError::NoWinners => ErrorKind::NoWinners,
        }
    }
}

/// One prediction market on one match.
#[derive(Debug)]
pub struct Market {
    /// This market's own key.
    pub address: Address,
    /// The registry that created this market.
    pub factory: Address,
    pub creator: Address,
    /// Where the platform fee goes.
    pub platform: Address,
    pub match_id: String,
    /// The stake every participant pays.
    pub entry_fee: u64,
    pub kickoff_time: i64,
    pub end_time: i64,
    pub status: MarketStatus,
    /// Set exactly when the market is resolved.
    pub outcome: Option<MatchOutcome>,
    /// The stakes collected so far.
    pub total_pool: u64,
    pub participant_count: u32,
    pub home_count: u32,
    pub draw_count: u32,
    pub away_count: u32,
    pub is_public: bool,
    pub fees: FeeSchedule,
    pub resolver_policy: ResolverPolicy,
}

/// One user's stake and prediction in one market.
#[derive(Clone, Copy, Debug)]
pub struct Participant {
    pub market: Address,
    pub user: Address,
    pub prediction: MatchOutcome,
    pub joined_at: i64,
    /// Turns true once, when the reward is paid.
    pub has_withdrawn: bool,
}

/// A market, the participants that joined it and the balance it holds in escrow.
#[derive(Debug)]
pub struct MarketLedger {
    pub market: Market,
    pub participants: Vec<Participant>,
    /// The funds held for this market: stakes in, fees and rewards out.
    pub escrow: u64,
}

/// How many of `ps` predicted `o`.
pub open spec fn count_predicting(ps: Seq<Participant>, o: MatchOutcome) -> nat
    decreases ps.len(),
{
    if ps.len() == 0 {
        0
    } else {
        count_predicting(ps.drop_last(), o) + if ps.last().prediction == o {
            1nat
        } else {
            0nat
        }
    }
}

/// How many of `ps` have been paid their reward.
pub open spec fn count_withdrawn(ps: Seq<Participant>) -> nat
    decreases ps.len(),
{
    if ps.len() == 0 {
        0
    } else {
        count_withdrawn(ps.drop_last()) + if ps.last().has_withdrawn {
            1nat
        } else {
            0nat
        }
    }
}

/// The length of `s` once encoded as UTF-8.
pub open spec fn utf8_len(s: Seq<char>) -> nat {
    vstd::utf8::encode_utf8(s).len()
}

impl Market {
    /// The counter kept for predictions of `o`.
    pub open spec fn count_for(&self, o: MatchOutcome) -> nat {
        match o {
            MatchOutcome::Home => self.home_count as nat,
            MatchOutcome::Draw => self.draw_count as nat,
            MatchOutcome::Away => self.away_count as nat,
        }
    }

    /// How many predicted the resolved outcome; zero while unresolved.
    pub open spec fn winner_count(&self) -> nat {
        match self.outcome {
            Some(o) => self.count_for(o),
            None => 0,
        }
    }

    /// The pool net of the creator and platform fees.
    pub open spec fn prize_pool(&self) -> int {
        prize_pool_of(
            self.total_pool as nat,
            self.fees.creator_fee_bps as nat,
            self.fees.platform_fee_bps as nat,
        )
    }

    /// What each winner is paid.
    pub open spec fn reward(&self) -> nat {
        reward_of(self.prize_pool() as nat, self.winner_count())
    }

    /// Who may resolve: the creator, or under the wider policy a participant.
    pub open spec fn may_resolve(&self, resolver: Address, is_participant: bool) -> bool {
        resolver == self.creator || (self.resolver_policy == ResolverPolicy::CreatorOrParticipant
            && is_participant)
    }

    /// The counter kept for predictions of `o`.
    pub fn count_of(&self, o: MatchOutcome) -> (r: u32)
        ensures
            r == self.count_for(o),
    {
        match o {
            MatchOutcome::Home => self.home_count,
            MatchOutcome::Draw => self.draw_count,
            MatchOutcome::Away => self.away_count,
        }
    }
}

impl MarketLedger {
    /// Whether `user` has joined this market.
    pub open spec fn has_participant(&self, user: Address) -> bool {
        exists|i: int| 0 <= i < self.participants@.len() && self.participants@[i].user == user
    }

    /// The record of `user`, where `has_participant(user)`.
    pub open spec fn participant_of(&self, user: Address) -> Participant {
        let ps = self.participants@;
        ps[choose|i: int| 0 <= i < ps.len() && ps[i].user == user]
    }

    /// The ledger's invariant: descriptor rules, counters that match the
    /// participants, one record per user, and an escrow that holds the pool,
    /// less the fees and the rewards paid once the market is resolved.
    pub open spec fn wf(&self) -> bool {
        let m = self.market;
        let ps = self.participants@;
        &&& 0 < m.match_id@.len()
        &&& utf8_len(m.match_id@) <= MAX_MATCH_ID_LEN
        &&& m.entry_fee > 0
        &&& m.kickoff_time < m.end_time
        &&& m.fees.valid()
        &&& m.participant_count as nat == ps.len()
        &&& m.home_count as nat == count_predicting(ps, MatchOutcome::Home)
        &&& m.draw_count as nat == count_predicting(ps, MatchOutcome::Draw)
        &&& m.away_count as nat == count_predicting(ps, MatchOutcome::Away)
        &&& m.total_pool as nat == m.entry_fee as nat * ps.len()
        &&& forall|i: int, j: int|
            #![trigger ps[i], ps[j]]
            0 <= i < j < ps.len() ==> ps[i].user != ps[j].user
        &&& forall|i: int| 0 <= i < ps.len() ==> (#[trigger] ps[i]).market == m.address
        &&& (m.status == MarketStatus::Resolved) == m.outcome.is_some()
        &&& m.status != MarketStatus::Resolved ==> self.escrow == m.total_pool && count_withdrawn(ps)
            == 0
        &&& m.status == MarketStatus::Resolved ==> {
            &&& self.escrow as int == m.prize_pool() - count_withdrawn(ps) * m.reward()
            &&& forall|i: int|
                0 <= i < ps.len() && (#[trigger] ps[i]).has_withdrawn ==> ps[i].prediction
                    == m.outcome.unwrap()
        }
    }

    /// Whether this ledger satisfies its invariant, for ledgers read back from storage.
    pub fn is_well_formed(&self) -> (r: bool)
        ensures
            r == self.wf(),
    {
        let m = &self.market;
        let ps = &self.participants;
        if m.match_id.as_str().is_empty() || m.match_id.as_str().as_bytes().len() > MAX_MATCH_ID_LEN
            || m.entry_fee == 0 || m.kickoff_time >= m.end_time || !m.fees.is_valid() {
            return false;
        }
        if m.participant_count as usize != ps.len() {
            return false;
        }
        let resolved = m.status == MarketStatus::Resolved;
        if resolved != m.outcome.is_some() {
            return false;
        }
        let mut home: u64 = 0;
        let mut draw: u64 = 0;
        let mut away: u64 = 0;
        let mut withdrawn: u64 = 0;
        let mut i: usize = 0;
        while i < ps.len()
            invariant
                *ps == self.participants,
                *m == self.market,
                i <= ps@.len(),
                resolved == (m.status == MarketStatus::Resolved),
                resolved == m.outcome.is_some(),
                home <= i && draw <= i && away <= i && withdrawn <= i,
                home == count_predicting(ps@.subrange(0, i as int), MatchOutcome::Home),
                draw == count_predicting(ps@.subrange(0, i as int), MatchOutcome::Draw),
                away == count_predicting(ps@.subrange(0, i as int), MatchOutcome::Away),
                withdrawn == count_withdrawn(ps@.subrange(0, i as int)),
                forall|j: int| 0 <= j < i ==> (#[trigger] ps@[j]).market == m.address,
                forall|j: int, k: int|
                    #![trigger ps@[j], ps@[k]]
                    0 <= j < k < i ==> ps@[j].user != ps@[k].user,
                resolved ==> forall|j: int|
                    0 <= j < i && (#[trigger] ps@[j]).has_withdrawn ==> ps@[j].prediction
                        == m.outcome.unwrap(),
            decreases ps@.len() - i,
        {
            let p = ps[i];
            if !(p.market == m.address) {
                proof {
                    if self.wf() {
                        assert(self.participants@[i as int].market == self.market.address);
                    }
                }
                return false;
            }
            let mut j: usize = 0;
            while j < i
                invariant
                    *ps == self.participants,
                    j <= i,
                    i < ps@.len(),
                    p == ps@[i as int],
                    forall|k: int| 0 <= k < j ==> (#[trigger] ps@[k]).user != p.user,
                decreases i - j,
            {
                if ps[j].user == p.user {
                    proof {
                        if self.wf() {
                            let qs = self.participants@;
                            assert(qs[j as int].user != qs[i as int].user);
                        }
                    }
                    return false;
                }
                j = j + 1;
            }
            if resolved && p.has_withdrawn && p.prediction != m.outcome.unwrap() {
                proof {
                    if self.wf() {
                        let qs = self.participants@;
                        assert(qs[i as int].has_withdrawn ==> qs[i as int].prediction
                            == self.market.outcome.unwrap());
                    }
                }
                return false;
            }
            proof {
                assert(ps@.subrange(0, i + 1).drop_last() =~= ps@.subrange(0, i as int));
            }
            match p.prediction {
                MatchOutcome::Home => home = home + 1,
                MatchOutcome::Draw => draw = draw + 1,
                MatchOutcome::Away => away = away + 1,
            }
            if p.has_withdrawn {
                withdrawn = withdrawn + 1;
            }
            i = i + 1;
        }
        proof {
            assert(ps@.subrange(0, ps@.len() as int) =~= ps@);
        }
        if home != m.home_count as u64 || draw != m.draw_count as u64 || away != m.away_count as u64 {
            return false;
        }
        proof {
            assert((m.entry_fee as nat) * (ps@.len() as nat) <= (u64::MAX as nat) * (u64::MAX as nat))
                by (nonlinear_arith)
                requires
                    m.entry_fee <= u64::MAX,
                    ps@.len() <= u64::MAX,
            ;
        }
        let pool: u128 = (m.entry_fee as u128) * (ps.len() as u128);
        if pool != m.total_pool as u128 {
            return false;
        }
        if !resolved {
            return self.escrow == m.total_pool && withdrawn == 0;
        }
        let outcome = m.outcome.unwrap();
        let breakdown = compute_fees(m.total_pool, &m.fees);
        let winners = m.count_of(outcome);
        let reward: u64 = if winners == 0 {
            0
        } else {
            reward_per_winner(breakdown.prize_pool, winners)
        };
        proof {
            assert((withdrawn as nat) * (reward as nat) <= (u64::MAX as nat) * (u64::MAX as nat))
                by (nonlinear_arith)
                requires
                    withdrawn <= u64::MAX,
                    reward <= u64::MAX,
            ;
        }
        (self.escrow as u128) + (withdrawn as u128) * (reward as u128) == breakdown.prize_pool as u128
    }

    /// The index of `user`'s record, if any.
    pub fn find_participant(&self, user: &Address) -> (r: Option<usize>)
        ensures
            match r {
                Some(i) => i < self.participants@.len() && self.participants@[i as int].user
                    == *user,
                None => !self.has_participant(*user),
            },
    {
        let mut i: usize = 0;
        while i < self.participants.len()
            invariant
                i <= self.participants@.len(),
                forall|j: int| 0 <= j < i ==> self.participants@[j].user != *user,
            decreases self.participants@.len() - i,
        {
            if self.participants[i].user == *user {
                return Some(i);
            }
            i = i + 1;
        }
        None
    }
}

/// With users unique, the record found at `i` is the record of its user.
pub proof fn lemma_participant_at(l: MarketLedger, i: int)
    requires
        l.wf(),
        0 <= i < l.participants@.len(),
    ensures
        l.has_participant(l.participants@[i].user),
        l.participant_of(l.participants@[i].user) == l.participants@[i],
{
    let ps = l.participants@;
    let user = ps[i].user;
    assert(0 <= i < ps.len() && ps[i].user == user);
    let j = choose|j: int| 0 <= j < ps.len() && ps[j].user == user;
    if j < i {
        assert(ps[j].user != ps[i].user);
    } else if i < j {
        assert(ps[i].user != ps[j].user);
    }
}

pub proof fn lemma_count_push(ps: Seq<Participant>, p: Participant, o: MatchOutcome)
    ensures
        count_predicting(ps.push(p), o) == count_predicting(ps, o) + if p.prediction == o {
            1nat
        } else {
            0nat
        },
        count_withdrawn(ps.push(p)) == count_withdrawn(ps) + if p.has_withdrawn {
            1nat
        } else {
            0nat
        },
{
    assert(ps.push(p).drop_last() =~= ps);
}

/// Replacing one record by another with the same prediction keeps every
/// prediction count, and changes the withdrawn count by the flags' difference.
pub proof fn lemma_count_update(ps: Seq<Participant>, i: int, p: Participant, o: MatchOutcome)
    requires
        0 <= i < ps.len(),
        p.prediction == ps[i].prediction,
    ensures
        count_predicting(ps.update(i, p), o) == count_predicting(ps, o),
        count_withdrawn(ps.update(i, p)) + (if ps[i].has_withdrawn {
            1int
        } else {
            0int
        }) == count_withdrawn(ps) + (if p.has_withdrawn {
            1int
        } else {
            0int
        }),
    decreases ps.len(),
{
    let q = ps.update(i, p);
    if i == ps.len() - 1 {
        assert(q.drop_last() =~= ps.drop_last());
    } else {
        lemma_count_update(ps.drop_last(), i, p, o);
        assert(q.drop_last() =~= ps.drop_last().update(i, p));
    }
}

/// Every participant is counted under exactly one prediction.
pub proof fn lemma_counts_partition(ps: Seq<Participant>)
    ensures
        count_predicting(ps, MatchOutcome::Home) + count_predicting(ps, MatchOutcome::Draw)
            + count_predicting(ps, MatchOutcome::Away) == ps.len(),
    decreases ps.len(),
{
    if ps.len() > 0 {
        lemma_counts_partition(ps.drop_last());
    }
}

/// No one has been paid while nobody is marked as paid.
pub proof fn lemma_withdrawn_positive(ps: Seq<Participant>, i: int)
    requires
        0 <= i < ps.len(),
        ps[i].has_withdrawn,
    ensures
        count_withdrawn(ps) > 0,
    decreases ps.len(),
{
    if i < ps.len() - 1 {
        lemma_withdrawn_positive(ps.drop_last(), i);
    }
}

/// Where only predictors of `o` have been paid, the paid are no more than the
/// predictors of `o`, and fewer while one of those is still unpaid.
pub proof fn lemma_withdrawn_within_winners(ps: Seq<Participant>, o: MatchOutcome)
    requires
        forall|i: int| 0 <= i < ps.len() && (#[trigger] ps[i]).has_withdrawn ==> ps[i].prediction == o,
    ensures
        count_withdrawn(ps) <= count_predicting(ps, o),
        forall|i: int|
            0 <= i < ps.len() && (#[trigger] ps[i]).prediction == o && !ps[i].has_withdrawn
                ==> count_withdrawn(ps) < count_predicting(ps, o),
    decreases ps.len(),
{
    if ps.len() > 0 {
        let q = ps.drop_last();
        assert forall|i: int| 0 <= i < q.len() && (#[trigger] q[i]).has_withdrawn implies q[i].prediction
            == o by {
            assert(q[i] == ps[i]);
        }
        lemma_withdrawn_within_winners(q, o);
        assert forall|i: int|
            0 <= i < ps.len() && (#[trigger] ps[i]).prediction == o
                && !ps[i].has_withdrawn implies count_withdrawn(ps) < count_predicting(ps, o) by {
            if i < ps.len() - 1 {
                assert(q[i] == ps[i]);
            }
        }
    }
}

} // verus!
