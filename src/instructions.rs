use vstd::prelude::*;

use crate::address::Address;
use crate::events::{FeesDistributed, MarketResolved, PredictionMade, RewardClaimed};
use crate::fees::{compute_fees, fee_of, lemma_reward_conservation, reward_per_winner, FeeSchedule};
use crate::market::{
    count_predicting,
    count_withdrawn,
    lemma_count_push,
    lemma_count_update,
    lemma_participant_at,
    lemma_withdrawn_positive,
    lemma_withdrawn_within_winners,
    utf8_len,
    Market,
    MarketError,
    MarketLedger,
    MarketStatus,
    MatchOutcome,
    Participant,
    ResolverPolicy,
    MAX_MATCH_ID_LEN,
};

verus! {

/// What creating a market needs besides its descriptor: the keys involved,
/// the fee and resolver configuration, and the current time.
#[derive(Clone, Copy, Debug)]
pub struct InitializeMarket {
    pub market: Address,
    pub factory: Address,
    pub creator: Address,
    pub platform: Address,
    pub fees: FeeSchedule,
    pub resolver_policy: ResolverPolicy,
    pub now: i64,
}

/// Who joins, the funds they hold, and the current time.
#[derive(Clone, Copy, Debug)]
pub struct JoinMarket {
    pub user: Address,
    pub user_balance: u64,
    pub now: i64,
}

/// Who resolves, and the current time.
#[derive(Clone, Copy, Debug)]
pub struct ResolveMarket {
    pub resolver: Address,
    pub now: i64,
}

/// Who claims a reward.
#[derive(Clone, Copy, Debug)]
pub struct WithdrawRewards {
    pub user: Address,
}

/// The first descriptor rule that the inputs break, if any.
pub open spec fn initialize_error(
    ctx: InitializeMarket,
    match_id: Seq<char>,
    entry_fee: u64,
    kickoff_time: i64,
    end_time: i64,
) -> Option<MarketError> {
    if match_id.len() == 0 {
        Some(MarketError::InvalidMatchId)
    } else if utf8_len(match_id) > MAX_MATCH_ID_LEN {
        Some(MarketError::MatchIdTooLong)
    } else if entry_fee == 0 {
        Some(MarketError::ZeroEntryFee)
    } else if kickoff_time <= ctx.now {
        Some(MarketError::InvalidKickoffTime)
    } else if end_time <= kickoff_time {
        Some(MarketError::InvalidEndTime)
    } else if !ctx.fees.valid() {
        Some(MarketError::InvalidFeeSchedule)
    } else {
        None
    }
}

/// Creates an open market with an empty pool and no participants.
pub fn initialize_market(
    ctx: &InitializeMarket,
    match_id: String,
    entry_fee: u64,
    kickoff_time: i64,
    end_time: i64,
    is_public: bool,
) -> (r: Result<MarketLedger, MarketError>)
    ensures
        match r {
            Ok(l) => {
                &&& initialize_error(*ctx, match_id@, entry_fee, kickoff_time, end_time).is_none()
                &&& l.wf()
                &&& l.market == (Market {
                    address: ctx.market,
                    factory: ctx.factory,
                    creator: ctx.creator,
                    platform: ctx.platform,
                    match_id,
                    entry_fee,
                    kickoff_time,
                    end_time,
                    status: MarketStatus::Open,
                    outcome: None,
                    total_pool: 0,
                    participant_count: 0,
                    home_count: 0,
                    draw_count: 0,
                    away_count: 0,
                    is_public,
                    fees: ctx.fees,
                    resolver_policy: ctx.resolver_policy,
                })
                &&& l.participants@.len() == 0
                &&& l.escrow == 0
            },
            Err(e) => initialize_error(*ctx, match_id@, entry_fee, kickoff_time, end_time) == Some(
                e,
            ),
        },
{
    if match_id.as_str().is_empty() {
        return Err(MarketError::InvalidMatchId);
    }
    if match_id.as_str().as_bytes().len() > MAX_MATCH_ID_LEN {
        return Err(MarketError::MatchIdTooLong);
    }
    if entry_fee == 0 {
        return Err(MarketError::ZeroEntryFee);
    }
    if kickoff_time <= ctx.now {
        return Err(MarketError::InvalidKickoffTime);
    }
    if end_time <= kickoff_time {
        return Err(MarketError::InvalidEndTime);
    }
    if !ctx.fees.is_valid() {
        return Err(MarketError::InvalidFeeSchedule);
    }
    let market = Market {
        address: ctx.market,
        factory: ctx.factory,
        creator: ctx.creator,
        platform: ctx.platform,
        match_id,
        entry_fee,
        kickoff_time,
        end_time,
        status: MarketStatus::Open,
        outcome: None,
        total_pool: 0,
        participant_count: 0,
        home_count: 0,
        draw_count: 0,
        away_count: 0,
        is_public,
        fees: ctx.fees,
        resolver_policy: ctx.resolver_policy,
    };
    let ledger = MarketLedger { market, participants: Vec::new(), escrow: 0 };
    assert(ledger.participants@.len() == 0);
    Ok(ledger)
}

/// The first rule a join breaks, if any.
pub open spec fn join_error(l: MarketLedger, ctx: JoinMarket, prediction: MatchOutcome) -> Option<
    MarketError,
> {
    let m = l.market;
    if l.has_participant(ctx.user) {
        Some(MarketError::AlreadyJoined)
    } else if m.status != MarketStatus::Open {
        Some(MarketError::MarketNotOpen)
    } else if ctx.now >= m.kickoff_time {
        Some(MarketError::MarketAlreadyStarted)
    } else if ctx.user_balance < m.entry_fee {
        Some(MarketError::InsufficientFunds)
    } else if m.total_pool + m.entry_fee > u64::MAX {
        Some(MarketError::PoolOverflow)
    } else if m.participant_count + 1 > u32::MAX {
        Some(MarketError::ParticipantOverflow)
    } else if m.count_for(prediction) + 1 > u32::MAX {
        Some(MarketError::CountOverflow)
    } else {
        None
    }
}

/// The market once one more stake on `o` is counted.
pub open spec fn market_after_join(m: Market, o: MatchOutcome) -> Market {
    Market {
        total_pool: (m.total_pool + m.entry_fee) as u64,
        participant_count: (m.participant_count + 1) as u32,
        home_count: if o == MatchOutcome::Home {
            (m.home_count + 1) as u32
        } else {
            m.home_count
        },
        draw_count: if o == MatchOutcome::Draw {
            (m.draw_count + 1) as u32
        } else {
            m.draw_count
        },
        away_count: if o == MatchOutcome::Away {
            (m.away_count + 1) as u32
        } else {
            m.away_count
        },
        ..m
    }
}

/// Stakes the entry fee on `prediction`: records the participant, moves the
/// fee into escrow and counts it, all together or not at all.
pub fn join_market(ledger: &mut MarketLedger, ctx: &JoinMarket, prediction: MatchOutcome) -> (r:
    Result<PredictionMade, MarketError>)
    requires
        old(ledger).wf(),
    ensures
        final(ledger).wf(),
        match r {
            Ok(ev) => {
                &&& join_error(*old(ledger), *ctx, prediction).is_none()
                &&& final(ledger).market == market_after_join(old(ledger).market, prediction)
                &&& final(ledger).participants@ == old(ledger).participants@.push(
                    (Participant {
                        market: old(ledger).market.address,
                        user: ctx.user,
                        prediction,
                        joined_at: ctx.now,
                        has_withdrawn: false,
                    }),
                )
                &&& final(ledger).escrow == old(ledger).escrow + old(ledger).market.entry_fee
                &&& ev == (PredictionMade {
                    market: old(ledger).market.address,
                    user: ctx.user,
                    prediction,
                    timestamp: ctx.now,
                })
            },
            Err(e) => {
                &&& join_error(*old(ledger), *ctx, prediction) == Some(e)
                &&& *final(ledger) == *old(ledger)
            },
        },
{
    if ledger.find_participant(&ctx.user).is_some() {
        return Err(MarketError::AlreadyJoined);
    }
    if ledger.market.status != MarketStatus::Open {
        return Err(MarketError::MarketNotOpen);
    }
    if ctx.now >= ledger.market.kickoff_time {
        return Err(MarketError::MarketAlreadyStarted);
    }
    let entry_fee = ledger.market.entry_fee;
    if ctx.user_balance < entry_fee {
        return Err(MarketError::InsufficientFunds);
    }
    let total_pool = match ledger.market.total_pool.checked_add(entry_fee) {
        Some(v) => v,
        None => return Err(MarketError::PoolOverflow),
    };
    let participant_count = match ledger.market.participant_count.checked_add(1) {
        Some(v) => v,
        None => return Err(MarketError::ParticipantOverflow),
    };
    let count = match ledger.market.count_of(prediction).checked_add(1) {
        Some(v) => v,
        None => return Err(MarketError::CountOverflow),
    };
    let ghost before = *ledger;
    let participant = Participant {
        market: ledger.market.address,
        user: ctx.user,
        prediction,
        joined_at: ctx.now,
        has_withdrawn: false,
    };
    ledger.market.total_pool = total_pool;
    ledger.market.participant_count = participant_count;
    match prediction {
        MatchOutcome::Home => ledger.market.home_count = count,
        MatchOutcome::Draw => ledger.market.draw_count = count,
        MatchOutcome::Away => ledger.market.away_count = count,
    }
    ledger.participants.push(participant);
    ledger.escrow = total_pool;
    proof {
        let ps = before.participants@;
        lemma_count_push(ps, participant, MatchOutcome::Home);
        lemma_count_push(ps, participant, MatchOutcome::Draw);
        lemma_count_push(ps, participant, MatchOutcome::Away);
        assert(entry_fee as nat * ps.len() + entry_fee == entry_fee as nat * (ps.len() + 1))
            by (nonlinear_arith);
        let qs = ledger.participants@;
        assert forall|i: int, j: int| 0 <= i < j < qs.len() implies qs[i].user != qs[j].user by {
            if j == ps.len() {
                assert(qs[i] == ps[i]);
            } else {
                assert(qs[i] == ps[i] && qs[j] == ps[j]);
            }
        }
        assert forall|i: int| 0 <= i < qs.len() implies (#[trigger] qs[i]).market
            == ledger.market.address by {
            if i < ps.len() {
                assert(qs[i] == ps[i]);
            }
        }
    }
    Ok(
        PredictionMade {
            market: ledger.market.address,
            user: ctx.user,
            prediction,
            timestamp: ctx.now,
        },
    )
}

/// The first rule a resolution breaks, if any.
pub open spec fn resolve_error(l: MarketLedger, ctx: ResolveMarket) -> Option<MarketError> {
    let m = l.market;
    if m.status == MarketStatus::Resolved {
        Some(MarketError::MarketAlreadyResolved)
    } else if ctx.now < m.end_time {
        Some(MarketError::MarketNotEnded)
    } else if !m.may_resolve(ctx.resolver, l.has_participant(ctx.resolver)) {
        Some(MarketError::UnauthorizedResolver)
    } else {
        None
    }
}

/// Fixes the outcome once and takes both fees out of escrow; the fees are
/// reported for transfer to the creator and the platform.
pub fn resolve_market(ledger: &mut MarketLedger, ctx: &ResolveMarket, outcome: MatchOutcome) -> (r:
    Result<(MarketResolved, FeesDistributed), MarketError>)
    requires
        old(ledger).wf(),
    ensures
        final(ledger).wf(),
        match r {
            Ok((resolved, fees)) => {
                let m = old(ledger).market;
                &&& resolve_error(*old(ledger), *ctx).is_none()
                &&& final(ledger).market == (Market {
                    status: MarketStatus::Resolved,
                    outcome: Some(outcome),
                    ..m
                })
                &&& final(ledger).participants == old(ledger).participants
                &&& fees.creator_fee == fee_of(m.total_pool as nat, m.fees.creator_fee_bps as nat)
                &&& fees.platform_fee == fee_of(m.total_pool as nat, m.fees.platform_fee_bps as nat)
                &&& fees.total_fees == fees.creator_fee + fees.platform_fee
                &&& fees.market == m.address
                &&& fees.creator == m.creator
                &&& fees.platform == m.platform
                &&& final(ledger).escrow == old(ledger).escrow - fees.total_fees
                &&& final(ledger).escrow == m.prize_pool()
                &&& resolved == (MarketResolved {
                    market: m.address,
                    outcome,
                    winner_count: m.count_for(outcome) as u32,
                    total_pool: m.total_pool,
                })
            },
            Err(e) => {
                &&& resolve_error(*old(ledger), *ctx) == Some(e)
                &&& *final(ledger) == *old(ledger)
            },
        },
{
    if ledger.market.status == MarketStatus::Resolved {
        return Err(MarketError::MarketAlreadyResolved);
    }
    if ctx.now < ledger.market.end_time {
        return Err(MarketError::MarketNotEnded);
    }
    let is_creator = ctx.resolver == ledger.market.creator;
    let authorized = is_creator || match ledger.market.resolver_policy {
        ResolverPolicy::CreatorOnly => false,
        ResolverPolicy::CreatorOrParticipant => ledger.find_participant(&ctx.resolver).is_some(),
    };
    if !authorized {
        return Err(MarketError::UnauthorizedResolver);
    }
    let breakdown = compute_fees(ledger.market.total_pool, &ledger.market.fees);
    ledger.escrow = ledger.escrow - breakdown.total_fees;
    ledger.market.status = MarketStatus::Resolved;
    ledger.market.outcome = Some(outcome);
    let winner_count = ledger.market.count_of(outcome);
    proof {
        let ps = ledger.participants@;
        assert forall|i: int| 0 <= i < ps.len() && (#[trigger] ps[i]).has_withdrawn implies ps[i].prediction
            == outcome by {
            lemma_withdrawn_positive(ps, i);
        }
    }
    Ok(
        (
            MarketResolved {
                market: ledger.market.address,
                outcome,
                winner_count,
                total_pool: ledger.market.total_pool,
            },
            FeesDistributed {
                market: ledger.market.address,
                creator: ledger.market.creator,
                creator_fee: breakdown.creator_fee,
                platform: ledger.market.platform,
                platform_fee: breakdown.platform_fee,
                total_fees: breakdown.total_fees,
            },
        ),
    )
}

/// The first rule a withdrawal breaks, if any.
pub open spec fn withdraw_error(l: MarketLedger, ctx: WithdrawRewards) -> Option<MarketError> {
    let m = l.market;
    if m.status != MarketStatus::Resolved {
        Some(MarketError::MarketNotResolved)
    } else if m.winner_count() == 0 {
        Some(MarketError::NoWinners)
    } else if !l.has_participant(ctx.user) {
        Some(MarketError::ParticipantNotFound)
    } else if l.participant_of(ctx.user).has_withdrawn {
        Some(MarketError::AlreadyWithdrawn)
    } else if l.participant_of(ctx.user).prediction != m.outcome.unwrap() {
        Some(MarketError::NotAWinner)
    } else {
        None
    }
}

/// Pays a winner `floor(prize_pool / winner_count)` out of escrow, once.
/// The remainder of that division stays in escrow.
pub fn withdraw_rewards(ledger: &mut MarketLedger, ctx: &WithdrawRewards) -> (r: Result<
    RewardClaimed,
    MarketError,
>)
    requires
        old(ledger).wf(),
    ensures
        final(ledger).wf(),
        match r {
            Ok(ev) => {
                let m = old(ledger).market;
                let ps = old(ledger).participants@;
                &&& withdraw_error(*old(ledger), *ctx).is_none()
                &&& final(ledger).market == m
                &&& final(ledger).participants@.len() == ps.len()
                &&& forall|i: int|
                    0 <= i < ps.len() ==> #[trigger] final(ledger).participants@[i] == if ps[i].user
                        == ctx.user {
                        Participant { has_withdrawn: true, ..ps[i] }
                    } else {
                        ps[i]
                    }
                &&& ev.amount == m.reward()
                &&& ev.amount == m.prize_pool() / m.winner_count() as int
                &&& final(ledger).escrow == old(ledger).escrow - ev.amount
                &&& ev.market == m.address
                &&& ev.user == ctx.user
            },
            Err(e) => {
                &&& withdraw_error(*old(ledger), *ctx) == Some(e)
                &&& *final(ledger) == *old(ledger)
            },
        },
{
    if ledger.market.status != MarketStatus::Resolved {
        return Err(MarketError::MarketNotResolved);
    }
    let outcome = ledger.market.outcome.unwrap();
    let winner_count = ledger.market.count_of(outcome);
    if winner_count == 0 {
        return Err(MarketError::NoWinners);
    }
    let idx = match ledger.find_participant(&ctx.user) {
        Some(i) => i,
        None => return Err(MarketError::ParticipantNotFound),
    };
    proof {
        lemma_participant_at(*ledger, idx as int);
    }
    let participant = ledger.participants[idx];
    if participant.has_withdrawn {
        return Err(MarketError::AlreadyWithdrawn);
    }
    if participant.prediction != outcome {
        return Err(MarketError::NotAWinner);
    }
    let breakdown = compute_fees(ledger.market.total_pool, &ledger.market.fees);
    let reward = reward_per_winner(breakdown.prize_pool, winner_count);
    let ghost before = *ledger;
    proof {
        let ps = before.participants@;
        let m = before.market;
        lemma_withdrawn_within_winners(ps, outcome);
        assert(ps[idx as int].prediction == outcome && !ps[idx as int].has_withdrawn);
        lemma_reward_conservation(
            m.total_pool as nat,
            m.fees.creator_fee_bps as nat,
            m.fees.platform_fee_bps as nat,
            winner_count as nat,
        );
        let k = count_withdrawn(ps);
        let w = winner_count as nat;
        let rw = reward as nat;
        let prize = m.prize_pool();
        assert(prize - k * rw >= rw) by (nonlinear_arith)
            requires
                k < w,
                rw * w <= prize,
        ;
    }
    ledger.escrow = ledger.escrow - reward;
    ledger.participants[idx] = Participant { has_withdrawn: true, ..participant };
    proof {
        let ps = before.participants@;
        let qs = ledger.participants@;
        let np = Participant { has_withdrawn: true, ..participant };
        assert(qs == ps.update(idx as int, np));
        lemma_count_update(ps, idx as int, np, MatchOutcome::Home);
        lemma_count_update(ps, idx as int, np, MatchOutcome::Draw);
        lemma_count_update(ps, idx as int, np, MatchOutcome::Away);
        let k = count_withdrawn(ps);
        let rw = reward as nat;
        assert((k + 1) * rw == k * rw + rw) by (nonlinear_arith);
        assert forall|i: int, j: int| 0 <= i < j < qs.len() implies qs[i].user != qs[j].user by {
            assert(ps[i].user == qs[i].user && ps[j].user == qs[j].user);
        }
        assert forall|i: int| 0 <= i < qs.len() implies (#[trigger] qs[i]).market
            == ledger.market.address by {
            assert(ps[i].market == qs[i].market);
        }
        assert forall|i: int| 0 <= i < ps.len() implies #[trigger] qs[i] == if ps[i].user
            == ctx.user {
            Participant { has_withdrawn: true, ..ps[i] }
        } else {
            ps[i]
        } by {
            if i != idx {
                if i < idx {
                    assert(ps[i].user != ps[idx as int].user);
                } else {
                    assert(ps[idx as int].user != ps[i].user);
                }
            }
        }
    }
    Ok(RewardClaimed { market: ledger.market.address, user: ctx.user, amount: reward })
}

} // verus!
