use vstd::prelude::*;

use crate::instructions::{
    initialize_error,
    join_error,
    resolve_error,
    withdraw_error,
    InitializeMarket,
    JoinMarket,
    ResolveMarket,
    WithdrawRewards,
};
use crate::market::{
    count_withdrawn,
    lemma_counts_partition,
    lemma_withdrawn_positive,
    lemma_withdrawn_within_winners,
    utf8_len,
    Market,
    MarketError,
    MarketLedger,
    MarketStatus,
    MatchOutcome,
    MAX_MATCH_ID_LEN,
};

verus! {

/// Every well-formed descriptor is accepted: a non-empty match id of at most
/// 64 bytes, a positive entry fee, a kickoff after now, an end after kickoff
/// and fees of at most 100% together.
pub proof fn lemma_valid_descriptor_accepted(
    ctx: InitializeMarket,
    match_id: Seq<char>,
    entry_fee: u64,
    kickoff_time: i64,
    end_time: i64,
)
    requires
        0 < match_id.len(),
        utf8_len(match_id) <= MAX_MATCH_ID_LEN,
        entry_fee > 0,
        kickoff_time > ctx.now,
        end_time > kickoff_time,
        ctx.fees.valid(),
    ensures
        initialize_error(ctx, match_id, entry_fee, kickoff_time, end_time).is_none(),
{
}

/// In every reachable ledger the pool is the entry fee times the number of
/// participants, and the three prediction counters add up to that number.
pub proof fn lemma_pool_accounting(l: MarketLedger)
    requires
        l.wf(),
    ensures
        l.market.participant_count as nat == l.participants@.len(),
        l.market.total_pool as nat == l.market.entry_fee as nat * l.market.participant_count as nat,
        l.market.home_count + l.market.draw_count + l.market.away_count
            == l.market.participant_count,
{
    lemma_counts_partition(l.participants@);
}

/// A user who has joined cannot join the same market again.
pub proof fn lemma_rejoin_refused(l: MarketLedger, ctx: JoinMarket, prediction: MatchOutcome)
    requires
        l.has_participant(ctx.user),
    ensures
        join_error(l, ctx, prediction) == Some(MarketError::AlreadyJoined),
{
}

/// Once a resolution has succeeded, every later one is refused as already
/// resolved, whoever asks and whenever.
pub proof fn lemma_resolve_once(
    l: MarketLedger,
    first: ResolveMarket,
    outcome: MatchOutcome,
    after: MarketLedger,
    second: ResolveMarket,
)
    requires
        l.wf(),
        resolve_error(l, first).is_none(),
        after.market == (Market {
            status: MarketStatus::Resolved,
            outcome: Some(outcome),
            ..l.market
        }),
    ensures
        resolve_error(after, second) == Some(MarketError::MarketAlreadyResolved),
{
}

/// A winner who has been paid is refused as already withdrawn.
pub proof fn lemma_paid_winner_refused(l: MarketLedger, ctx: WithdrawRewards)
    requires
        l.wf(),
        l.has_participant(ctx.user),
        l.participant_of(ctx.user).has_withdrawn,
    ensures
        withdraw_error(l, ctx) == Some(MarketError::AlreadyWithdrawn),
{
    let ps = l.participants@;
    let i = choose|i: int| 0 <= i < ps.len() && ps[i].user == ctx.user;
    lemma_withdrawn_positive(ps, i);
    let o = l.market.outcome.unwrap();
    lemma_withdrawn_within_winners(ps, o);
}

/// Where someone predicted the outcome, a participant who did not is refused
/// as not a winner.
pub proof fn lemma_non_winner_refused(l: MarketLedger, ctx: WithdrawRewards)
    requires
        l.wf(),
        l.market.status == MarketStatus::Resolved,
        l.market.winner_count() > 0,
        l.has_participant(ctx.user),
        l.participant_of(ctx.user).prediction != l.market.outcome.unwrap(),
    ensures
        withdraw_error(l, ctx) == Some(MarketError::NotAWinner),
{
    let ps = l.participants@;
    let i = choose|i: int| 0 <= i < ps.len() && ps[i].user == ctx.user;
    assert(!ps[i].has_withdrawn);
}

/// Where nobody predicted the outcome, every withdrawal is refused for want of
/// winners, and the escrow still holds the whole prize pool.
pub proof fn lemma_no_winners_keeps_escrow(l: MarketLedger, ctx: WithdrawRewards)
    requires
        l.wf(),
        l.market.status == MarketStatus::Resolved,
        l.market.winner_count() == 0,
    ensures
        withdraw_error(l, ctx) == Some(MarketError::NoWinners),
        l.escrow == l.market.prize_pool(),
{
    lemma_withdrawn_within_winners(l.participants@, l.market.outcome.unwrap());
    assert(count_withdrawn(l.participants@) == 0);
    let k = count_withdrawn(l.participants@);
    let rw = l.market.reward();
    assert(k * rw == 0) by (nonlinear_arith)
        requires
            k == 0,
    ;
}

} // verus!
