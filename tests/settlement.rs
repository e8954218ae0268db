use cryptoscore::address::Address;
use cryptoscore::events::{FeesDistributed, MarketResolved, RewardClaimed};
use cryptoscore::fees::{compute_fee, compute_fees, reward_per_winner, FeeSchedule};
use cryptoscore::instructions::{
    initialize_market, join_market, resolve_market, withdraw_rewards, InitializeMarket,
    JoinMarket, ResolveMarket, WithdrawRewards,
};
use cryptoscore::market::{ErrorKind, MarketError, MarketLedger, MarketStatus, MatchOutcome, ResolverPolicy};

const NOW: i64 = 1_000;
const KICKOFF: i64 = 2_000;
const END: i64 = 3_000;

fn addr(b: u8) -> Address {
    Address { bytes: [b; 32] }
}

fn ctx_with(fees: FeeSchedule, policy: ResolverPolicy) -> InitializeMarket {
    InitializeMarket {
        market: addr(1),
        factory: addr(2),
        creator: addr(3),
        platform: addr(4),
        fees,
        resolver_policy: policy,
        now: NOW,
    }
}

fn schedule(c: u16, p: u16) -> FeeSchedule {
    FeeSchedule { creator_fee_bps: c, platform_fee_bps: p }
}

fn open_market(entry_fee: u64, c: u16, p: u16, policy: ResolverPolicy) -> MarketLedger {
    initialize_market(
        &ctx_with(schedule(c, p), policy),
        String::from("EPL-2024-123"),
        entry_fee,
        KICKOFF,
        END,
        true,
    )
    .unwrap()
}

fn join(l: &mut MarketLedger, user: u8, o: MatchOutcome) -> Result<(), MarketError> {
    let ctx = JoinMarket { user: addr(user), user_balance: 1_000_000, now: NOW + 1 };
    join_market(l, &ctx, o).map(|_| ())
}

fn resolve(
    l: &mut MarketLedger,
    resolver: u8,
    o: MatchOutcome,
) -> Result<(MarketResolved, FeesDistributed), MarketError> {
    resolve_market(l, &ResolveMarket { resolver: addr(resolver), now: END }, o)
}

fn withdraw(l: &mut MarketLedger, user: u8) -> Result<RewardClaimed, MarketError> {
    withdraw_rewards(l, &WithdrawRewards { user: addr(user) })
}

#[test]
fn initialize_opens_empty_market() {
    let l = open_market(100, 200, 300, ResolverPolicy::CreatorOnly);
    assert_eq!(l.market.status, MarketStatus::Open);
    assert_eq!(l.market.outcome, None);
    assert_eq!(l.market.total_pool, 0);
    assert_eq!(l.market.participant_count, 0);
    assert_eq!(l.market.home_count, 0);
    assert_eq!(l.market.draw_count, 0);
    assert_eq!(l.market.away_count, 0);
    assert_eq!(l.market.entry_fee, 100);
    assert_eq!(l.market.match_id, "EPL-2024-123");
    assert!(l.market.creator == addr(3));
    assert!(l.participants.is_empty());
    assert_eq!(l.escrow, 0);
}

#[test]
fn initialize_rejects_each_bad_descriptor() {
    let ok = ctx_with(schedule(100, 100), ResolverPolicy::CreatorOnly);
    let e = |ctx: &InitializeMarket, id: &str, fee: u64, k: i64, end: i64| {
        initialize_market(ctx, String::from(id), fee, k, end, false).err()
    };
    assert_eq!(e(&ok, "", 1, KICKOFF, END), Some(MarketError::InvalidMatchId));
    assert_eq!(e(&ok, &"x".repeat(65), 1, KICKOFF, END), Some(MarketError::MatchIdTooLong));
    assert_eq!(e(&ok, "m", 0, KICKOFF, END), Some(MarketError::ZeroEntryFee));
    assert_eq!(e(&ok, "m", 1, NOW, END), Some(MarketError::InvalidKickoffTime));
    assert_eq!(e(&ok, "m", 1, KICKOFF, KICKOFF), Some(MarketError::InvalidEndTime));
    let too_much = ctx_with(schedule(5_000, 5_001), ResolverPolicy::CreatorOnly);
    assert_eq!(e(&too_much, "m", 1, KICKOFF, END), Some(MarketError::InvalidFeeSchedule));
}

#[test]
fn match_id_limit_counts_bytes() {
    let ctx = ctx_with(schedule(0, 0), ResolverPolicy::CreatorOnly);
    let at_limit = "x".repeat(64);
    assert!(initialize_market(&ctx, at_limit, 1, KICKOFF, END, true).is_ok());
    // 33 two-byte characters: 33 characters but 66 bytes.
    let wide = "é".repeat(33);
    assert_eq!(
        initialize_market(&ctx, wide, 1, KICKOFF, END, true).err(),
        Some(MarketError::MatchIdTooLong)
    );
    let full_fees = ctx_with(schedule(10_000, 0), ResolverPolicy::CreatorOnly);
    assert!(initialize_market(&full_fees, String::from("m"), 1, KICKOFF, END, true).is_ok());
}

#[test]
fn joins_accumulate_pool_and_counts() {
    let mut l = open_market(250, 0, 0, ResolverPolicy::CreatorOnly);
    let picks = [
        MatchOutcome::Home,
        MatchOutcome::Away,
        MatchOutcome::Draw,
        MatchOutcome::Home,
        MatchOutcome::Away,
        MatchOutcome::Home,
        MatchOutcome::Home,
    ];
    for (i, o) in picks.iter().enumerate() {
        join(&mut l, 10 + i as u8, *o).unwrap();
    }
    let n = picks.len() as u64;
    assert_eq!(l.market.total_pool, n * 250);
    assert_eq!(l.escrow, n * 250);
    assert_eq!(l.market.participant_count as u64, n);
    assert_eq!(l.market.home_count, 4);
    assert_eq!(l.market.draw_count, 1);
    assert_eq!(l.market.away_count, 2);
    assert_eq!(
        (l.market.home_count + l.market.draw_count + l.market.away_count) as u64,
        n
    );
    assert_eq!(l.participants.len(), picks.len());
    assert!(l.participants[3].user == addr(13));
    assert_eq!(l.participants[3].prediction, MatchOutcome::Home);
    assert_eq!(l.participants[3].joined_at, NOW + 1);
    assert!(!l.participants[3].has_withdrawn);
    assert!(l.participants[3].market == addr(1));
}

#[test]
fn join_reports_prediction() {
    let mut l = open_market(100, 0, 0, ResolverPolicy::CreatorOnly);
    let ctx = JoinMarket { user: addr(9), user_balance: 100, now: NOW };
    let ev = join_market(&mut l, &ctx, MatchOutcome::Draw).unwrap();
    assert!(ev.market == addr(1));
    assert!(ev.user == addr(9));
    assert_eq!(ev.prediction, MatchOutcome::Draw);
    assert_eq!(ev.timestamp, NOW);
}

#[test]
fn second_join_by_same_user_is_refused() {
    let mut l = open_market(100, 0, 0, ResolverPolicy::CreatorOnly);
    join(&mut l, 7, MatchOutcome::Home).unwrap();
    assert_eq!(join(&mut l, 7, MatchOutcome::Away), Err(MarketError::AlreadyJoined));
    assert_eq!(join(&mut l, 7, MatchOutcome::Home), Err(MarketError::AlreadyJoined));
    assert_eq!(l.participants.len(), 1);
    assert_eq!(l.market.total_pool, 100);
    assert_eq!(l.escrow, 100);
    assert_eq!(l.market.participant_count, 1);
    assert_eq!(l.market.away_count, 0);
}

#[test]
fn join_refusals() {
    let mut l = open_market(100, 0, 0, ResolverPolicy::CreatorOnly);
    let late = JoinMarket { user: addr(8), user_balance: 1_000, now: KICKOFF };
    assert_eq!(
        join_market(&mut l, &late, MatchOutcome::Home).err(),
        Some(MarketError::MarketAlreadyStarted)
    );
    let poor = JoinMarket { user: addr(8), user_balance: 99, now: NOW };
    assert_eq!(
        join_market(&mut l, &poor, MatchOutcome::Home).err(),
        Some(MarketError::InsufficientFunds)
    );
    assert!(l.participants.is_empty());
    assert_eq!(l.escrow, 0);
    join(&mut l, 8, MatchOutcome::Home).unwrap();
    resolve(&mut l, 3, MatchOutcome::Home).unwrap();
    assert_eq!(join(&mut l, 9, MatchOutcome::Home), Err(MarketError::MarketNotOpen));
}

#[test]
fn join_pool_overflow_is_refused() {
    let mut l = open_market(u64::MAX, 0, 0, ResolverPolicy::CreatorOnly);
    let rich = JoinMarket { user: addr(5), user_balance: u64::MAX, now: NOW };
    join_market(&mut l, &rich, MatchOutcome::Home).unwrap();
    let other = JoinMarket { user: addr(6), user_balance: u64::MAX, now: NOW };
    assert_eq!(
        join_market(&mut l, &other, MatchOutcome::Away).err(),
        Some(MarketError::PoolOverflow)
    );
    assert_eq!(l.participants.len(), 1);
    assert_eq!(l.market.total_pool, u64::MAX);
}

#[test]
fn resolve_twice_fails_the_second_time() {
    let mut l = open_market(100, 100, 100, ResolverPolicy::CreatorOnly);
    join(&mut l, 10, MatchOutcome::Home).unwrap();
    resolve(&mut l, 3, MatchOutcome::Home).unwrap();
    let escrow = l.escrow;
    assert_eq!(resolve(&mut l, 3, MatchOutcome::Away).err(), Some(MarketError::MarketAlreadyResolved));
    assert_eq!(resolve(&mut l, 99, MatchOutcome::Draw).err(), Some(MarketError::MarketAlreadyResolved));
    assert_eq!(l.market.status, MarketStatus::Resolved);
    assert_eq!(l.market.outcome, Some(MatchOutcome::Home));
    assert_eq!(l.escrow, escrow);
}

#[test]
fn resolve_refusals() {
    let mut l = open_market(100, 0, 0, ResolverPolicy::CreatorOnly);
    join(&mut l, 10, MatchOutcome::Home).unwrap();
    let early = ResolveMarket { resolver: addr(3), now: END - 1 };
    assert_eq!(
        resolve_market(&mut l, &early, MatchOutcome::Home).err(),
        Some(MarketError::MarketNotEnded)
    );
    // Under the creator-only policy a participant may not resolve.
    assert_eq!(resolve(&mut l, 10, MatchOutcome::Home).err(), Some(MarketError::UnauthorizedResolver));
    assert_eq!(l.market.status, MarketStatus::Open);
    assert_eq!(l.market.outcome, None);
    assert_eq!(l.escrow, 100);
}

#[test]
fn participant_may_resolve_under_wider_policy() {
    let mut l = open_market(100, 0, 0, ResolverPolicy::CreatorOrParticipant);
    join(&mut l, 10, MatchOutcome::Home).unwrap();
    assert_eq!(resolve(&mut l, 11, MatchOutcome::Home).err(), Some(MarketError::UnauthorizedResolver));
    let (ev, _) = resolve(&mut l, 10, MatchOutcome::Away).unwrap();
    assert_eq!(ev.outcome, MatchOutcome::Away);
    assert_eq!(ev.winner_count, 0);
    assert_eq!(l.market.outcome, Some(MatchOutcome::Away));
}

#[test]
fn concrete_three_player_settlement() {
    let mut l = open_market(100, 100, 100, ResolverPolicy::CreatorOnly);
    join(&mut l, 10, MatchOutcome::Home).unwrap();
    join(&mut l, 11, MatchOutcome::Home).unwrap();
    join(&mut l, 12, MatchOutcome::Draw).unwrap();
    assert_eq!(l.market.total_pool, 300);
    let (resolved, fees) = resolve(&mut l, 3, MatchOutcome::Home).unwrap();
    assert_eq!(fees.creator_fee, 3);
    assert_eq!(fees.platform_fee, 3);
    assert_eq!(fees.total_fees, 6);
    assert!(fees.creator == addr(3));
    assert!(fees.platform == addr(4));
    assert_eq!(resolved.winner_count, 2);
    assert_eq!(resolved.total_pool, 300);
    assert_eq!(l.escrow, 294);
    let a = withdraw(&mut l, 10).unwrap();
    assert_eq!(a.amount, 147);
    assert!(a.user == addr(10));
    let b = withdraw(&mut l, 11).unwrap();
    assert_eq!(b.amount, 147);
    assert_eq!(l.escrow, 0);
    assert_eq!(withdraw(&mut l, 12).err(), Some(MarketError::NotAWinner));
    assert_eq!(withdraw(&mut l, 10).err(), Some(MarketError::AlreadyWithdrawn));
    assert_eq!(withdraw(&mut l, 11).err(), Some(MarketError::AlreadyWithdrawn));
    assert_eq!(l.escrow, 0);
    assert!(l.participants[0].has_withdrawn);
    assert!(l.participants[1].has_withdrawn);
    assert!(!l.participants[2].has_withdrawn);
}

#[test]
fn remainder_stays_in_escrow() {
    let mut l = open_market(10, 200, 300, ResolverPolicy::CreatorOnly);
    for u in 0..7u8 {
        let o = if u < 3 { MatchOutcome::Away } else { MatchOutcome::Draw };
        join(&mut l, 20 + u, o).unwrap();
    }
    // pool 70: fees 1 and 2, prize 67, three winners of 22 each, 1 left over.
    let (_, fees) = resolve(&mut l, 3, MatchOutcome::Away).unwrap();
    assert_eq!((fees.creator_fee, fees.platform_fee, fees.total_fees), (1, 2, 3));
    for u in 0..3u8 {
        assert_eq!(withdraw(&mut l, 20 + u).unwrap().amount, 22);
    }
    assert_eq!(l.escrow, 1);
}

#[test]
fn repeated_and_losing_withdrawals_move_nothing() {
    let mut l = open_market(100, 0, 0, ResolverPolicy::CreatorOnly);
    join(&mut l, 10, MatchOutcome::Home).unwrap();
    join(&mut l, 11, MatchOutcome::Away).unwrap();
    resolve(&mut l, 3, MatchOutcome::Home).unwrap();
    assert_eq!(withdraw(&mut l, 10).unwrap().amount, 200);
    assert_eq!(l.escrow, 0);
    assert_eq!(withdraw(&mut l, 10).err(), Some(MarketError::AlreadyWithdrawn));
    assert_eq!(withdraw(&mut l, 11).err(), Some(MarketError::NotAWinner));
    assert_eq!(l.escrow, 0);
}

#[test]
fn no_winners_leaves_escrow_intact() {
    let mut l = open_market(100, 100, 100, ResolverPolicy::CreatorOnly);
    join(&mut l, 10, MatchOutcome::Home).unwrap();
    join(&mut l, 11, MatchOutcome::Draw).unwrap();
    resolve(&mut l, 3, MatchOutcome::Away).unwrap();
    let escrow = l.escrow;
    assert_eq!(escrow, 196);
    for u in [10u8, 11, 12, 3] {
        assert_eq!(withdraw(&mut l, u).err(), Some(MarketError::NoWinners));
        assert_eq!(l.escrow, escrow);
    }
    assert!(l.participants.iter().all(|p| !p.has_withdrawn));
}

#[test]
fn withdraw_refusals() {
    let mut l = open_market(100, 0, 0, ResolverPolicy::CreatorOnly);
    join(&mut l, 10, MatchOutcome::Home).unwrap();
    assert_eq!(withdraw(&mut l, 10).err(), Some(MarketError::MarketNotResolved));
    resolve(&mut l, 3, MatchOutcome::Home).unwrap();
    assert_eq!(withdraw(&mut l, 50).err(), Some(MarketError::ParticipantNotFound));
    assert_eq!(l.escrow, 100);
}

#[test]
fn fee_formulas() {
    assert_eq!(compute_fee(300, 100), 3);
    assert_eq!(compute_fee(300, 0), 0);
    assert_eq!(compute_fee(99, 100), 0);
    assert_eq!(compute_fee(10_000, 250), 250);
    assert_eq!(compute_fee(u64::MAX, 10_000), u64::MAX);
    assert_eq!(compute_fee(u64::MAX, 5_000), u64::MAX / 2);
    let b = compute_fees(300, &schedule(100, 100));
    assert_eq!((b.creator_fee, b.platform_fee, b.total_fees, b.prize_pool), (3, 3, 6, 294));
    let b = compute_fees(1_000, &schedule(200, 300));
    assert_eq!((b.creator_fee, b.platform_fee, b.total_fees, b.prize_pool), (20, 30, 50, 950));
    assert_eq!(reward_per_winner(294, 2), 147);
    assert_eq!(reward_per_winner(67, 3), 22);
    assert!(schedule(5_000, 5_000).is_valid());
    assert!(!schedule(5_000, 5_001).is_valid());
}

#[test]
fn reward_conservation_examples() {
    for &(pool, c, p, w) in &[
        (300u64, 100u16, 100u16, 2u32),
        (70, 200, 300, 3),
        (1, 5_000, 5_000, 1),
        (1_000_003, 33, 77, 7),
        (u64::MAX, 9_999, 1, 13),
    ] {
        let b = compute_fees(pool, &schedule(c, p));
        let r = reward_per_winner(b.prize_pool, w);
        let paid = r as u128 * w as u128;
        assert!(paid <= b.prize_pool as u128);
        assert!((b.prize_pool as u128) - paid < w as u128);
        assert!(b.total_fees as u128 + paid <= pool as u128);
    }
    // Where both fee divisions are exact the winners share at most the net part.
    let b = compute_fees(20_000, &schedule(100, 250));
    let r = reward_per_winner(b.prize_pool, 3);
    assert!(r as u128 * 3 <= 20_000u128 * (10_000 - 350) / 10_000);
}

#[test]
fn address_equality_compares_all_bytes() {
    let a = addr(5);
    let mut b = addr(5);
    assert!(a == b);
    b.bytes[31] = 6;
    assert!(a != b);
    assert!(Address::filled(7) == addr(7));
}

#[test]
fn ledger_invariant_holds_through_lifecycle_and_catches_tampering() {
    let mut l = open_market(100, 100, 100, ResolverPolicy::CreatorOnly);
    assert!(l.is_well_formed());
    join(&mut l, 10, MatchOutcome::Home).unwrap();
    join(&mut l, 11, MatchOutcome::Home).unwrap();
    join(&mut l, 12, MatchOutcome::Draw).unwrap();
    assert!(l.is_well_formed());
    resolve(&mut l, 3, MatchOutcome::Home).unwrap();
    assert!(l.is_well_formed());
    withdraw(&mut l, 10).unwrap();
    assert!(l.is_well_formed());

    l.escrow += 1;
    assert!(!l.is_well_formed());
    l.escrow -= 1;
    l.market.home_count = 1;
    assert!(!l.is_well_formed());
    l.market.home_count = 2;
    l.participants[1].user = addr(10);
    assert!(!l.is_well_formed());
    l.participants[1].user = addr(11);
    l.participants[2].has_withdrawn = true;
    assert!(!l.is_well_formed());
    l.participants[2].has_withdrawn = false;
    l.market.total_pool = 301;
    assert!(!l.is_well_formed());
    l.market.total_pool = 300;
    assert!(l.is_well_formed());
}

#[test]
fn error_kinds() {
    assert_eq!(MarketError::MatchIdTooLong.kind(), ErrorKind::Validation);
    assert_eq!(MarketError::InvalidFeeSchedule.kind(), ErrorKind::Validation);
    assert_eq!(MarketError::PoolOverflow.kind(), ErrorKind::Arithmetic);
    assert_eq!(MarketError::UnauthorizedResolver.kind(), ErrorKind::Authorization);
    assert_eq!(MarketError::MarketAlreadyResolved.kind(), ErrorKind::State);
    assert_eq!(MarketError::MarketNotEnded.kind(), ErrorKind::State);
    assert_eq!(MarketError::InsufficientFunds.kind(), ErrorKind::Funds);
    assert_eq!(MarketError::AlreadyJoined.kind(), ErrorKind::Duplicate);
    assert_eq!(MarketError::NoWinners.kind(), ErrorKind::NoWinners);
}
