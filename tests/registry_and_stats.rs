use cryptoscore::address::Address;
use cryptoscore::factory::{
    create_market, initialize_factory, CreateMarket, FactoryError, InitializeFactory,
};
use cryptoscore::stats::{update_user_stats, DashboardError, MarketResult, UpdateUserStats, UserStats};

fn addr(b: u8) -> Address {
    Address { bytes: [b; 32] }
}

fn create_ctx(now: i64) -> CreateMarket {
    CreateMarket { factory: addr(1), market_account: addr(2), creator: addr(3), now }
}

#[test]
fn factory_fee_ceiling() {
    let ctx = InitializeFactory { authority: addr(9) };
    let f = initialize_factory(&ctx, 1_000).unwrap();
    assert_eq!(f.market_count, 0);
    assert_eq!(f.platform_fee_bps, 1_000);
    assert!(f.authority == addr(9));
    assert_eq!(initialize_factory(&ctx, 1_001).err(), Some(FactoryError::InvalidPlatformFee));
    assert!(initialize_factory(&ctx, 0).is_ok());
}

#[test]
fn create_market_registers_and_counts() {
    let mut f = initialize_factory(&InitializeFactory { authority: addr(9) }, 300).unwrap();
    let (entry, ev) =
        create_market(&mut f, &create_ctx(10), String::from("EPL-2024-123"), 50, 20, 30, true)
            .unwrap();
    assert_eq!(f.market_count, 1);
    assert_eq!(entry.match_id, "EPL-2024-123");
    assert_eq!(entry.created_at, 10);
    assert_eq!((entry.entry_fee, entry.kickoff_time, entry.end_time), (50, 20, 30));
    assert!(entry.market_address == addr(2));
    assert!(entry.factory == addr(1));
    assert!(ev.market == addr(2));
    assert!(ev.creator == addr(3));
    assert_eq!(ev.match_id, "EPL-2024-123");
    let info = entry.info();
    assert_eq!(info.match_id, "EPL-2024-123");
    assert_eq!(info.entry_fee, 50);
    assert!(info.is_public);
    create_market(&mut f, &create_ctx(10), String::from("other"), 1, 20, 30, false).unwrap();
    assert_eq!(f.market_count, 2);
}

#[test]
fn create_market_refusals() {
    let mut f = initialize_factory(&InitializeFactory { authority: addr(9) }, 300).unwrap();
    let ctx = create_ctx(10);
    let mut e = |id: &str, fee: u64, k: i64, end: i64| {
        create_market(&mut f, &ctx, String::from(id), fee, k, end, true).err()
    };
    assert_eq!(e("", 1, 20, 30), Some(FactoryError::InvalidMatchId));
    assert_eq!(e(&"m".repeat(65), 1, 20, 30), Some(FactoryError::MatchIdTooLong));
    assert_eq!(e("m", 0, 20, 30), Some(FactoryError::ZeroEntryFee));
    assert_eq!(e("m", 1, 10, 30), Some(FactoryError::InvalidKickoffTime));
    assert_eq!(e("m", 1, 20, 20), Some(FactoryError::InvalidEndTime));
    assert_eq!(f.market_count, 0);
    let mut full = initialize_factory(&InitializeFactory { authority: addr(9) }, 0).unwrap();
    full.market_count = u64::MAX;
    assert_eq!(
        create_market(&mut full, &ctx, String::from("m"), 1, 20, 30, true).err(),
        Some(FactoryError::MarketCountOverflow)
    );
    assert_eq!(full.market_count, u64::MAX);
}

#[test]
fn stats_streaks_and_totals() {
    let mut s = UserStats::new(Address { bytes: [0; 32] });
    let ctx = UpdateUserStats { user: addr(4), now: 77 };
    update_user_stats(&mut s, &ctx, MarketResult::Win, 100, 147).unwrap();
    assert!(s.user == addr(4));
    update_user_stats(&mut s, &ctx, MarketResult::Win, 100, 200).unwrap();
    assert_eq!((s.current_streak, s.best_streak), (2, 2));
    update_user_stats(&mut s, &ctx, MarketResult::Loss, 100, 999).unwrap();
    assert_eq!((s.current_streak, s.best_streak), (-1, 2));
    update_user_stats(&mut s, &ctx, MarketResult::Loss, 100, 0).unwrap();
    assert_eq!(s.current_streak, -2);
    update_user_stats(&mut s, &ctx, MarketResult::Win, 50, 10).unwrap();
    assert_eq!((s.current_streak, s.best_streak), (1, 2));
    assert_eq!(s.total_markets, 5);
    assert_eq!((s.wins, s.losses), (3, 2));
    assert_eq!(s.total_wagered, 450);
    assert_eq!(s.total_won, 357);
    assert_eq!(s.last_updated, 77);
    // A later update does not change whose record it is.
    let other = UpdateUserStats { user: addr(5), now: 78 };
    update_user_stats(&mut s, &other, MarketResult::Win, 0, 0).unwrap();
    assert!(s.user == addr(4));
    update_user_stats(&mut s, &other, MarketResult::Win, 0, 0).unwrap();
    assert_eq!((s.current_streak, s.best_streak), (3, 3));
}

#[test]
fn stats_overflow_changes_nothing() {
    let mut s = UserStats::new(addr(4));
    s.total_markets = 3;
    s.total_won = u64::MAX;
    s.current_streak = 2;
    let ctx = UpdateUserStats { user: addr(4), now: 5 };
    assert_eq!(
        update_user_stats(&mut s, &ctx, MarketResult::Win, 1, 1),
        Err(DashboardError::StatOverflow)
    );
    assert_eq!(s.total_markets, 3);
    assert_eq!(s.current_streak, 2);
    assert_eq!(s.total_wagered, 0);
    // A loss does not add to the amount won, so it is accepted.
    assert!(update_user_stats(&mut s, &ctx, MarketResult::Loss, 1, 1).is_ok());
    assert_eq!(s.current_streak, -1);
    s.current_streak = i32::MIN;
    assert_eq!(
        update_user_stats(&mut s, &ctx, MarketResult::Loss, 0, 0),
        Err(DashboardError::StatOverflow)
    );
}
