use vstd::prelude::*;

use crate::address::Address;

verus! {

/// How a settled market ended for one user.
#[derive(Clone, Copy, Debug, PartialEq, Eq, Structural)]
pub enum MarketResult {
    Win,
    Loss,
}

/// Why a statistics update was refused. A refused update changes nothing.
#[derive(Clone, Copy, Debug, PartialEq, Eq, Structural)]
pub enum DashboardError {
    StatOverflow,
}

/// One user's running record over settled markets.
#[derive(Clone, Copy, Debug)]
pub struct UserStats {
    pub user: Address,
    pub total_markets: u32,
    pub wins: u32,
    pub losses: u32,
    pub total_wagered: u64,
    pub total_won: u64,
    /// The length of the current run: positive for wins, negative for losses.
    pub current_streak: i32,
    /// The longest run of wins seen.
    pub best_streak: u32,
    pub last_updated: i64,
}

/// Whose record is updated, and the current time.
#[derive(Clone, Copy, Debug)]
pub struct UpdateUserStats {
    pub user: Address,
    pub now: i64,
}

/// The run after one more result: a win extends a winning run or starts one
/// at 1, a loss extends a losing run or starts one at -1.
pub open spec fn next_streak(current: int, result: MarketResult) -> int {
    match result {
        MarketResult::Win => if current >= 0 {
            current + 1
        } else {
            1
        },
        MarketResult::Loss => if current <= 0 {
            current - 1
        } else {
            -1
        },
    }
}

/// Whether folding this result into `s` would overflow one of its fields.
pub open spec fn stats_overflow(s: UserStats, result: MarketResult, amount_wagered: u64, amount_won: u64) -> bool {
    ||| s.total_markets + 1 > u32::MAX
    ||| s.total_wagered + amount_wagered > u64::MAX
    ||| (result == MarketResult::Win && s.wins + 1 > u32::MAX)
    ||| (result == MarketResult::Win && s.total_won + amount_won > u64::MAX)
    ||| (result == MarketResult::Loss && s.losses + 1 > u32::MAX)
    ||| next_streak(s.current_streak as int, result) > i32::MAX
    ||| next_streak(s.current_streak as int, result) < i32::MIN
}

/// `s` with one more settled market folded in.
pub open spec fn stats_after(
    s: UserStats,
    ctx: UpdateUserStats,
    result: MarketResult,
    amount_wagered: u64,
    amount_won: u64,
) -> UserStats {
    let streak = next_streak(s.current_streak as int, result);
    UserStats {
        user: if s.total_markets == 0 {
            ctx.user
        } else {
            s.user
        },
        total_markets: (s.total_markets + 1) as u32,
        wins: if result == MarketResult::Win {
            (s.wins + 1) as u32
        } else {
            s.wins
        },
        losses: if result == MarketResult::Loss {
            (s.losses + 1) as u32
        } else {
            s.losses
        },
        total_wagered: (s.total_wagered + amount_wagered) as u64,
        total_won: if result == MarketResult::Win {
            (s.total_won + amount_won) as u64
        } else {
            s.total_won
        },
        current_streak: streak as i32,
        best_streak: if streak > s.best_streak {
            streak as u32
        } else {
            s.best_streak
        },
        last_updated: ctx.now,
    }
}

impl UserStats {
    /// The empty record of `user`.
    pub fn new(user: Address) -> (r: UserStats)
        ensures
            r == (UserStats {
                user,
                total_markets: 0,
                wins: 0,
                losses: 0,
                total_wagered: 0,
                total_won: 0,
                current_streak: 0,
                best_streak: 0,
                last_updated: 0,
            }),
    {
        UserStats {
            user,
            total_markets: 0,
            wins: 0,
            losses: 0,
            total_wagered: 0,
            total_won: 0,
            current_streak: 0,
            best_streak: 0,
            last_updated: 0,
        }
    }
}

/// Folds one settled market into a user's record: counts, amounts, the
/// current run and the best winning run. An empty record takes `ctx.user`.
pub fn update_user_stats(
    stats: &mut UserStats,
    ctx: &UpdateUserStats,
    market_result: MarketResult,
    amount_wagered: u64,
    amount_won: u64,
) -> (r: Result<(), DashboardError>)
    ensures
        match r {
            Ok(()) => {
                &&& !stats_overflow(*old(stats), market_result, amount_wagered, amount_won)
                &&& *final(stats) == stats_after(
                    *old(stats),
                    *ctx,
                    market_result,
                    amount_wagered,
                    amount_won,
                )
            },
            Err(e) => {
                &&& stats_overflow(*old(stats), market_result, amount_wagered, amount_won)
                &&& e == DashboardError::StatOverflow
                &&& *final(stats) == *old(stats)
            },
        },
{
    let total_markets = match stats.total_markets.checked_add(1) {
        Some(v) => v,
        None => return Err(DashboardError::StatOverflow),
    };
    let total_wagered = match stats.total_wagered.checked_add(amount_wagered) {
        Some(v) => v,
        None => return Err(DashboardError::StatOverflow),
    };
    let mut wins = stats.wins;
    let mut losses = stats.losses;
    let mut total_won = stats.total_won;
    let current_streak: i32;
    match market_result {
        MarketResult::Win => {
            wins = match wins.checked_add(1) {
                Some(v) => v,
                None => return Err(DashboardError::StatOverflow),
            };
            total_won = match total_won.checked_add(amount_won) {
                Some(v) => v,
                None => return Err(DashboardError::StatOverflow),
            };
            if stats.current_streak >= 0 {
                current_streak = match stats.current_streak.checked_add(1) {
                    Some(v) => v,
                    None => return Err(DashboardError::StatOverflow),
                };
            } else {
                current_streak = 1;
            }
        },
        MarketResult::Loss => {
            losses = match losses.checked_add(1) {
                Some(v) => v,
                None => return Err(DashboardError::StatOverflow),
            };
            if stats.current_streak <= 0 {
                current_streak = match stats.current_streak.checked_sub(1) {
                    Some(v) => v,
                    None => return Err(DashboardError::StatOverflow),
                };
            } else {
                current_streak = -1;
            }
        },
    }
    let best_streak = if (current_streak as i64) > (stats.best_streak as i64) {
        current_streak as u32
    } else {
        stats.best_streak
    };
    if stats.total_markets == 0 {
        stats.user = ctx.user;
    }
    stats.total_markets = total_markets;
    stats.wins = wins;
    stats.losses = losses;
    stats.total_wagered = total_wagered;
    stats.total_won = total_won;
    stats.current_streak = current_streak;
    stats.best_streak = best_streak;
    stats.last_updated = ctx.now;
    Ok(())
}

} // verus!
