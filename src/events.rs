use vstd::prelude::*;

use crate::address::Address;
use crate::market::MatchOutcome;

verus! {

/// A user joined a market.
#[derive(Clone, Copy, Debug)]
pub struct PredictionMade {
    pub market: Address,
    pub user: Address,
    pub prediction: MatchOutcome,
    pub timestamp: i64,
}

/// A market was resolved.
#[derive(Clone, Copy, Debug)]
pub struct MarketResolved {
    pub market: Address,
    pub outcome: MatchOutcome,
    pub winner_count: u32,
    pub total_pool: u64,
}

/// The fees of a resolved market, to be moved out of its escrow.
#[derive(Clone, Copy, Debug)]
pub struct FeesDistributed {
    pub market: Address,
    pub creator: Address,
    pub creator_fee: u64,
    pub platform: Address,
    pub platform_fee: u64,
    pub total_fees: u64,
}

/// A winner's reward, to be moved out of the market's escrow.
#[derive(Clone, Copy, Debug)]
pub struct RewardClaimed {
    pub market: Address,
    pub user: Address,
    pub amount: u64,
}

} // verus!
