use vstd::prelude::*;

use crate::address::Address;
use crate::market::{utf8_len, MAX_MATCH_ID_LEN};

verus! {

/// The highest platform fee a registry accepts, in basis points (10%).
pub const MAX_PLATFORM_FEE_BPS: u16 = 1000;

/// The registry that hands out markets and holds the platform fee.
#[derive(Clone, Copy, Debug)]
pub struct Factory {
    pub authority: Address,
    /// How many markets were created; never decreases.
    pub market_count: u64,
    pub platform_fee_bps: u16,
}

/// The registry's entry for one market.
#[derive(Debug)]
pub struct MarketRegistry {
    pub factory: Address,
    pub market_address: Address,
    pub creator: Address,
    pub match_id: String,
    pub created_at: i64,
    pub is_public: bool,
    pub entry_fee: u64,
    pub kickoff_time: i64,
    pub end_time: i64,
}

/// The public summary of a registry entry.
#[derive(Debug)]
pub struct MarketInfo {
    pub market_address: Address,
    pub creator: Address,
    pub match_id: String,
    pub created_at: i64,
    pub is_public: bool,
    pub entry_fee: u64,
}

/// A market was registered.
#[derive(Debug)]
pub struct MarketCreated {
    pub market: Address,
    pub creator: Address,
    pub match_id: String,
    pub entry_fee: u64,
    pub kickoff_time: i64,
    pub is_public: bool,
}

/// Who sets up the registry.
#[derive(Clone, Copy, Debug)]
pub struct InitializeFactory {
    pub authority: Address,
}

/// The keys a new registry entry ties together, and the current time.
#[derive(Clone, Copy, Debug)]
pub struct CreateMarket {
    pub factory: Address,
    pub market_account: Address,
    pub creator: Address,
    pub now: i64,
}

/// Why the registry refused a request. A refused request changes nothing.
#[derive(Clone, Copy, Debug, PartialEq, Eq, Structural)]
pub enum FactoryError {
    InvalidPlatformFee,
    InvalidMatchId,
    MatchIdTooLong,
    ZeroEntryFee,
    InvalidKickoffTime,
    InvalidEndTime,
    MarketCountOverflow,
}

/// Sets up a registry with no markets, refusing a platform fee above 10%.
pub fn initialize_factory(ctx: &InitializeFactory, platform_fee_bps: u16) -> (r: Result<
    Factory,
    FactoryError,
>)
    ensures
        match r {
            Ok(f) => platform_fee_bps <= MAX_PLATFORM_FEE_BPS && f == (Factory {
                authority: ctx.authority,
                market_count: 0,
                platform_fee_bps,
            }),
            Err(e) => platform_fee_bps > MAX_PLATFORM_FEE_BPS && e
                == FactoryError::InvalidPlatformFee,
        },
{
    if platform_fee_bps > MAX_PLATFORM_FEE_BPS {
        return Err(FactoryError::InvalidPlatformFee);
    }
    Ok(Factory { authority: ctx.authority, market_count: 0, platform_fee_bps })
}

/// The first rule a registration breaks, if any.
pub open spec fn create_market_error(
    f: Factory,
    ctx: CreateMarket,
    match_id: Seq<char>,
    entry_fee: u64,
    kickoff_time: i64,
    end_time: i64,
) -> Option<FactoryError> {
    if match_id.len() == 0 {
        Some(FactoryError::InvalidMatchId)
    } else if utf8_len(match_id) > MAX_MATCH_ID_LEN {
        Some(FactoryError::MatchIdTooLong)
    } else if entry_fee == 0 {
        Some(FactoryError::ZeroEntryFee)
    } else if kickoff_time <= ctx.now {
        Some(FactoryError::InvalidKickoffTime)
    } else if end_time <= kickoff_time {
        Some(FactoryError::InvalidEndTime)
    } else if f.market_count + 1 > u64::MAX {
        Some(FactoryError::MarketCountOverflow)
    } else {
        None
    }
}

/// Registers a market and counts it.
pub fn create_market(
    factory: &mut Factory,
    ctx: &CreateMarket,
    match_id: String,
    entry_fee: u64,
    kickoff_time: i64,
    end_time: i64,
    is_public: bool,
) -> (r: Result<(MarketRegistry, MarketCreated), FactoryError>)
    ensures
        match r {
            Ok((entry, ev)) => {
                &&& create_market_error(
                    *old(factory),
                    *ctx,
                    match_id@,
                    entry_fee,
                    kickoff_time,
                    end_time,
                ).is_none()
                &&& *final(factory) == (Factory {
                    market_count: (old(factory).market_count + 1) as u64,
                    ..*old(factory)
                })
                &&& entry.factory == ctx.factory
                &&& entry.market_address == ctx.market_account
                &&& entry.creator == ctx.creator
                &&& entry.match_id@ == match_id@
                &&& entry.created_at == ctx.now
                &&& entry.is_public == is_public
                &&& entry.entry_fee == entry_fee
                &&& entry.kickoff_time == kickoff_time
                &&& entry.end_time == end_time
                &&& ev.market == ctx.market_account
                &&& ev.creator == ctx.creator
                &&& ev.match_id@ == match_id@
                &&& ev.entry_fee == entry_fee
                &&& ev.kickoff_time == kickoff_time
                &&& ev.is_public == is_public
            },
            Err(e) => {
                &&& create_market_error(
                    *old(factory),
                    *ctx,
                    match_id@,
                    entry_fee,
                    kickoff_time,
                    end_time,
                ) == Some(e)
                &&& *final(factory) == *old(factory)
            },
        },
{
    if match_id.as_str().is_empty() {
        return Err(FactoryError::InvalidMatchId);
    }
    if match_id.as_str().as_bytes().len() > MAX_MATCH_ID_LEN {
        return Err(FactoryError::MatchIdTooLong);
    }
    if entry_fee == 0 {
        return Err(FactoryError::ZeroEntryFee);
    }
    if kickoff_time <= ctx.now {
        return Err(FactoryError::InvalidKickoffTime);
    }
    if end_time <= kickoff_time {
        return Err(FactoryError::InvalidEndTime);
    }
    let market_count = match factory.market_count.checked_add(1) {
        Some(v) => v,
        None => return Err(FactoryError::MarketCountOverflow),
    };
    factory.market_count = market_count;
    let entry = MarketRegistry {
        factory: ctx.factory,
        market_address: ctx.market_account,
        creator: ctx.creator,
        match_id: match_id.clone(),
        created_at: ctx.now,
        is_public,
        entry_fee,
        kickoff_time,
        end_time,
    };
    let ev = MarketCreated {
        market: ctx.market_account,
        creator: ctx.creator,
        match_id,
        entry_fee,
        kickoff_time,
        is_public,
    };
    Ok((entry, ev))
}

impl MarketRegistry {
    /// The public summary of this entry.
    pub fn info(&self) -> (r: MarketInfo)
        ensures
            r.market_address == self.market_address,
            r.creator == self.creator,
            r.match_id@ == self.match_id@,
            r.created_at == self.created_at,
            r.is_public == self.is_public,
            r.entry_fee == self.entry_fee,
    {
        MarketInfo {
            market_address: self.market_address,
            creator: self.creator,
            match_id: self.match_id.clone(),
            created_at: self.created_at,
            is_public: self.is_public,
            entry_fee: self.entry_fee,
        }
    }
}

} // verus!
