use vstd::prelude::*;

verus! {

/// One hundred percent, in basis points.
pub const BPS_DENOMINATOR: u64 = 10000;

/// `floor(pool * bps / 10000)`: the share of `pool` that `bps` basis points take.
pub open spec fn fee_of(pool: nat, bps: nat) -> nat {
    (pool * bps) / 10000
}

/// What is left of `pool` once both fees are taken out.
pub open spec fn prize_pool_of(pool: nat, creator_bps: nat, platform_bps: nat) -> int {
    pool - fee_of(pool, creator_bps) - fee_of(pool, platform_bps)
}

/// What each of `winners` correct predictors receives from `prize`.
pub open spec fn reward_of(prize: nat, winners: nat) -> nat {
    if winners == 0 {
        0
    } else {
        prize / winners
    }
}

/// The fees a market charges on its pool, fixed when the market is created.
#[derive(Clone, Copy, Debug, PartialEq, Eq, Structural)]
pub struct FeeSchedule {
    pub creator_fee_bps: u16,
    pub platform_fee_bps: u16,
}

impl FeeSchedule {
    /// Both fees together take at most the whole pool.
    pub open spec fn valid(&self) -> bool {
        self.creator_fee_bps + self.platform_fee_bps <= 10000
    }

    pub fn is_valid(&self) -> (r: bool)
        ensures
            r == self.valid(),
    {
        (self.creator_fee_bps as u32) + (self.platform_fee_bps as u32) <= 10000
    }
}

/// The fee amounts on one pool, and what remains for the winners.
#[derive(Clone, Copy, Debug, PartialEq, Eq, Structural)]
pub struct FeeBreakdown {
    pub creator_fee: u64,
    pub platform_fee: u64,
    pub total_fees: u64,
    pub prize_pool: u64,
}

proof fn lemma_fee_at_most_pool(pool: nat, bps: nat)
    requires
        bps <= 10000,
    ensures
        fee_of(pool, bps) <= pool,
{
    assert(pool * bps <= pool * 10000) by (nonlinear_arith)
        requires
            bps <= 10000,
    ;
    assert((pool * bps) / 10000 <= (pool * 10000) / 10000) by (nonlinear_arith)
        requires
            pool * bps <= pool * 10000,
    ;
    assert((pool * 10000) / 10000 == pool) by (nonlinear_arith);
}

/// Two fees of one pool add up to no more than a single fee at the summed rate.
proof fn lemma_fees_superadditive(pool: nat, c: nat, p: nat)
    ensures
        fee_of(pool, c) + fee_of(pool, p) <= fee_of(pool, c + p),
{
    let a = pool * c;
    let b = pool * p;
    assert(pool * (c + p) == a + b) by (nonlinear_arith)
        requires
            a == pool * c,
            b == pool * p,
    ;
    assert(a / 10000 + b / 10000 <= (a + b) / 10000) by (nonlinear_arith);
}

/// `floor(pool * bps / 10000)`, computed without overflow.
pub fn compute_fee(pool: u64, bps: u16) -> (r: u64)
    requires
        bps <= 10000,
    ensures
        r == fee_of(pool as nat, bps as nat),
        r <= pool,
{
    proof {
        lemma_fee_at_most_pool(pool as nat, bps as nat);
        assert((pool as nat) * (bps as nat) <= u64::MAX as nat * 10000) by (nonlinear_arith)
            requires
                bps <= 10000,
        ;
    }
    let product: u128 = (pool as u128) * (bps as u128);
    (product / 10000) as u64
}

/// The creator fee, the platform fee, their sum and the prize pool left of `pool`.
pub fn compute_fees(pool: u64, schedule: &FeeSchedule) -> (r: FeeBreakdown)
    requires
        schedule.valid(),
    ensures
        r.creator_fee == fee_of(pool as nat, schedule.creator_fee_bps as nat),
        r.platform_fee == fee_of(pool as nat, schedule.platform_fee_bps as nat),
        r.total_fees == r.creator_fee + r.platform_fee,
        r.prize_pool == pool - r.total_fees,
        r.prize_pool == prize_pool_of(
            pool as nat,
            schedule.creator_fee_bps as nat,
            schedule.platform_fee_bps as nat,
        ),
{
    let creator_fee = compute_fee(pool, schedule.creator_fee_bps);
    let platform_fee = compute_fee(pool, schedule.platform_fee_bps);
    proof {
        lemma_fees_superadditive(
            pool as nat,
            schedule.creator_fee_bps as nat,
            schedule.platform_fee_bps as nat,
        );
        lemma_fee_at_most_pool(
            pool as nat,
            (schedule.creator_fee_bps + schedule.platform_fee_bps) as nat,
        );
    }
    let total_fees = creator_fee + platform_fee;
    FeeBreakdown { creator_fee, platform_fee, total_fees, prize_pool: pool - total_fees }
}

/// `floor(prize_pool / winner_count)`: the reward of each winner.
pub fn reward_per_winner(prize_pool: u64, winner_count: u32) -> (r: u64)
    requires
        winner_count > 0,
    ensures
        r == reward_of(prize_pool as nat, winner_count as nat),
        r == prize_pool as nat / winner_count as nat,
{
    prize_pool / (winner_count as u64)
}

/// Paying every winner the same reward never hands out more than the prize
/// pool, and what stays unclaimed is less than one unit per winner.
pub proof fn lemma_reward_conservation(pool: nat, c: nat, p: nat, winners: nat)
    requires
        c + p <= 10000,
        winners > 0,
    ensures
        prize_pool_of(pool, c, p) >= 0,
        reward_of(prize_pool_of(pool, c, p) as nat, winners) * winners <= prize_pool_of(pool, c, p),
        prize_pool_of(pool, c, p) - reward_of(prize_pool_of(pool, c, p) as nat, winners) * winners
            < winners,
        fee_of(pool, c) + fee_of(pool, p) + reward_of(prize_pool_of(pool, c, p) as nat, winners)
            * winners <= pool,
{
    lemma_fees_superadditive(pool, c, p);
    lemma_fee_at_most_pool(pool, c + p);
    let prize = prize_pool_of(pool, c, p) as nat;
    let r = prize / winners;
    assert(r * winners <= prize && prize - r * winners < winners) by (nonlinear_arith)
        requires
            winners > 0,
            r == prize / winners,
    ;
}

/// Where both fee divisions are exact, the winners together receive at most
/// `floor(pool * (10000 - c - p) / 10000)`.
pub proof fn lemma_reward_within_net_share(pool: nat, c: nat, p: nat, winners: nat)
    requires
        c + p <= 10000,
        winners > 0,
        (pool * c) % 10000 == 0,
        (pool * p) % 10000 == 0,
    ensures
        reward_of(prize_pool_of(pool, c, p) as nat, winners) * winners <= (pool * (10000 - c - p)
            as nat) / 10000,
        prize_pool_of(pool, c, p) - reward_of(prize_pool_of(pool, c, p) as nat, winners) * winners
            < winners,
{
    lemma_reward_conservation(pool, c, p, winners);
    let net = (10000 - c - p) as nat;
    assert(pool * net == pool * 10000 - pool * c - pool * p) by (nonlinear_arith)
        requires
            net == 10000 - c - p,
    ;
    assert(prize_pool_of(pool, c, p) == (pool * net) / 10000) by (nonlinear_arith)
        requires
            (pool * c) % 10000 == 0,
            (pool * p) % 10000 == 0,
            pool * net == pool * 10000 - pool * c - pool * p,
            prize_pool_of(pool, c, p) == pool - (pool * c) / 10000 - (pool * p) / 10000,
    ;
}

} // verus!
