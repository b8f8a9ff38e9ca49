//! The protocol configuration and the per-market ledger.
use vstd::prelude::*;

verus! {

/// Highest protocol fee that configuration accepts, in basis points.
pub const MAX_FEE_BPS: u64 = 3000;

/// Liquidity a market must be funded with at least, unless configured
/// otherwise.
pub const DEFAULT_MIN_LIQUIDITY: u64 = 1_000_000;

/// Longest question a market may ask, in bytes.
pub const MAX_QUESTION_LEN: usize = 256;

/// Protocol-wide settings shared by all markets.
#[derive(Clone, Copy, Debug, PartialEq, Eq, Structural)]
pub struct Config {
    /// Protocol fee in basis points.
    pub protocol_fee_bps: u64,
    /// Number of markets created so far; the next market's id.
    pub market_count: u64,
    /// Minimum initial liquidity of a market.
    pub min_liquidity: u64,
    /// Global circuit breaker: no trading or creation while set.
    pub paused: bool,
}

impl Config {
    /// The fee is one that configuration accepts.
    pub open spec fn wf(self) -> bool {
        self.protocol_fee_bps <= MAX_FEE_BPS
    }
}

/// Market lifecycle status.
#[derive(Clone, Copy, Debug, PartialEq, Eq, Structural)]
pub enum MarketStatus {
    /// Open for trading.
    Active,
    /// Trading time is over, awaiting resolution.
    Ended,
    /// The outcome is known; only redemption is left.
    Resolved,
    /// Voided.
    Cancelled,
}

/// The outcome of a market's question.
#[derive(Clone, Copy, Debug, PartialEq, Eq, Structural)]
pub enum Outcome {
    /// Not yet determined.
    Undetermined,
    /// YES occurred.
    Yes,
    /// NO occurred.
    No,
}

/// One prediction market's ledger.
#[derive(Debug)]
pub struct Market {
    /// Unique market identifier.
    pub id: u64,
    /// The prediction question.
    pub question: String,
    /// Time at which trading ends.
    pub end_time: u64,
    /// Time at which the market was created.
    pub created_at: u64,
    /// Collateral held by the pool.
    pub reserves: u64,
    /// YES tokens outstanding.
    pub yes_supply: u64,
    /// NO tokens outstanding.
    pub no_supply: u64,
    /// Lifecycle status.
    pub status: MarketStatus,
    /// Winning side, once resolved.
    pub outcome: Outcome,
}

/// Trading is open at `now` for a market ending at `end_time`.
pub open spec fn before_end(now: i64, end_time: u64) -> bool {
    (now as int) < (end_time as int)
}

/// Whether `now` lies before `end_time`, comparing the two as integers.
pub fn is_before_end(now: i64, end_time: u64) -> (r: bool)
    ensures
        r == before_end(now, end_time),
{
    now < 0 || (now as u64) < end_time
}

impl Market {
    /// The supply of the chosen side and of the other side.
    pub open spec fn sides(self, yes: bool) -> (u64, u64) {
        if yes {
            (self.yes_supply, self.no_supply)
        } else {
            (self.no_supply, self.yes_supply)
        }
    }

    /// The ledger with new reserves and a new supply for one side.
    pub open spec fn with_side(self, yes: bool, reserves: u64, supply: u64) -> Market {
        if yes {
            Market { reserves, yes_supply: supply, ..self }
        } else {
            Market { reserves, no_supply: supply, ..self }
        }
    }

    /// The supply of the chosen side and of the other side.
    pub fn supplies(&self, yes: bool) -> (r: (u64, u64))
        ensures
            r == self.sides(yes),
    {
        if yes {
            (self.yes_supply, self.no_supply)
        } else {
            (self.no_supply, self.yes_supply)
        }
    }

    /// Sets the reserves and the supply of one side.
    pub fn set_side(&mut self, yes: bool, reserves: u64, supply: u64)
        ensures
            *final(self) == old(self).with_side(yes, reserves, supply),
    {
        self.reserves = reserves;
        if yes {
            self.yes_supply = supply;
        } else {
            self.no_supply = supply;
        }
    }
}

} // verus!
