//! The Pythagorean bonding curve `R = √(YES² + NO²)`.
//!
//! All three operations scale their inputs down by [`PRECISION_SCALE`]
//! (floor division), work on the scaled values and scale the result back up.
use vstd::prelude::*;

use crate::fixed_point::{
    PRECISION_SCALE, isqrt, lemma_isqrt_at_most, lemma_square_le, scale_down, sqrt,
};

verus! {

/// Errors of the bonding curve.
#[derive(Clone, Copy, Debug, PartialEq, Eq, Structural)]
pub enum AmmError {
    /// Reserves, deposit or burn amount is zero.
    InvalidReserves,
    /// The deposit leaves the reserves below the other side's supply.
    InvalidSupplies,
    /// A result does not fit its integer type.
    Overflow,
    /// A denominator is zero.
    DivisionByZero,
    /// The output is below the caller's minimum.
    SlippageExceeded,
    /// More tokens burned than the supply holds.
    InsufficientTokens,
    /// The deposit is too small to mint a single scaled unit.
    NoTokensToMint,
}

/// Price returned for a market whose scaled reserves are zero.
pub const NEUTRAL_PRICE_BPS: u64 = 5000;

/// One hundred percent in basis points.
pub const BPS_DENOMINATOR: u64 = 10000;

/// The scaled target supply after depositing `collateral_in`:
/// `√(newR² − B²)` with `newR = R + L`.
pub open spec fn minted_target(reserves: u64, other_supply: u64, collateral_in: u64) -> nat {
    let new_r = scale_down(reserves) + scale_down(collateral_in);
    let b = scale_down(other_supply);
    isqrt((new_r * new_r - b * b) as nat)
}

/// What [`PythagoreanCurve::get_tokens_to_mint`] returns.
pub open spec fn mint_outcome(
    reserves: u64,
    target_supply: u64,
    other_supply: u64,
    collateral_in: u64,
) -> Result<u64, AmmError> {
    let new_r = scale_down(reserves) + scale_down(collateral_in);
    let b = scale_down(other_supply);
    let a = scale_down(target_supply);
    let new_a = minted_target(reserves, other_supply, collateral_in);
    if reserves == 0 || collateral_in == 0 {
        Err(AmmError::InvalidReserves)
    } else if new_r * new_r < b * b {
        Err(AmmError::InvalidSupplies)
    } else if new_a <= a {
        Err(AmmError::NoTokensToMint)
    } else if (new_a - a) * PRECISION_SCALE > u64::MAX {
        Err(AmmError::Overflow)
    } else {
        Ok(((new_a - a) * PRECISION_SCALE) as u64)
    }
}

/// The scaled reserves that remain on the curve after burning:
/// `√((A − burn)² + B²)`.
pub open spec fn released_reserves(target_supply: u64, other_supply: u64, tokens_to_burn: u64) -> nat {
    let new_a = scale_down(target_supply) - scale_down(tokens_to_burn);
    let b = scale_down(other_supply);
    isqrt((new_a * new_a + b * b) as nat)
}

/// What [`PythagoreanCurve::get_reserve_to_release`] returns.
pub open spec fn release_outcome(
    reserves: u64,
    target_supply: u64,
    other_supply: u64,
    tokens_to_burn: u64,
) -> Result<u64, AmmError> {
    let r = scale_down(reserves);
    let new_r = released_reserves(target_supply, other_supply, tokens_to_burn);
    if tokens_to_burn == 0 {
        Err(AmmError::InvalidReserves)
    } else if tokens_to_burn > target_supply {
        Err(AmmError::InsufficientTokens)
    } else if r > new_r {
        Ok(((r - new_r) * PRECISION_SCALE) as u64)
    } else {
        Ok(0)
    }
}

/// The price of one side in basis points: `A · 10000 / R` on scaled values,
/// or the neutral price when the scaled reserves are zero.
pub open spec fn price_bps(reserves: u64, target_supply: u64) -> nat {
    if scale_down(reserves) == 0 {
        NEUTRAL_PRICE_BPS as nat
    } else {
        scale_down(target_supply) * (BPS_DENOMINATOR as nat) / scale_down(reserves)
    }
}

/// What [`PythagoreanCurve::get_price`] returns.
pub open spec fn price_outcome(reserves: u64, target_supply: u64) -> Result<u64, AmmError> {
    if price_bps(reserves, target_supply) > u64::MAX {
        Err(AmmError::Overflow)
    } else {
        Ok(price_bps(reserves, target_supply) as u64)
    }
}

/// What [`PythagoreanCurve::get_prices`] returns.
pub open spec fn prices_outcome(reserves: u64, yes_supply: u64, no_supply: u64) -> Result<
    (u64, u64),
    AmmError,
> {
    match (price_outcome(reserves, yes_supply), price_outcome(reserves, no_supply)) {
        (Ok(yes), Ok(no)) => Ok((yes, no)),
        (Err(e), _) => Err(e),
        (_, Err(e)) => Err(e),
    }
}

/// The largest value a scaled `u64` quantity can take.
proof fn lemma_scaled_bound(v: u64)
    ensures
        scale_down(v) <= 18_446_744_073_709_551,
        scale_down(v) * PRECISION_SCALE <= v,
{
}

/// Pythagorean bonding curve for prediction markets.
pub struct PythagoreanCurve;

impl PythagoreanCurve {
    /// Tokens minted for a deposit of `collateral_in`:
    /// `newA = √((R + L)² − B²)`, `tokens = newA − A`, on scaled values.
    pub fn get_tokens_to_mint(
        reserves: u64,
        target_supply: u64,
        other_supply: u64,
        collateral_in: u64,
    ) -> (res: Result<u64, AmmError>)
        ensures
            res == mint_outcome(reserves, target_supply, other_supply, collateral_in),
    {
        if reserves == 0 || collateral_in == 0 {
            return Err(AmmError::InvalidReserves);
        }
        let r = (reserves as u128) / PRECISION_SCALE;
        let a = (target_supply as u128) / PRECISION_SCALE;
        let b = (other_supply as u128) / PRECISION_SCALE;
        let l = (collateral_in as u128) / PRECISION_SCALE;
        proof {
            lemma_scaled_bound(reserves);
            lemma_scaled_bound(other_supply);
            lemma_scaled_bound(collateral_in);
        }
        let new_r = r + l;
        proof {
            lemma_square_le(new_r as int, 36_893_488_147_419_102);
            lemma_square_le(b as int, 36_893_488_147_419_102);
        }
        let new_r_squared = new_r * new_r;
        let b_squared = b * b;
        if new_r_squared < b_squared {
            return Err(AmmError::InvalidSupplies);
        }
        let new_a = sqrt(new_r_squared - b_squared);
        if new_a <= a {
            return Err(AmmError::NoTokensToMint);
        }
        proof {
            assert(new_r * new_r < (new_r + 1) * (new_r + 1)) by (nonlinear_arith);
            lemma_isqrt_at_most((new_r_squared - b_squared) as nat, new_r as nat);
        }
        let scaled = (new_a - a) * PRECISION_SCALE;
        if scaled > u64::MAX as u128 {
            return Err(AmmError::Overflow);
        }
        Ok(scaled as u64)
    }

    /// Collateral released for burning `tokens_to_burn`:
    /// `newR = √((A − burn)² + B²)`, `collateral = R − newR` (never below
    /// zero), on scaled values.
    pub fn get_reserve_to_release(
        reserves: u64,
        target_supply: u64,
        other_supply: u64,
        tokens_to_burn: u64,
    ) -> (res: Result<u64, AmmError>)
        ensures
            res == release_outcome(reserves, target_supply, other_supply, tokens_to_burn),
            res matches Ok(c) ==> c <= reserves,
    {
        if tokens_to_burn == 0 {
            return Err(AmmError::InvalidReserves);
        }
        if tokens_to_burn > target_supply {
            return Err(AmmError::InsufficientTokens);
        }
        let r = (reserves as u128) / PRECISION_SCALE;
        let a = (target_supply as u128) / PRECISION_SCALE;
        let b = (other_supply as u128) / PRECISION_SCALE;
        let burn = (tokens_to_burn as u128) / PRECISION_SCALE;
        proof {
            lemma_scaled_bound(reserves);
            lemma_scaled_bound(target_supply);
            lemma_scaled_bound(other_supply);
        }
        let new_a = a - burn;
        proof {
            lemma_square_le(new_a as int, 18_446_744_073_709_551);
            lemma_square_le(b as int, 18_446_744_073_709_551);
        }
        let new_r = sqrt(new_a * new_a + b * b);
        let collateral_out = if r > new_r {
            r - new_r
        } else {
            0
        };
        Ok((collateral_out * PRECISION_SCALE) as u64)
    }

    /// Price of one side in basis points (`10000` is certainty).
    ///
    /// The other side's supply does not enter: on the curve each side's
    /// price is its own supply over the reserves.
    pub fn get_price(reserves: u64, target_supply: u64, _other_supply: u64) -> (res: Result<
        u64,
        AmmError,
    >)
        ensures
            res == price_outcome(reserves, target_supply),
    {
        if reserves == 0 {
            return Ok(NEUTRAL_PRICE_BPS);
        }
        let r = (reserves as u128) / PRECISION_SCALE;
        let a = (target_supply as u128) / PRECISION_SCALE;
        if r == 0 {
            return Ok(NEUTRAL_PRICE_BPS);
        }
        proof {
            lemma_scaled_bound(target_supply);
            assert(BPS_DENOMINATOR as u128 == 10000);
        }
        let price = a * (BPS_DENOMINATOR as u128) / r;
        if price > u64::MAX as u128 {
            return Err(AmmError::Overflow);
        }
        Ok(price as u64)
    }

    /// Prices of both sides, `(yes, no)`, in basis points.
    pub fn get_prices(reserves: u64, yes_supply: u64, no_supply: u64) -> (res: Result<
        (u64, u64),
        AmmError,
    >)
        ensures
            res == prices_outcome(reserves, yes_supply, no_supply),
    {
        let yes_price = match Self::get_price(reserves, yes_supply, no_supply) {
            Ok(p) => p,
            Err(e) => return Err(e),
        };
        let no_price = match Self::get_price(reserves, no_supply, yes_supply) {
            Ok(p) => p,
            Err(e) => return Err(e),
        };
        Ok((yes_price, no_price))
    }
}

} // verus!
