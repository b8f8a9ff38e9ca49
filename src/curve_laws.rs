//! Properties of the bonding curve: how far trades let the reserves drift
//! from the curve, what a round trip returns, and the range of prices.
use vstd::prelude::*;

use crate::bonding_curve::{
    AmmError, BPS_DENOMINATOR, NEUTRAL_PRICE_BPS, mint_outcome, price_bps, price_outcome,
    prices_outcome, release_outcome,
};
use crate::fixed_point::{
    PRECISION_SCALE, isqrt, lemma_isqrt, lemma_isqrt_at_least, lemma_isqrt_at_most,
    lemma_square_le, scale_down,
};

verus! {

/// Greatest distance, in scaled units, that rounding puts between the
/// reserves and the curve through the supplies.
pub const CURVE_TOLERANCE: u64 = 2;

/// The scaled reserves that the curve asks for: `√(A² + B²)` on scaled
/// supplies.
pub open spec fn curve_reserves(yes_supply: u64, no_supply: u64) -> nat {
    let a = scale_down(yes_supply);
    let b = scale_down(no_supply);
    isqrt(a * a + b * b)
}

/// The scaled reserves lie within [`CURVE_TOLERANCE`] of the curve.
pub open spec fn near_curve(reserves: u64, yes_supply: u64, no_supply: u64) -> bool {
    let r = scale_down(reserves);
    let root = curve_reserves(yes_supply, no_supply);
    root <= r + CURVE_TOLERANCE && r <= root + CURVE_TOLERANCE
}

/// The curve does not depend on which side is named first.
pub proof fn lemma_curve_symmetric(x: u64, y: u64)
    ensures
        curve_reserves(x, y) == curve_reserves(y, x),
{
    let a = scale_down(x);
    let b = scale_down(y);
    assert(a * a + b * b == b * b + a * a);
}

/// `isqrt` is monotonic.
pub proof fn lemma_isqrt_monotonic(x: nat, y: nat)
    requires
        x <= y,
    ensures
        isqrt(x) <= isqrt(y),
{
    lemma_isqrt(x);
    lemma_isqrt_at_least(y, isqrt(x));
}

proof fn lemma_square_step(x: int)
    ensures
        (x + 1) * (x + 1) == x * x + 2 * x + 1,
{
    assert((x + 1) * (x + 1) == x * x + 2 * x + 1) by (nonlinear_arith);
}

/// A buy resets the drift: whatever the state before, the reserves after
/// it lie on the curve or at most two scaled units above it.
pub proof fn lemma_mint_stays_near_curve(
    reserves: u64,
    target_supply: u64,
    other_supply: u64,
    collateral_in: u64,
    tokens: u64,
)
    requires
        mint_outcome(reserves, target_supply, other_supply, collateral_in) == Ok::<u64, AmmError>(
            tokens,
        ),
        reserves + collateral_in <= u64::MAX,
        target_supply + tokens <= u64::MAX,
    ensures
        near_curve(
            (reserves + collateral_in) as u64,
            (target_supply + tokens) as u64,
            other_supply,
        ),
        curve_reserves((target_supply + tokens) as u64, other_supply) <= scale_down(
            (reserves + collateral_in) as u64,
        ),
{
    let r = scale_down(reserves);
    let l = scale_down(collateral_in);
    let a = scale_down(target_supply);
    let b = scale_down(other_supply);
    let nr = r + l;
    let x = (nr * nr - b * b) as nat;
    let na = isqrt(x);
    lemma_isqrt(x);
    let new_r = scale_down((reserves + collateral_in) as u64);
    let new_a = scale_down((target_supply + tokens) as u64);
    assert(nr <= new_r <= nr + 1);
    assert(new_a == na);
    let y = na * na + b * b;
    lemma_square_step(nr as int);
    lemma_isqrt_at_most(y as nat, nr);
    lemma_square_step(na as int);
    lemma_isqrt_at_most(x, nr);
    if na < nr {
        lemma_square_step(nr - 1);
        lemma_isqrt_at_least(y as nat, (nr - 1) as nat);
    } else {
        assert(b * b <= 0);
        lemma_isqrt_at_least(y as nat, nr);
    }
}

/// A sell from a state near the curve leaves it near the curve.
pub proof fn lemma_burn_stays_near_curve(
    reserves: u64,
    target_supply: u64,
    other_supply: u64,
    tokens_to_burn: u64,
    collateral: u64,
)
    requires
        near_curve(reserves, target_supply, other_supply),
        release_outcome(reserves, target_supply, other_supply, tokens_to_burn) == Ok::<
            u64,
            AmmError,
        >(collateral),
    ensures
        collateral <= reserves,
        near_curve(
            (reserves - collateral) as u64,
            (target_supply - tokens_to_burn) as u64,
            other_supply,
        ),
{
    let r = scale_down(reserves);
    let a = scale_down(target_supply);
    let b = scale_down(other_supply);
    let bs = scale_down(tokens_to_burn);
    assert(bs <= a);
    let na = (a - bs) as nat;
    let x = na * na + b * b;
    let nr = isqrt(x as nat);
    lemma_isqrt(x as nat);
    let new_r = scale_down((reserves - collateral) as u64);
    let new_a = scale_down((target_supply - tokens_to_burn) as u64);
    assert(new_r == if r > nr {
        nr
    } else {
        r
    });
    assert(new_a == na || new_a + 1 == na);
    let y = new_a * new_a + b * b;
    lemma_square_le(new_a as int, na as int);
    lemma_isqrt_monotonic(y as nat, x as nat);
    lemma_square_le(na as int, a as int);
    lemma_isqrt_monotonic(x as nat, (a * a + b * b) as nat);
    lemma_isqrt_at_least(x as nat, na);
    if nr >= 1 {
        if new_a + 1 == na {
            lemma_square_step(new_a as int);
            lemma_square_step(nr - 1);
            lemma_isqrt_at_least(y as nat, (nr - 1) as nat);
        }
    }
}

/// Buying with `collateral_in` and at once selling back the tokens bought
/// returns no more than `collateral_in`, when the reserves were not above
/// the curve and the two amounts' remainders below the scale do not carry;
/// when the reserves were on the curve, less than one scale unit is lost.
pub proof fn lemma_mint_then_burn(
    reserves: u64,
    target_supply: u64,
    other_supply: u64,
    collateral_in: u64,
    tokens: u64,
)
    requires
        mint_outcome(reserves, target_supply, other_supply, collateral_in) == Ok::<u64, AmmError>(
            tokens,
        ),
        reserves + collateral_in <= u64::MAX,
        target_supply + tokens <= u64::MAX,
        (reserves as nat) % (PRECISION_SCALE as nat) + (collateral_in as nat) % (
        PRECISION_SCALE as nat) < PRECISION_SCALE,
        scale_down(reserves) * scale_down(reserves) <= scale_down(target_supply) * scale_down(
            target_supply,
        ) + scale_down(other_supply) * scale_down(other_supply),
    ensures
        release_outcome(
            (reserves + collateral_in) as u64,
            (target_supply + tokens) as u64,
            other_supply,
            tokens,
        ) is Ok,
        release_outcome(
            (reserves + collateral_in) as u64,
            (target_supply + tokens) as u64,
            other_supply,
            tokens,
        )->Ok_0 <= collateral_in,
        scale_down(reserves) == curve_reserves(target_supply, other_supply) ==> collateral_in
            < release_outcome(
            (reserves + collateral_in) as u64,
            (target_supply + tokens) as u64,
            other_supply,
            tokens,
        )->Ok_0 + PRECISION_SCALE,
{
    let r = scale_down(reserves);
    let l = scale_down(collateral_in);
    let a = scale_down(target_supply);
    let b = scale_down(other_supply);
    let nr = r + l;
    let x = (nr * nr - b * b) as nat;
    let na = isqrt(x);
    assert(scale_down((reserves + collateral_in) as u64) == nr);
    assert(scale_down((target_supply + tokens) as u64) == na);
    assert(scale_down(tokens) == na - a);
    assert(na - (na - a) == a);
    lemma_isqrt_at_least((a * a + b * b) as nat, r);
}

/// Prices lie between zero and certainty while a side's supply does not
/// exceed the reserves; empty reserves give the neutral price.
pub proof fn lemma_price_bounds(reserves: u64, target_supply: u64)
    requires
        target_supply <= reserves,
    ensures
        0 <= price_bps(reserves, target_supply) <= BPS_DENOMINATOR,
        reserves == 0 ==> price_bps(reserves, target_supply) == NEUTRAL_PRICE_BPS,
{
    let r = scale_down(reserves);
    let a = scale_down(target_supply);
    if r > 0 {
        assert(a * 10000 / r <= 10000) by (nonlinear_arith)
            requires
                a <= r,
                r > 0,
        ;
    }
}

/// In a balanced market both sides have the same price; on the curve, with
/// at least a thousand scaled units of reserves, that price lies within
/// ten basis points of `1/√2`.
pub proof fn lemma_balanced_prices(reserves: u64, supply: u64)
    ensures
        prices_outcome(reserves, supply, supply) == (match price_outcome(reserves, supply) {
            Ok(p) => Ok((p, p)),
            Err(e) => Err(e),
        }),
        scale_down(reserves) == curve_reserves(supply, supply) && scale_down(reserves) >= 1000
            ==> 7070 <= price_bps(reserves, supply) <= 7080,
{
    let r = scale_down(reserves) as int;
    let a = scale_down(supply) as int;
    if r == curve_reserves(supply, supply) && r >= 1000 {
        lemma_isqrt((a * a + a * a) as nat);
        let p = a * 10000 / r;
        assert(p * r <= a * 10000 < (p + 1) * r) by (nonlinear_arith)
            requires
                r > 0,
                a >= 0,
                p == a * 10000 / r,
        ;
        assert(7070 * r <= 10000 * a) by (nonlinear_arith)
            requires
                r * r <= a * a + a * a,
                r >= 1000,
                a >= 0,
        ;
        assert(7070 <= p) by (nonlinear_arith)
            requires
                7070 * r <= 10000 * a,
                a * 10000 < (p + 1) * r,
                r > 0,
        ;
        if p >= 7081 {
            assert(7081 * r <= 10000 * a) by (nonlinear_arith)
                requires
                    p * r <= a * 10000,
                    p >= 7081,
                    r > 0,
            ;
            assert(false) by (nonlinear_arith)
                requires
                    7081 * r <= 10000 * a,
                    a * a + a * a < (r + 1) * (r + 1),
                    r >= 1000,
                    a >= 0,
            ;
        }
    }
}

/// A market seeded with `liquidity` of reserves and `isqrt(L² / 2)` tokens
/// on each side starts near the curve.
pub proof fn lemma_seed_near_curve(liquidity: u64, seed: u64)
    requires
        seed as nat == isqrt(((liquidity as nat) * (liquidity as nat) / 2) as nat),
    ensures
        near_curve(liquidity, seed, seed),
        curve_reserves(seed, seed) <= scale_down(liquidity),
{
    let l = liquidity as int;
    let h = l * l / 2;
    let s = seed as int;
    let r = scale_down(liquidity) as int;
    let a = scale_down(seed) as int;
    lemma_isqrt(h as nat);
    assert(1000 * r <= l < 1000 * (r + 1));
    assert(1000 * a <= s < 1000 * (a + 1));
    assert(2 * h <= l * l <= 2 * h + 1) by (nonlinear_arith)
        requires
            h == l * l / 2,
            l >= 0,
    ;
    // Above: 2a² < (r + 1)².
    assert(2 * a * a < (r + 1) * (r + 1)) by (nonlinear_arith)
        requires
            0 <= 1000 * a <= s,
            s * s <= h,
            2 * h <= l * l,
            0 <= l < 1000 * (r + 1),
    ;
    assert(2 * a * a == a * a + a * a) by (nonlinear_arith);
    lemma_isqrt_at_most((a * a + a * a) as nat, r as nat);
    // Below: (r − 2)² ≤ 2a².
    if r >= 2 {
        assert(r * r <= 2 * (a + 1) * (a + 1)) by (nonlinear_arith)
            requires
                s + 1 <= 1000 * (a + 1),
                h < (s + 1) * (s + 1),
                l * l <= 2 * h + 1,
                0 <= 1000 * r <= l,
                s >= 0,
        ;
        assert((r - 2) * (r - 2) <= 2 * a * a) by (nonlinear_arith)
            requires
                r * r <= 2 * (a + 1) * (a + 1),
                r >= 2,
                a >= 0,
        ;
        lemma_isqrt_at_least((a * a + a * a) as nat, (r - 2) as nat);
    }
}

} // verus!
