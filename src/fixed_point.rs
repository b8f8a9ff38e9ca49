//! Integer square root and the fixed-point scale used by the curve.
use vstd::prelude::*;

verus! {

/// Raw token and collateral quantities are divided by this factor before
/// any curve arithmetic and multiplied back afterwards.
pub const PRECISION_SCALE: u128 = 1_000;

/// `r` is the floor of the square root of `x`.
pub open spec fn is_floor_sqrt(x: int, r: int) -> bool {
    0 <= r && r * r <= x && x < (r + 1) * (r + 1)
}

/// The floor of the square root of `x`.
pub open spec fn isqrt(x: nat) -> nat {
    choose|r: nat| is_floor_sqrt(x as int, r as int)
}

/// A raw quantity divided (with floor) by the precision scale.
pub open spec fn scale_down(v: u64) -> nat {
    (v as nat) / (PRECISION_SCALE as nat)
}

pub proof fn lemma_square_le(a: int, b: int)
    requires
        0 <= a <= b,
    ensures
        a * a <= b * b,
{
    assert(a * a <= b * b) by (nonlinear_arith)
        requires
            0 <= a <= b,
    ;
}

proof fn lemma_floor_sqrt_exists(x: nat)
    ensures
        exists|r: nat| is_floor_sqrt(x as int, r as int),
    decreases x,
{
    if x == 0 {
        assert(is_floor_sqrt(0, 0));
    } else {
        lemma_floor_sqrt_exists((x - 1) as nat);
        let prev = x - 1;
        let r = choose|r: nat| is_floor_sqrt(prev, r as int);
        if (r + 1) * (r + 1) <= x {
            assert((r + 1) * (r + 1) < (r + 2) * (r + 2)) by (nonlinear_arith);
            assert(is_floor_sqrt(x as int, r + 1 as int));
        } else {
            assert(is_floor_sqrt(x as int, r as int));
        }
    }
}

/// The floor square root is unique.
pub proof fn lemma_floor_sqrt_unique(x: int, r: int, s: int)
    requires
        is_floor_sqrt(x, r),
        is_floor_sqrt(x, s),
    ensures
        r == s,
{
    if r < s {
        lemma_square_le(r + 1, s);
    } else if s < r {
        lemma_square_le(s + 1, r);
    }
}

/// `isqrt(x)` is the floor of the square root of `x`.
pub proof fn lemma_isqrt(x: nat)
    ensures
        is_floor_sqrt(x as int, isqrt(x) as int),
{
    lemma_floor_sqrt_exists(x);
}

/// Any floor square root of `x` is `isqrt(x)`.
pub proof fn lemma_isqrt_is(x: nat, r: nat)
    requires
        is_floor_sqrt(x as int, r as int),
    ensures
        isqrt(x) == r,
{
    lemma_isqrt(x);
    lemma_floor_sqrt_unique(x as int, r as int, isqrt(x) as int);
}

/// A number whose square does not exceed `x` is at most `isqrt(x)`.
pub proof fn lemma_isqrt_at_least(x: nat, k: nat)
    requires
        k * k <= x,
    ensures
        k <= isqrt(x),
{
    lemma_isqrt(x);
    if isqrt(x) < k {
        lemma_square_le(isqrt(x) + 1 as int, k as int);
    }
}

/// A number whose successor squared exceeds `x` is at least `isqrt(x)`.
pub proof fn lemma_isqrt_at_most(x: nat, k: nat)
    requires
        x < (k + 1) * (k + 1),
    ensures
        isqrt(x) <= k,
{
    lemma_isqrt(x);
    if isqrt(x) > k {
        lemma_square_le(k + 1 as int, isqrt(x) as int);
    }
}

/// One Newton step from any positive guess never falls below the floor
/// square root.
proof fn lemma_newton_step_stays_above(x: int, y: int, s: int)
    requires
        y > 0,
        x >= 0,
        is_floor_sqrt(x, s),
    ensures
        (x / y + y) / 2 >= s,
{
    let q = x / y;
    assert(x < (q + 1) * y) by (nonlinear_arith)
        requires
            y > 0,
            x >= 0,
            q == x / y,
    ;
    if q + y < 2 * s {
        assert((q + 1) * y <= s * s) by (nonlinear_arith)
            requires
                y > 0,
                q >= 0,
                q + 1 <= 2 * s - y,
        ;
    }
}

/// A guess above the floor square root is strictly improved by a Newton step.
proof fn lemma_newton_step_decreases(x: int, y: int, s: int)
    requires
        y > s,
        x >= 0,
        is_floor_sqrt(x, s),
    ensures
        (x / y + y) / 2 < y,
{
    lemma_square_le(s + 1, y);
    assert(x / y < y) by (nonlinear_arith)
        requires
            y > 0,
            x >= 0,
            x < y * y,
    ;
}

/// `floor((x / z + z) / 2)`, with the halves taken apart so that the sum
/// cannot overflow.
fn newton_step(x: u128, z: u128) -> (r: u128)
    requires
        z > 0,
    ensures
        r == (x / z + z) / 2,
{
    let q = x / z;
    q / 2 + z / 2 + (q % 2 + z % 2) / 2
}

/// Integer square root by Newton's method: `floor(√x)`.
///
/// Starts from `(x + 1) / 2` and iterates `z = (x / z + z) / 2` while the
/// guess keeps decreasing.
pub fn sqrt(x: u128) -> (r: u128)
    ensures
        r == isqrt(x as nat),
        is_floor_sqrt(x as int, r as int),
{
    proof {
        lemma_isqrt(x as nat);
    }
    if x == 0 {
        proof {
            lemma_isqrt_is(0, 0);
        }
        return 0;
    }
    let ghost s = isqrt(x as nat) as int;
    proof {
        assert(x as int / x as int == 1) by (nonlinear_arith)
            requires
                x > 0,
        ;
        lemma_newton_step_stays_above(x as int, x as int, s);
        lemma_isqrt_at_least(x as nat, 1);
        if s > x {
            lemma_square_le(x as int, s);
            assert(x * x > x) by (nonlinear_arith)
                requires
                    x > 1,
            ;
        }
    }
    let mut z: u128 = x / 2 + x % 2;
    let mut y: u128 = x;
    while z < y
        invariant
            0 < y <= x,
            1 <= s <= y,
            s <= z,
            z == (x / y + y) / 2,
            is_floor_sqrt(x as int, s),
        decreases y,
    {
        y = z;
        proof {
            lemma_newton_step_stays_above(x as int, y as int, s);
        }
        z = newton_step(x, y);
    }
    proof {
        if y > s {
            lemma_newton_step_decreases(x as int, y as int, s);
        }
    }
    y
}

} // verus!
