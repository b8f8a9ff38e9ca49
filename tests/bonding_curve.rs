use prediction_market::bonding_curve::{AmmError, PythagoreanCurve};
use prediction_market::fixed_point::sqrt;

#[test]
fn test_sqrt() {
    assert_eq!(sqrt(0), 0);
    assert_eq!(sqrt(1), 1);
    assert_eq!(sqrt(4), 2);
    assert_eq!(sqrt(9), 3);
    assert_eq!(sqrt(10), 3);
    assert_eq!(sqrt(100), 10);
    assert_eq!(sqrt(1000000), 1000);
}

#[test]
fn test_invariant_holds() {
    let r_squared = 707u128 * 707 + 707 * 707;
    let r = sqrt(r_squared);
    assert!(r >= 999 && r <= 1001);
}

#[test]
fn test_balanced_market_prices() {
    let reserves = 1_000_000u64;
    let yes_supply = 707_000u64;
    let no_supply = 707_000u64;

    let yes_price = PythagoreanCurve::get_price(reserves, yes_supply, no_supply).unwrap();
    let no_price = PythagoreanCurve::get_price(reserves, no_supply, yes_supply).unwrap();

    assert_eq!(yes_price, no_price);
    assert!(yes_price >= 7000 && yes_price <= 7200);
}

#[test]
fn test_buy_increases_supply() {
    let reserves = 1_000_000u64;
    let yes_supply = 707_000u64;
    let no_supply = 707_000u64;
    let collateral_in = 100_000u64;

    let tokens_out =
        PythagoreanCurve::get_tokens_to_mint(reserves, yes_supply, no_supply, collateral_in)
            .unwrap();

    assert!(tokens_out > 0);
}

#[test]
fn test_sell_returns_collateral() {
    let reserves = 1_000_000u64;
    let yes_supply = 800_000u64;
    let no_supply = 600_000u64;
    let tokens_to_burn = 50_000u64;

    let collateral_out =
        PythagoreanCurve::get_reserve_to_release(reserves, yes_supply, no_supply, tokens_to_burn)
            .unwrap();

    assert!(collateral_out > 0);
    assert!(collateral_out < tokens_to_burn);
}

#[test]
fn sqrt_brackets_its_argument() {
    let samples: [u128; 9] = [2, 3, 15, 16, 17, 999_698, 1_000_001, u64::MAX as u128, u128::MAX];
    for x in samples {
        let r = sqrt(x);
        assert!(r.checked_mul(r).unwrap() <= x);
        match (r + 1).checked_mul(r + 1) {
            Some(next) => assert!(x < next),
            None => {}
        }
    }
    assert_eq!(sqrt(u128::MAX), u64::MAX as u128);
    assert_eq!(sqrt(999_698), 999);
}

#[test]
fn mint_exact_amount() {
    assert_eq!(
        PythagoreanCurve::get_tokens_to_mint(1_000_000, 707_000, 707_000, 100_000),
        Ok(135_000)
    );
}

#[test]
fn release_exact_amount() {
    assert_eq!(
        PythagoreanCurve::get_reserve_to_release(1_000_000, 800_000, 600_000, 50_000),
        Ok(40_000)
    );
}

#[test]
fn mint_errors() {
    assert_eq!(
        PythagoreanCurve::get_tokens_to_mint(0, 707_000, 707_000, 100_000),
        Err(AmmError::InvalidReserves)
    );
    assert_eq!(
        PythagoreanCurve::get_tokens_to_mint(1_000_000, 707_000, 707_000, 0),
        Err(AmmError::InvalidReserves)
    );
    assert_eq!(
        PythagoreanCurve::get_tokens_to_mint(1_000_000, 707_000, 707_000, 999),
        Err(AmmError::NoTokensToMint)
    );
    assert_eq!(
        PythagoreanCurve::get_tokens_to_mint(1_000, 0, 5_000_000, 1_000),
        Err(AmmError::InvalidSupplies)
    );
    assert_eq!(
        PythagoreanCurve::get_tokens_to_mint(u64::MAX, 0, 0, u64::MAX),
        Err(AmmError::Overflow)
    );
}

#[test]
fn release_errors_and_clamp() {
    assert_eq!(
        PythagoreanCurve::get_reserve_to_release(1_000_000, 800_000, 600_000, 0),
        Err(AmmError::InvalidReserves)
    );
    assert_eq!(
        PythagoreanCurve::get_reserve_to_release(1_000_000, 800_000, 600_000, 800_001),
        Err(AmmError::InsufficientTokens)
    );
    // Reserves below the curve: nothing is released rather than underflowing.
    assert_eq!(
        PythagoreanCurve::get_reserve_to_release(500_000, 800_000, 600_000, 1_000),
        Ok(0)
    );
}

#[test]
fn price_edges() {
    assert_eq!(PythagoreanCurve::get_price(0, 123_000, 0), Ok(5000));
    assert_eq!(PythagoreanCurve::get_price(999, 123_000, 0), Ok(5000));
    assert_eq!(PythagoreanCurve::get_price(1_000_000, 0, 1_000_000), Ok(0));
    assert_eq!(PythagoreanCurve::get_price(1_000_000, 1_000_000, 0), Ok(10000));
    assert_eq!(PythagoreanCurve::get_price(1_000, u64::MAX, 0), Err(AmmError::Overflow));
    assert_eq!(
        PythagoreanCurve::get_prices(1_100_000, 842_000, 707_000),
        Ok((7654, 6427))
    );
    assert_eq!(
        PythagoreanCurve::get_prices(1_000, u64::MAX, 0),
        Err(AmmError::Overflow)
    );
}

#[test]
fn prices_stay_in_range_when_supply_within_reserves() {
    let reserves = 3_000_000u64;
    let mut supply = 0u64;
    while supply <= reserves {
        let p = PythagoreanCurve::get_price(reserves, supply, 0).unwrap();
        assert!(p <= 10000);
        supply += 250_000;
    }
}

#[test]
fn balanced_price_near_inverse_root_two() {
    // On the curve: reserves = isqrt(2 · supply²) in scaled units.
    let supply_scaled = 70_711u128;
    let reserves_scaled = sqrt(2 * supply_scaled * supply_scaled);
    let reserves = (reserves_scaled * 1000) as u64;
    let supply = (supply_scaled * 1000) as u64;
    let (yes, no) = PythagoreanCurve::get_prices(reserves, supply, supply).unwrap();
    assert_eq!(yes, no);
    assert!(yes >= 7070 && yes <= 7080);
}
