//! Economic model tests: pricing, demand, noise and averages.
//!
//! Money is in cents, elasticities in thousandths, fractions in basis
//! points.

use chip_tycoon::econ::{asp, cost_plus, demand, demand_with_noise, optimal_price, promo_price, EconError};

#[test]
fn test_cost_plus() {
    // 1.00 with a 0.50 margin is 1.50
    assert_eq!(cost_plus(100, 5000), 150);
}

#[test]
fn test_optimal_price_basic() {
    // 10.00 at elasticity -2 prices above cost
    let c = 1000;
    let p = optimal_price(c, -2000).unwrap();
    assert!(p > c);
    // Lerner: 10.00 * 2 = 20.00
    assert_eq!(p, 2000);
}

#[test]
fn test_optimal_price_invalid_elasticity() {
    let c = 1000;
    assert!(optimal_price(c, -500).is_err());
    assert!(optimal_price(c, -1000).is_err());
    assert_eq!(optimal_price(c, -500), Err(EconError::InvalidElasticity(-500)));
}

#[test]
fn demand_identity_at_ref_price() {
    let q = demand(1000, 100, 100, -2000).unwrap();
    assert_eq!(q, 1000);
}

#[test]
fn demand_monotonic_decrease_with_price() {
    let base = 1000;
    let p0 = 100;
    let q1 = demand(base, 80, p0, -2000).unwrap();
    let q2 = demand(base, 120, p0, -2000).unwrap();
    assert!(q1 > base);
    assert!(q2 < base);
    assert!(q1 > q2);
    // exact floors of 1000 * (0.8)^-2 and 1000 * (1.2)^-2
    assert_eq!(q1, 1562);
    assert_eq!(q2, 694);
}

#[test]
fn demand_monotonic_at_fractional_elasticity() {
    // elasticity -1.2, a chain of rising prices never raises demand
    let base = 1_000_000;
    let mut last = u64::MAX;
    for price in [5000i64, 7500, 10000, 12500, 15000] {
        let q = demand(base, price, 10000, -1200).unwrap();
        assert!(q <= last);
        last = q;
    }
    assert_eq!(demand(base, 10000, 10000, -1200).unwrap(), base);
}

#[test]
fn demand_rejects_bad_inputs() {
    assert_eq!(demand(10, 100, 100, 0), Err(EconError::InvalidElasticity(0)));
    assert_eq!(demand(10, 100, 100, 1200), Err(EconError::InvalidElasticity(1200)));
    assert_eq!(demand(10, 0, 100, -1200), Err(EconError::InvalidPrice));
    assert_eq!(demand(10, 100, -5, -1200), Err(EconError::InvalidPrice));
}

#[test]
fn noise_is_seeded_and_bounded() {
    let base = 1000;
    let p = 100;
    let q1 = demand_with_noise(base, p, p, -2000, 1000, 42).unwrap();
    let q2 = demand_with_noise(base, p, p, -2000, 1000, 42).unwrap();
    assert_eq!(q1, q2);
    let q3 = demand_with_noise(base, p, p, -2000, 0, 1).unwrap();
    assert_eq!(q3, base);
    // the factor stays within ten percent of the whole
    assert!(q1 >= 900 && q1 <= 1100);
    // a noise fraction of one whole or more is rejected
    assert_eq!(demand_with_noise(base, p, p, -2000, 10000, 7), Err(EconError::NonFinite));
    // the draw really comes from the generator: a generator that handed
    // the seed straight back would put the factor at its very bottom here
    let q0 = demand_with_noise(base, p, p, -2000, 1000, 0).unwrap();
    assert_ne!(q0, 900);
}

#[test]
fn asp_simple_average() {
    let prices = vec![100i64, 200];
    let qty = vec![1u64, 1];
    assert_eq!(asp(&prices, &qty).unwrap(), 150);
}

#[test]
fn asp_rejects_degenerate_inputs() {
    assert_eq!(asp(&vec![], &vec![]), None);
    assert_eq!(asp(&vec![100], &vec![1, 2]), None);
    assert_eq!(asp(&vec![-1], &vec![1]), None);
    assert_eq!(asp(&vec![100, 200], &vec![0, 0]), None);
    // quantity-weighted, floored to the cent
    assert_eq!(asp(&vec![100, 200], &vec![3, 1]), Some(125));
}

#[test]
fn promo_price_discounts_exactly() {
    assert_eq!(promo_price(1000, 1000), Ok(900));
    assert_eq!(promo_price(-1, 1000), Err(EconError::InvalidPrice));
    assert_eq!(promo_price(1000, 10000), Err(EconError::NonFinite));
    assert_eq!(promo_price(1000, -1), Err(EconError::NonFinite));
}

#[test]
fn optimal_price_overflow_is_reported() {
    // a cost near the top of the range at elasticity just below -1
    // overflows the currency range and is reported, not wrapped
    let r = optimal_price(i64::MAX, -1001);
    assert_eq!(r, Err(EconError::NonFinite));
}
