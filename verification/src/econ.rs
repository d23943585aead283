//! Economic model: pricing and demand.
//!
//! Money is carried as integer cents.  Dimensionless quantities use two
//! fixed-point scales: price elasticities are in thousandths (an elasticity
//! of -1.2 is -1200) and fractions such as discounts or margins are in
//! basis points (5% is 500).
//!
//! Demand follows a constant-elasticity curve
//! `Q = base * (price / ref_price) ^ elasticity`, evaluated exactly: the
//! returned quantity is the floor of the real-valued curve, saturated at
//! `u64::MAX`.

use crate::numeric::{
    is_pow_ratio_floor, lemma_pow_ratio_floor_antitone_p, lemma_pow_ratio_floor_identity,
    lemma_pow_ratio_floor_unique,
};
use rand::{RngCore, SeedableRng};
use vstd::prelude::*;

verus! {

/// Errors produced by the economic helpers.
#[derive(Clone, Copy, Debug, PartialEq, Eq, Structural)]
pub enum EconError {
    /// Elasticity out of range; for demand it must be negative, for
    /// monopoly pricing strictly below -1.  Carries the offending value in
    /// thousandths.
    InvalidElasticity(i64),
    /// Prices must be positive and costs non-negative.
    InvalidPrice,
    /// A result would exceed the representable currency range, or a noise
    /// fraction is outside `[0, 1)`.
    NonFinite,
}

/// `q` is the exact demand `floor(base * (price / ref) ^ (-m / 1000))`
/// (saturated at `u64::MAX`) for an elasticity of `-m` thousandths.
pub open spec fn spec_is_demand(q: u64, base: u64, price: u64, ref_price: u64, m: nat) -> bool {
    is_pow_ratio_floor(q, base, ref_price, price, m, 1000)
}

/// Cost-plus price: `unit_cost * (1 + margin)`, floored to a cent.
pub fn cost_plus(unit_cost_cents: i64, margin_bp: i64) -> (r: i64)
    requires
        0 <= unit_cost_cents,
        0 <= margin_bp,
        unit_cost_cents * (10000 + margin_bp) <= 10000 * i64::MAX,
    ensures
        r == unit_cost_cents * (10000 + margin_bp) / 10000,
{
    let num: u128 = (unit_cost_cents as u128) * (10000u128 + margin_bp as u128);
    proof {
        assert(num / 10000 <= i64::MAX) by {
            vstd::arithmetic::div_mod::lemma_multiply_divide_le(
                num as int,
                10000,
                i64::MAX as int,
            );
        };
    }
    (num / 10000) as i64
}

/// Optimal monopoly price under constant-elasticity demand, from the Lerner
/// index: `P = C / (1 + 1/e) = C * m / (m - 1000)` for an elasticity of
/// `-m` thousandths.  Valid only for elasticities strictly below -1.
pub fn optimal_price(unit_cost_cents: i64, elasticity_milli: i64) -> (result: Result<
    i64,
    EconError,
>)
    ensures
        (elasticity_milli >= -1000) <==> result == Err::<i64, EconError>(
            EconError::InvalidElasticity(elasticity_milli),
        ),
        (elasticity_milli < -1000 && unit_cost_cents < 0) <==> result == Err::<i64, EconError>(
            EconError::InvalidPrice,
        ),
        elasticity_milli < -1000 && unit_cost_cents >= 0 ==> {
            let p = unit_cost_cents * (-elasticity_milli) / ((-elasticity_milli) - 1000);
            if p <= i64::MAX {
                result == Ok::<i64, EconError>(p as i64)
            } else {
                result == Err::<i64, EconError>(EconError::NonFinite)
            }
        },
{
    if elasticity_milli >= -1000 {
        return Err(EconError::InvalidElasticity(elasticity_milli));
    }
    if unit_cost_cents < 0 {
        return Err(EconError::InvalidPrice);
    }
    let m: u128 = (-(elasticity_milli as i128)) as u128;
    proof {
        assert((unit_cost_cents as int) * (m as int) < 0x80000000000000000000000000000000)
            by (nonlinear_arith)
            requires
                0 <= unit_cost_cents < 0x8000000000000000,
                0 <= m <= 0x8000000000000000,
        ;
    }
    let p: u128 = (unit_cost_cents as u128) * m / (m - 1000);
    if p > i64::MAX as u128 {
        return Err(EconError::NonFinite);
    }
    Ok(p as i64)
}

/// Demand under constant elasticity with respect to a reference price:
/// the exact floor of `base * (price / ref_price) ^ elasticity`, saturated
/// at `u64::MAX`.  Requires a negative elasticity and positive prices.
pub fn demand(base: u64, price_cents: i64, ref_price_cents: i64, elasticity_milli: i64) -> (result:
    Result<u64, EconError>)
    ensures
        (elasticity_milli >= 0) <==> result == Err::<u64, EconError>(
            EconError::InvalidElasticity(elasticity_milli),
        ),
        (elasticity_milli < 0 && (price_cents <= 0 || ref_price_cents <= 0)) <==> result == Err::<
            u64,
            EconError,
        >(EconError::InvalidPrice),
        elasticity_milli < 0 && price_cents > 0 && ref_price_cents > 0 ==> (result matches Ok(q)
            && spec_is_demand(
            q,
            base,
            price_cents as u64,
            ref_price_cents as u64,
            (-elasticity_milli) as nat,
        )),
{
    if elasticity_milli >= 0 {
        return Err(EconError::InvalidElasticity(elasticity_milli));
    }
    if price_cents <= 0 || ref_price_cents <= 0 {
        return Err(EconError::InvalidPrice);
    }
    let m: u64 = (-(elasticity_milli as i128)) as u64;
    let p: u64 = price_cents as u64;
    let r: u64 = ref_price_cents as u64;
    let q = crate::numeric::pow_ratio_floor_milli(base, r, p, m);
    proof {
        assert(spec_is_demand(q, base, p, r, m as nat));
    }
    Ok(q)
}

/// The demand curve is non-increasing in the price.
///
/// For a fixed base, reference price and negative elasticity, a higher
/// price never yields more demand.
pub proof fn lemma_demand_monotone(
    q1: u64,
    q2: u64,
    base: u64,
    p1: u64,
    p2: u64,
    ref_price: u64,
    m: nat,
)
    requires
        p1 <= p2,
        spec_is_demand(q1, base, p1, ref_price, m),
        spec_is_demand(q2, base, p2, ref_price, m),
    ensures
        q2 <= q1,
{
    lemma_pow_ratio_floor_antitone_p(q1, q2, base, ref_price, p1, p2, m, 1000);
}

/// At the reference price the demand equals the base demand.
pub proof fn lemma_demand_identity(q: u64, base: u64, ref_price: u64, m: nat)
    requires
        ref_price >= 1,
        spec_is_demand(q, base, ref_price, ref_price, m),
    ensures
        q == base,
{
    lemma_pow_ratio_floor_identity(q, base, ref_price, m, 1000);
}

/// The demand value is uniquely determined by its inputs.
pub proof fn lemma_demand_unique(q1: u64, q2: u64, base: u64, price: u64, ref_price: u64, m: nat)
    requires
        spec_is_demand(q1, base, price, ref_price, m),
        spec_is_demand(q2, base, price, ref_price, m),
    ensures
        q1 == q2,
{
    lemma_pow_ratio_floor_unique(q1, q2, base, ref_price, price, m, 1000);
}

/// The first word of the ChaCha8 stream for a given 64-bit seed.
pub uninterp spec fn chacha8_word_of(seed: u64) -> u64;

/// Relies on `rand_chacha::ChaCha8Rng::seed_from_u64` and
/// `rand_core::RngCore::next_u64`: ChaCha8 is a deterministic, portable
/// generator, and `seed_from_u64` expands the seed with a fixed PCG32
/// scheme, so the first word of the stream is a function of the seed alone.
#[verifier::external_body]
fn chacha8_word(seed: u64) -> (r: u64)
    ensures
        r == chacha8_word_of(seed),
{
    let mut rng = rand_chacha::ChaCha8Rng::seed_from_u64(seed);
    rng.next_u64()
}

/// The multiplier (in basis points) drawn for a seed and a noise fraction:
/// uniform over `[10000 - noise_bp, 10000 + noise_bp]`.
pub open spec fn spec_noise_factor_bp(seed: u64, noise_bp: u32) -> int {
    10000 - noise_bp + chacha8_word_of(seed) as int % (2 * noise_bp as int + 1)
}

/// Demand with a seeded multiplicative noise factor drawn uniformly from
/// `[1 - noise, 1 + noise]` (`noise_bp` in basis points, below one whole).
/// The same seed always yields the same factor.
pub fn demand_with_noise(
    base: u64,
    price_cents: i64,
    ref_price_cents: i64,
    elasticity_milli: i64,
    noise_bp: u32,
    seed: u64,
) -> (result: Result<u64, EconError>)
    ensures
        (noise_bp >= 10000) <==> result == Err::<u64, EconError>(EconError::NonFinite),
        (noise_bp < 10000 && elasticity_milli >= 0) <==> result == Err::<u64, EconError>(
            EconError::InvalidElasticity(elasticity_milli),
        ),
        (noise_bp < 10000 && elasticity_milli < 0 && (price_cents <= 0 || ref_price_cents <= 0))
            <==> result == Err::<u64, EconError>(EconError::InvalidPrice),
        noise_bp < 10000 && elasticity_milli < 0 && price_cents > 0 && ref_price_cents > 0
            ==> forall|q: u64|
            #[trigger] spec_is_demand(
                q,
                base,
                price_cents as u64,
                ref_price_cents as u64,
                (-elasticity_milli) as nat,
            ) ==> result == Ok::<u64, EconError>(
                if noise_bp == 0 {
                    q
                } else {
                    let noisy = q * spec_noise_factor_bp(seed, noise_bp) / 10000;
                    if noisy <= u64::MAX {
                        noisy as u64
                    } else {
                        u64::MAX
                    }
                },
            ),
{
    if noise_bp >= 10000 {
        return Err(EconError::NonFinite);
    }
    let q = match demand(base, price_cents, ref_price_cents, elasticity_milli) {
        Ok(q) => q,
        Err(e) => {
            return Err(e);
        },
    };
    if noise_bp == 0 {
        proof {
            assert forall|q2: u64|
                #[trigger] spec_is_demand(
                    q2,
                    base,
                    price_cents as u64,
                    ref_price_cents as u64,
                    (-elasticity_milli) as nat,
                ) implies q2 == q by {
                lemma_demand_unique(
                    q2,
                    q,
                    base,
                    price_cents as u64,
                    ref_price_cents as u64,
                    (-elasticity_milli) as nat,
                );
            }
        }
        return Ok(q);
    }
    let w = chacha8_word(seed);
    let factor_bp: u64 = 10000 - noise_bp as u64 + w % (2 * noise_bp as u64 + 1);
    proof {
        assert((q as int) * (factor_bp as int) <= u64::MAX * 0x8000000000000000)
            by (nonlinear_arith)
            requires
                0 <= q <= u64::MAX,
                0 <= factor_bp < 20000,
        ;
    }
    let noisy: u128 = (q as u128) * (factor_bp as u128) / 10000;
    proof {
        assert forall|q2: u64|
            #[trigger] spec_is_demand(
                q2,
                base,
                price_cents as u64,
                ref_price_cents as u64,
                (-elasticity_milli) as nat,
            ) implies q2 == q by {
            lemma_demand_unique(
                q2,
                q,
                base,
                price_cents as u64,
                ref_price_cents as u64,
                (-elasticity_milli) as nat,
            );
        }
    }
    if noisy > u64::MAX as u128 {
        Ok(u64::MAX)
    } else {
        Ok(noisy as u64)
    }
}

/// Promotional price: `price * (1 - discount)`, floored to a cent; the
/// discount is in basis points and must lie in `[0, 1)`.
pub fn promo_price(price_cents: i64, discount_bp: i64) -> (result: Result<i64, EconError>)
    ensures
        (price_cents < 0) <==> result == Err::<i64, EconError>(EconError::InvalidPrice),
        (price_cents >= 0 && !(0 <= discount_bp < 10000)) <==> result == Err::<i64, EconError>(
            EconError::NonFinite,
        ),
        price_cents >= 0 && 0 <= discount_bp < 10000 ==> result == Ok::<i64, EconError>(
            (price_cents * (10000 - discount_bp) / 10000) as i64,
        ),
{
    if price_cents < 0 {
        return Err(EconError::InvalidPrice);
    }
    if !(0 <= discount_bp && discount_bp < 10000) {
        return Err(EconError::NonFinite);
    }
    proof {
        assert((price_cents as int) * (10000 - discount_bp) < 0x80000000000000000000000000000000)
            by (nonlinear_arith)
            requires
                0 <= price_cents < 0x8000000000000000,
                0 < 10000 - discount_bp <= 10000,
        ;
    }
    let num: i128 = (price_cents as i128) * ((10000 - discount_bp) as i128);
    let r: i128 = num / 10000;
    proof {
        assert(0 <= r <= price_cents) by (nonlinear_arith)
            requires
                r == (price_cents as int) * (10000 - discount_bp) / 10000,
                0 <= price_cents,
                0 < 10000 - discount_bp <= 10000,
        ;
    }
    Ok(r as i64)
}

/// Sum of `prices[i] * quantities[i]` over the first `n` pairs.
pub open spec fn spec_weighted_total(prices: Seq<i64>, qtys: Seq<u64>, n: int) -> int
    decreases n,
{
    if n <= 0 {
        0
    } else {
        spec_weighted_total(prices, qtys, n - 1) + prices[n - 1] * qtys[n - 1]
    }
}

/// Sum of `quantities[i]` over the first `n` entries.
pub open spec fn spec_qty_total(qtys: Seq<u64>, n: int) -> int
    decreases n,
{
    if n <= 0 {
        0
    } else {
        spec_qty_total(qtys, n - 1) + qtys[n - 1]
    }
}

pub open spec fn spec_all_prices_nonneg(prices: Seq<i64>) -> bool {
    forall|i: int| 0 <= i < prices.len() ==> prices[i] >= 0
}

/// Quantity-weighted average selling price, floored to a cent.  `None` when
/// the slices are empty or of different lengths, when a price is negative,
/// or when the total quantity is zero.
pub fn asp(prices: &Vec<i64>, quantities: &Vec<u64>) -> (result: Option<i64>)
    requires
        forall|n: int| #![auto] 0 <= n <= prices@.len() ==> spec_weighted_total(
            prices@,
            quantities@,
            n,
        ) <= u128::MAX,
        spec_qty_total(quantities@, quantities@.len() as int) <= u128::MAX,
    ensures
        result is Some <==> (prices@.len() == quantities@.len() && prices@.len() > 0
            && spec_all_prices_nonneg(prices@) && spec_qty_total(
            quantities@,
            quantities@.len() as int,
        ) > 0),
        result is Some ==> result == Some(
            (spec_weighted_total(prices@, quantities@, prices@.len() as int) / spec_qty_total(
                quantities@,
                quantities@.len() as int,
            )) as i64,
        ),
{
    if prices.len() != quantities.len() || prices.len() == 0 {
        return None;
    }
    let mut num: u128 = 0;
    let mut den: u128 = 0;
    let mut i: usize = 0;
    while i < prices.len()
        invariant
            i <= prices.len(),
            prices@.len() == quantities@.len(),
            num == spec_weighted_total(prices@, quantities@, i as int),
            den == spec_qty_total(quantities@, i as int),
            forall|n: int| #![auto] 0 <= n <= prices@.len() ==> spec_weighted_total(
                prices@,
                quantities@,
                n,
            ) <= u128::MAX,
            spec_qty_total(quantities@, quantities@.len() as int) <= u128::MAX,
            forall|j: int| 0 <= j < i ==> prices@[j] >= 0,
        decreases prices.len() - i,
    {
        let p = prices[i];
        if p < 0 {
            return None;
        }
        let quantity = quantities[i];
        proof {
            lemma_qty_prefix_bound(quantities@, i as int + 1, quantities@.len() as int);
            lemma_qty_nonneg(quantities@, i as int);
            lemma_weighted_nonneg(prices@, quantities@, i as int);
            assert((p as int) * (quantity as int) < 0x80000000000000000000000000000000)
                by (nonlinear_arith)
                requires
                    0 <= p < 0x8000000000000000,
                    0 <= quantity < 0x10000000000000000,
            ;
            assert(spec_weighted_total(prices@, quantities@, i as int + 1) <= u128::MAX);
            assert(spec_weighted_total(prices@, quantities@, i as int + 1)
                == spec_weighted_total(prices@, quantities@, i as int) + prices@[i as int]
                * quantities@[i as int]);
        }
        num = num + (p as u128) * (quantity as u128);
        den = den + quantity as u128;
        i += 1;
    }
    if den == 0 {
        return None;
    }
    proof {
        let total = spec_weighted_total(prices@, quantities@, prices@.len() as int);
        let qt = spec_qty_total(quantities@, quantities@.len() as int);
        lemma_weighted_nonneg(prices@, quantities@, prices@.len() as int);
        lemma_weighted_cell_bound(prices@, quantities@, prices@.len() as int);
        assert(total / qt <= i64::MAX) by {
            assert(total <= i64::MAX * qt) by (nonlinear_arith)
                requires
                    0 <= total,
                    total <= i64::MAX * qt,
            ;
            vstd::arithmetic::div_mod::lemma_multiply_divide_le(total, qt, i64::MAX as int);
        };
        assert(total / qt >= 0) by {
            vstd::arithmetic::div_mod::lemma_div_pos_is_pos(total, qt);
        };
    }
    Some((num / den) as i64)
}

/// The weighted total of non-negative prices is at most `i64::MAX` times
/// the quantity total.
proof fn lemma_weighted_cell_bound(prices: Seq<i64>, qtys: Seq<u64>, n: int)
    requires
        forall|j: int| 0 <= j < n ==> prices[j] >= 0,
        n <= qtys.len(),
        n <= prices.len(),
    ensures
        spec_weighted_total(prices, qtys, n) <= i64::MAX * spec_qty_total(qtys, n),
    decreases n,
{
    if n > 0 {
        lemma_weighted_cell_bound(prices, qtys, n - 1);
        assert(prices[n - 1] * qtys[n - 1] <= i64::MAX * (qtys[n - 1] as int))
            by (nonlinear_arith)
            requires
                0 <= prices[n - 1] <= i64::MAX,
                0 <= qtys[n - 1],
        ;
        assert(i64::MAX * spec_qty_total(qtys, n) == i64::MAX * spec_qty_total(qtys, n - 1)
            + i64::MAX * (qtys[n - 1] as int)) by (nonlinear_arith)
            requires
                spec_qty_total(qtys, n) == spec_qty_total(qtys, n - 1) + qtys[n - 1],
        ;
    }
}

proof fn lemma_qty_nonneg(qtys: Seq<u64>, n: int)
    ensures
        spec_qty_total(qtys, n) >= 0,
    decreases n,
{
    if n > 0 {
        lemma_qty_nonneg(qtys, n - 1);
    }
}

proof fn lemma_weighted_nonneg(prices: Seq<i64>, qtys: Seq<u64>, n: int)
    requires
        forall|j: int| 0 <= j < n ==> prices[j] >= 0,
    ensures
        spec_weighted_total(prices, qtys, n) >= 0,
    decreases n,
{
    if n > 0 {
        lemma_weighted_nonneg(prices, qtys, n - 1);
        vstd::arithmetic::mul::lemma_mul_nonnegative(prices[n - 1] as int, qtys[n - 1] as int);
    }
}

proof fn lemma_qty_prefix_bound(qtys: Seq<u64>, n: int, len: int)
    requires
        0 <= n <= len,
    ensures
        spec_qty_total(qtys, n) <= spec_qty_total(qtys, len),
    decreases len - n,
{
    if n < len {
        lemma_qty_prefix_bound(qtys, n + 1, len);
    }
}

} // verus!

