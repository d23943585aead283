//! Monthly tactics policy and utility scoring.
//!
//! A small reactive rule set converts the current company metrics into a
//! bounded monthly price delta and an R&D delta, always respecting the
//! minimum-margin floor over unit cost.  All fractions are in basis points.

use vstd::prelude::*;

verus! {

/// Weights for the utility components, in basis points.
#[derive(Clone, Copy, Debug, PartialEq, Eq, Structural)]
pub struct ScoreWeights {
    pub share_bp: i64,
    pub margin_bp: i64,
    pub liquidity_bp: i64,
    pub portfolio_bp: i64,
}

impl Default for ScoreWeights {
    /// Balanced default weights: share 0.4, margin 0.3, liquidity 0.2,
    /// portfolio 0.1.
    fn default() -> (r: ScoreWeights)
        ensures
            r == (ScoreWeights {
                share_bp: 4000,
                margin_bp: 3000,
                liquidity_bp: 2000,
                portfolio_bp: 1000,
            }),
    {
        ScoreWeights { share_bp: 4000, margin_bp: 3000, liquidity_bp: 2000, portfolio_bp: 1000 }
    }
}

/// Minimal metrics required by the scoring, in basis points.
#[derive(Clone, Copy, Debug, PartialEq, Eq, Structural)]
pub struct CompanyMetrics {
    /// Market share over the last ~12 months, nominally in [0, 10000].
    pub share_12m_bp: i64,
    /// Gross margin ratio, nominally in [0, 10000].
    pub margin_ratio_bp: i64,
    /// Liquidity proxy `cash / (debt + 1)` in basis points, unbounded above.
    pub liquidity_k_bp: i64,
    /// Portfolio diversification, nominally in [0, 10000].
    pub portfolio_div_bp: i64,
}

/// Configuration thresholds for monthly tactics, in basis points.
#[derive(Clone, Copy, Debug, PartialEq, Eq, Structural)]
pub struct TacticsConfig {
    /// Share drop over the previous month that triggers a price cut.
    pub share_drop_delta_bp: i64,
    /// Magnitude of the price cut when reacting to a share drop.
    pub price_epsilon_bp: i64,
    /// Floor on margin as a fraction of unit cost.
    pub min_margin_bp: i64,
    /// Demand/supply ratio above which the price is raised.
    pub shortage_raise_threshold_bp: i64,
    /// Magnitude of the price raise under shortage.
    pub shortage_raise_epsilon_bp: i64,
    /// Liquidity level below which R&D is cut monthly.
    pub cash_liquidity_floor_k_bp: i64,
    /// R&D boost when expediting after a share drop.
    pub rd_boost_on_expedite_bp: i64,
    /// R&D cut applied when liquidity is below the floor.
    pub rd_cut_on_cash_low_bp: i64,
}

impl Default for TacticsConfig {
    fn default() -> (r: TacticsConfig)
        ensures
            r == spec_default_tactics(),
    {
        TacticsConfig {
            share_drop_delta_bp: 500,
            price_epsilon_bp: 200,
            min_margin_bp: 500,
            shortage_raise_threshold_bp: 12000,
            shortage_raise_epsilon_bp: 200,
            cash_liquidity_floor_k_bp: 5000,
            rd_boost_on_expedite_bp: 100,
            rd_cut_on_cash_low_bp: 100,
        }
    }
}

pub open spec fn spec_default_tactics() -> TacticsConfig {
    TacticsConfig {
        share_drop_delta_bp: 500,
        price_epsilon_bp: 200,
        min_margin_bp: 500,
        shortage_raise_threshold_bp: 12000,
        shortage_raise_epsilon_bp: 200,
        cash_liquidity_floor_k_bp: 5000,
        rd_boost_on_expedite_bp: 100,
        rd_cut_on_cash_low_bp: 100,
    }
}

/// Clamp a basis-point value into `[0, 10000]`.
pub open spec fn spec_norm01_bp(x: int) -> int {
    if x < 0 {
        0
    } else if x > 10000 {
        10000
    } else {
        x
    }
}

/// Liquidity normalised into `[0, 10000]`: `k` in `[0, 5]` maps linearly,
/// saturating above five.
pub open spec fn spec_norm_liquidity_bp(k: int) -> int {
    if k < 0 {
        0
    } else {
        spec_norm01_bp(k / 5)
    }
}

/// Weight clamped below at zero.
pub open spec fn spec_norm_weight(w: int) -> int {
    if w < 0 {
        0
    } else {
        w
    }
}

/// Utility score in `[0, 10000]`: the weighted sum of the normalised
/// metrics, divided by the weight total (zero when all weights vanish).
pub open spec fn spec_utility_score(m: CompanyMetrics, w: ScoreWeights) -> int {
    let share = spec_norm01_bp(m.share_12m_bp as int);
    let margin = spec_norm01_bp(m.margin_ratio_bp as int);
    let liquidity = spec_norm_liquidity_bp(m.liquidity_k_bp as int);
    let portfolio = spec_norm01_bp(m.portfolio_div_bp as int);
    let w1 = spec_norm_weight(w.share_bp as int);
    let w2 = spec_norm_weight(w.margin_bp as int);
    let w3 = spec_norm_weight(w.liquidity_bp as int);
    let w4 = spec_norm_weight(w.portfolio_bp as int);
    let wsum = w1 + w2 + w3 + w4;
    if wsum == 0 {
        0
    } else {
        spec_norm01_bp((share * w1 + margin * w2 + liquidity * w3 + portfolio * w4) / wsum)
    }
}

/// Compute the utility score of the given metrics under the given weights.
/// Inputs are individually clamped into range and negative weights are
/// treated as zero; the weighted sum is normalised by the weight total.
pub fn utility_score(m: &CompanyMetrics, w: &ScoreWeights) -> (score: i64)
    ensures
        score == spec_utility_score(*m, *w),
        0 <= score <= 10000,
{
    let share = norm01_bp(m.share_12m_bp);
    let margin = norm01_bp(m.margin_ratio_bp);
    let liquidity = if m.liquidity_k_bp < 0 {
        0
    } else {
        norm01_bp(m.liquidity_k_bp / 5)
    };
    let portfolio = norm01_bp(m.portfolio_div_bp);
    let w1 = if w.share_bp < 0 {
        0
    } else {
        w.share_bp
    };
    let w2 = if w.margin_bp < 0 {
        0
    } else {
        w.margin_bp
    };
    let w3 = if w.liquidity_bp < 0 {
        0
    } else {
        w.liquidity_bp
    };
    let w4 = if w.portfolio_bp < 0 {
        0
    } else {
        w.portfolio_bp
    };
    let wsum: i128 = w1 as i128 + w2 as i128 + w3 as i128 + w4 as i128;
    if wsum == 0 {
        return 0;
    }
    proof {
        assert(0 <= (share as int) * (w1 as int) <= 10000 * (w1 as int)) by (nonlinear_arith)
            requires
                0 <= share <= 10000,
                0 <= w1,
        ;
        assert(0 <= (margin as int) * (w2 as int) <= 10000 * (w2 as int)) by (nonlinear_arith)
            requires
                0 <= margin <= 10000,
                0 <= w2,
        ;
        assert(0 <= (liquidity as int) * (w3 as int) <= 10000 * (w3 as int)) by (nonlinear_arith)
            requires
                0 <= liquidity <= 10000,
                0 <= w3,
        ;
        assert(0 <= (portfolio as int) * (w4 as int) <= 10000 * (w4 as int)) by (nonlinear_arith)
            requires
                0 <= portfolio <= 10000,
                0 <= w4,
        ;
    }
    let num: i128 = (share as i128) * (w1 as i128) + (margin as i128) * (w2 as i128) + (
    liquidity as i128) * (w3 as i128) + (portfolio as i128) * (w4 as i128);
    let q: i128 = num / wsum;
    proof {
        vstd::arithmetic::div_mod::lemma_div_pos_is_pos(num as int, wsum as int);
    }
    let score: i64 = if q > 10000 {
        10000
    } else {
        q as i64
    };
    score
}

fn norm01_bp(x: i64) -> (r: i64)
    ensures
        r == spec_norm01_bp(x as int),
{
    if x < 0 {
        0
    } else if x > 10000 {
        10000
    } else {
        x
    }
}

/// The minimum price respecting the margin floor over unit cost.
pub open spec fn spec_min_price(unit_cost_cents: int, min_margin_bp: int) -> int {
    unit_cost_cents * (10000 + min_margin_bp) / 10000
}

/// Lowest price allowed over the given unit cost.
pub fn min_price(unit_cost_cents: i64, min_margin_bp: i64) -> (r: i64)
    requires
        0 <= unit_cost_cents,
        0 <= min_margin_bp <= 10000,
        unit_cost_cents <= 0x20000000000000,
    ensures
        r == spec_min_price(unit_cost_cents as int, min_margin_bp as int),
        r >= unit_cost_cents,
        r <= 2 * unit_cost_cents,
{
    proof {
        let c = unit_cost_cents as int;
        let f = (10000 + min_margin_bp) as int;
        assert(10000 * c <= c * f <= 0x20000000000000 * 20000) by (nonlinear_arith)
            requires
                0 <= c <= 0x20000000000000,
                10000 <= f <= 20000,
        ;
        vstd::arithmetic::div_mod::lemma_div_pos_is_pos(c * f, 10000);
        vstd::arithmetic::div_mod::lemma_multiply_divide_le(
            c * f,
            10000,
            (0x20000000000000 * 2) as int,
        );
        assert(c * f <= 10000 * (2 * c)) by (nonlinear_arith)
            requires
                0 <= c,
                f <= 20000,
        ;
        vstd::arithmetic::div_mod::lemma_multiply_divide_le(c * f, 10000, 2 * c);
        assert(c * f / 10000 >= c) by {
            vstd::arithmetic::div_mod::lemma_div_multiples_vanish(c, 10000);
            vstd::arithmetic::div_mod::lemma_div_is_ordered(10000 * c, c * f, 10000);
        };
    }
    let num: i128 = (unit_cost_cents as i128) * ((10000 + min_margin_bp) as i128);
    (num / 10000) as i64
}

/// Whether a price respects the margin floor.
pub fn respects_min_margin(asp_cents: i64, unit_cost_cents: i64, min_margin_bp: i64) -> (r: bool)
    requires
        0 <= unit_cost_cents <= 0x20000000000000,
        0 <= min_margin_bp <= 10000,
    ensures
        r == (asp_cents >= spec_min_price(unit_cost_cents as int, min_margin_bp as int)),
{
    asp_cents >= min_price(unit_cost_cents, min_margin_bp)
}

/// Applying a price delta with the margin floor: the requested factor, then
/// the floor, whichever is higher.
pub open spec fn spec_apply_price_delta(
    asp_cents: int,
    unit_cost_cents: int,
    delta_bp: int,
    min_margin_bp: int,
) -> int {
    let raw = asp_cents * (10000 + delta_bp) / 10000;
    let floor_p = spec_min_price(unit_cost_cents, min_margin_bp);
    if raw < floor_p {
        floor_p
    } else {
        raw
    }
}

/// Margin floor invariant, single step.
///
/// Whatever delta the tactics policy or the planner proposes, the applied
/// price never falls below `unit_cost * (1 + min_margin)`.
pub proof fn lemma_margin_floor(
    asp_cents: int,
    unit_cost_cents: int,
    delta_bp: int,
    min_margin_bp: int,
)
    ensures
        spec_apply_price_delta(asp_cents, unit_cost_cents, delta_bp, min_margin_bp)
            >= spec_min_price(unit_cost_cents, min_margin_bp),
{
}

/// The price after applying a whole sequence of deltas in order.
pub open spec fn spec_apply_price_deltas(
    asp_cents: int,
    unit_cost_cents: int,
    deltas: Seq<i64>,
    min_margin_bp: int,
) -> int
    decreases deltas.len(),
{
    if deltas.len() == 0 {
        asp_cents
    } else {
        spec_apply_price_delta(
            spec_apply_price_deltas(asp_cents, unit_cost_cents, deltas.drop_last(), min_margin_bp),
            unit_cost_cents,
            deltas.last() as int,
            min_margin_bp,
        )
    }
}

/// Margin floor invariant over any sequence of deltas.
///
/// For any non-empty sequence of tactics or planner price deltas, the
/// resulting price is at least `unit_cost * (1 + min_margin)`, always.
pub proof fn lemma_margin_floor_sequence(
    asp_cents: int,
    unit_cost_cents: int,
    deltas: Seq<i64>,
    min_margin_bp: int,
)
    requires
        deltas.len() > 0,
    ensures
        spec_apply_price_deltas(asp_cents, unit_cost_cents, deltas, min_margin_bp)
            >= spec_min_price(unit_cost_cents, min_margin_bp),
{
    lemma_margin_floor(
        spec_apply_price_deltas(asp_cents, unit_cost_cents, deltas.drop_last(), min_margin_bp),
        unit_cost_cents,
        deltas.last() as int,
        min_margin_bp,
    );
}

/// The tactics decision: the price delta in basis points after rules one to
/// three, mirrored check for check.
pub open spec fn spec_tactics_price_delta(
    m: CompanyMetrics,
    last_share_bp: int,
    demand_supply_ratio_bp: int,
    unit_cost_cents: int,
    asp_cents: int,
    cfg: TacticsConfig,
) -> int {
    let share_drop = if last_share_bp - m.share_12m_bp >= 0 {
        last_share_bp - m.share_12m_bp
    } else {
        0
    };
    let df1 = if share_drop > cfg.share_drop_delta_bp {
        -(cfg.price_epsilon_bp as int)
    } else {
        0
    };
    let df2 = if demand_supply_ratio_bp > cfg.shortage_raise_threshold_bp {
        df1 + cfg.shortage_raise_epsilon_bp
    } else {
        df1
    };
    if df2 < 0 && asp_cents * (10000 + df2) / 10000 < spec_min_price(
        unit_cost_cents,
        cfg.min_margin_bp as int,
    ) {
        let dstar = (spec_min_price(unit_cost_cents, cfg.min_margin_bp as int) * 10000 + asp_cents
            - 1) / asp_cents - 10000;
        if dstar <= 0 {
            dstar
        } else {
            0
        }
    } else {
        df2
    }
}

/// The tactics R&D delta: cut under low liquidity, boost after a material
/// share drop, zero otherwise.
pub open spec fn spec_tactics_rd_delta(
    m: CompanyMetrics,
    last_share_bp: int,
    cfg: TacticsConfig,
) -> int {
    let share_drop = if last_share_bp - m.share_12m_bp >= 0 {
        last_share_bp - m.share_12m_bp
    } else {
        0
    };
    if m.liquidity_k_bp < cfg.cash_liquidity_floor_k_bp {
        -(cfg.rd_cut_on_cash_low_bp as int)
    } else if share_drop > cfg.share_drop_delta_bp {
        cfg.rd_boost_on_expedite_bp as int
    } else {
        0
    }
}

/// Decide the monthly tactics: a price delta and an R&D delta, both in
/// basis points.  Rules, in precedence order: cut the price after a share
/// drop; raise it under shortage (the two may combine); clamp a violating
/// cut to the largest delta that still respects the margin floor.  R&D is
/// cut under low liquidity, boosted after a material share drop.
pub fn decide_tactics(
    metrics: &CompanyMetrics,
    last_share_bp: i64,
    demand_supply_ratio_bp: i64,
    unit_cost_cents: i64,
    asp_cents: i64,
    cfg: &TacticsConfig,
) -> (r: (i64, i64))
    requires
        0 <= unit_cost_cents <= 0x20000000000000,
        0 < asp_cents <= 0x20000000000000,
        0 <= cfg.min_margin_bp <= 10000,
        0 <= cfg.price_epsilon_bp <= 10000,
        0 <= cfg.shortage_raise_epsilon_bp <= 10000,
        0 <= cfg.rd_cut_on_cash_low_bp,
        0 <= cfg.rd_boost_on_expedite_bp,
        -10000 <= last_share_bp <= 20000,
        -10000 <= metrics.share_12m_bp <= 20000,
    ensures
        r.0 == spec_tactics_price_delta(
            *metrics,
            last_share_bp as int,
            demand_supply_ratio_bp as int,
            unit_cost_cents as int,
            asp_cents as int,
            *cfg,
        ),
        r.1 == spec_tactics_rd_delta(*metrics, last_share_bp as int, *cfg),
{
    let mut price_df: i64 = 0;
    let mut rd_delta: i64 = 0;
    let share_drop: i64 = if last_share_bp - metrics.share_12m_bp >= 0 {
        last_share_bp - metrics.share_12m_bp
    } else {
        0
    };
    if share_drop > cfg.share_drop_delta_bp {
        price_df = price_df - cfg.price_epsilon_bp;
    }
    if demand_supply_ratio_bp > cfg.shortage_raise_threshold_bp {
        price_df = price_df + cfg.shortage_raise_epsilon_bp;
    }
    if price_df < 0 {
        let new_price: i64 = scale_price(asp_cents, price_df);
        let floor_p = min_price(unit_cost_cents, cfg.min_margin_bp);
        if new_price < floor_p {
            // largest delta still respecting the floor
            let num: i128 = (floor_p as i128) * 10000 + (asp_cents as i128) - 1;
            proof {
                let fp = floor_p as int;
                let ac = asp_cents as int;
                assert(0 <= fp * 10000 <= 0x20000000000000 * 2 * 10000) by (nonlinear_arith)
                    requires
                        0 <= fp <= (0x20000000000000 * 2) as int,
                ;
                vstd::arithmetic::div_mod::lemma_div_pos_is_pos(fp * 10000 + ac - 1, ac);
                vstd::arithmetic::div_mod::lemma_div_nonincreasing(fp * 10000 + ac - 1, ac);
            }
            let dstar: i128 = num / (asp_cents as i128) - 10000;
            price_df = if dstar <= 0 {
                dstar as i64
            } else {
                0
            };
        }
    }
    if metrics.liquidity_k_bp < cfg.cash_liquidity_floor_k_bp {
        rd_delta = rd_delta - cfg.rd_cut_on_cash_low_bp;
    } else if share_drop > cfg.share_drop_delta_bp {
        rd_delta = rd_delta + cfg.rd_boost_on_expedite_bp;
    }
    (price_df, rd_delta)
}

/// `asp * (10000 + delta) / 10000`, floored toward negative infinity for
/// non-negative prices (deltas below minus one whole clamp to zero).
pub fn scale_price(asp_cents: i64, delta_bp: i64) -> (r: i64)
    requires
        0 <= asp_cents <= 0x20000000000000,
        -20000 <= delta_bp <= 20000,
    ensures
        r == spec_scale_price(asp_cents as int, delta_bp as int),
{
    let f: i64 = if 10000 + delta_bp < 0 {
        0
    } else {
        10000 + delta_bp
    };
    proof {
        assert(0 <= (asp_cents as int) * (f as int) <= 0x20000000000000 * 30000)
            by (nonlinear_arith)
            requires
                0 <= asp_cents <= 0x20000000000000,
                0 <= f <= 30000,
        ;
        vstd::arithmetic::div_mod::lemma_div_pos_is_pos((asp_cents as int) * (f as int), 10000);
        vstd::arithmetic::div_mod::lemma_multiply_divide_le(
            (asp_cents as int) * (f as int),
            10000,
            (0x20000000000000 * 3) as int,
        );
    }
    let num: i128 = (asp_cents as i128) * (f as i128);
    (num / 10000) as i64
}

/// The scaled price: the factor is clamped below at zero so a delta under
/// minus one whole yields a zero price rather than a negative one.
pub open spec fn spec_scale_price(asp_cents: int, delta_bp: int) -> int {
    let f = if 10000 + delta_bp < 0 {
        0
    } else {
        10000 + delta_bp
    };
    asp_cents * f / 10000
}

} // verus!
