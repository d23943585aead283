//! Quarterly decision planner: a bounded beam search over a curated action
//! grammar with an internal one-month predictor.
//!
//! At each decision month (month indices congruent to one modulo the
//! quarter step) every beam node expands into the curated action set; a
//! low-share node excludes price increases.  Candidates are projected one
//! month forward by a lightweight predictor and scored by discounted
//! utility; after every month the beam keeps the `beam_width` best nodes,
//! ties broken by insertion order.  The returned plan is the decision
//! history of the best surviving node.

use crate::econ::demand;
use crate::numeric::pow_ratio_floor_milli;
use crate::tactics::{
    spec_apply_price_delta, spec_min_price, min_price, scale_price, utility_score, CompanyMetrics,
    ScoreWeights,
};
use vstd::prelude::*;

verus! {

/// Planner configuration controlling breadth, depth and economics.
#[derive(Clone, Copy, Debug, PartialEq, Eq, Structural)]
pub struct PlannerConfig {
    /// Beam width (at least one node survives each month).
    pub beam_width: usize,
    /// Planning horizon in months.
    pub months: u32,
    /// Months between decision points.
    pub quarter_step: u32,
    /// Per-month utility discount in basis points (9900 = 0.99).
    pub discount_bp: i64,
    /// Margin floor over unit cost, in basis points.
    pub min_margin_bp: i64,
    /// Price step of the action grammar, in basis points.
    pub price_step_bp: i64,
    /// Capacity step of the action grammar, in units per month.
    pub capacity_step_units: u64,
    /// Price-preference exponent, in thousandths.
    pub price_pref_beta_milli: i64,
    /// Fixed competitor attractiveness, in basis points.
    pub competitor_attractiveness_bp: i64,
}

impl Default for PlannerConfig {
    fn default() -> (r: PlannerConfig)
        ensures
            r == spec_default_planner(),
    {
        PlannerConfig {
            beam_width: 3,
            months: 24,
            quarter_step: 3,
            discount_bp: 9900,
            min_margin_bp: 500,
            price_step_bp: 500,
            capacity_step_units: 10000,
            price_pref_beta_milli: 1500,
            competitor_attractiveness_bp: 10000,
        }
    }
}

pub open spec fn spec_default_planner() -> PlannerConfig {
    PlannerConfig {
        beam_width: 3,
        months: 24,
        quarter_step: 3,
        discount_bp: 9900,
        min_margin_bp: 500,
        price_step_bp: 500,
        capacity_step_units: 10000,
        price_pref_beta_milli: 1500,
        competitor_attractiveness_bp: 10000,
    }
}

/// A single action considered at a decision point.
#[derive(Clone, Copy, Debug, PartialEq, Eq, Structural)]
pub enum PlanAction {
    /// Adjust the price by a fraction of the current price (basis points).
    AdjustPriceFrac(i64),
    /// Request this many additional units of monthly capacity.
    RequestCapacity(u64),
    /// Boost (or cut) monthly R&D progress, in basis points.
    AllocateRndBoost(i64),
    /// Schedule a tape-out, optionally expedited.
    ScheduleTapeout { expedite: bool },
}

/// One decision of a returned plan.
#[derive(Clone, Copy, Debug, PartialEq, Eq, Structural)]
pub struct PlanStepDecision {
    pub month_index: u32,
    pub action: PlanAction,
}

/// The best plan found, with its discounted utility score.
#[derive(Clone, Debug)]
pub struct PlanResult {
    pub decisions: Vec<PlanStepDecision>,
    pub expected_score: i64,
}

/// Planner inputs derived from the current simulation state.
#[derive(Clone, Copy, Debug, PartialEq, Eq, Structural)]
pub struct CurrentKpis {
    pub asp_cents: i64,
    pub unit_cost_cents: i64,
    pub capacity_units_per_month: u64,
    pub cash_cents: i64,
    pub debt_cents: i64,
    pub share_bp: i64,
    pub rd_progress_bp: i64,
}

/// Internal predictor state of one beam node.
#[derive(Clone, Copy, Debug, PartialEq, Eq, Structural)]
struct PlannerState {
    asp_cents: i64,
    unit_cost_cents: i64,
    capacity: u64,
    cash_cents: i64,
    debt_cents: i64,
    share_bp: i64,
    rd_progress_bp: i64,
    ref_price_cents: i64,
}

/// An action belongs to the curated grammar of a configuration.
pub open spec fn spec_action_in_grammar(a: PlanAction, cfg: PlannerConfig) -> bool {
    ||| a == PlanAction::AdjustPriceFrac(-cfg.price_step_bp as i64)
    ||| a == PlanAction::AdjustPriceFrac(0i64)
    ||| a == PlanAction::AdjustPriceFrac(cfg.price_step_bp)
    ||| a == PlanAction::RequestCapacity(cfg.capacity_step_units)
    ||| a == PlanAction::AllocateRndBoost(100i64)
    ||| (a matches PlanAction::ScheduleTapeout { expedite: _ })
}

/// Every decision of a plan lies in the horizon, on a decision month, and
/// uses an action from the grammar.
pub open spec fn spec_plan_shape(decisions: Seq<PlanStepDecision>, cfg: PlannerConfig) -> bool {
    forall|j: int|
        0 <= j < decisions.len() ==> {
            let d = #[trigger] decisions[j];
            &&& 1 <= d.month_index <= cfg.months
            &&& d.month_index as int % cfg.quarter_step as int == 1
            &&& spec_action_in_grammar(d.action, cfg)
        }
}

/// The share target computed from a given attractiveness floor `a_raw`:
/// the floor is capped, scaled by appeal, blended against the competitor
/// weight and clamped into `[0.05, 0.95]`.
pub open spec fn spec_share_target_from(
    comp_attr_bp: int,
    appeal_bp: int,
    a_raw: u64,
    target: int,
) -> bool {
    let a = if a_raw > 100000000 {
        100000000int
    } else {
        a_raw as int
    };
    let appeal = if appeal_bp < 0 {
        0int
    } else if appeal_bp > 10000 {
        10000int
    } else {
        appeal_bp
    };
    let a2 = a * (10000 + appeal) / 10000;
    let comp = if comp_attr_bp < 10 {
        10int
    } else {
        comp_attr_bp
    };
    let t = 10000 * a2 / (a2 + comp);
    target == if t < 500 {
        500int
    } else if t > 9500 {
        9500int
    } else {
        t
    }
}

/// The whole share-target relation: some exact power floor
/// `a_raw == floor(10000 * (ref/price)^beta)` (prices floored at one cent,
/// a negative exponent read as zero) yields the target.
pub open spec fn spec_share_target_ok(
    asp_cents: int,
    ref_price_cents: int,
    beta_milli: int,
    comp_attr_bp: int,
    appeal_bp: int,
    target: int,
) -> bool {
    let p = if asp_cents < 1 {
        1int
    } else {
        asp_cents
    };
    let r = if ref_price_cents < 1 {
        1int
    } else {
        ref_price_cents
    };
    let beta = if beta_milli < 0 {
        0int
    } else {
        beta_milli
    };
    exists|a_raw: u64|
        crate::numeric::is_pow_ratio_floor(
            a_raw,
            10000,
            r as u64,
            p as u64,
            beta as nat,
            1000,
        ) && spec_share_target_from(comp_attr_bp, appeal_bp, a_raw, target)
}

/// Market-share target from relative price attractiveness: the exact floor
/// of `10000 * (ref/price)^beta`, blended against the competitor weight and
/// clamped into `[0.05, 0.95]`.
pub fn expected_share_from_price(
    asp_cents: i64,
    ref_price_cents: i64,
    beta_milli: i64,
    comp_attr_bp: i64,
    appeal_bp: i64,
) -> (target: i64)
    requires
        asp_cents <= 0x20000000000000,
        ref_price_cents <= 0x20000000000000,
    ensures
        500 <= target <= 9500,
        spec_share_target_ok(
            asp_cents as int,
            ref_price_cents as int,
            beta_milli as int,
            comp_attr_bp as int,
            appeal_bp as int,
            target as int,
        ),
{
    let p: u64 = if asp_cents < 1 {
        1
    } else {
        asp_cents as u64
    };
    let r: u64 = if ref_price_cents < 1 {
        1
    } else {
        ref_price_cents as u64
    };
    let beta: u64 = if beta_milli < 0 {
        0
    } else {
        beta_milli as u64
    };
    let a_raw: u64 = pow_ratio_floor_milli(10000, r, p, beta);
    let a: u128 = if a_raw > 100000000 {
        100000000
    } else {
        a_raw as u128
    };
    let appeal: u128 = if appeal_bp < 0 {
        0
    } else if appeal_bp > 10000 {
        10000
    } else {
        appeal_bp as u128
    };
    proof {
        assert(0 <= (a as int) * (10000 + appeal) <= 100000000 * 20000) by (nonlinear_arith)
            requires
                0 <= a <= 100000000,
                10000 <= 10000 + appeal <= 20000,
        ;
    }
    let a2: u128 = a * (10000 + appeal) / 10000;
    let comp: u128 = if comp_attr_bp < 10 {
        10
    } else {
        comp_attr_bp as u128
    };
    let target: u128 = 10000 * a2 / (a2 + comp);
    let t = target as i64;
    proof {
        vstd::arithmetic::div_mod::lemma_div_pos_is_pos(10000 * (a2 as int), (a2 + comp) as int);
        vstd::arithmetic::div_mod::lemma_multiply_divide_le(
            10000 * (a2 as int),
            (a2 + comp) as int,
            10000,
        );
        assert(10000 * (a2 as int) <= ((a2 + comp) as int) * 10000) by (nonlinear_arith)
            requires
                comp >= 0,
                a2 >= 0,
        ;
    }
    let result: i64 = if t < 500 {
        500
    } else if t > 9500 {
        9500
    } else {
        t
    };
    proof {
        assert(spec_share_target_from(
            comp_attr_bp as int,
            appeal_bp as int,
            a_raw,
            result as int,
        ));
    }
    result
}

/// Project one month forward with the lightweight predictor: share drifts
/// a tenth of the way toward the price-attractiveness target, demand at the
/// current price is split by share and capped by capacity, and the profit
/// lands in cash.  Returns the month's utility.
fn simulate_month(
    state: &mut PlannerState,
    base_demand: u64,
    elasticity_milli: i64,
    segment_count: usize,
    w: &ScoreWeights,
    cfg: &PlannerConfig,
) -> (utility: i64)
    requires
        spec_planner_state_wf(*old(state)),
    ensures
        spec_planner_state_wf(*final(state)),
        0 <= utility <= 10000,
        final(state).asp_cents == old(state).asp_cents,
        final(state).unit_cost_cents == old(state).unit_cost_cents,
        final(state).capacity == old(state).capacity,
        final(state).ref_price_cents == old(state).ref_price_cents,
        final(state).rd_progress_bp == old(state).rd_progress_bp,
        500 <= final(state).share_bp <= 9500,
{
    let target = expected_share_from_price(
        state.asp_cents,
        state.ref_price_cents,
        cfg.price_pref_beta_milli,
        cfg.competitor_attractiveness_bp,
        0,
    );
    let drift: i64 = if target >= state.share_bp {
        (target - state.share_bp) / 10
    } else {
        -((state.share_bp - target) / 10)
    };
    let mut share = state.share_bp + drift;
    if share < 500 {
        share = 500;
    }
    if share > 9500 {
        share = 9500;
    }
    state.share_bp = share;
    let q_total: u64 = match demand(
        base_demand,
        state.asp_cents,
        state.ref_price_cents,
        elasticity_milli,
    ) {
        Ok(q) => q,
        Err(_) => base_demand,
    };
    proof {
        assert((q_total as int) * (share as int) <= 0xffffffffffffffff * 10000)
            by (nonlinear_arith)
            requires
                0 <= q_total <= 0xffffffffffffffff,
                0 <= share <= 10000,
        ;
        vstd::arithmetic::div_mod::lemma_div_pos_is_pos((q_total as int) * (share as int), 10000);
    }
    let q_our: u128 = (q_total as u128) * (share as u128) / 10000;
    let sell: u128 = if q_our <= state.capacity as u128 {
        q_our
    } else {
        state.capacity as u128
    };
    proof {
        assert(0 <= (state.asp_cents as int) * (sell as int) <= 0x20000000000000
            * 0xffffffffffffffff) by (nonlinear_arith)
            requires
                0 <= state.asp_cents <= 0x20000000000000,
                0 <= sell <= 0xffffffffffffffff,
        ;
        assert(0 <= (state.unit_cost_cents as int) * (sell as int) <= 0x20000000000000
            * 0xffffffffffffffff) by (nonlinear_arith)
            requires
                0 <= state.unit_cost_cents <= 0x20000000000000,
                0 <= sell <= 0xffffffffffffffff,
        ;
    }
    let revenue_raw: i128 = (state.asp_cents as i128) * (sell as i128);
    let cost_raw: i128 = (state.unit_cost_cents as i128) * (sell as i128);
    // clamp the projected money into the currency range before the ratios
    let revenue: i128 = if revenue_raw > 0x20000000000000i128 {
        0x20000000000000
    } else {
        revenue_raw
    };
    let cost: i128 = if cost_raw > 0x20000000000000i128 {
        0x20000000000000
    } else {
        cost_raw
    };
    let profit: i128 = revenue - cost;
    let cash: i128 = state.cash_cents as i128 + profit;
    state.cash_cents = if cash > 0x20000000000000i128 {
        0x20000000000000
    } else if cash < -0x20000000000000i128 {
        -0x20000000000000
    } else {
        cash as i64
    };
    let margin_bp: i64 = if revenue > 0 && profit > 0 {
        proof {
            assert(profit * 10000 <= revenue * 10000) by (nonlinear_arith)
                requires
                    profit <= revenue,
            ;
            vstd::arithmetic::div_mod::lemma_div_pos_is_pos((profit * 10000) as int, revenue as int);
            vstd::arithmetic::div_mod::lemma_multiply_divide_le(
                (profit * 10000) as int,
                revenue as int,
                10000,
            );
        }
        let m = profit * 10000 / revenue;
        m as i64
    } else {
        0
    };
    let liq_bp: i64 = if state.cash_cents <= 0 {
        0
    } else {
        proof {
            vstd::arithmetic::div_mod::lemma_div_pos_is_pos(
                (state.cash_cents as int) * 10000,
                state.debt_cents as int + 100,
            );
        }
        let liq: i128 = (state.cash_cents as i128) * 10000 / (state.debt_cents as i128 + 100);
        if liq > 1000000000 {
            1000000000
        } else {
            liq as i64
        }
    };
    let seg_div: i64 = if segment_count >= 5 {
        10000
    } else {
        (segment_count as i64) * 2000
    };
    let metrics = CompanyMetrics {
        share_12m_bp: share,
        margin_ratio_bp: margin_bp,
        liquidity_k_bp: liq_bp,
        portfolio_div_bp: seg_div,
    };
    utility_score(&metrics, w)
}

/// Fixed-point bounds every beam node maintains.
spec fn spec_planner_state_wf(s: PlannerState) -> bool {
    &&& 1 <= s.asp_cents <= 0x20000000000000
    &&& 0 <= s.unit_cost_cents <= 0x10000000000000
    &&& -0x20000000000000 <= s.cash_cents <= 0x20000000000000
    &&& 0 <= s.debt_cents <= 0x20000000000000
    &&& 0 <= s.share_bp <= 10000
    &&& 0 <= s.rd_progress_bp <= 10000
    &&& 1 <= s.ref_price_cents <= 0x20000000000000
}

/// Apply one grammar action to a predictor state: a price change respects
/// the margin floor, capacity accumulates, an R&D boost is clamped, and a
/// scheduled tape-out is a small near-term R&D bonus.
fn apply_action(state: &mut PlannerState, action: PlanAction, cfg: &PlannerConfig) -> (r: ())
    requires
        spec_planner_state_wf(*old(state)),
        0 <= cfg.min_margin_bp <= 10000,
        0 <= cfg.price_step_bp <= 10000,
        action matches PlanAction::AdjustPriceFrac(df) ==> -10000 <= df <= 20000,
    ensures
        spec_planner_state_wf(*final(state)),
        action matches PlanAction::AdjustPriceFrac(df) ==> final(state).asp_cents as int
            == spec_clamped_plan_price(
            spec_apply_price_delta(
                old(state).asp_cents as int,
                old(state).unit_cost_cents as int,
                df as int,
                cfg.min_margin_bp as int,
            ),
        ) && final(state).asp_cents >= spec_min_price(
            old(state).unit_cost_cents as int,
            cfg.min_margin_bp as int,
        ),
{
    match action {
        PlanAction::AdjustPriceFrac(df) => {
            let raw = scale_price(state.asp_cents, df);
            let floor_p = min_price(state.unit_cost_cents, cfg.min_margin_bp);
            let p = if raw < floor_p {
                floor_p
            } else {
                raw
            };
            state.asp_cents = if p < 1 {
                1
            } else if p > 0x20000000000000 {
                0x20000000000000
            } else {
                p
            };
            proof {
                assert(spec_min_price(old(state).unit_cost_cents as int, cfg.min_margin_bp as int)
                    <= 2 * old(state).unit_cost_cents);
            }
        },
        PlanAction::RequestCapacity(units) => {
            state.capacity = state.capacity.saturating_add(units);
        },
        PlanAction::AllocateRndBoost(boost) => {
            let b: i128 = state.rd_progress_bp as i128 + boost as i128;
            state.rd_progress_bp = if b < 0 {
                0
            } else if b > 10000 {
                10000
            } else {
                b as i64
            };
        },
        PlanAction::ScheduleTapeout { expedite: _ } => {
            let b = state.rd_progress_bp + 50;
            state.rd_progress_bp = if b > 10000 {
                10000
            } else {
                b
            };
        },
    }
}

/// The price a beam node may carry, clamped into the planner's money range
/// with a floor of one cent.
pub open spec fn spec_clamped_plan_price(p: int) -> int {
    if p < 1 {
        1
    } else if p > 0x20000000000000 {
        0x20000000000000
    } else {
        p
    }
}

struct Node {
    state: PlannerState,
    score: i64,
    decisions: Vec<PlanStepDecision>,
}

/// Run the beam search over the horizon and return the decision history of
/// the best surviving node.  Every returned decision falls on a decision
/// month inside the horizon and draws from the curated action grammar; with
/// a horizon of at least one month and a quarter step of at least two, the
/// first month is a decision month and the plan is non-empty.
pub fn plan_horizon(
    base_demand: u64,
    elasticity_milli: i64,
    segment_count: usize,
    current: &CurrentKpis,
    w: &ScoreWeights,
    cfg: &PlannerConfig,
) -> (plan: PlanResult)
    requires
        1 <= cfg.quarter_step,
        0 <= cfg.min_margin_bp <= 10000,
        0 <= cfg.price_step_bp <= 10000,
        cfg.months <= 1200,
        0 <= current.unit_cost_cents <= 0x10000000000000,
    ensures
        spec_plan_shape(plan.decisions@, *cfg),
        cfg.months >= 1 && cfg.quarter_step >= 2 ==> plan.decisions@.len() >= 1,
        // the decision months are exactly the months congruent to one
        // modulo the quarter step, in order: the first is month one, each
        // next is one quarter step later, and none inside the horizon is
        // missed
        cfg.quarter_step == 1 ==> plan.decisions@.len() == 0,
        cfg.quarter_step >= 2 && plan.decisions@.len() >= 1 ==> plan.decisions@[0].month_index
            == 1,
        forall|k: int|
            1 <= k < plan.decisions@.len() ==> (#[trigger] plan.decisions@[k]).month_index as int
                == plan.decisions@[k - 1].month_index + cfg.quarter_step,
        cfg.quarter_step >= 2 && plan.decisions@.len() >= 1
            ==> plan.decisions@.last().month_index + cfg.quarter_step > cfg.months,
        // a low-share start is never offered a price rise as its first move
        (cfg.quarter_step >= 2 && cfg.months >= 1 && cfg.price_step_bp > 0 && current.share_bp
            < 2000) ==> plan.decisions@[0].action != PlanAction::AdjustPriceFrac(
            cfg.price_step_bp,
        ),
{
    let ref_price = if current.asp_cents < 1 {
        1
    } else if current.asp_cents > 0x20000000000000 {
        0x20000000000000
    } else {
        current.asp_cents
    };
    let init_state = PlannerState {
        asp_cents: ref_price,
        unit_cost_cents: current.unit_cost_cents,
        capacity: current.capacity_units_per_month,
        cash_cents: if current.cash_cents < -0x20000000000000 {
            -0x20000000000000
        } else if current.cash_cents > 0x20000000000000 {
            0x20000000000000
        } else {
            current.cash_cents
        },
        debt_cents: if current.debt_cents < 0 {
            0
        } else if current.debt_cents > 0x20000000000000 {
            0x20000000000000
        } else {
            current.debt_cents
        },
        share_bp: if current.share_bp < 500 {
            500
        } else if current.share_bp > 9500 {
            9500
        } else {
            current.share_bp
        },
        rd_progress_bp: if current.rd_progress_bp < 0 {
            0
        } else if current.rd_progress_bp > 10000 {
            10000
        } else {
            current.rd_progress_bp
        },
        ref_price_cents: ref_price,
    };
    let ghost init_low = current.share_bp < 2000;
    let mut beam: Vec<Node> = Vec::new();
    beam.push(Node { state: init_state, score: 0, decisions: Vec::new() });
    proof {
        if cfg.quarter_step >= 2 {
            vstd::arithmetic::div_mod::lemma_small_mod(1nat, cfg.quarter_step as nat);
        }
    }
    let mut discount_pow: i64 = 10000;
    let discount: i64 = if cfg.discount_bp < 0 {
        0
    } else if cfg.discount_bp > 10000 {
        10000
    } else {
        cfg.discount_bp
    };
    let mut month: u32 = 1;
    while month <= cfg.months
        invariant
            1 <= month,
            cfg.months <= 1200,
            month <= cfg.months + 1,
            1 <= cfg.quarter_step,
            0 <= cfg.min_margin_bp <= 10000,
            0 <= cfg.price_step_bp <= 10000,
            0 <= current.unit_cost_cents <= 0x10000000000000,
            beam@.len() >= 1,
            0 <= discount_pow <= 10000,
            0 <= discount <= 10000,
            forall|b: int|
                0 <= b < beam@.len() ==> spec_planner_state_wf((#[trigger] beam@[b]).state),
            forall|b: int|
                0 <= b < beam@.len() ==> spec_plan_shape((#[trigger] beam@[b]).decisions@, *cfg),
            forall|b: int|
                0 <= b < beam@.len() ==> 0 <= (#[trigger] beam@[b]).score <= 10000 * (month as int
                    - 1),
            forall|b: int|
                0 <= b < beam@.len() ==> (forall|j: int|
                    0 <= j < (#[trigger] beam@[b]).decisions@.len() ==> (#[trigger] beam@[b].decisions@[j]).month_index < month),
            // once a decision month has passed, every node carries a decision
            (month > 1 && cfg.quarter_step >= 2) ==> (forall|b: int|
                0 <= b < beam@.len() ==> (#[trigger] beam@[b]).decisions@.len() >= 1),
            // the decision history is the arithmetic progression of the
            // decision months seen so far
            cfg.quarter_step == 1 ==> (forall|b: int|
                0 <= b < beam@.len() ==> (#[trigger] beam@[b]).decisions@.len() == 0),
            forall|b: int|
                0 <= b < beam@.len() && (#[trigger] beam@[b]).decisions@.len() >= 1 ==> beam@[b].decisions@[0].month_index == 1,
            forall|b: int, k: int|
                0 <= b < beam@.len() && 1 <= k < (#[trigger] beam@[b]).decisions@.len() ==> (
                #[trigger] beam@[b].decisions@[k]).month_index as int == beam@[b].decisions@[k
                    - 1].month_index + cfg.quarter_step,
            cfg.quarter_step >= 2 ==> (forall|b: int|
                0 <= b < beam@.len() && (#[trigger] beam@[b]).decisions@.len() >= 1 ==> beam@[b].decisions@.last().month_index < month && month <= beam@[b].decisions@.last().month_index + cfg.quarter_step),
            init_low == (current.share_bp < 2000),
            init_low == (init_state.share_bp < 2000),
            // at the first month the beam is the single initial node
            month == 1 ==> beam@.len() == 1 && beam@[0].state == init_state && beam@[0].decisions@.len() == 0,
            // a low-share start never carries a price rise as its first move
            (cfg.quarter_step >= 2 && month > 1 && cfg.price_step_bp > 0 && init_low) ==> (forall|
                b: int,
            |
                0 <= b < beam@.len() ==> (#[trigger] beam@[b]).decisions@[0].action
                    != PlanAction::AdjustPriceFrac(cfg.price_step_bp)),
        decreases cfg.months - month + 1,
    {
        let at_decision = month % cfg.quarter_step == 1;
        proof {
            if month == 1 && cfg.quarter_step >= 2 {
                vstd::arithmetic::div_mod::lemma_small_mod(1nat, cfg.quarter_step as nat);
                assert(at_decision);
            }
        }
        let mut candidates: Vec<Node> = Vec::new();
        let mut b: usize = 0;
        while b < beam.len()
            invariant
                b <= beam@.len(),
                1 <= month <= cfg.months,
                cfg.months <= 1200,
                1 <= cfg.quarter_step,
                at_decision == (month as int % cfg.quarter_step as int == 1),
                0 <= cfg.min_margin_bp <= 10000,
                0 <= cfg.price_step_bp <= 10000,
                0 <= discount_pow <= 10000,
                forall|l: int|
                    0 <= l < beam@.len() ==> spec_planner_state_wf((#[trigger] beam@[l]).state),
                forall|l: int|
                    0 <= l < beam@.len() ==> spec_plan_shape(
                        (#[trigger] beam@[l]).decisions@,
                        *cfg,
                    ),
                forall|l: int|
                    0 <= l < beam@.len() ==> 0 <= (#[trigger] beam@[l]).score <= 10000 * (
                    month as int - 1),
                forall|l: int|
                    0 <= l < beam@.len() ==> (forall|j: int|
                        0 <= j < (#[trigger] beam@[l]).decisions@.len() ==> (#[trigger] beam@[l].decisions@[j]).month_index < month),
                forall|l: int|
                    0 <= l < candidates@.len() ==> spec_planner_state_wf(
                        (#[trigger] candidates@[l]).state,
                    ),
                forall|l: int|
                    0 <= l < candidates@.len() ==> spec_plan_shape(
                        (#[trigger] candidates@[l]).decisions@,
                        *cfg,
                    ),
                forall|l: int|
                    0 <= l < candidates@.len() ==> 0 <= (#[trigger] candidates@[l]).score <= 10000
                        * (month as int),
                forall|l: int|
                    0 <= l < candidates@.len() ==> (forall|j: int|
                        0 <= j < (#[trigger] candidates@[l]).decisions@.len() ==> (
                        #[trigger] candidates@[l].decisions@[j]).month_index < month + 1),
                b > 0 ==> candidates@.len() >= 1,
                at_decision ==> (forall|l: int|
                    0 <= l < candidates@.len() ==> (#[trigger] candidates@[l]).decisions@.len()
                        >= 1),
                (month > 1 && cfg.quarter_step >= 2) ==> (forall|l: int|
                    0 <= l < beam@.len() ==> (#[trigger] beam@[l]).decisions@.len() >= 1),
                (!at_decision && month > 1 && cfg.quarter_step >= 2) ==> (forall|l: int|
                    0 <= l < candidates@.len() ==> (#[trigger] candidates@[l]).decisions@.len()
                        >= 1),
                // progression facts of the beam, mirrored for candidates
                cfg.quarter_step == 1 ==> (forall|l: int|
                    0 <= l < beam@.len() ==> (#[trigger] beam@[l]).decisions@.len() == 0),
                forall|l: int|
                    0 <= l < beam@.len() && (#[trigger] beam@[l]).decisions@.len() >= 1 ==> beam@[l].decisions@[0].month_index == 1,
                forall|l: int, k: int|
                    0 <= l < beam@.len() && 1 <= k < (#[trigger] beam@[l]).decisions@.len() ==> (
                    #[trigger] beam@[l].decisions@[k]).month_index as int == beam@[l].decisions@[k
                        - 1].month_index + cfg.quarter_step,
                cfg.quarter_step >= 2 ==> (forall|l: int|
                    0 <= l < beam@.len() && (#[trigger] beam@[l]).decisions@.len() >= 1 ==> beam@[l].decisions@.last().month_index < month && month <= beam@[l].decisions@.last().month_index + cfg.quarter_step),
                month == 1 ==> beam@.len() == 1 && beam@[0].state == init_state && beam@[0].decisions@.len() == 0,
                (cfg.quarter_step >= 2 && month > 1 && cfg.price_step_bp > 0 && init_low) ==> (
                forall|l: int|
                    0 <= l < beam@.len() ==> (#[trigger] beam@[l]).decisions@[0].action
                        != PlanAction::AdjustPriceFrac(cfg.price_step_bp)),
                init_low == (current.share_bp < 2000),
                init_low == (init_state.share_bp < 2000),
                cfg.quarter_step == 1 ==> (forall|l: int|
                    0 <= l < candidates@.len() ==> (#[trigger] candidates@[l]).decisions@.len()
                        == 0),
                forall|l: int|
                    0 <= l < candidates@.len() && (#[trigger] candidates@[l]).decisions@.len() >= 1
                        ==> candidates@[l].decisions@[0].month_index == 1,
                forall|l: int, k: int|
                    0 <= l < candidates@.len() && 1 <= k < (
                    #[trigger] candidates@[l]).decisions@.len() ==> (#[trigger] candidates@[l].decisions@[k]).month_index as int == candidates@[l].decisions@[k
                        - 1].month_index + cfg.quarter_step,
                cfg.quarter_step >= 2 ==> (forall|l: int|
                    0 <= l < candidates@.len() && (#[trigger] candidates@[l]).decisions@.len() >= 1
                        ==> candidates@[l].decisions@.last().month_index < month + 1 && month + 1
                        <= candidates@[l].decisions@.last().month_index + cfg.quarter_step),
                (cfg.quarter_step >= 2 && cfg.price_step_bp > 0 && init_low) ==> (forall|l: int|
                    0 <= l < candidates@.len() && (#[trigger] candidates@[l]).decisions@.len() >= 1
                        ==> candidates@[l].decisions@[0].action != PlanAction::AdjustPriceFrac(
                        cfg.price_step_bp,
                    )),
            decreases beam@.len() - b,
        {
            if at_decision {
                let low_share = beam[b].state.share_bp < 2000;
                let mut actions: Vec<PlanAction> = Vec::new();
                actions.push(PlanAction::AdjustPriceFrac(-cfg.price_step_bp));
                actions.push(PlanAction::AdjustPriceFrac(0));
                if !low_share {
                    actions.push(PlanAction::AdjustPriceFrac(cfg.price_step_bp));
                }
                actions.push(PlanAction::ScheduleTapeout { expedite: false });
                actions.push(PlanAction::RequestCapacity(cfg.capacity_step_units));
                actions.push(PlanAction::AllocateRndBoost(100));
                proof {
                    assert(forall|j: int|
                        0 <= j < actions@.len() ==> spec_action_in_grammar(
                            #[trigger] actions@[j],
                            *cfg,
                        ));
                    if cfg.price_step_bp > 0 && init_low && month == 1 {
                        assert(low_share);
                        assert(forall|x: int|
                            0 <= x < actions@.len() ==> #[trigger] actions@[x]
                                != PlanAction::AdjustPriceFrac(cfg.price_step_bp));
                    }
                }
                let mut a: usize = 0;
                while a < actions.len()
                    invariant
                        a <= actions@.len(),
                        b < beam@.len(),
                        1 <= month <= cfg.months,
                        cfg.months <= 1200,
                        1 <= cfg.quarter_step,
                        month as int % cfg.quarter_step as int == 1,
                        0 <= cfg.min_margin_bp <= 10000,
                        0 <= cfg.price_step_bp <= 10000,
                        0 <= discount_pow <= 10000,
                        forall|j: int|
                            0 <= j < actions@.len() ==> spec_action_in_grammar(
                                #[trigger] actions@[j],
                                *cfg,
                            ),
                        spec_planner_state_wf(beam@[b as int].state),
                        spec_plan_shape(beam@[b as int].decisions@, *cfg),
                        0 <= beam@[b as int].score <= 10000 * (month as int - 1),
                        forall|j: int|
                            0 <= j < beam@[b as int].decisions@.len() ==> (#[trigger] beam@[b as int].decisions@[j]).month_index < month,
                        forall|l: int|
                            0 <= l < candidates@.len() ==> spec_planner_state_wf(
                                (#[trigger] candidates@[l]).state,
                            ),
                        forall|l: int|
                            0 <= l < candidates@.len() ==> spec_plan_shape(
                                (#[trigger] candidates@[l]).decisions@,
                                *cfg,
                            ),
                        forall|l: int|
                            0 <= l < candidates@.len() ==> 0 <= (#[trigger] candidates@[l]).score
                                <= 10000 * (month as int),
                        forall|l: int|
                            0 <= l < candidates@.len() ==> (forall|j: int|
                                0 <= j < (#[trigger] candidates@[l]).decisions@.len() ==> (
                                #[trigger] candidates@[l].decisions@[j]).month_index < month + 1),
                        forall|l: int|
                            0 <= l < candidates@.len() ==> (#[trigger] candidates@[l]).decisions@.len() >= 1,
                        a > 0 || b > 0 ==> candidates@.len() >= 1,
                        // node-local progression facts and the curated list
                        beam@[b as int].decisions@.len() >= 1 ==> beam@[b as int].decisions@[0].month_index == 1,
                        forall|k: int|
                            1 <= k < beam@[b as int].decisions@.len()
                                ==> (#[trigger] beam@[b as int].decisions@[k]).month_index as int
                                == beam@[b as int].decisions@[k - 1].month_index
                                + cfg.quarter_step,
                        cfg.quarter_step >= 2,
                        beam@[b as int].decisions@.len() >= 1
                            ==> beam@[b as int].decisions@.last().month_index < month && month
                            <= beam@[b as int].decisions@.last().month_index + cfg.quarter_step,
                        beam@[b as int].decisions@.len() == 0 ==> month == 1,
                        (cfg.price_step_bp > 0 && init_low && month > 1)
                            ==> beam@[b as int].decisions@[0].action
                            != PlanAction::AdjustPriceFrac(cfg.price_step_bp),
                        (cfg.price_step_bp > 0 && init_low && month == 1) ==> (forall|x: int|
                            0 <= x < actions@.len() ==> #[trigger] actions@[x]
                                != PlanAction::AdjustPriceFrac(cfg.price_step_bp)),
                        forall|l: int|
                            0 <= l < candidates@.len() && (#[trigger] candidates@[l]).decisions@.len() >= 1
                                ==> candidates@[l].decisions@[0].month_index == 1,
                        forall|l: int, k: int|
                            0 <= l < candidates@.len() && 1 <= k < (#[trigger] candidates@[l]).decisions@.len()
                                ==> (#[trigger] candidates@[l].decisions@[k]).month_index as int
                                == candidates@[l].decisions@[k - 1].month_index
                                + cfg.quarter_step,
                        forall|l: int|
                            0 <= l < candidates@.len() && (#[trigger] candidates@[l]).decisions@.len() >= 1
                                ==> candidates@[l].decisions@.last().month_index < month + 1
                                && month + 1 <= candidates@[l].decisions@.last().month_index
                                + cfg.quarter_step,
                        (cfg.price_step_bp > 0 && init_low) ==> (forall|l: int|
                            0 <= l < candidates@.len() && (#[trigger] candidates@[l]).decisions@.len() >= 1
                                ==> candidates@[l].decisions@[0].action
                                != PlanAction::AdjustPriceFrac(cfg.price_step_bp)),
                    decreases actions@.len() - a,
                {
                    let action = actions[a];
                    let mut s = beam[b].state;
                    apply_action(&mut s, action, cfg);
                    let util = simulate_month(
                        &mut s,
                        base_demand,
                        elasticity_milli,
                        segment_count,
                        w,
                        cfg,
                    );
                    proof {
                        assert(0 <= util * discount_pow <= 10000 * 10000) by (nonlinear_arith)
                            requires
                                0 <= util <= 10000,
                                0 <= discount_pow <= 10000,
                        ;
                        vstd::arithmetic::div_mod::lemma_div_pos_is_pos(
                            util * discount_pow,
                            10000,
                        );
                        vstd::arithmetic::div_mod::lemma_multiply_divide_le(
                            util * discount_pow,
                            10000,
                            10000,
                        );
                    }
                    let month_gain: i64 = util * discount_pow / 10000;
                    let mut d: Vec<PlanStepDecision> = Vec::new();
                    let mut k: usize = 0;
                    while k < beam[b].decisions.len()
                        invariant
                            b < beam@.len(),
                            k <= beam@[b as int].decisions@.len(),
                            d@.len() == k,
                            forall|j: int|
                                0 <= j < k ==> #[trigger] d@[j] == beam@[b as int].decisions@[j],
                        decreases beam@[b as int].decisions@.len() - k,
                    {
                        d.push(beam[b].decisions[k]);
                        k += 1;
                    }
                    proof {
                        assert(d@ =~= beam@[b as int].decisions@);
                        if beam@[b as int].decisions@.len() >= 1 {
                            let last = beam@[b as int].decisions@.last().month_index as int;
                            lemma_next_decision_month(last, month as int, cfg.quarter_step as int);
                        }
                    }
                    d.push(PlanStepDecision { month_index: month, action });
                    candidates.push(
                        Node { state: s, score: beam[b].score + month_gain, decisions: d },
                    );
                    a += 1;
                }
            } else {
                let mut s = beam[b].state;
                let util = simulate_month(
                    &mut s,
                    base_demand,
                    elasticity_milli,
                    segment_count,
                    w,
                    cfg,
                );
                proof {
                    assert(0 <= util * discount_pow <= 10000 * 10000) by (nonlinear_arith)
                        requires
                            0 <= util <= 10000,
                            0 <= discount_pow <= 10000,
                    ;
                    vstd::arithmetic::div_mod::lemma_div_pos_is_pos(util * discount_pow, 10000);
                    vstd::arithmetic::div_mod::lemma_multiply_divide_le(
                        util * discount_pow,
                        10000,
                        10000,
                    );
                }
                let month_gain: i64 = util * discount_pow / 10000;
                let mut d: Vec<PlanStepDecision> = Vec::new();
                let mut k: usize = 0;
                while k < beam[b].decisions.len()
                    invariant
                        b < beam@.len(),
                        k <= beam@[b as int].decisions@.len(),
                        d@.len() == k,
                        forall|j: int|
                            0 <= j < k ==> #[trigger] d@[j] == beam@[b as int].decisions@[j],
                    decreases beam@[b as int].decisions@.len() - k,
                {
                    d.push(beam[b].decisions[k]);
                    k += 1;
                }
                proof {
                    assert(d@ =~= beam@[b as int].decisions@);
                    if cfg.quarter_step >= 2 && beam@[b as int].decisions@.len() >= 1 {
                        let last = beam@[b as int].decisions@.last().month_index as int;
                        if month as int == last + cfg.quarter_step {
                            vstd::arithmetic::div_mod::lemma_mod_add_multiples_vanish(
                                last,
                                cfg.quarter_step as int,
                            );
                            assert(month as int % cfg.quarter_step as int == 1);
                            assert(false);
                        }
                    }
                }
                candidates.push(Node { state: s, score: beam[b].score + month_gain, decisions: d });
            }
            b += 1;
        }
        // keep the top beam_width nodes by score, ties to the earlier node
        let width = if cfg.beam_width < 1 {
            1
        } else {
            cfg.beam_width
        };
        let mut next: Vec<Node> = Vec::new();
        let mut taken: Vec<bool> = Vec::new();
        let mut k: usize = 0;
        while k < candidates.len()
            invariant
                k <= candidates@.len(),
                taken@.len() == k,
                forall|l: int| 0 <= l < k ==> !(#[trigger] taken@[l]),
            decreases candidates@.len() - k,
        {
            taken.push(false);
            k += 1;
        }
        proof {
            lemma_count_taken_none(taken@, taken@.len() as int);
        }
        let mut picked: usize = 0;
        while picked < width && picked < candidates.len()
            invariant
                width >= 1,
                candidates@.len() >= 1,
                taken@.len() == candidates@.len(),
                next@.len() == picked,
                picked <= candidates@.len(),
                spec_count_taken(taken@, taken@.len() as int) == picked,
                forall|l: int|
                    0 <= l < candidates@.len() ==> spec_planner_state_wf(
                        (#[trigger] candidates@[l]).state,
                    ),
                forall|l: int|
                    0 <= l < candidates@.len() ==> spec_plan_shape(
                        (#[trigger] candidates@[l]).decisions@,
                        *cfg,
                    ),
                forall|l: int|
                    0 <= l < candidates@.len() ==> 0 <= (#[trigger] candidates@[l]).score <= 10000
                        * (month as int),
                forall|l: int|
                    0 <= l < candidates@.len() ==> (forall|j: int|
                        0 <= j < (#[trigger] candidates@[l]).decisions@.len() ==> (
                        #[trigger] candidates@[l].decisions@[j]).month_index < month + 1),
                forall|l: int|
                    0 <= l < next@.len() ==> spec_planner_state_wf((#[trigger] next@[l]).state),
                forall|l: int|
                    0 <= l < next@.len() ==> spec_plan_shape((#[trigger] next@[l]).decisions@, *cfg),
                forall|l: int|
                    0 <= l < next@.len() ==> 0 <= (#[trigger] next@[l]).score <= 10000 * (
                    month as int),
                forall|l: int|
                    0 <= l < next@.len() ==> (forall|j: int|
                        0 <= j < (#[trigger] next@[l]).decisions@.len() ==> (#[trigger] next@[l].decisions@[j]).month_index < month + 1),
                (at_decision || (month > 1 && cfg.quarter_step >= 2)) ==> (forall|l: int|
                    0 <= l < candidates@.len() ==> (#[trigger] candidates@[l]).decisions@.len()
                        >= 1),
                (at_decision || (month > 1 && cfg.quarter_step >= 2)) ==> (forall|l: int|
                    0 <= l < next@.len() ==> (#[trigger] next@[l]).decisions@.len() >= 1),
                // the progression facts survive the truncation
                cfg.quarter_step == 1 ==> (forall|l: int|
                    0 <= l < candidates@.len() ==> (#[trigger] candidates@[l]).decisions@.len()
                        == 0),
                cfg.quarter_step == 1 ==> (forall|l: int|
                    0 <= l < next@.len() ==> (#[trigger] next@[l]).decisions@.len() == 0),
                forall|l: int|
                    0 <= l < candidates@.len() && (#[trigger] candidates@[l]).decisions@.len() >= 1
                        ==> candidates@[l].decisions@[0].month_index == 1,
                forall|l: int|
                    0 <= l < next@.len() && (#[trigger] next@[l]).decisions@.len() >= 1 ==> next@[l].decisions@[0].month_index == 1,
                forall|l: int, k: int|
                    0 <= l < candidates@.len() && 1 <= k < (#[trigger] candidates@[l]).decisions@.len()
                        ==> (#[trigger] candidates@[l].decisions@[k]).month_index as int
                        == candidates@[l].decisions@[k - 1].month_index + cfg.quarter_step,
                forall|l: int, k: int|
                    0 <= l < next@.len() && 1 <= k < (#[trigger] next@[l]).decisions@.len() ==> (
                    #[trigger] next@[l].decisions@[k]).month_index as int == next@[l].decisions@[k
                        - 1].month_index + cfg.quarter_step,
                cfg.quarter_step >= 2 ==> (forall|l: int|
                    0 <= l < candidates@.len() && (#[trigger] candidates@[l]).decisions@.len() >= 1
                        ==> candidates@[l].decisions@.last().month_index < month + 1 && month + 1
                        <= candidates@[l].decisions@.last().month_index + cfg.quarter_step),
                cfg.quarter_step >= 2 ==> (forall|l: int|
                    0 <= l < next@.len() && (#[trigger] next@[l]).decisions@.len() >= 1 ==> next@[l].decisions@.last().month_index < month + 1 && month + 1 <= next@[l].decisions@.last().month_index + cfg.quarter_step),
                (cfg.quarter_step >= 2 && cfg.price_step_bp > 0 && init_low) ==> (forall|l: int|
                    0 <= l < candidates@.len() && (#[trigger] candidates@[l]).decisions@.len() >= 1
                        ==> candidates@[l].decisions@[0].action != PlanAction::AdjustPriceFrac(
                        cfg.price_step_bp,
                    )),
                (cfg.quarter_step >= 2 && cfg.price_step_bp > 0 && init_low) ==> (forall|l: int|
                    0 <= l < next@.len() && (#[trigger] next@[l]).decisions@.len() >= 1 ==> next@[l].decisions@[0].action != PlanAction::AdjustPriceFrac(cfg.price_step_bp)),
            decreases candidates@.len() - picked,
        {
            // linear scan for the best remaining candidate
            let mut best: usize = 0;
            let mut found = false;
            let mut best_score: i64 = 0;
            let mut l: usize = 0;
            while l < candidates.len()
                invariant
                    l <= candidates@.len(),
                    taken@.len() == candidates@.len(),
                    found ==> best < candidates@.len() && !taken@[best as int] && best_score
                        == candidates@[best as int].score,
                    !found ==> forall|l2: int| 0 <= l2 < l ==> #[trigger] taken@[l2],
                decreases candidates@.len() - l,
            {
                if !taken[l] {
                    if !found || candidates[l].score > best_score {
                        best = l;
                        best_score = candidates[l].score;
                        found = true;
                    }
                }
                l += 1;
            }
            proof {
                if !found {
                    lemma_count_taken_full(taken@, taken@.len() as int);
                    assert(false);
                }
            }
            let ghost old_taken = taken@;
            taken.set(best, true);
            proof {
                lemma_count_taken_set(old_taken, taken@, best as int, taken@.len() as int);
            }
            let src_node = &candidates[best];
            let mut d: Vec<PlanStepDecision> = Vec::new();
            let mut k2: usize = 0;
            while k2 < src_node.decisions.len()
                invariant
                    best < candidates@.len(),
                    *src_node == candidates@[best as int],
                    k2 <= src_node.decisions@.len(),
                    d@.len() == k2,
                    forall|j: int| 0 <= j < k2 ==> #[trigger] d@[j] == src_node.decisions@[j],
                decreases src_node.decisions@.len() - k2,
            {
                d.push(src_node.decisions[k2]);
                k2 += 1;
            }
            proof {
                assert(d@ =~= candidates@[best as int].decisions@);
            }
            next.push(Node { state: src_node.state, score: src_node.score, decisions: d });
            picked += 1;
        }
        beam = next;
        proof {
            assert(0 <= discount_pow * discount <= 10000 * 10000) by (nonlinear_arith)
                requires
                    0 <= discount_pow <= 10000,
                    0 <= discount <= 10000,
            ;
            vstd::arithmetic::div_mod::lemma_div_pos_is_pos(discount_pow * discount, 10000);
            vstd::arithmetic::div_mod::lemma_multiply_divide_le(
                discount_pow * discount,
                10000,
                10000,
            );
        }
        let dp: i64 = discount_pow * discount / 10000;
        discount_pow = dp;
        month += 1;
    }
    // return the best surviving node's history
    let mut best: usize = 0;
    let mut l: usize = 1;
    while l < beam.len()
        invariant
            beam@.len() >= 1,
            best < beam@.len(),
            l <= beam@.len(),
        decreases beam@.len() - l,
    {
        if beam[l].score > beam[best].score {
            best = l;
        }
        l += 1;
    }
    let chosen = &beam[best];
    let mut d: Vec<PlanStepDecision> = Vec::new();
    let mut k: usize = 0;
    while k < chosen.decisions.len()
        invariant
            best < beam@.len(),
            *chosen == beam@[best as int],
            k <= chosen.decisions@.len(),
            d@.len() == k,
            forall|j: int| 0 <= j < k ==> #[trigger] d@[j] == chosen.decisions@[j],
        decreases chosen.decisions@.len() - k,
    {
        d.push(chosen.decisions[k]);
        k += 1;
    }
    proof {
        assert(d@ =~= beam@[best as int].decisions@);
    }
    PlanResult { decisions: d, expected_score: chosen.score }
}

/// Two consecutive decision months are exactly one quarter step apart.
proof fn lemma_next_decision_month(last: int, month: int, qs: int)
    requires
        qs >= 2,
        last % qs == 1,
        month % qs == 1,
        last < month <= last + qs,
    ensures
        month == last + qs,
{
    vstd::arithmetic::div_mod::lemma_fundamental_div_mod(month, qs);
    vstd::arithmetic::div_mod::lemma_fundamental_div_mod(last, qs);
    let c = month / qs - last / qs;
    assert(month - last == c * qs) by (nonlinear_arith)
        requires
            month == qs * (month / qs) + month % qs,
            last == qs * (last / qs) + last % qs,
            month % qs == last % qs,
            c == month / qs - last / qs,
    ;
    assert(c == 1) by (nonlinear_arith)
        requires
            0 < c * qs <= qs,
            qs >= 2,
    ;
}

/// Number of already-taken candidates among the first `n`.
spec fn spec_count_taken(taken: Seq<bool>, n: int) -> int
    decreases n,
{
    if n <= 0 {
        0
    } else {
        spec_count_taken(taken, n - 1) + if taken[n - 1] {
            1int
        } else {
            0int
        }
    }
}

proof fn lemma_count_taken_none(taken: Seq<bool>, n: int)
    requires
        forall|l: int| 0 <= l < n ==> !(#[trigger] taken[l]),
    ensures
        spec_count_taken(taken, n) == 0,
    decreases n,
{
    if n > 0 {
        lemma_count_taken_none(taken, n - 1);
    }
}

proof fn lemma_count_taken_full(taken: Seq<bool>, n: int)
    requires
        forall|l: int| 0 <= l < n ==> #[trigger] taken[l],
    ensures
        spec_count_taken(taken, n) == n || n < 0,
    decreases n,
{
    if n > 0 {
        lemma_count_taken_full(taken, n - 1);
    }
}

proof fn lemma_count_taken_set(old_t: Seq<bool>, new_t: Seq<bool>, p: int, n: int)
    requires
        0 <= p < n,
        !old_t[p],
        new_t[p],
        forall|l: int| 0 <= l < n && l != p ==> old_t[l] == new_t[l],
    ensures
        spec_count_taken(new_t, n) == spec_count_taken(old_t, n) + 1,
    decreases n,
{
    if p == n - 1 {
        lemma_count_taken_agree(old_t, new_t, n - 1);
    } else {
        lemma_count_taken_set(old_t, new_t, p, n - 1);
    }
}

proof fn lemma_count_taken_agree(a: Seq<bool>, b: Seq<bool>, n: int)
    requires
        forall|l: int| 0 <= l < n ==> a[l] == b[l],
    ensures
        spec_count_taken(a, n) == spec_count_taken(b, n),
    decreases n,
{
    if n > 0 {
        lemma_count_taken_agree(a, b, n - 1);
    }
}

} // verus!
