//! Tick scheduler: one simulated calendar month as a fixed, ordered
//! pipeline over an explicitly owned simulation state.
//!
//! The ordering is a correctness invariant: mod effects, market trends,
//! demand allocation, R&D, capacity, production, tape-outs, sales, contract
//! billing, cash settlement, tactics, the quarterly planner, the campaign
//! and tutorial state machines, and finally the calendar.  Each step's
//! output is fully committed before the next step begins, and a tick either
//! runs to completion or does not happen; the only pseudo-randomness is the
//! seeded noise generator, so equal seeds and actions give equal snapshots.

use crate::apportion::{allocate_sold_units, spec_sum};
use crate::campaign::{campaign_step, CampaignInputs, CampaignScenarioRes, CampaignStateRes};
use crate::date::{add_months, spec_add_months, spec_date_valid, spec_month_index, Date};
use crate::domain::{Company, ProductKind, ProductSpec, MicroArch, SimConfig, TechNodeId, World};
use crate::econ::demand;
use crate::effects::{spec_ledger_wf, spec_nodes_bounded, tick_effects, EffectSpec, EffectsLedger};
use crate::ledger::{
    bill_contracts, monthly_capacity, spec_sat_i64, CapacityBook, FoundryContract,
};
use crate::market::{
    compute_trends, spec_effects_wf, spec_market_cfg_wf, update_market_effects, window_active,
    MarketConfigRes, MarketEvent, MarketModEffects, MarketTrends,
};
use crate::pipeline::{advance_tapeouts, compute_unit_cost, ProductCostCfg, ProductPipeline};
use crate::planner::{plan_horizon, CurrentKpis, PlanAction, PlannerConfig};
use crate::tactics::{
    decide_tactics, min_price, scale_price, spec_min_price, CompanyMetrics, ScoreWeights,
    TacticsConfig,
};
use crate::planner::expected_share_from_price;
use crate::tutorial::{tutorial_step, TutorialState};
use vstd::prelude::*;

verus! {

/// Dies produced from a month's wafers: fifty per wafer, saturating.
pub open spec fn spec_produced_units(wafers: int) -> int {
    if wafers * 50 > u64::MAX {
        u64::MAX as int
    } else {
        wafers * 50
    }
}

/// Clamp into the `u64` range.
pub open spec fn spec_sat_u64(x: int) -> int {
    if x > u64::MAX {
        u64::MAX as int
    } else if x < 0 {
        0
    } else {
        x
    }
}

/// The next month's date, held at the supported calendar horizon.
pub open spec fn spec_next_month(d: crate::date::Date) -> crate::date::Date {
    let n = spec_add_months(d, 1);
    if n.year <= 9000 {
        n
    } else {
        d
    }
}

/// The supported currency magnitude, in cents.
pub open spec fn spec_money_cap() -> int {
    0x20000000000000
}

/// Running KPI statistics accumulated across ticks.
#[derive(Clone, Copy, Debug, PartialEq, Eq, Structural)]
pub struct Stats {
    pub months_run: u32,
    pub revenue_cents: i64,
    pub profit_cents: i64,
    pub cogs_cents: i64,
    pub contract_costs_cents: i64,
    pub market_share_bp: i64,
    pub last_share_bp: i64,
    pub rd_progress_bp: i64,
    pub last_sold_units: u64,
    pub output_units: u64,
    pub defect_units: u64,
    pub inventory_units: u64,
    pub last_contract_costs_cents: i64,
}

impl Stats {
    pub fn new() -> (r: Stats)
        ensures
            r == spec_stats_zero(),
    {
        Stats {
            months_run: 0,
            revenue_cents: 0,
            profit_cents: 0,
            cogs_cents: 0,
            contract_costs_cents: 0,
            market_share_bp: 0,
            last_share_bp: 0,
            rd_progress_bp: 0,
            last_sold_units: 0,
            output_units: 0,
            defect_units: 0,
            inventory_units: 0,
            last_contract_costs_cents: 0,
        }
    }
}

pub open spec fn spec_stats_zero() -> Stats {
    Stats {
        months_run: 0,
        revenue_cents: 0,
        profit_cents: 0,
        cogs_cents: 0,
        contract_costs_cents: 0,
        market_share_bp: 0,
        last_share_bp: 0,
        rd_progress_bp: 0,
        last_sold_units: 0,
        output_units: 0,
        defect_units: 0,
        inventory_units: 0,
        last_contract_costs_cents: 0,
    }
}

/// Current price book: average selling price and unit cost.
#[derive(Clone, Copy, Debug, PartialEq, Eq, Structural)]
pub struct Pricing {
    pub asp_cents: i64,
    pub unit_cost_cents: i64,
}

impl Default for Pricing {
    fn default() -> (r: Pricing)
        ensures
            r == (Pricing { asp_cents: 30000, unit_cost_cents: 20000 }),
    {
        Pricing { asp_cents: 30000, unit_cost_cents: 20000 }
    }
}

/// Product appeal in basis points, bounded by releases.
#[derive(Clone, Copy, Debug, PartialEq, Eq, Structural)]
pub struct ProductAppeal(pub i64);

/// Characteristics of the currently active product.
#[derive(Clone, Copy, Debug, PartialEq, Eq, Structural)]
pub struct ActiveProduct {
    pub perf_index_bp: i64,
}

/// Weights for product attractiveness in sales, in basis points.
#[derive(Clone, Copy, Debug, PartialEq, Eq, Structural)]
pub struct ProductWeights {
    pub perf_bp: i64,
    pub price_rel_bp: i64,
    pub appeal_bp: i64,
}

impl Default for ProductWeights {
    fn default() -> (r: ProductWeights)
        ensures
            r == (ProductWeights { perf_bp: 7000, price_rel_bp: 0, appeal_bp: 3000 }),
    {
        ProductWeights { perf_bp: 7000, price_rel_bp: 0, appeal_bp: 3000 }
    }
}

/// Strategy configuration: utility weights, planner and tactics settings.
#[derive(Clone, Copy, Debug, PartialEq, Eq, Structural)]
pub struct AiConfig {
    pub weights: ScoreWeights,
    pub planner: PlannerConfig,
    pub tactics: TacticsConfig,
    pub product_weights: ProductWeights,
    pub product_cost: ProductCostCfg,
}

impl Default for AiConfig {
    fn default() -> (r: AiConfig)
        ensures
            r.weights == (ScoreWeights {
                share_bp: 4000,
                margin_bp: 3000,
                liquidity_bp: 2000,
                portfolio_bp: 1000,
            }),
            r.planner == crate::planner::spec_default_planner(),
            r.tactics == crate::tactics::spec_default_tactics(),
            r.product_weights == (ProductWeights { perf_bp: 7000, price_rel_bp: 0, appeal_bp: 3000 }),
            r.product_cost == (ProductCostCfg {
                usable_die_area_mm2_milli: 6200000,
                yield_overhead_bp: 500,
            }),
    {
        AiConfig {
            weights: ScoreWeights::default(),
            planner: PlannerConfig::default(),
            tactics: TacticsConfig::default(),
            product_weights: ProductWeights::default(),
            product_cost: ProductCostCfg::default(),
        }
    }
}

/// Cash-flow settlement lags in days; zero means same-month settlement.
#[derive(Clone, Copy, Debug, PartialEq, Eq, Structural)]
pub struct FinanceConfig {
    pub revenue_cash_in_days: u16,
    pub cogs_cash_out_days: u16,
    pub rd_cash_out_days: u16,
}

impl Default for FinanceConfig {
    fn default() -> (r: FinanceConfig)
        ensures
            r == (FinanceConfig {
                revenue_cash_in_days: 0,
                cogs_cash_out_days: 0,
                rd_cash_out_days: 0,
            }),
    {
        FinanceConfig { revenue_cash_in_days: 0, cogs_cash_out_days: 0, rd_cash_out_days: 0 }
    }
}

/// One-off cash events within the month (expedite fees).
#[derive(Clone, Copy, Debug, PartialEq, Eq, Structural)]
pub struct FinanceEvents {
    pub expedite_spend_cents: i64,
}

/// Player-controlled monthly R&D budget in cents.
#[derive(Clone, Copy, Debug, PartialEq, Eq, Structural)]
pub struct RnDBudgetCents(pub i64);

/// Difficulty parameters applied by the campaign loader.
#[derive(Clone, Copy, Debug, PartialEq, Eq, Structural)]
pub struct DifficultyParams {
    pub default_take_or_pay_bp: i64,
}

impl Default for DifficultyParams {
    fn default() -> (r: DifficultyParams)
        ensures
            r == (DifficultyParams { default_take_or_pay_bp: 10000 }),
    {
        DifficultyParams { default_take_or_pay_bp: 10000 }
    }
}

/// Snapshot of aggregated KPIs after running the simulation.
#[derive(Clone, Copy, Debug, PartialEq, Eq, Structural)]
pub struct SimSnapshot {
    pub months_run: u32,
    pub cash_cents: i64,
    pub revenue_cents: i64,
    pub cogs_cents: i64,
    pub profit_cents: i64,
    pub contract_costs_cents: i64,
    pub asp_cents: i64,
    pub unit_cost_cents: i64,
    pub market_share_bp: i64,
    pub rd_progress_bp: i64,
    pub output_units: u64,
    pub defect_units: u64,
    pub inventory_units: u64,
}

/// Flat row format handed to the telemetry export collaborator.
#[derive(Clone, Copy, Debug, PartialEq, Eq, Structural)]
pub struct TelemetryRow {
    pub month_index: u32,
    pub output_units: u64,
    pub sold_units: u64,
    pub asp_cents: i64,
    pub unit_cost_cents: i64,
    pub margin_cents: i64,
    pub revenue_cents: i64,
}

/// Per-month telemetry captured after each tick.
#[derive(Clone, Copy, Debug, PartialEq, Eq, Structural)]
pub struct MonthlyTelemetry {
    pub month_index: u32,
    pub output_units: u64,
    pub sold_units: u64,
    pub asp_cents: i64,
    pub unit_cost_cents: i64,
    pub margin_cents: i64,
    pub revenue_cents: i64,
}

/// The whole simulation state, exclusively owned by one in-flight
/// simulation; the host serialises concurrent tick requests.
#[derive(Clone, Debug)]
pub struct SimState {
    pub domain: World,
    pub config: SimConfig,
    pub stats: Stats,
    pub capacity_wafers: u64,
    pub book: CapacityBook,
    pub pricing: Pricing,
    pub appeal: ProductAppeal,
    pub active_product: ActiveProduct,
    pub pipeline: ProductPipeline,
    pub rd_budget: RnDBudgetCents,
    pub finance: FinanceConfig,
    pub fevents: FinanceEvents,
    pub market_cfg: MarketConfigRes,
    pub trends: MarketTrends,
    pub effects: MarketModEffects,
    pub events: Vec<MarketEvent>,
    pub effect_specs: Vec<EffectSpec>,
    pub effects_ledger: EffectsLedger,
    pub campaign: Option<CampaignScenarioRes>,
    pub campaign_state: CampaignStateRes,
    pub tutorial: TutorialState,
    pub ai: AiConfig,
    pub difficulty: DifficultyParams,
}

/// Well-formedness of a simulation state: every fixed-point field within
/// its range, dates valid and away from the calendar horizon, and the
/// collection sizes the ledger arithmetic relies on.
pub open spec fn spec_sim_wf(s: SimState) -> bool {
    &&& spec_date_valid(s.domain.macro_state.date)
    &&& 1 <= s.domain.macro_state.date.year <= 9000
    &&& spec_nodes_bounded(s.domain)
    &&& forall|j: int|
        0 <= j < s.domain.companies@.len() ==> -spec_money_cap() <= (#[trigger] s.domain.companies@[j]).cash_cents <= spec_money_cap() && 0 <= s.domain.companies@[j].debt_cents
            <= spec_money_cap()
    &&& forall|j: int|
        0 <= j < s.domain.segments@.len() ==> -1000000 <= (#[trigger] s.domain.segments@[j]).price_elasticity_milli <= 1000000
    &&& 1 <= s.pricing.asp_cents <= spec_money_cap()
    &&& 0 <= s.pricing.unit_cost_cents <= 0x10000000000000
    &&& 0 <= s.appeal.0 <= 10000
    &&& 0 <= s.active_product.perf_index_bp <= 10000
    &&& 0 <= s.stats.market_share_bp <= 10000
    &&& 0 <= s.stats.last_share_bp <= 10000
    &&& 0 <= s.stats.rd_progress_bp <= 10000
    &&& s.book.contracts@.len() <= 0x100000000
    &&& spec_market_cfg_wf(s.market_cfg.segments@)
    &&& spec_effects_wf(s.effects.0@)
    &&& spec_ledger_wf(s.effects_ledger.active@)
    &&& crate::market::spec_events_wf(s.events@)
    &&& forall|j: int|
        0 <= j < s.events@.len() ==> spec_date_valid((#[trigger] s.events@[j]).start)
            && spec_month_index(s.events@[j].start) + s.events@[j].months <= 12 * 9999 + 11
    &&& forall|j: int|
        0 <= j < s.effect_specs@.len() ==> spec_date_valid((#[trigger] s.effect_specs@[j]).start)
            && spec_month_index(s.effect_specs@[j].start) + s.effect_specs@[j].months <= 12 * 9999
            + 11 && -100000000 <= s.effect_specs@[j].cost_increase_milli <= 100000000
    &&& forall|j: int|
        0 <= j < s.pipeline.queue@.len() ==> (#[trigger] s.pipeline.queue@[j]).product.die_area_mm2_milli > 0
    &&& 0 <= s.tutorial.initial_asp_cents <= spec_money_cap()
    &&& 0 <= s.rd_budget.0 <= spec_money_cap()
    &&& 0 <= s.fevents.expedite_spend_cents <= spec_money_cap()
    &&& spec_tactics_cfg_wf(s.ai.tactics)
    &&& spec_planner_cfg_wf(s.ai.planner)
    &&& 0 <= s.ai.product_weights.perf_bp <= 10000
    &&& 0 <= s.ai.product_weights.appeal_bp <= 10000
}

pub open spec fn spec_tactics_cfg_wf(t: TacticsConfig) -> bool {
    &&& 0 <= t.min_margin_bp <= 10000
    &&& 0 <= t.price_epsilon_bp <= 10000
    &&& 0 <= t.shortage_raise_epsilon_bp <= 10000
    &&& 0 <= t.rd_cut_on_cash_low_bp <= 10000
    &&& 0 <= t.rd_boost_on_expedite_bp <= 10000
}

pub open spec fn spec_planner_cfg_wf(p: PlannerConfig) -> bool {
    &&& 1 <= p.quarter_step <= 1200
    &&& p.months <= 1200
    &&& 0 <= p.min_margin_bp <= 10000
    &&& 0 <= p.price_step_bp <= 10000
}

/// Saturating signed addition within the currency range.
fn sat_add_money(a: i64, b: i64) -> (r: i64)
    requires
        -0x20000000000000 <= a <= 0x20000000000000,
        -0x20000000000000 <= b <= 0x20000000000000,
    ensures
        r as int == spec_sat_money(a as int + b as int),
{
    let s: i128 = a as i128 + b as i128;
    if s > 0x20000000000000i128 {
        0x20000000000000
    } else if s < -0x20000000000000i128 {
        -0x20000000000000
    } else {
        s as i64
    }
}

/// Clamp an exact amount into the currency range.
pub open spec fn spec_sat_money(x: int) -> int {
    if x > spec_money_cap() {
        spec_money_cap()
    } else if x < -spec_money_cap() {
        -spec_money_cap()
    } else {
        x
    }
}

/// Margin ratio in basis points from cumulative figures: profit over
/// revenue capped at one whole, zero for a loss, and a neutral 30% when no
/// revenue exists yet.
pub open spec fn spec_margin_ratio_bp(revenue_cents: int, profit_cents: int) -> int {
    if revenue_cents <= 0 {
        3000
    } else if profit_cents <= 0 {
        0
    } else if profit_cents * 10000 / revenue_cents > 10000 {
        10000
    } else {
        profit_cents * 10000 / revenue_cents
    }
}

/// Liquidity proxy in basis points: cash over debt plus one dollar, zero
/// for non-positive cash, capped at one hundred thousand wholes.
pub open spec fn spec_liquidity_bp(cash_cents: int, debt_cents: int) -> int {
    if cash_cents <= 0 {
        0
    } else if cash_cents * 10000 / (debt_cents + 100) > 1000000000 {
        1000000000
    } else {
        cash_cents * 10000 / (debt_cents + 100)
    }
}

/// Portfolio diversification in basis points: a fifth of a whole per
/// addressed segment, saturating at one whole.
pub open spec fn spec_portfolio_div_bp(segments: int) -> int {
    if segments >= 5 {
        10000
    } else {
        segments * 2000
    }
}

/// Build company metrics from the world and the running statistics: margin
/// from cumulative profit over revenue, liquidity from the first company's
/// cash over debt, diversification from the segment count.
pub fn metrics_from_world(
    world: &World,
    share_bp: i64,
    revenue_cents: i64,
    profit_cents: i64,
) -> (m: CompanyMetrics)
    requires
        forall|j: int|
            0 <= j < world.companies@.len() ==> -spec_money_cap() <= (
            #[trigger] world.companies@[j]).cash_cents <= spec_money_cap() && 0
                <= world.companies@[j].debt_cents <= spec_money_cap(),
    ensures
        m.share_12m_bp == share_bp,
        m.margin_ratio_bp as int == spec_margin_ratio_bp(
            revenue_cents as int,
            profit_cents as int,
        ),
        m.liquidity_k_bp as int == spec_liquidity_bp(
            if world.companies@.len() > 0 {
                world.companies@[0].cash_cents as int
            } else {
                0
            },
            if world.companies@.len() > 0 {
                world.companies@[0].debt_cents as int
            } else {
                0
            },
        ),
        m.portfolio_div_bp as int == spec_portfolio_div_bp(world.segments@.len() as int),
{
    let margin_bp: i64 = if revenue_cents > 0 {
        if profit_cents <= 0 {
            0
        } else {
            proof {
                vstd::arithmetic::div_mod::lemma_div_pos_is_pos(
                    (profit_cents as int) * 10000,
                    revenue_cents as int,
                );
                assert((profit_cents as int) * 10000 <= (revenue_cents as int) * ((
                profit_cents as int) * 10000)) by (nonlinear_arith)
                    requires
                        revenue_cents >= 1,
                        profit_cents >= 1,
                ;
                vstd::arithmetic::div_mod::lemma_multiply_divide_le(
                    (profit_cents as int) * 10000,
                    revenue_cents as int,
                    (profit_cents as int) * 10000,
                );
            }
            let m128: i128 = (profit_cents as i128) * 10000 / (revenue_cents as i128);
            let m = if m128 > 10000 {
                10000i64
            } else {
                m128 as i64
            };
            m
        }
    } else {
        3000
    };
    let (cash, debt) = if world.companies.len() > 0 {
        (world.companies[0].cash_cents, world.companies[0].debt_cents)
    } else {
        (0, 0)
    };
    let liq_bp: i64 = if cash <= 0 {
        0
    } else {
        proof {
            vstd::arithmetic::div_mod::lemma_div_pos_is_pos(
                (cash as int) * 10000,
                debt as int + 100,
            );
        }
        let l: i128 = (cash as i128) * 10000 / (debt as i128 + 100);
        if l > 1000000000i128 {
            1000000000
        } else {
            l as i64
        }
    };
    let segs = world.segments.len();
    let seg_div: i64 = if segs >= 5 {
        10000
    } else {
        (segs as i64) * 2000
    };
    CompanyMetrics {
        share_12m_bp: share_bp,
        margin_ratio_bp: margin_bp,
        liquidity_k_bp: liq_bp,
        portfolio_div_bp: seg_div,
    }
}

/// Assemble a fresh simulation state around a domain world and a
/// configuration, with default resources and an empty ledger.
pub fn init_world(domain: World, config: SimConfig) -> (s: SimState)
    requires
        spec_date_valid(domain.macro_state.date),
        1 <= domain.macro_state.date.year <= 9000,
        spec_nodes_bounded(domain),
        forall|j: int|
            0 <= j < domain.companies@.len() ==> -spec_money_cap() <= (
            #[trigger] domain.companies@[j]).cash_cents <= spec_money_cap() && 0
                <= domain.companies@[j].debt_cents <= spec_money_cap(),
        forall|j: int|
            0 <= j < domain.segments@.len() ==> -1000000 <= (#[trigger] domain.segments@[j]).price_elasticity_milli <= 1000000,
    ensures
        spec_sim_wf(s),
        s.domain == domain,
        s.config == config,
        s.stats == spec_stats_zero(),
        s.pricing == (Pricing { asp_cents: 30000, unit_cost_cents: 20000 }),
        s.book.contracts@.len() == 0,
        s.pipeline.queue@.len() == 0,
        s.pipeline.released@.len() == 0,
        s.capacity_wafers == 0,
        s.appeal.0 == 0,
        s.active_product.perf_index_bp == 0,
        s.rd_budget.0 == 0,
        s.finance == (FinanceConfig {
            revenue_cash_in_days: 0,
            cogs_cash_out_days: 0,
            rd_cash_out_days: 0,
        }),
        s.fevents.expedite_spend_cents == 0,
        s.market_cfg.segments@.len() == 0,
        s.trends.0@.len() == 0,
        s.effects.0@.len() == 0,
        s.events@.len() == 0,
        s.effect_specs@.len() == 0,
        s.effects_ledger.active@.len() == 0,
        s.campaign is None,
        s.campaign_state.goal_status@.len() == 0,
        s.campaign_state.outcome == crate::campaign::CampaignOutcome::InProgress,
        !s.tutorial.enabled,
        s.ai.tactics == crate::tactics::spec_default_tactics(),
        s.ai.planner == crate::planner::spec_default_planner(),
        s.ai.weights == (ScoreWeights {
            share_bp: 4000,
            margin_bp: 3000,
            liquidity_bp: 2000,
            portfolio_bp: 1000,
        }),
        s.ai.product_weights == (ProductWeights { perf_bp: 7000, price_rel_bp: 0, appeal_bp: 3000 }),
        s.ai.product_cost == (ProductCostCfg {
            usable_die_area_mm2_milli: 6200000,
            yield_overhead_bp: 500,
        }),
        s.difficulty == (DifficultyParams { default_take_or_pay_bp: 10000 }),
{
    SimState {
        domain,
        config,
        stats: Stats::new(),
        capacity_wafers: 0,
        book: CapacityBook::new(),
        pricing: Pricing::default(),
        appeal: ProductAppeal(0),
        active_product: ActiveProduct { perf_index_bp: 0 },
        pipeline: ProductPipeline::new(),
        rd_budget: RnDBudgetCents(0),
        finance: FinanceConfig::default(),
        fevents: FinanceEvents { expedite_spend_cents: 0 },
        market_cfg: MarketConfigRes::new(),
        trends: MarketTrends(Vec::new()),
        effects: MarketModEffects(Vec::new()),
        events: Vec::new(),
        effect_specs: Vec::new(),
        effects_ledger: EffectsLedger::new(),
        campaign: None,
        campaign_state: CampaignStateRes::new(),
        tutorial: TutorialState::new(),
        ai: AiConfig::default(),
        difficulty: DifficultyParams::default(),
    }
}

} // verus!

verus! {


/// Fields every pipeline step leaves untouched.
pub open spec fn spec_step_frame(pre: SimState, post: SimState) -> bool {
    &&& spec_sim_wf(post)
    &&& post.ai == pre.ai
    &&& post.config == pre.config
    &&& post.domain.macro_state.date == pre.domain.macro_state.date
    &&& post.stats.months_run == pre.stats.months_run
    &&& post.market_cfg == pre.market_cfg
    &&& post.events == pre.events
    &&& post.effect_specs == pre.effect_specs
    &&& post.difficulty == pre.difficulty
    &&& post.rd_budget == pre.rd_budget
    &&& post.finance == pre.finance
}

/// Steps one to three: the effect windows are brought up to date, every
/// trend is the fresh recomputation for this month (up to the sold units
/// written by the largest-remainder allocation), and nothing else moves.
pub open spec fn spec_market_step_rel(pre: SimState, post: SimState) -> bool {
    &&& spec_step_frame(pre, post)
    &&& post.trends.0@.len() == post.market_cfg.segments@.len()
    &&& forall|i: int|
        0 <= i < post.trends.0@.len() ==> crate::market::spec_trend_ok(
            post.market_cfg.segments@[i],
            post.effects.0@,
            pre.domain.macro_state.date,
            spec_with_sold(#[trigger] post.trends.0@[i], 0),
        )
    &&& forall|j: int|
        0 <= j < post.effects.0@.len() ==> crate::date::spec_date_lt(
            pre.domain.macro_state.date,
            (#[trigger] post.effects.0@[j]).end,
        )
    &&& post.domain.tech_tree@.len() == pre.domain.tech_tree@.len()
    &&& post.domain.macro_state == pre.domain.macro_state
    &&& post.domain.companies == pre.domain.companies
    &&& post.domain.segments == pre.domain.segments
    &&& post.stats == pre.stats
    &&& post.capacity_wafers == pre.capacity_wafers
    &&& post.book == pre.book
    &&& post.pricing == pre.pricing
    &&& post.appeal == pre.appeal
    &&& post.active_product == pre.active_product
    &&& post.pipeline == pre.pipeline
    &&& post.campaign == pre.campaign
    &&& post.campaign_state == pre.campaign_state
    &&& post.tutorial == pre.tutorial
}

/// Step four: research gains its baseline one percent, the month's wafer
/// capacity is recomputed from the world size and the active contracts, and
/// production turns it into output, defects and inventory.
pub open spec fn spec_production_step_rel(pre: SimState, post: SimState) -> bool {
    &&& spec_step_frame(pre, post)
    &&& post.stats.rd_progress_bp == if pre.stats.rd_progress_bp + 100 > 10000 {
        10000int
    } else {
        pre.stats.rd_progress_bp + 100
    }
    &&& post.capacity_wafers as int == crate::ledger::spec_sat_add_u64(
        crate::ledger::spec_active_wafers(
            pre.book.contracts@,
            pre.domain.macro_state.date,
            pre.book.contracts@.len() as int,
        ),
        crate::ledger::spec_base_capacity(
            pre.domain.tech_tree@.len() as int,
            pre.domain.companies@.len() as int,
        ),
    )
    &&& {
        let produced = spec_produced_units(post.capacity_wafers as int);
        let defects = produced / 20;
        let good = produced - defects;
        &&& post.stats.output_units as int == spec_sat_u64(pre.stats.output_units + good)
        &&& post.stats.defect_units as int == spec_sat_u64(pre.stats.defect_units + defects)
        &&& post.stats.inventory_units as int == spec_sat_u64(pre.stats.inventory_units + good)
    }
    &&& post.stats.revenue_cents == pre.stats.revenue_cents
    &&& post.stats.profit_cents == pre.stats.profit_cents
    &&& post.stats.cogs_cents == pre.stats.cogs_cents
    &&& post.stats.contract_costs_cents == pre.stats.contract_costs_cents
    &&& post.stats.last_contract_costs_cents == pre.stats.last_contract_costs_cents
    &&& post.stats.last_sold_units == pre.stats.last_sold_units
    &&& post.stats.market_share_bp == pre.stats.market_share_bp
    &&& post.stats.last_share_bp == pre.stats.last_share_bp
    &&& post.domain == pre.domain
    &&& post.book == pre.book
    &&& post.pricing == pre.pricing
    &&& post.appeal == pre.appeal
    &&& post.active_product == pre.active_product
    &&& post.pipeline == pre.pipeline
    &&& post.trends == pre.trends
    &&& post.effects == pre.effects
    &&& post.effects_ledger == pre.effects_ledger
    &&& post.campaign == pre.campaign
    &&& post.campaign_state == pre.campaign_state
    &&& post.tutorial == pre.tutorial
    &&& post.fevents == pre.fevents
}

/// Step five: exactly the requests whose ready date has arrived leave the
/// queue for the released list (in order); a release installs the last
/// released product as active, recomputes the unit cost from its node and
/// bumps the bounded appeal; with no release nothing moves.
pub open spec fn spec_release_step_rel(pre: SimState, post: SimState) -> bool {
    &&& spec_step_frame(pre, post)
    &&& post.pipeline.queue@.len() + post.pipeline.released@.len() == pre.pipeline.queue@.len()
        + pre.pipeline.released@.len()
    &&& forall|j: int|
        0 <= j < post.pipeline.queue@.len() ==> !crate::date::spec_date_le(
            (#[trigger] post.pipeline.queue@[j]).ready,
            pre.domain.macro_state.date,
        )
    &&& forall|j: int|
        0 <= j < pre.pipeline.released@.len() ==> #[trigger] post.pipeline.released@[j]
            == pre.pipeline.released@[j]
    &&& (post.pipeline.released@.len() == pre.pipeline.released@.len() ==> post.pricing
        == pre.pricing && post.appeal == pre.appeal && post.active_product == pre.active_product)
    &&& (post.pipeline.released@.len() > pre.pipeline.released@.len() ==> {
        let last = post.pipeline.released@.last();
        &&& post.appeal.0 as int == crate::pipeline::spec_bump_appeal(pre.appeal.0 as int)
        &&& post.active_product.perf_index_bp as int == spec_norm_perf(last.perf_index_bp as int)
        &&& post.pricing.asp_cents == pre.pricing.asp_cents
        &&& (last.die_area_mm2_milli > 0 ==> forall|n: int|
            0 <= n < post.domain.tech_tree@.len() && (#[trigger] post.domain.tech_tree@[n]).id.0@
                == last.tech_node.0@ && (forall|m: int|
                n < m < post.domain.tech_tree@.len() ==> (#[trigger] post.domain.tech_tree@[m]).id.0@ != last.tech_node.0@) ==> post.pricing.unit_cost_cents as int
                == spec_capped_unit_cost(
                crate::pipeline::spec_unit_cost_cents(
                    post.domain.tech_tree@[n],
                    last,
                    pre.ai.product_cost,
                ),
            ))
    })
    &&& post.domain == pre.domain
    &&& post.stats == pre.stats
    &&& post.capacity_wafers == pre.capacity_wafers
    &&& post.book == pre.book
    &&& post.trends == pre.trends
    &&& post.effects == pre.effects
    &&& post.effects_ledger == pre.effects_ledger
    &&& post.campaign == pre.campaign
    &&& post.campaign_state == pre.campaign_state
    &&& post.tutorial == pre.tutorial
    &&& post.fevents == pre.fevents
}

/// A released product's performance index, clamped into one whole.
pub open spec fn spec_norm_perf(perf_bp: int) -> int {
    if perf_bp < 0 {
        0
    } else if perf_bp > 10000 {
        10000
    } else {
        perf_bp
    }
}

/// A recomputed unit cost, held at the supported cost cap.
pub open spec fn spec_capped_unit_cost(cost: int) -> int {
    if cost > 0x10000000000000 {
        0x10000000000000
    } else {
        cost
    }
}

/// Step six: the sales, billing and settlement identities over the pre
/// state, with everything else untouched.
pub open spec fn spec_sales_step_rel(pre: SimState, post: SimState) -> bool {
    let att = spec_attractiveness_bp(
        pre.active_product.perf_index_bp as int,
        pre.ai.product_weights.perf_bp as int,
        pre.appeal.0 as int,
        pre.ai.product_weights.appeal_bp as int,
    );
    let sell = pre.stats.inventory_units * spec_sales_fraction_bp(att) / 10000;
    let revenue = spec_month_money(pre.pricing.asp_cents as int, sell);
    let cogs = spec_month_money(pre.pricing.unit_cost_cents as int, sell);
    let billed = spec_sat_i64(
        crate::ledger::spec_bill_total(
            pre.book.contracts@,
            pre.domain.macro_state.date,
            pre.capacity_wafers as int,
            pre.book.contracts@.len() as int,
        ),
    );
    &&& spec_step_frame(pre, post)
    &&& post.stats.last_sold_units == sell
    &&& post.stats.inventory_units == pre.stats.inventory_units - sell
    &&& post.stats.revenue_cents as int == spec_sat_money(
        spec_sat_money(pre.stats.revenue_cents as int) + revenue,
    )
    &&& post.stats.cogs_cents as int == spec_sat_money(
        spec_sat_money(pre.stats.cogs_cents as int) + cogs,
    )
    &&& post.stats.profit_cents as int == spec_sat_money(
        spec_sat_money(pre.stats.profit_cents as int) + spec_sat_money(revenue - cogs),
    )
    &&& post.stats.last_contract_costs_cents == billed
    &&& post.stats.contract_costs_cents as int == spec_sat_money(
        spec_sat_money(pre.stats.contract_costs_cents as int) + spec_sat_money(billed as int),
    )
    &&& (pre.finance.revenue_cash_in_days == 0 && pre.finance.cogs_cash_out_days == 0
        && pre.finance.rd_cash_out_days == 0 && pre.domain.companies@.len() > 0 ==> {
        &&& post.domain.companies@[0].cash_cents as int == spec_sat_money(
            pre.domain.companies@[0].cash_cents + spec_sat_money(
                spec_sat_money(
                    spec_sat_money(spec_sat_money(revenue - cogs) - spec_sat_money(billed as int))
                        - pre.rd_budget.0,
                ) - pre.fevents.expedite_spend_cents,
            ),
        )
        &&& forall|j: int|
            0 < j < post.domain.companies@.len() ==> #[trigger] post.domain.companies@[j]
                == pre.domain.companies@[j]
    })
    &&& (!(pre.finance.revenue_cash_in_days == 0 && pre.finance.cogs_cash_out_days == 0
        && pre.finance.rd_cash_out_days == 0) || pre.domain.companies@.len() == 0
        ==> post.domain.companies == pre.domain.companies)
    &&& post.fevents.expedite_spend_cents == 0
    &&& post.stats.rd_progress_bp == pre.stats.rd_progress_bp
    &&& post.stats.market_share_bp == pre.stats.market_share_bp
    &&& post.stats.last_share_bp == pre.stats.last_share_bp
    &&& post.stats.output_units == pre.stats.output_units
    &&& post.stats.defect_units == pre.stats.defect_units
    &&& post.domain.tech_tree == pre.domain.tech_tree
    &&& post.domain.macro_state == pre.domain.macro_state
    &&& post.domain.segments == pre.domain.segments
    &&& post.domain.companies@.len() == pre.domain.companies@.len()
    &&& post.capacity_wafers == pre.capacity_wafers
    &&& post.book == pre.book
    &&& post.pricing == pre.pricing
    &&& post.appeal == pre.appeal
    &&& post.active_product == pre.active_product
    &&& post.pipeline == pre.pipeline
    &&& post.trends == pre.trends
    &&& post.effects == pre.effects
    &&& post.effects_ledger == pre.effects_ledger
    &&& post.campaign == pre.campaign
    &&& post.campaign_state == pre.campaign_state
    &&& post.tutorial == pre.tutorial
}


/// The segment the monthly tactics read: the first one, or the built-in
/// fallback when the world has none.
pub open spec fn spec_seg_base(pre: SimState) -> int {
    if pre.domain.segments@.len() > 0 {
        pre.domain.segments@[0].base_demand_units as int
    } else {
        100000
    }
}

/// The demand/supply ratio the tactics see: the base demand at the
/// reference price (the demand identity) split by share, against this
/// month's good dies.
pub open spec fn spec_strategy_ratio_bp(pre: SimState) -> int {
    let our = spec_seg_base(pre) * pre.stats.market_share_bp / 10000;
    let produced = spec_produced_units(pre.capacity_wafers as int);
    let supply = produced - produced / 20;
    if supply == 0 {
        100000
    } else if our * 10000 / supply > 1000000000 {
        1000000000
    } else {
        our * 10000 / supply
    }
}

/// The metrics the tactics are decided on.
pub open spec fn spec_tactics_metrics(pre: SimState) -> crate::tactics::CompanyMetrics {
    crate::tactics::CompanyMetrics {
        share_12m_bp: pre.stats.market_share_bp,
        margin_ratio_bp: spec_margin_ratio_bp(
            pre.stats.revenue_cents as int,
            pre.stats.profit_cents as int,
        ) as i64,
        liquidity_k_bp: spec_liquidity_bp(
            if pre.domain.companies@.len() > 0 {
                pre.domain.companies@[0].cash_cents as int
            } else {
                0
            },
            if pre.domain.companies@.len() > 0 {
                pre.domain.companies@[0].debt_cents as int
            } else {
                0
            },
        ) as i64,
        portfolio_div_bp: spec_portfolio_div_bp(pre.domain.segments@.len() as int) as i64,
    }
}

/// The tactics' price delta for this month, clamped into one whole.
pub open spec fn spec_strategy_price_delta(pre: SimState) -> int {
    let df = crate::tactics::spec_tactics_price_delta(
        spec_tactics_metrics(pre),
        pre.stats.last_share_bp as int,
        spec_strategy_ratio_bp(pre),
        pre.pricing.unit_cost_cents as int,
        pre.pricing.asp_cents as int,
        pre.ai.tactics,
    );
    if df < -10000 {
        -10000
    } else if df > 10000 {
        10000
    } else {
        df
    }
}

/// The price after the tactics rules and the margin floor.
pub open spec fn spec_tactics_asp(pre: SimState) -> int {
    spec_committed_price(
        crate::tactics::spec_apply_price_delta(
            pre.pricing.asp_cents as int,
            pre.pricing.unit_cost_cents as int,
            spec_strategy_price_delta(pre),
            pre.ai.tactics.min_margin_bp as int,
        ),
    )
}

/// Research progress after the tactics' delta, clamped into one whole.
pub open spec fn spec_strategy_rd(pre: SimState) -> int {
    let rd = pre.stats.rd_progress_bp + crate::tactics::spec_tactics_rd_delta(
        spec_tactics_metrics(pre),
        pre.stats.last_share_bp as int,
        pre.ai.tactics,
    );
    if rd < 0 {
        0
    } else if rd > 10000 {
        10000
    } else {
        rd
    }
}

/// Share after drifting a tenth of the way toward `target`, clamped into
/// the [0.05, 0.95] band; the drift truncates toward zero.
pub open spec fn spec_drifted_share(share: int, target: int) -> int {
    let drift = if target >= share {
        (target - share) / 10
    } else {
        -((share - target) / 10)
    };
    let s = share + drift;
    if s < 500 {
        500
    } else if s > 9500 {
        9500
    } else {
        s
    }
}

/// What applying the quarterly plan's first decision may do, given the
/// price `asp_t` left by the tactics: nothing (hold, an R&D note, an empty
/// plan or a full book), one more bounded price move under the floor, one
/// new take-or-pay contract after the lead time, or one queued tape-out.
pub open spec fn spec_planner_applied(pre: SimState, asp_t: int, post: SimState) -> bool {
    ||| (post.pricing.asp_cents == asp_t && post.book == pre.book && post.pipeline == pre.pipeline
        && post.fevents == pre.fevents)
    ||| (exists|df: i64|
        (df == -pre.ai.planner.price_step_bp || df == 0 || df == pre.ai.planner.price_step_bp)
            && post.pricing.asp_cents as int == spec_committed_price(
            crate::tactics::spec_apply_price_delta(
                asp_t,
                pre.pricing.unit_cost_cents as int,
                df as int,
                pre.ai.tactics.min_margin_bp as int,
            ),
        ) && post.book == pre.book && post.pipeline == pre.pipeline && post.fevents == pre.fevents)
    ||| (post.pricing.asp_cents == asp_t && post.pipeline == pre.pipeline && post.fevents
        == pre.fevents && post.book.contracts@.len() == pre.book.contracts@.len() + 1 && (forall|
        j: int,
    |
        0 <= j < pre.book.contracts@.len() ==> #[trigger] post.book.contracts@[j]
            == pre.book.contracts@[j]) && {
        let c = post.book.contracts@.last();
        &&& c.take_or_pay_bp == 10000
        &&& c.price_per_wafer_cents == 10000
        &&& c.billing_cents_per_wafer == 10000
        &&& c.start == spec_add_months(
            pre.domain.macro_state.date,
            pre.ai.planner.quarter_step as int,
        )
        &&& c.end == spec_add_months(c.start, 12)
    })
    ||| (post.pricing.asp_cents == asp_t && post.book == pre.book
        && post.pipeline.queue@.len() == pre.pipeline.queue@.len() + 1
        && post.pipeline.released@ == pre.pipeline.released@)
}

/// Step seven: the tactics' exact price and research deltas under the
/// margin floor, and the share drift toward the price-attractiveness
/// target.
pub open spec fn spec_tactics_step_rel(pre: SimState, post: SimState) -> bool {
    &&& spec_step_frame(pre, post)
    &&& post.pricing.unit_cost_cents == pre.pricing.unit_cost_cents
    &&& post.pricing.asp_cents as int == spec_tactics_asp(pre)
    &&& post.pricing.asp_cents >= spec_min_price(
        post.pricing.unit_cost_cents as int,
        pre.ai.tactics.min_margin_bp as int,
    )
    &&& post.stats.rd_progress_bp as int == spec_strategy_rd(pre)
    &&& exists|target: i64|
        crate::planner::spec_share_target_ok(
            spec_tactics_asp(pre),
            pre.pricing.asp_cents as int,
            pre.ai.planner.price_pref_beta_milli as int,
            pre.ai.planner.competitor_attractiveness_bp as int,
            pre.appeal.0 as int,
            target as int,
        ) && post.stats.market_share_bp as int == spec_drifted_share(
            pre.stats.market_share_bp as int,
            target as int,
        )
    &&& 500 <= post.stats.market_share_bp <= 9500
    &&& post.stats.revenue_cents == pre.stats.revenue_cents
    &&& post.stats.cogs_cents == pre.stats.cogs_cents
    &&& post.stats.profit_cents == pre.stats.profit_cents
    &&& post.stats.contract_costs_cents == pre.stats.contract_costs_cents
    &&& post.stats.last_contract_costs_cents == pre.stats.last_contract_costs_cents
    &&& post.stats.last_sold_units == pre.stats.last_sold_units
    &&& post.stats.last_share_bp == pre.stats.last_share_bp
    &&& post.stats.output_units == pre.stats.output_units
    &&& post.stats.defect_units == pre.stats.defect_units
    &&& post.stats.inventory_units == pre.stats.inventory_units
    &&& post.domain == pre.domain
    &&& post.capacity_wafers == pre.capacity_wafers
    &&& post.book == pre.book
    &&& post.pipeline == pre.pipeline
    &&& post.fevents == pre.fevents
    &&& post.appeal == pre.appeal
    &&& post.active_product == pre.active_product
    &&& post.trends == pre.trends
    &&& post.effects == pre.effects
    &&& post.effects_ledger == pre.effects_ledger
    &&& post.campaign == pre.campaign
    &&& post.campaign_state == pre.campaign_state
    &&& post.tutorial == pre.tutorial
}

/// Step eight: on a decision month the quarterly plan's first decision is
/// applied (and only it); other months leave everything alone.  The price
/// keeps the margin floor either way.
pub open spec fn spec_planner_step_rel(pre: SimState, post: SimState) -> bool {
    &&& spec_step_frame(pre, post)
    &&& post.pricing.unit_cost_cents == pre.pricing.unit_cost_cents
    &&& ((pre.stats.months_run as int + 1) % 3 != 0 ==> post.pricing == pre.pricing && post.book
        == pre.book && post.pipeline == pre.pipeline && post.fevents == pre.fevents)
    &&& ((pre.stats.months_run as int + 1) % 3 == 0 ==> spec_planner_applied(
        pre,
        pre.pricing.asp_cents as int,
        post,
    ))
    &&& post.pricing.asp_cents >= spec_min_price(
        post.pricing.unit_cost_cents as int,
        pre.ai.tactics.min_margin_bp as int,
    ) || post.pricing.asp_cents == pre.pricing.asp_cents
    &&& post.stats == pre.stats
    &&& post.domain == pre.domain
    &&& post.capacity_wafers == pre.capacity_wafers
    &&& post.appeal == pre.appeal
    &&& post.active_product == pre.active_product
    &&& post.trends == pre.trends
    &&& post.effects == pre.effects
    &&& post.effects_ledger == pre.effects_ledger
    &&& post.campaign == pre.campaign
    &&& post.campaign_state == pre.campaign_state
    &&& post.tutorial == pre.tutorial
}

/// The identifier views of the scripted events whose window contains
/// `date`, in event order.
pub open spec fn spec_active_id_views(
    events: Seq<crate::market::MarketEvent>,
    date: Date,
    n: int,
) -> Seq<Seq<char>>
    decreases n,
{
    if n <= 0 {
        Seq::empty()
    } else {
        let prev = spec_active_id_views(events, date, n - 1);
        if crate::market::spec_window_active(events[n - 1].start, events[n - 1].months as int, date) {
            prev.push(events[n - 1].id@)
        } else {
            prev
        }
    }
}


/// The campaign machine was stepped against the fresh state: `rn` carries
/// the released tech-node identifiers and `ids` the identifiers of the
/// scripted events active this month.
pub open spec fn spec_campaign_tracked(
    pre: SimState,
    post: SimState,
    sc: CampaignScenarioRes,
    rn: Seq<TechNodeId>,
    ids: Seq<String>,
) -> bool {
    let date = pre.domain.macro_state.date;
    let cash0 = if pre.domain.companies@.len() > 0 {
        pre.domain.companies@[0].cash_cents as int
    } else {
        0
    };
    &&& rn.len() == pre.pipeline.released@.len()
    &&& forall|k: int|
        0 <= k < rn.len() ==> (#[trigger] rn[k]).0@ == pre.pipeline.released@[k].tech_node.0@
    &&& ids.len() == spec_active_id_views(pre.events@, date, pre.events@.len() as int).len()
    &&& forall|k: int|
        0 <= k < ids.len() ==> (#[trigger] ids[k])@ == spec_active_id_views(
            pre.events@,
            date,
            pre.events@.len() as int,
        )[k]
    &&& post.campaign_state.goal_status@.len() == sc.goals@.len()
    &&& forall|j: int|
        0 <= j < sc.goals@.len() ==> #[trigger] post.campaign_state.goal_status@[j]
            == crate::campaign::spec_goal_step(
            if j < pre.campaign_state.goal_status@.len() {
                pre.campaign_state.goal_status@[j]
            } else {
                crate::campaign::GoalStatus::Pending
            },
            sc.goals@[j],
            date,
            pre.stats.market_share_bp as int,
            pre.stats.profit_cents as int,
            rn,
            ids,
        )
    &&& post.campaign_state.outcome == crate::campaign::spec_outcome_step(
        pre.campaign_state.outcome,
        post.campaign_state.goal_status@,
        sc.fails@,
        date,
        pre.stats.market_share_bp as int,
        cash0,
    )
}

/// Step nine: the campaign and tutorial machines evaluated against the
/// fresh state; everything else is untouched.
pub open spec fn spec_trackers_step_rel(pre: SimState, post: SimState) -> bool {
    let date = pre.domain.macro_state.date;
    let cash0 = if pre.domain.companies@.len() > 0 {
        pre.domain.companies@[0].cash_cents as int
    } else {
        0
    };
    &&& spec_step_frame(pre, post)
    &&& post.domain == pre.domain
    &&& post.stats == pre.stats
    &&& post.pricing == pre.pricing
    &&& post.capacity_wafers == pre.capacity_wafers
    &&& post.book == pre.book
    &&& post.appeal == pre.appeal
    &&& post.active_product == pre.active_product
    &&& post.pipeline == pre.pipeline
    &&& post.trends == pre.trends
    &&& post.effects == pre.effects
    &&& post.effects_ledger == pre.effects_ledger
    &&& post.fevents == pre.fevents
    &&& post.campaign == pre.campaign
    &&& (pre.campaign is None ==> post.campaign_state == pre.campaign_state)
    &&& (pre.campaign matches Some(sc) ==> exists|rn: Seq<TechNodeId>, ids: Seq<String>|
        #[trigger] spec_campaign_tracked(pre, post, sc, rn, ids))
    &&& (!pre.tutorial.enabled ==> post.tutorial == pre.tutorial)
    &&& (pre.tutorial.enabled ==> {
        &&& post.tutorial.step1_price_cut_done == (pre.tutorial.step1_price_cut_done
            || crate::tutorial::spec_price_cut_reached(
            pre.tutorial.initial_asp_cents as int,
            pre.pricing.asp_cents as int,
        ))
        &&& post.tutorial.step2_contract_done == (pre.tutorial.step2_contract_done
            || crate::tutorial::spec_big_contract(pre.book))
        &&& post.tutorial.step3_tapeout_expedite_done == (pre.tutorial.step3_tapeout_expedite_done
            || crate::tutorial::spec_expedite_seen(pre.pipeline))
        &&& post.tutorial.step4_cash_24m_done == (pre.tutorial.step4_cash_24m_done || (
        pre.stats.months_run >= 24 && cash0 >= pre.tutorial.month24_cash_threshold_cents))
        &&& post.tutorial.current_step_index as int == crate::tutorial::spec_current_step(
            post.tutorial.step1_price_cut_done,
            post.tutorial.step2_contract_done,
            post.tutorial.step3_tapeout_expedite_done,
            post.tutorial.step4_cash_24m_done,
        )
    })
}

/// The closing stage of a tick: the calendar advances one clamped month
/// (held at the year-9000 horizon), last month's share memory is updated,
/// the month counter saturates upward, and nothing else moves.
pub open spec fn spec_close_step_rel(pre: SimState, post: SimState) -> bool {
    &&& spec_sim_wf(post)
    &&& post.domain.macro_state.date == spec_next_month(pre.domain.macro_state.date)
    &&& post.stats.months_run as int == if pre.stats.months_run == u32::MAX {
        u32::MAX as int
    } else {
        pre.stats.months_run as int + 1
    }
    &&& post.stats.last_share_bp == pre.stats.market_share_bp
    &&& post.stats.market_share_bp == pre.stats.market_share_bp
    &&& post.stats.rd_progress_bp == pre.stats.rd_progress_bp
    &&& post.stats.revenue_cents == pre.stats.revenue_cents
    &&& post.stats.cogs_cents == pre.stats.cogs_cents
    &&& post.stats.profit_cents == pre.stats.profit_cents
    &&& post.stats.contract_costs_cents == pre.stats.contract_costs_cents
    &&& post.stats.last_contract_costs_cents == pre.stats.last_contract_costs_cents
    &&& post.stats.last_sold_units == pre.stats.last_sold_units
    &&& post.stats.output_units == pre.stats.output_units
    &&& post.stats.defect_units == pre.stats.defect_units
    &&& post.stats.inventory_units == pre.stats.inventory_units
    &&& post.domain.tech_tree == pre.domain.tech_tree
    &&& post.domain.companies == pre.domain.companies
    &&& post.domain.segments == pre.domain.segments
    &&& post.domain.macro_state.inflation_annual_bp == pre.domain.macro_state.inflation_annual_bp
    &&& post.domain.macro_state.interest_rate_bp == pre.domain.macro_state.interest_rate_bp
    &&& post.domain.macro_state.fx_usd_index_milli == pre.domain.macro_state.fx_usd_index_milli
    &&& post.pricing == pre.pricing
    &&& post.capacity_wafers == pre.capacity_wafers
    &&& post.book == pre.book
    &&& post.appeal == pre.appeal
    &&& post.active_product == pre.active_product
    &&& post.pipeline == pre.pipeline
    &&& post.trends == pre.trends
    &&& post.effects == pre.effects
    &&& post.effects_ledger == pre.effects_ledger
    &&& post.campaign == pre.campaign
    &&& post.campaign_state == pre.campaign_state
    &&& post.tutorial == pre.tutorial
    &&& post.ai == pre.ai
    &&& post.config == pre.config
    &&& post.market_cfg == pre.market_cfg
    &&& post.events == pre.events
    &&& post.effect_specs == pre.effect_specs
    &&& post.difficulty == pre.difficulty
    &&& post.rd_budget == pre.rd_budget
    &&& post.finance == pre.finance
    &&& post.fevents == pre.fevents
}

/// The tail of a tick after the market stage.
pub open spec fn spec_tick_after_market(s1: SimState, post: SimState) -> bool {
    exists|s2: SimState| #[trigger]
        spec_production_step_rel(s1, s2) && spec_tick_after_production(s2, post)
}

pub open spec fn spec_tick_after_production(s2: SimState, post: SimState) -> bool {
    exists|s3: SimState| #[trigger]
        spec_release_step_rel(s2, s3) && spec_tick_after_release(s3, post)
}

pub open spec fn spec_tick_after_release(s3: SimState, post: SimState) -> bool {
    exists|s4: SimState| #[trigger]
        spec_sales_step_rel(s3, s4) && spec_tick_after_sales(s4, post)
}

pub open spec fn spec_tick_after_sales(s4: SimState, post: SimState) -> bool {
    exists|s5: SimState| #[trigger]
        spec_tactics_step_rel(s4, s5) && spec_tick_after_tactics(s5, post)
}

pub open spec fn spec_tick_after_tactics(s5: SimState, post: SimState) -> bool {
    exists|s6: SimState| #[trigger]
        spec_planner_step_rel(s5, s6) && spec_tick_after_planner(s6, post)
}

pub open spec fn spec_tick_after_planner(s6: SimState, post: SimState) -> bool {
    exists|s7: SimState| #[trigger] spec_trackers_step_rel(s6, s7) && spec_close_step_rel(s7, post)
}

/// One tick relates the old state to the new one through the six exact
/// stage relations, in pipeline order: each stage's output is fully
/// committed before the next begins.
pub open spec fn spec_tick_rel(pre: SimState, post: SimState) -> bool {
    exists|s1: SimState| #[trigger] spec_market_step_rel(pre, s1) && spec_tick_after_market(
        s1,
        post,
    )
}

/// Advance the simulation by exactly one calendar month, running the fixed
/// pipeline in order as one committed transaction: effect windows, trends
/// and allocation, research and production, tape-out releases, sales,
/// billing and settlement, tactics and the quarterly planner, the campaign
/// and tutorial machines, and the calendar.  `spec_tick_rel` chains the
/// exact per-stage relations from the old state to the new one.
pub fn tick(state: &mut SimState) -> (r: ())
    requires
        spec_sim_wf(*old(state)),
    ensures
        spec_tick_rel(*old(state), *final(state)),
        spec_sim_wf(*final(state)),
        final(state).stats.months_run as int == if old(state).stats.months_run == u32::MAX {
            u32::MAX as int
        } else {
            old(state).stats.months_run as int + 1
        },
        final(state).domain.macro_state.date == spec_next_month(
            old(state).domain.macro_state.date,
        ),
        final(state).pricing.asp_cents >= spec_min_price(
            final(state).pricing.unit_cost_cents as int,
            final(state).ai.tactics.min_margin_bp as int,
        ),
        500 <= final(state).stats.market_share_bp <= 9500,
        final(state).ai == old(state).ai,
        final(state).config == old(state).config,
{
    let ghost s0 = *state;
    step_market(state);
    let ghost s1 = *state;
    step_production(state);
    let ghost s2 = *state;
    step_release(state);
    let ghost s3 = *state;
    step_sales_finance(state);
    let ghost s4 = *state;
    step_tactics(state);
    let ghost s5 = *state;
    step_planner(state);
    let ghost s6 = *state;
    step_trackers(state);
    let ghost s7 = *state;
    let date = state.domain.macro_state.date;
    // 10. advance the calendar by exactly one month (held at the supported
    //     horizon of the year 9000)
    let next = add_months(date, 1);
    if next.year <= 9000 {
        state.domain.macro_state.date = next;
    }
    state.stats.last_share_bp = state.stats.market_share_bp;
    state.stats.months_run = if state.stats.months_run == u32::MAX {
        u32::MAX
    } else {
        state.stats.months_run + 1
    };
    proof {
        let post = *state;
        assert(spec_close_step_rel(s7, post));
        assert(spec_tick_after_planner(s6, post));
        assert(spec_tick_after_tactics(s5, post));
        assert(spec_tick_after_sales(s4, post));
        assert(spec_tick_after_release(s3, post));
        assert(spec_tick_after_production(s2, post));
        assert(spec_tick_after_market(s1, post));
        assert(spec_tick_rel(s0, post));
    }
}

/// Pipeline steps one to three: mod effects, market trends, demand
/// allocation.  The trends are recomputed from scratch against the
/// configuration and the updated effect windows; nothing accumulates.
#[verifier::rlimit(60)]
fn step_market(state: &mut SimState) -> (r: ())
    requires
        spec_sim_wf(*old(state)),
    ensures
        spec_market_step_rel(*old(state), *final(state)),
        spec_sim_wf(*final(state)),
        final(state).ai == old(state).ai,
        final(state).config == old(state).config,
        final(state).domain.macro_state.date == old(state).domain.macro_state.date,
        final(state).stats.months_run == old(state).stats.months_run,
        final(state).trends.0@.len() == final(state).market_cfg.segments@.len(),
        // every trend is the fresh recomputation for this month, up to the
        // sold units written by the allocation
        forall|i: int|
            0 <= i < final(state).trends.0@.len() ==> crate::market::spec_trend_ok(
                final(state).market_cfg.segments@[i],
                final(state).effects.0@,
                old(state).domain.macro_state.date,
                spec_with_sold(#[trigger] final(state).trends.0@[i], 0),
            ),
{
    let date = state.domain.macro_state.date;
    // 1. apply and expire mod effects on tech nodes and market windows
    tick_effects(&mut state.effects_ledger, &mut state.domain, &state.effect_specs, date);
    update_market_effects(&mut state.effects, &state.events, date);
    // 2. recompute market trends from scratch
    let trends = compute_trends(&state.market_cfg, &state.effects, date);
    state.trends = trends;
    // 3. theoretical demand per segment, allocated to sold units for
    //    reporting by largest-remainder rounding
    let mut demand_units: Vec<u64> = Vec::new();
    let mut i: usize = 0;
    while i < state.trends.0.len()
        invariant
            i <= state.trends.0@.len(),
            demand_units@.len() == i,
            1 <= state.pricing.asp_cents <= spec_money_cap(),
        decreases state.trends.0@.len() - i,
    {
        let t = &state.trends.0[i];
        let q = match demand(
            t.base_demand_t,
            state.pricing.asp_cents,
            t.ref_price_t_cents,
            t.elasticity_milli,
        ) {
            Ok(q) => q,
            Err(_) => 0,
        };
        demand_units.push(q);
        i += 1;
    }
    let sold = allocate_sold_units(&demand_units, state.stats.inventory_units);
    write_sold_units(&mut state.trends, &sold);
}

/// Pipeline step four: research progress, monthly capacity and production.
#[verifier::rlimit(60)]
fn step_production(state: &mut SimState) -> (r: ())
    requires
        spec_sim_wf(*old(state)),
    ensures
        spec_production_step_rel(*old(state), *final(state)),
        spec_sim_wf(*final(state)),
        final(state).ai == old(state).ai,
        final(state).config == old(state).config,
        final(state).domain.macro_state.date == old(state).domain.macro_state.date,
        final(state).stats.months_run == old(state).stats.months_run,
        // research gains its baseline one percent, clamped at one whole
        final(state).stats.rd_progress_bp == if old(state).stats.rd_progress_bp + 100 > 10000 {
            10000int
        } else {
            old(state).stats.rd_progress_bp + 100
        },
        // capacity from the world size plus the contracts active this month
        final(state).capacity_wafers as int == crate::ledger::spec_sat_add_u64(
            crate::ledger::spec_active_wafers(
                old(state).book.contracts@,
                old(state).domain.macro_state.date,
                old(state).book.contracts@.len() as int,
            ),
            crate::ledger::spec_base_capacity(
                old(state).domain.tech_tree@.len() as int,
                old(state).domain.companies@.len() as int,
            ),
        ),
        // fifty dies per wafer with a five percent defect rate; the good
        // dies land in inventory
        ({
            let produced = spec_produced_units(final(state).capacity_wafers as int);
            let defects = produced / 20;
            let good = produced - defects;
            &&& final(state).stats.output_units as int == spec_sat_u64(
                old(state).stats.output_units + good,
            )
            &&& final(state).stats.defect_units as int == spec_sat_u64(
                old(state).stats.defect_units + defects,
            )
            &&& final(state).stats.inventory_units as int == spec_sat_u64(
                old(state).stats.inventory_units + good,
            )
        }),
{
    let date = state.domain.macro_state.date;
    // 4. R&D progress: one percent per month baseline
    let rd = state.stats.rd_progress_bp + 100;
    state.stats.rd_progress_bp = if rd > 10000 {
        10000
    } else {
        rd
    };
    // capacity from the world size plus active contracts
    let cap = monthly_capacity(
        state.domain.tech_tree.len(),
        state.domain.companies.len(),
        &state.book,
        date,
    );
    state.capacity_wafers = cap;
    // production: fifty dies per wafer, five percent defects; the wafer
    // count saturates where fifty dies per wafer would no longer fit
    let produced: u64 = if cap <= 0x51eb851eb851eb8 {
        cap * 50
    } else {
        u64::MAX
    };
    proof {
        if cap <= 0x51eb851eb851eb8 {
            assert(cap * 50 <= u64::MAX) by (nonlinear_arith)
                requires
                    0 <= cap <= 0x51eb851eb851eb8,
            ;
        } else {
            assert(cap * 50 > u64::MAX) by (nonlinear_arith)
                requires
                    cap > 0x51eb851eb851eb8,
            ;
        }
        assert(produced as int == spec_produced_units(cap as int));
    }
    let defects = produced / 20;
    let good = produced - defects;
    state.stats.output_units = state.stats.output_units.saturating_add(good);
    state.stats.defect_units = state.stats.defect_units.saturating_add(defects);
    state.stats.inventory_units = state.stats.inventory_units.saturating_add(good);
}

/// Pipeline step five: tape-out releases, unit-cost recomputation and the appeal bump.
#[verifier::rlimit(60)]
fn step_release(state: &mut SimState) -> (r: ())
    requires
        spec_sim_wf(*old(state)),
    ensures
        spec_release_step_rel(*old(state), *final(state)),
        spec_sim_wf(*final(state)),
        final(state).ai == old(state).ai,
        final(state).config == old(state).config,
        final(state).domain.macro_state.date == old(state).domain.macro_state.date,
        final(state).stats.months_run == old(state).stats.months_run,
        // exactly the requests whose ready date has arrived move from the
        // queue to the released list, in order
        final(state).pipeline.queue@.len() + final(state).pipeline.released@.len()
            == old(state).pipeline.queue@.len() + old(state).pipeline.released@.len(),
        forall|j: int|
            0 <= j < final(state).pipeline.queue@.len() ==> !crate::date::spec_date_le(
                (#[trigger] final(state).pipeline.queue@[j]).ready,
                old(state).domain.macro_state.date,
            ),
        forall|j: int|
            0 <= j < old(state).pipeline.released@.len()
                ==> #[trigger] final(state).pipeline.released@[j] == old(state).pipeline.released@[j],
{
    let date = state.domain.macro_state.date;
    // 5. advance the tape-out queue; a release recomputes the unit cost
    //    and bumps the appeal
    let released_now = advance_tapeouts(&mut state.pipeline, date);
    if released_now > 0 {
        let last = state.pipeline.released.len() - 1;
        let ghost last_spec = state.pipeline.released@.last();
        let perf = state.pipeline.released[last].perf_index_bp;
        state.active_product.perf_index_bp = if perf < 0 {
            0
        } else if perf > 10000 {
            10000
        } else {
            perf
        };
        let die_area = state.pipeline.released[last].die_area_mm2_milli;
        if die_area > 0 {
            let mut n: usize = 0;
            let mut found: usize = state.domain.tech_tree.len();
            while n < state.domain.tech_tree.len()
                invariant
                    n <= state.domain.tech_tree@.len(),
                    found <= state.domain.tech_tree@.len(),
                    last < state.pipeline.released@.len(),
                    last_spec == state.pipeline.released@.last(),
                    last + 1 == state.pipeline.released@.len(),
                    // `found` is the greatest matching index so far, or
                    // off the end when nothing matched yet
                    found == state.domain.tech_tree@.len() ==> forall|m: int|
                        0 <= m < n ==> (#[trigger] state.domain.tech_tree@[m]).id.0@
                            != last_spec.tech_node.0@,
                    found < state.domain.tech_tree@.len() ==> found < n
                        && state.domain.tech_tree@[found as int].id.0@ == last_spec.tech_node.0@
                        && (forall|m: int|
                        found < m < n ==> (#[trigger] state.domain.tech_tree@[m]).id.0@
                            != last_spec.tech_node.0@),
                decreases state.domain.tech_tree@.len() - n,
            {
                if state.domain.tech_tree[n].id.0 == state.pipeline.released[last].tech_node.0 {
                    found = n;
                }
                n += 1;
            }
            let ghost tree = state.domain.tech_tree@;
            let ghost found0 = found as int;
            proof {
                // only the greatest matching index can satisfy the clause
                assert forall|n2: int|
                    0 <= n2 < tree.len() && (#[trigger] tree[n2]).id.0@ == last_spec.tech_node.0@
                        && (forall|m: int|
                        n2 < m < tree.len() ==> (#[trigger] tree[m]).id.0@
                            != last_spec.tech_node.0@) implies n2 == found0 by {
                    if n2 != found0 {
                        if found0 == tree.len() {
                            assert(tree[n2].id.0@ != last_spec.tech_node.0@);
                        } else {
                            assert(tree[found0].id.0@ == last_spec.tech_node.0@);
                            if n2 < found0 {
                                assert(tree[found0].id.0@ != last_spec.tech_node.0@);
                            } else {
                                assert(tree[n2].id.0@ != last_spec.tech_node.0@);
                            }
                        }
                    }
                }
            }
            if found < state.domain.tech_tree.len() {
                let cost = compute_unit_cost(
                    &state.domain.tech_tree[found],
                    &state.pipeline.released[last],
                    &state.ai.product_cost,
                );
                state.pricing.unit_cost_cents = if cost > 0x10000000000000 {
                    0x10000000000000
                } else {
                    cost
                };
            }
        }
        let bumped = state.appeal.0 + 500;
        state.appeal.0 = if bumped > 5000 {
            5000
        } else {
            bumped
        };
    }
}

/// A trend record with its sold units replaced.
pub open spec fn spec_with_sold(
    t: crate::market::MarketSegmentTrend,
    sold: u64,
) -> crate::market::MarketSegmentTrend {
    crate::market::MarketSegmentTrend { sold_units: sold, ..t }
}

/// Blended product attractiveness: performance and appeal weighted in
/// basis points, clamped at one whole.
pub open spec fn spec_attractiveness_bp(
    perf_bp: int,
    perf_weight_bp: int,
    appeal_bp: int,
    appeal_weight_bp: int,
) -> int {
    let raw = (perf_bp * perf_weight_bp + appeal_bp * appeal_weight_bp) / 10000;
    if raw > 10000 {
        10000
    } else {
        raw
    }
}

/// Fraction of inventory sold this month: thirty percent plus up to sixty
/// percent of the attractiveness.
pub open spec fn spec_sales_fraction_bp(att_bp: int) -> int {
    3000 + 6000 * att_bp / 10000
}

/// A month's money leg at a price: clamped into the currency range.
pub open spec fn spec_month_money(price: int, units: int) -> int {
    if price * units > spec_money_cap() {
        spec_money_cap()
    } else {
        price * units
    }
}

/// Pipeline step six: sales, contract billing and the monthly cash
/// settlement.  Units sold are the sales fraction of the inventory; the
/// bill follows the take-or-pay ledger over this month's capacity; with
/// zero settlement lags the month's net lands in the first company's cash.
#[verifier::rlimit(60)]
fn step_sales_finance(state: &mut SimState) -> (r: ())
    requires
        spec_sim_wf(*old(state)),
    ensures
        spec_sales_step_rel(*old(state), *final(state)),
        spec_sim_wf(*final(state)),
        final(state).ai == old(state).ai,
        final(state).config == old(state).config,
        final(state).domain.macro_state.date == old(state).domain.macro_state.date,
        final(state).stats.months_run == old(state).stats.months_run,
        ({
            let att = spec_attractiveness_bp(
                old(state).active_product.perf_index_bp as int,
                old(state).ai.product_weights.perf_bp as int,
                old(state).appeal.0 as int,
                old(state).ai.product_weights.appeal_bp as int,
            );
            let sell = old(state).stats.inventory_units * spec_sales_fraction_bp(att) / 10000;
            let revenue = spec_month_money(old(state).pricing.asp_cents as int, sell);
            let cogs = spec_month_money(old(state).pricing.unit_cost_cents as int, sell);
            let billed = spec_sat_i64(
                crate::ledger::spec_bill_total(
                    old(state).book.contracts@,
                    old(state).domain.macro_state.date,
                    old(state).capacity_wafers as int,
                    old(state).book.contracts@.len() as int,
                ),
            );
            &&& final(state).stats.last_sold_units == sell
            &&& final(state).stats.inventory_units == old(state).stats.inventory_units - sell
            &&& final(state).stats.revenue_cents as int == spec_sat_money(
                spec_sat_money(old(state).stats.revenue_cents as int) + revenue,
            )
            &&& final(state).stats.cogs_cents as int == spec_sat_money(
                spec_sat_money(old(state).stats.cogs_cents as int) + cogs,
            )
            &&& final(state).stats.profit_cents as int == spec_sat_money(
                spec_sat_money(old(state).stats.profit_cents as int) + spec_sat_money(
                    revenue - cogs,
                ),
            )
            &&& final(state).stats.last_contract_costs_cents == billed
            &&& (old(state).finance.revenue_cash_in_days == 0 && old(state).finance.cogs_cash_out_days == 0 && old(state).finance.rd_cash_out_days == 0 && old(state).domain.companies@.len() > 0 ==> final(state).domain.companies@[0].cash_cents as int
                == spec_sat_money(
                old(state).domain.companies@[0].cash_cents + spec_sat_money(
                    spec_sat_money(
                        spec_sat_money(
                            spec_sat_money(revenue - cogs) - spec_sat_money(billed as int),
                        ) - old(state).rd_budget.0,
                    ) - old(state).fevents.expedite_spend_cents,
                ),
            ))
            &&& final(state).fevents.expedite_spend_cents == 0
        }),
{
    let date = state.domain.macro_state.date;
    // 6. sales against inventory by blended attractiveness, then contract
    //    billing and the monthly cash settlement
    proof {
        assert(0 <= state.active_product.perf_index_bp * state.ai.product_weights.perf_bp <= 10000
            * 10000) by (nonlinear_arith)
            requires
                0 <= state.active_product.perf_index_bp <= 10000,
                0 <= state.ai.product_weights.perf_bp <= 10000,
        ;
        assert(0 <= state.appeal.0 * state.ai.product_weights.appeal_bp <= 10000 * 10000)
            by (nonlinear_arith)
            requires
                0 <= state.appeal.0 <= 10000,
                0 <= state.ai.product_weights.appeal_bp <= 10000,
        ;
        vstd::arithmetic::div_mod::lemma_div_pos_is_pos(
            state.active_product.perf_index_bp * state.ai.product_weights.perf_bp + state.appeal.0
                * state.ai.product_weights.appeal_bp,
            10000,
        );
        vstd::arithmetic::div_mod::lemma_multiply_divide_le(
            state.active_product.perf_index_bp * state.ai.product_weights.perf_bp + state.appeal.0
                * state.ai.product_weights.appeal_bp,
            10000,
            20000,
        );
    }
    let att_raw: i64 = (state.active_product.perf_index_bp * state.ai.product_weights.perf_bp
        + state.appeal.0 * state.ai.product_weights.appeal_bp) / 10000;
    let att: i64 = if att_raw > 10000 {
        10000
    } else {
        att_raw
    };
    let frac: i64 = 3000 + 6000 * att / 10000;
    proof {
        assert(0 <= 6000 * att <= 6000 * 10000) by (nonlinear_arith)
            requires
                0 <= att <= 10000,
        ;
        vstd::arithmetic::div_mod::lemma_div_pos_is_pos(6000 * att, 10000);
        vstd::arithmetic::div_mod::lemma_multiply_divide_le(6000 * att, 10000, 6000);
    }
    let inv = state.stats.inventory_units;
    proof {
        assert(0 <= (inv as int) * (frac as int) <= 0xffffffffffffffff * 9000)
            by (nonlinear_arith)
            requires
                0 <= inv <= 0xffffffffffffffff,
                0 <= frac <= 9000,
        ;
        vstd::arithmetic::div_mod::lemma_div_pos_is_pos((inv as int) * (frac as int), 10000);
        assert((inv as int) * (frac as int) <= 10000 * (inv as int)) by (nonlinear_arith)
            requires
                0 <= inv,
                0 <= frac <= 10000,
        ;
        vstd::arithmetic::div_mod::lemma_multiply_divide_le(
            (inv as int) * (frac as int),
            10000,
            inv as int,
        );
    }
    let sell: u64 = ((inv as u128) * (frac as u128) / 10000) as u64;
    proof {
        assert(0 <= (state.pricing.asp_cents as int) * (sell as int)) by (nonlinear_arith)
            requires
                0 <= state.pricing.asp_cents,
                0 <= sell,
        ;
        assert(0 <= (state.pricing.unit_cost_cents as int) * (sell as int)) by (nonlinear_arith)
            requires
                0 <= state.pricing.unit_cost_cents,
                0 <= sell,
        ;
        assert((state.pricing.asp_cents as int) * (sell as int) <= 0x20000000000000
            * 0xffffffffffffffff) by (nonlinear_arith)
            requires
                0 <= state.pricing.asp_cents <= 0x20000000000000,
                0 <= sell <= 0xffffffffffffffff,
        ;
        assert((state.pricing.unit_cost_cents as int) * (sell as int) <= 0x20000000000000
            * 0xffffffffffffffff) by (nonlinear_arith)
            requires
                0 <= state.pricing.unit_cost_cents <= 0x20000000000000,
                0 <= sell <= 0xffffffffffffffff,
        ;
    }
    let revenue_raw: i128 = (state.pricing.asp_cents as i128) * (sell as i128);
    let cogs_raw: i128 = (state.pricing.unit_cost_cents as i128) * (sell as i128);
    let revenue: i64 = if revenue_raw > 0x20000000000000i128 {
        0x20000000000000
    } else {
        revenue_raw as i64
    };
    let cogs: i64 = if cogs_raw > 0x20000000000000i128 {
        0x20000000000000
    } else {
        cogs_raw as i64
    };
    let profit: i64 = sat_add_money(revenue, -cogs);
    state.stats.revenue_cents = sat_add_money(
        clamp_money(state.stats.revenue_cents),
        revenue,
    );
    state.stats.profit_cents = sat_add_money(clamp_money(state.stats.profit_cents), profit);
    state.stats.cogs_cents = sat_add_money(clamp_money(state.stats.cogs_cents), cogs);
    state.stats.last_sold_units = sell;
    state.stats.inventory_units = state.stats.inventory_units - sell;
    // contract billing with take-or-pay semantics
    let billed = bill_contracts(&state.book, date, state.capacity_wafers);
    state.stats.last_contract_costs_cents = billed;
    state.stats.contract_costs_cents = sat_add_money(
        clamp_money(state.stats.contract_costs_cents),
        clamp_money(billed),
    );
    // monthly cash settlement, immediate when every lag is zero
    if state.finance.revenue_cash_in_days == 0 && state.finance.cogs_cash_out_days == 0
        && state.finance.rd_cash_out_days == 0 {
        let rd_spend = state.rd_budget.0;
        let expedite = state.fevents.expedite_spend_cents;
        let delta1 = sat_add_money(revenue, -cogs);
        let delta2 = sat_add_money(delta1, -clamp_money(billed));
        let delta3 = sat_add_money(delta2, -rd_spend);
        let delta = sat_add_money(delta3, -expedite);
        if state.domain.companies.len() > 0 {
            let cash = state.domain.companies[0].cash_cents;
            let new_cash = sat_add_money(cash, delta);
            set_company_cash(&mut state.domain, 0, new_cash);
        }
    }
    state.fevents.expedite_spend_cents = 0;
}

/// Pipeline step seven: monthly tactics with the margin floor, then the
/// share drift toward the price-attractiveness target.
#[verifier::rlimit(100)]
#[verifier::spinoff_prover]
fn step_tactics(state: &mut SimState) -> (r: ())
    requires
        spec_sim_wf(*old(state)),
    ensures
        spec_tactics_step_rel(*old(state), *final(state)),
{
    let date = state.domain.macro_state.date;
    // 7. monthly tactics: reactive price and R&D deltas under the margin
    //    floor, then the share drift toward the price-attractiveness target
    let (base_demand, elasticity) = if state.domain.segments.len() > 0 {
        (state.domain.segments[0].base_demand_units, state.domain.segments[0].price_elasticity_milli)
    } else {
        (100000u64, -1200i64)
    };
    let ghost pre = *old(state);
    let ref_price = state.pricing.asp_cents;
    // at the reference price the demand identity collapses the curve to
    // the base demand, so the ratio depends on share and supply alone
    let q_total = match demand(base_demand, state.pricing.asp_cents, ref_price, elasticity) {
        Ok(q) => {
            proof {
                crate::econ::lemma_demand_identity(
                    q,
                    base_demand,
                    ref_price as u64,
                    (-(elasticity as int)) as nat,
                );
            }
            q
        },
        Err(_) => base_demand,
    };
    proof {
        assert(q_total == base_demand);
        assert(base_demand as int == spec_seg_base(pre));
    }
    let share0 = state.stats.market_share_bp;
    proof {
        assert(0 <= (q_total as int) * (share0 as int) <= 0xffffffffffffffff * 10000)
            by (nonlinear_arith)
            requires
                0 <= q_total <= 0xffffffffffffffff,
                0 <= share0 <= 10000,
        ;
        vstd::arithmetic::div_mod::lemma_div_pos_is_pos((q_total as int) * (share0 as int), 10000);
    }
    let our_demand: u128 = (q_total as u128) * (share0 as u128) / 10000;
    let capw = state.capacity_wafers;
    let produced: u64 = if capw <= 0x51eb851eb851eb8 {
        proof {
            assert(capw * 50 <= u64::MAX) by (nonlinear_arith)
                requires
                    0 <= capw <= 0x51eb851eb851eb8,
            ;
        }
        capw * 50
    } else {
        proof {
            assert(capw * 50 > u64::MAX) by (nonlinear_arith)
                requires
                    capw > 0x51eb851eb851eb8,
            ;
        }
        u64::MAX
    };
    proof {
        assert(produced as int == spec_produced_units(capw as int));
    }
    let supply_units: u64 = produced - produced / 20;
    let ratio_bp: i64 = if supply_units == 0 {
        100000
    } else {
        proof {
            vstd::arithmetic::div_mod::lemma_div_pos_is_pos(
                (our_demand as int) * 10000,
                supply_units as int,
            );
        }
        let r: u128 = our_demand * 10000 / (supply_units as u128);
        if r > 1000000000 {
            1000000000
        } else {
            r as i64
        }
    };
    proof {
        assert(ratio_bp as int == spec_strategy_ratio_bp(pre));
    }
    let metrics = metrics_from_world(
        &state.domain,
        state.stats.market_share_bp,
        state.stats.revenue_cents,
        state.stats.profit_cents,
    );
    proof {
        assert(metrics == spec_tactics_metrics(pre));
    }
    let asp_for_tactics = state.pricing.asp_cents;
    let (price_df, rd_delta) = decide_tactics(
        &metrics,
        state.stats.last_share_bp,
        ratio_bp,
        state.pricing.unit_cost_cents,
        asp_for_tactics,
        &state.ai.tactics,
    );
    let df_clamped: i64 = if price_df < -10000 {
        -10000
    } else if price_df > 10000 {
        10000
    } else {
        price_df
    };
    let raw_price = scale_price(state.pricing.asp_cents, df_clamped);
    let floor_price = min_price(state.pricing.unit_cost_cents, state.ai.tactics.min_margin_bp);
    let new_price = if raw_price < floor_price {
        floor_price
    } else {
        raw_price
    };
    state.pricing.asp_cents = if new_price < 1 {
        1
    } else if new_price > 0x20000000000000 {
        0x20000000000000
    } else {
        new_price
    };
    proof {
        assert(df_clamped as int == spec_strategy_price_delta(pre));
        assert(state.pricing.asp_cents as int == spec_tactics_asp(pre));
    }
    let rd2 = state.stats.rd_progress_bp + rd_delta;
    state.stats.rd_progress_bp = if rd2 < 0 {
        0
    } else if rd2 > 10000 {
        10000
    } else {
        rd2
    };
    proof {
        assert(state.stats.rd_progress_bp as int == spec_strategy_rd(pre));
    }
    // share drifts a tenth of the way toward the price target
    let target = expected_share_from_price(
        state.pricing.asp_cents,
        ref_price,
        state.ai.planner.price_pref_beta_milli,
        state.ai.planner.competitor_attractiveness_bp,
        state.appeal.0,
    );
    let drift: i64 = if target >= state.stats.market_share_bp {
        (target - state.stats.market_share_bp) / 10
    } else {
        -((state.stats.market_share_bp - target) / 10)
    };
    let mut share = state.stats.market_share_bp + drift;
    if share < 500 {
        share = 500;
    }
    if share > 9500 {
        share = 9500;
    }
    state.stats.market_share_bp = share;
    proof {
        assert(crate::planner::spec_share_target_ok(
            spec_tactics_asp(pre),
            pre.pricing.asp_cents as int,
            pre.ai.planner.price_pref_beta_milli as int,
            pre.ai.planner.competitor_attractiveness_bp as int,
            pre.appeal.0 as int,
            target as int,
        ));
        assert(state.stats.market_share_bp as int == spec_drifted_share(
            pre.stats.market_share_bp as int,
            target as int,
        ));
    }
}

/// Pipeline step eight: on a decision month, run the quarterly planner
/// and apply only the first decision of the fresh plan.
#[verifier::rlimit(100)]
#[verifier::spinoff_prover]
fn step_planner(state: &mut SimState) -> (r: ())
    requires
        spec_sim_wf(*old(state)),
    ensures
        spec_planner_step_rel(*old(state), *final(state)),
{
    let ghost pre = *old(state);
    let date = state.domain.macro_state.date;
    let (base_demand, elasticity) = if state.domain.segments.len() > 0 {
        (state.domain.segments[0].base_demand_units, state.domain.segments[0].price_elasticity_milli)
    } else {
        (100000u64, -1200i64)
    };
    // 8. quarterly planner: apply only the first decision of a fresh plan
    if (state.stats.months_run as u64 + 1) % 3 == 0 {
        let kpis = CurrentKpis {
            asp_cents: state.pricing.asp_cents,
            unit_cost_cents: state.pricing.unit_cost_cents,
            capacity_units_per_month: 0,
            cash_cents: if state.domain.companies.len() > 0 {
                state.domain.companies[0].cash_cents
            } else {
                0
            },
            debt_cents: if state.domain.companies.len() > 0 {
                state.domain.companies[0].debt_cents
            } else {
                0
            },
            share_bp: state.stats.market_share_bp,
            rd_progress_bp: state.stats.rd_progress_bp,
        };
        let plan = plan_horizon(
            base_demand,
            elasticity,
            state.domain.segments.len(),
            &kpis,
            &state.ai.weights,
            &state.ai.planner,
        );
        if plan.decisions.len() > 0 {
            let first = plan.decisions[0];
            match first.action {
                PlanAction::AdjustPriceFrac(df) => {
                    let dfc: i64 = if df < -10000 {
                        -10000
                    } else if df > 10000 {
                        10000
                    } else {
                        df
                    };
                    let raw = scale_price(state.pricing.asp_cents, dfc);
                    let floor_p = min_price(
                        state.pricing.unit_cost_cents,
                        state.ai.tactics.min_margin_bp,
                    );
                    let p = if raw < floor_p {
                        floor_p
                    } else {
                        raw
                    };
                    state.pricing.asp_cents = if p < 1 {
                        1
                    } else if p > 0x20000000000000 {
                        0x20000000000000
                    } else {
                        p
                    };
                    proof {
                        assert(df == -pre.ai.planner.price_step_bp || df == 0 || df
                            == pre.ai.planner.price_step_bp);
                        assert(dfc == df);
                        assert(state.pricing.asp_cents as int == spec_committed_price(
                            crate::tactics::spec_apply_price_delta(
                                pre.pricing.asp_cents as int,
                                pre.pricing.unit_cost_cents as int,
                                df as int,
                                pre.ai.tactics.min_margin_bp as int,
                            ),
                        ));
                        assert(spec_planner_applied(pre, pre.pricing.asp_cents as int, *state));
                    }
                },
                PlanAction::AllocateRndBoost(_b) => {},
                PlanAction::RequestCapacity(u) => {
                    let lead: u32 = state.ai.planner.quarter_step;
                    let start = add_months(date, lead);
                    let end = add_months(start, 12);
                    let wafers: u32 = if u > 0xffffffff {
                        0xffffffff
                    } else {
                        u as u32
                    };
                    if (state.book.contracts.len() as u64) < 0x100000000u64 {
                        state.book.contracts.push(
                            FoundryContract {
                                foundry_id: planner_foundry_id(),
                                wafers_per_month: wafers,
                                price_per_wafer_cents: 10000,
                                take_or_pay_bp: 10000,
                                billing_cents_per_wafer: 10000,
                                billing_model: planner_billing_model(),
                                lead_time_months: if lead > 255 {
                                    255
                                } else {
                                    lead as u8
                                },
                                start,
                                end,
                            },
                        );
                    }
                    proof {
                        assert(spec_planner_applied(pre, pre.pricing.asp_cents as int, *state));
                    }
                },
                PlanAction::ScheduleTapeout { expedite } => {
                    let node_id: TechNodeId = if state.domain.tech_tree.len() > 0 {
                        TechNodeId(state.domain.tech_tree[0].id.0.clone())
                    } else {
                        TechNodeId(planner_default_node())
                    };
                    let _ = queue_standard_tapeout(
                        &mut state.pipeline,
                        &mut state.fevents,
                        node_id,
                        6000,
                        100000,
                        expedite,
                        date,
                    );
                    proof {
                        assert(spec_planner_applied(pre, pre.pricing.asp_cents as int, *state));
                    }
                },
            }
        }
        proof {
            assert(spec_planner_applied(pre, pre.pricing.asp_cents as int, *state));
        }
    }
}

/// Pipeline step nine: the campaign and tutorial state machines read
/// the freshly updated state.
#[verifier::rlimit(60)]
fn step_trackers(state: &mut SimState) -> (r: ())
    requires
        spec_sim_wf(*old(state)),
    ensures
        spec_trackers_step_rel(*old(state), *final(state)),
        spec_sim_wf(*final(state)),
        final(state).ai == old(state).ai,
        final(state).config == old(state).config,
        final(state).domain.macro_state.date == old(state).domain.macro_state.date,
        final(state).stats.months_run == old(state).stats.months_run,
        final(state).pricing == old(state).pricing,
        500 <= final(state).stats.market_share_bp <= 9500 || final(state).stats.market_share_bp
            == old(state).stats.market_share_bp,
        final(state).stats.market_share_bp == old(state).stats.market_share_bp,
{
    let ghost pre = *old(state);
    let date = state.domain.macro_state.date;
    // 9. campaign and tutorial state machines against the fresh state
    let mut released_nodes: Vec<TechNodeId> = Vec::new();
    let mut n: usize = 0;
    while n < state.pipeline.released.len()
        invariant
            n <= state.pipeline.released@.len(),
            state.pipeline.released@ == pre.pipeline.released@,
            released_nodes@.len() == n,
            forall|k: int|
                0 <= k < n ==> (#[trigger] released_nodes@[k]).0@ == pre.pipeline.released@[k].tech_node.0@,
        decreases state.pipeline.released@.len() - n,
    {
        released_nodes.push(TechNodeId(state.pipeline.released[n].tech_node.0.clone()));
        n += 1;
    }
    let mut active_ids: Vec<String> = Vec::new();
    let mut n: usize = 0;
    while n < state.events.len()
        invariant
            n <= state.events@.len(),
            spec_date_valid(date),
            state.events@ == pre.events@,
            date == pre.domain.macro_state.date,
            forall|j: int|
                0 <= j < state.events@.len() ==> spec_date_valid((#[trigger] state.events@[j]).start),
            active_ids@.len() == spec_active_id_views(pre.events@, date, n as int).len(),
            forall|k: int|
                0 <= k < active_ids@.len() ==> (#[trigger] active_ids@[k])@
                    == spec_active_id_views(pre.events@, date, n as int)[k],
        decreases state.events@.len() - n,
    {
        let ev = &state.events[n];
        if window_active(ev.start, ev.months, date) {
            active_ids.push(ev.id.clone());
        }
        n += 1;
    }
    proof {
        assert(active_ids@.len() == spec_active_id_views(
            pre.events@,
            date,
            pre.events@.len() as int,
        ).len());
    }
    let cash_now: i64 = if state.domain.companies.len() > 0 {
        state.domain.companies[0].cash_cents
    } else {
        0
    };
    if let Some(sc) = &state.campaign {
        let inputs = CampaignInputs {
            date,
            share_bp: state.stats.market_share_bp,
            profit_cents: state.stats.profit_cents,
            cash_cents: cash_now,
            released_nodes: &released_nodes,
            active_event_ids: &active_ids,
        };
        campaign_step(sc, &mut state.campaign_state, &inputs);
    }
    tutorial_step(
        &mut state.tutorial,
        state.pricing.asp_cents,
        &state.book,
        &state.pipeline,
        state.stats.months_run,
        cash_now,
    );
    proof {
        match pre.campaign {
            Some(sc2) => {
                assert(spec_campaign_tracked(pre, *state, sc2, released_nodes@, active_ids@));
            },
            None => (),
        }
    }
}


/// Clamp a running statistic into the currency range before accumulating.
fn clamp_money(x: i64) -> (r: i64)
    ensures
        r as int == spec_sat_money(x as int),
{
    if x > 0x20000000000000 {
        0x20000000000000
    } else if x < -0x20000000000000 {
        -0x20000000000000
    } else {
        x
    }
}

/// Write the allocated sold units back into the trend records; every other
/// field is untouched.
fn write_sold_units(trends: &mut MarketTrends, sold: &Vec<u64>) -> (r: ())
    ensures
        final(trends).0@.len() == old(trends).0@.len(),
        forall|j: int|
            0 <= j < final(trends).0@.len() ==> spec_with_sold(#[trigger] final(trends).0@[j], 0)
                == spec_with_sold(old(trends).0@[j], 0),
{
    let mut i: usize = 0;
    while i < trends.0.len()
        invariant
            i <= trends.0@.len(),
            trends.0@.len() == old(trends).0@.len(),
            forall|j: int|
                0 <= j < trends.0@.len() ==> spec_with_sold(#[trigger] trends.0@[j], 0)
                    == spec_with_sold(old(trends).0@[j], 0),
        decreases trends.0@.len() - i,
    {
        if i < sold.len() {
            let su = sold[i];
            let t = &mut trends.0[i];
            t.sold_units = su;
        }
        i += 1;
    }
}

/// Write one company's cash in place, preserving the money bounds.
fn set_company_cash(world: &mut World, i: usize, cash: i64) -> (r: ())
    requires
        i < old(world).companies@.len(),
        -0x20000000000000 <= cash <= 0x20000000000000,
        forall|j: int|
            0 <= j < old(world).companies@.len() ==> -0x20000000000000 <= (#[trigger] old(world).companies@[j]).cash_cents <= 0x20000000000000 && 0 <= old(world).companies@[j].debt_cents <= 0x20000000000000,
    ensures
        final(world).companies@.len() == old(world).companies@.len(),
        final(world).tech_tree == old(world).tech_tree,
        final(world).macro_state == old(world).macro_state,
        final(world).segments == old(world).segments,
        final(world).companies@[i as int].cash_cents == cash,
        forall|j: int|
            0 <= j < final(world).companies@.len() && j != i
                ==> #[trigger] final(world).companies@[j] == old(world).companies@[j],
        forall|j: int|
            0 <= j < final(world).companies@.len() ==> -0x20000000000000 <= (#[trigger] final(world).companies@[j]).cash_cents <= 0x20000000000000 && 0 <= final(world).companies@[j].debt_cents <= 0x20000000000000,
{
    let c = &mut world.companies[i];
    c.cash_cents = cash;
}

fn planner_foundry_id() -> (r: String)
    ensures
        r@ == "FND-A"@,
{
    proof {
        reveal_strlit("FND-A");
    }
    let s: String = "FND-A".to_owned();
    s
}

fn planner_billing_model() -> (r: String)
    ensures
        r@ == "take_or_pay"@,
{
    proof {
        reveal_strlit("take_or_pay");
    }
    let s: String = "take_or_pay".to_owned();
    s
}

fn planner_default_node() -> (r: String)
    ensures
        r@ == "800nm"@,
{
    proof {
        reveal_strlit("800nm");
    }
    let s: String = "800nm".to_owned();
    s
}

/// Queue a standard product tape-out: nine months to ready, or six when
/// expedited for a one-off fee booked through the finance events.
fn queue_standard_tapeout(
    pipeline: &mut ProductPipeline,
    fevents: &mut FinanceEvents,
    node_id: TechNodeId,
    perf_index_bp: i64,
    die_area_mm2_milli: i64,
    expedite: bool,
    date: Date,
) -> (ready: Date)
    requires
        spec_date_valid(date),
        1 <= date.year <= 9000,
        die_area_mm2_milli > 0,
        -0x20000000000000 <= old(fevents).expedite_spend_cents <= 0x20000000000000,
        forall|j: int|
            0 <= j < old(pipeline).queue@.len() ==> (#[trigger] old(pipeline).queue@[j]).product.die_area_mm2_milli > 0,
    ensures
        ready == spec_add_months(date, if expedite {
            6int
        } else {
            9int
        }),
        final(pipeline).queue@.len() == old(pipeline).queue@.len() + 1,
        forall|j: int|
            0 <= j < final(pipeline).queue@.len() ==> (#[trigger] final(pipeline).queue@[j]).product.die_area_mm2_milli > 0,
        final(pipeline).released@ == old(pipeline).released@,
        ({
            let q = final(pipeline).queue@.last();
            &&& q.product.perf_index_bp == perf_index_bp
            &&& q.product.die_area_mm2_milli == die_area_mm2_milli
            &&& q.product.tech_node.0@ == node_id.0@
            &&& q.tech_node.0@ == node_id.0@
            &&& q.start == date
            &&& q.ready == ready
            &&& q.expedite == expedite
            &&& q.expedite_cost_cents == if expedite {
                100000int
            } else {
                0int
            }
        }),
        forall|j: int|
            0 <= j < old(pipeline).queue@.len() ==> #[trigger] final(pipeline).queue@[j] == old(
                pipeline,
            ).queue@[j],
        final(fevents).expedite_spend_cents as int == if expedite {
            spec_sat_money(old(fevents).expedite_spend_cents + 100000)
        } else {
            old(fevents).expedite_spend_cents as int
        },
        -0x20000000000000 <= final(fevents).expedite_spend_cents <= 0x20000000000000,
{
    let months: u32 = if expedite {
        6
    } else {
        9
    };
    let ready = add_months(date, months);
    let mut cost: i64 = 0;
    if expedite {
        cost = 100000;
        fevents.expedite_spend_cents = sat_add_money(fevents.expedite_spend_cents, 100000);
    }
    let spec_p = ProductSpec {
        kind: ProductKind::CPU,
        tech_node: TechNodeId(node_id.0.clone()),
        microarch: MicroArch {
            ipc_index_milli: 1000,
            pipeline_depth: 10,
            cache_l1_kb: 64,
            cache_l2_mb_milli: 1000,
            chiplet: false,
        },
        die_area_mm2_milli,
        perf_index_bp,
        tdp_mw: 65000,
        bom_cents: 5000,
    };
    pipeline.queue.push(
        crate::pipeline::TapeoutRequest {
            product: spec_p,
            tech_node: node_id,
            start: date,
            ready,
            expedite,
            expedite_cost_cents: cost,
        },
    );
    ready
}

} // verus!

verus! {


/// The date after `n` clamped month advances.
pub open spec fn spec_next_months(d: crate::date::Date, n: int) -> crate::date::Date
    decreases n,
{
    if n <= 0 {
        d
    } else {
        spec_next_month(spec_next_months(d, n - 1))
    }
}

/// A month counter after `n` saturating increments.
pub open spec fn spec_months_after(m: int, n: int) -> int {
    if m + n > u32::MAX {
        u32::MAX as int
    } else {
        m + n
    }
}

/// `post` is reachable from `pre` by exactly `n` ticks.
pub open spec fn spec_run_rel(pre: SimState, post: SimState, n: int) -> bool
    decreases n,
{
    if n <= 0 {
        post == pre
    } else {
        exists|mid: SimState| #[trigger] spec_tick_rel(pre, mid) && spec_run_rel(mid, post, n - 1)
    }
}

/// Extending a run by one more tick at its end.
pub proof fn lemma_run_rel_snoc(pre: SimState, cur: SimState, next: SimState, n: int)
    requires
        n >= 0,
        spec_run_rel(pre, cur, n),
        spec_tick_rel(cur, next),
    ensures
        spec_run_rel(pre, next, n + 1),
    decreases n,
{
    if n == 0 {
        assert(spec_run_rel(cur, next, 1)) by {
            assert(spec_tick_rel(cur, next) && spec_run_rel(next, next, 0));
        };
    } else {
        let mid = choose|mid: SimState| #[trigger] spec_tick_rel(pre, mid) && spec_run_rel(
            mid,
            cur,
            n - 1,
        );
        lemma_run_rel_snoc(mid, cur, next, n - 1);
        assert(spec_tick_rel(pre, mid) && spec_run_rel(mid, next, n));
    }
}

/// The snapshot drawn from a state.
pub open spec fn spec_snapshot_of(s: SimState) -> SimSnapshot {
    SimSnapshot {
        months_run: s.stats.months_run,
        cash_cents: if s.domain.companies@.len() > 0 {
            s.domain.companies@[0].cash_cents
        } else {
            0
        },
        revenue_cents: s.stats.revenue_cents,
        cogs_cents: s.stats.cogs_cents,
        profit_cents: s.stats.profit_cents,
        contract_costs_cents: s.stats.contract_costs_cents,
        asp_cents: s.pricing.asp_cents,
        unit_cost_cents: s.pricing.unit_cost_cents,
        market_share_bp: s.stats.market_share_bp,
        rd_progress_bp: s.stats.rd_progress_bp,
        output_units: s.stats.output_units,
        defect_units: s.stats.defect_units,
        inventory_units: s.stats.inventory_units,
    }
}

/// A telemetry record is internally consistent: revenue is its own price
/// times its own sold units (clamped into the currency range) and the
/// margin nets the unit cost, both as the run loop records them.
pub open spec fn spec_telemetry_row_ok(t: MonthlyTelemetry) -> bool {
    let revenue = spec_month_money(t.asp_cents as int, t.sold_units as int);
    let cogs = spec_month_money(t.unit_cost_cents as int, t.sold_units as int);
    &&& t.revenue_cents as int == revenue
    &&& t.margin_cents as int == spec_sat_money(revenue - cogs)
}

/// Snapshot of the aggregated KPIs as they stand.
pub fn build_snapshot(state: &SimState) -> (snap: SimSnapshot)
    ensures
        snap == spec_snapshot_of(*state),
        snap.months_run == state.stats.months_run,
        snap.cash_cents == if state.domain.companies@.len() > 0 {
            state.domain.companies@[0].cash_cents as int
        } else {
            0
        },
        snap.revenue_cents == state.stats.revenue_cents,
        snap.cogs_cents == state.stats.cogs_cents,
        snap.profit_cents == state.stats.profit_cents,
        snap.contract_costs_cents == state.stats.contract_costs_cents,
        snap.asp_cents == state.pricing.asp_cents,
        snap.unit_cost_cents == state.pricing.unit_cost_cents,
        snap.market_share_bp == state.stats.market_share_bp,
        snap.rd_progress_bp == state.stats.rd_progress_bp,
        snap.output_units == state.stats.output_units,
        snap.defect_units == state.stats.defect_units,
        snap.inventory_units == state.stats.inventory_units,
{
    SimSnapshot {
        months_run: state.stats.months_run,
        cash_cents: if state.domain.companies.len() > 0 {
            state.domain.companies[0].cash_cents
        } else {
            0
        },
        revenue_cents: state.stats.revenue_cents,
        cogs_cents: state.stats.cogs_cents,
        profit_cents: state.stats.profit_cents,
        contract_costs_cents: state.stats.contract_costs_cents,
        asp_cents: state.pricing.asp_cents,
        unit_cost_cents: state.pricing.unit_cost_cents,
        market_share_bp: state.stats.market_share_bp,
        rd_progress_bp: state.stats.rd_progress_bp,
        output_units: state.stats.output_units,
        defect_units: state.stats.defect_units,
        inventory_units: state.stats.inventory_units,
    }
}

/// Run the given number of monthly ticks in place, returning the final
/// snapshot and one telemetry record per month.  A batch either completes
/// or does not happen; there are no suspension points.  The final state is
/// reachable from the old one by exactly `months` ticks, the month counter
/// and the calendar advance accordingly, and each telemetry record carries
/// its one-based month index with internally consistent revenue and margin.
pub fn run_months_in_place(state: &mut SimState, months: u32) -> (r: (
    SimSnapshot,
    Vec<MonthlyTelemetry>,
))
    requires
        spec_sim_wf(*old(state)),
    ensures
        spec_sim_wf(*final(state)),
        spec_run_rel(*old(state), *final(state), months as int),
        final(state).stats.months_run as int == spec_months_after(
            old(state).stats.months_run as int,
            months as int,
        ),
        final(state).domain.macro_state.date == spec_next_months(
            old(state).domain.macro_state.date,
            months as int,
        ),
        r.0 == spec_snapshot_of(*final(state)),
        r.1@.len() == months,
        forall|k: int| 0 <= k < months ==> (#[trigger] r.1@[k]).month_index == k + 1,
        forall|k: int| 0 <= k < months ==> spec_telemetry_row_ok(#[trigger] r.1@[k]),
        months > 0 ==> final(state).pricing.asp_cents >= spec_min_price(
            final(state).pricing.unit_cost_cents as int,
            final(state).ai.tactics.min_margin_bp as int,
        ),
{
    let mut telemetry: Vec<MonthlyTelemetry> = Vec::new();
    let mut m: u32 = 0;
    while m < months
        invariant
            m <= months,
            telemetry@.len() == m,
            spec_sim_wf(*state),
            spec_run_rel(*old(state), *state, m as int),
            state.stats.months_run as int == spec_months_after(
                old(state).stats.months_run as int,
                m as int,
            ),
            state.domain.macro_state.date == spec_next_months(
                old(state).domain.macro_state.date,
                m as int,
            ),
            forall|k: int| 0 <= k < m ==> (#[trigger] telemetry@[k]).month_index == k + 1,
            forall|k: int| 0 <= k < m ==> spec_telemetry_row_ok(#[trigger] telemetry@[k]),
            m > 0 ==> state.pricing.asp_cents >= spec_min_price(
                state.pricing.unit_cost_cents as int,
                state.ai.tactics.min_margin_bp as int,
            ),
        decreases months - m,
    {
        let ghost cur = *state;
        tick(state);
        proof {
            lemma_run_rel_snoc(*old(state), cur, *state, m as int);
        }
        let sold = state.stats.last_sold_units;
        let asp = state.pricing.asp_cents;
        let unit_cost = state.pricing.unit_cost_cents;
        proof {
            assert(0 <= (asp as int) * (sold as int) <= 0x20000000000000 * 0xffffffffffffffff)
                by (nonlinear_arith)
                requires
                    0 <= asp <= 0x20000000000000,
                    0 <= sold <= 0xffffffffffffffff,
            ;
            assert(0 <= (unit_cost as int) * (sold as int) <= 0x20000000000000
                * 0xffffffffffffffff) by (nonlinear_arith)
                requires
                    0 <= unit_cost <= 0x20000000000000,
                    0 <= sold <= 0xffffffffffffffff,
            ;
        }
        let revenue_raw: i128 = (asp as i128) * (sold as i128);
        let cost_raw: i128 = (unit_cost as i128) * (sold as i128);
        let revenue: i64 = if revenue_raw > 0x20000000000000i128 {
            0x20000000000000
        } else {
            revenue_raw as i64
        };
        let cost: i64 = if cost_raw > 0x20000000000000i128 {
            0x20000000000000
        } else {
            cost_raw as i64
        };
        telemetry.push(
            MonthlyTelemetry {
                month_index: m + 1,
                output_units: state.stats.output_units,
                sold_units: sold,
                asp_cents: asp,
                unit_cost_cents: unit_cost,
                margin_cents: sat_add_money(revenue, -cost),
                revenue_cents: revenue,
            },
        );
        m += 1;
    }
    let snap = build_snapshot(state);
    (snap, telemetry)
}

/// Run months on an owned state and return the snapshot with telemetry;
/// the snapshot belongs to a state exactly `months` ticks from the input.
pub fn run_months_with_telemetry(state: SimState, months: u32) -> (r: (
    SimSnapshot,
    Vec<MonthlyTelemetry>,
))
    requires
        spec_sim_wf(state),
    ensures
        exists|fin: SimState| #[trigger] spec_run_rel(state, fin, months as int) && r.0
            == spec_snapshot_of(fin),
        r.0.months_run as int == spec_months_after(state.stats.months_run as int, months as int),
        r.1@.len() == months,
        forall|k: int| 0 <= k < months ==> (#[trigger] r.1@[k]).month_index == k + 1,
        forall|k: int| 0 <= k < months ==> spec_telemetry_row_ok(#[trigger] r.1@[k]),
{
    let mut s = state;
    let r = run_months_in_place(&mut s, months);
    proof {
        assert(spec_run_rel(state, s, months as int) && r.0 == spec_snapshot_of(s));
    }
    r
}

/// Run months on an owned state and return only the snapshot: the blocking
/// batch `advance` of the host interface.  The snapshot belongs to a state
/// exactly `months` ticks from the input, and its month counter accounts
/// for every tick.
pub fn run_months(state: SimState, months: u32) -> (snap: SimSnapshot)
    requires
        spec_sim_wf(state),
    ensures
        exists|fin: SimState| #[trigger] spec_run_rel(state, fin, months as int) && snap
            == spec_snapshot_of(fin),
        snap.months_run as int == spec_months_after(state.stats.months_run as int, months as int),
{
    let mut s = state;
    let (snap, _telemetry) = run_months_in_place(&mut s, months);
    proof {
        assert(spec_run_rel(state, s, months as int) && snap == spec_snapshot_of(s));
    }
    snap
}

/// One tech node equals another up to the view of its identifier strings.
pub open spec fn spec_node_like(a: crate::domain::TechNode, b: crate::domain::TechNode) -> bool {
    &&& a.id.0@ == b.id.0@
    &&& a.year_available == b.year_available
    &&& a.density_mtr_per_mm2_milli == b.density_mtr_per_mm2_milli
    &&& a.freq_ghz_baseline_milli == b.freq_ghz_baseline_milli
    &&& a.leakage_index_milli == b.leakage_index_milli
    &&& a.yield_baseline_bp == b.yield_baseline_bp
    &&& a.wafer_cost_cents == b.wafer_cost_cents
    &&& a.mask_set_cost_cents == b.mask_set_cost_cents
    &&& a.dependencies@.len() == b.dependencies@.len()
    &&& forall|k: int|
        0 <= k < a.dependencies@.len() ==> (#[trigger] a.dependencies@[k]).0@
            == b.dependencies@[k].0@
}

/// One company equals another up to the views of its strings.
pub open spec fn spec_company_like(a: Company, b: Company) -> bool {
    &&& a.name@ == b.name@
    &&& a.cash_cents == b.cash_cents
    &&& a.debt_cents == b.debt_cents
    &&& a.ip_portfolio@.len() == b.ip_portfolio@.len()
    &&& forall|k: int|
        0 <= k < a.ip_portfolio@.len() ==> (#[trigger] a.ip_portfolio@[k])@ == b.ip_portfolio@[k]@
}

/// One market-config segment equals another up to its step-event list's
/// view.
pub open spec fn spec_cfg_segment_like(
    a: crate::market::MarketCfgSegment,
    b: crate::market::MarketCfgSegment,
) -> bool {
    &&& a.id@ == b.id@
    &&& a.name@ == b.name@
    &&& a.base_demand_units_1990 == b.base_demand_units_1990
    &&& a.base_asp_cents_1990 == b.base_asp_cents_1990
    &&& a.elasticity_milli == b.elasticity_milli
    &&& a.annual_growth_bp == b.annual_growth_bp
    &&& a.step_events@ == b.step_events@
}

/// One ledger entry equals another up to its patch list's view.
pub open spec fn spec_effect_entry_like(
    a: crate::effects::ActiveEffect,
    b: crate::effects::ActiveEffect,
) -> bool {
    a.start == b.start && a.end == b.end && a.patches@ == b.patches@
}

/// One campaign scenario equals another up to its goal and fail lists'
/// views.
pub open spec fn spec_scenario_like(a: CampaignScenarioRes, b: CampaignScenarioRes) -> bool {
    &&& a.start == b.start
    &&& a.end == b.end
    &&& (a.difficulty is Some <==> b.difficulty is Some)
    &&& (a.difficulty matches Some(d) ==> b.difficulty matches Some(d2) && d@ == d2@)
    &&& a.goals@ == b.goals@
    &&& a.fails@ == b.fails@
}

/// A copied state equals its source field for field; collections are equal
/// at the view level (equal sequences of equal records, with nested lists
/// compared by view where the records carry lists of their own).
pub open spec fn spec_state_equiv(a: SimState, b: SimState) -> bool {
    &&& a.config == b.config
    &&& a.stats == b.stats
    &&& a.capacity_wafers == b.capacity_wafers
    &&& a.pricing == b.pricing
    &&& a.appeal == b.appeal
    &&& a.active_product == b.active_product
    &&& a.rd_budget == b.rd_budget
    &&& a.finance == b.finance
    &&& a.fevents == b.fevents
    &&& a.ai == b.ai
    &&& a.difficulty == b.difficulty
    &&& a.tutorial == b.tutorial
    &&& a.domain.macro_state == b.domain.macro_state
    &&& a.domain.tech_tree@.len() == b.domain.tech_tree@.len()
    &&& forall|k: int|
        0 <= k < a.domain.tech_tree@.len() ==> spec_node_like(
            #[trigger] a.domain.tech_tree@[k],
            b.domain.tech_tree@[k],
        )
    &&& a.domain.companies@.len() == b.domain.companies@.len()
    &&& forall|k: int|
        0 <= k < a.domain.companies@.len() ==> spec_company_like(
            #[trigger] a.domain.companies@[k],
            b.domain.companies@[k],
        )
    &&& a.domain.segments@ == b.domain.segments@
    &&& a.book.contracts@ == b.book.contracts@
    &&& a.pipeline.queue@ == b.pipeline.queue@
    &&& a.pipeline.released@ == b.pipeline.released@
    &&& a.market_cfg.segments@.len() == b.market_cfg.segments@.len()
    &&& forall|k: int|
        0 <= k < a.market_cfg.segments@.len() ==> spec_cfg_segment_like(
            #[trigger] a.market_cfg.segments@[k],
            b.market_cfg.segments@[k],
        )
    &&& a.trends.0@ == b.trends.0@
    &&& a.effects.0@ == b.effects.0@
    &&& a.events@ == b.events@
    &&& a.effect_specs@ == b.effect_specs@
    &&& a.effects_ledger.active@.len() == b.effects_ledger.active@.len()
    &&& forall|k: int|
        0 <= k < a.effects_ledger.active@.len() ==> spec_effect_entry_like(
            #[trigger] a.effects_ledger.active@[k],
            b.effects_ledger.active@[k],
        )
    &&& (a.campaign is Some <==> b.campaign is Some)
    &&& (a.campaign matches Some(sc) ==> b.campaign matches Some(sc2) && spec_scenario_like(
        sc,
        sc2,
    ))
    &&& a.campaign_state.outcome == b.campaign_state.outcome
    &&& a.campaign_state.goal_status@ == b.campaign_state.goal_status@
}

/// An independent deep copy of the running state, for dry-run projections:
/// the copy equals the source field for field, and ownership guarantees
/// that advancing the copy cannot affect the original.
pub fn clone_world_state(state: &SimState) -> (r: SimState)
    ensures
        spec_state_equiv(r, *state),
{
    SimState {
        domain: clone_domain(&state.domain),
        config: state.config,
        stats: state.stats,
        capacity_wafers: state.capacity_wafers,
        book: CapacityBook { contracts: clone_contracts(&state.book.contracts) },
        pricing: state.pricing,
        appeal: state.appeal,
        active_product: state.active_product,
        pipeline: ProductPipeline {
            queue: clone_tapeouts(&state.pipeline.queue),
            released: clone_products(&state.pipeline.released),
        },
        rd_budget: state.rd_budget,
        finance: state.finance,
        fevents: state.fevents,
        market_cfg: MarketConfigRes { segments: clone_cfg_segments(&state.market_cfg.segments) },
        trends: MarketTrends(clone_trends(&state.trends.0)),
        effects: MarketModEffects(clone_effects(&state.effects.0)),
        events: clone_events(&state.events),
        effect_specs: clone_effect_specs(&state.effect_specs),
        effects_ledger: EffectsLedger { active: clone_ledger(&state.effects_ledger.active) },
        campaign: match &state.campaign {
            Some(sc) => Some(clone_scenario(sc)),
            None => None,
        },
        campaign_state: CampaignStateRes {
            goal_status: clone_statuses(&state.campaign_state.goal_status),
            outcome: state.campaign_state.outcome,
        },
        tutorial: state.tutorial,
        ai: state.ai,
        difficulty: state.difficulty,
    }
}

fn clone_domain(w: &World) -> (r: World)
    ensures
        r.macro_state == w.macro_state,
        r.tech_tree@.len() == w.tech_tree@.len(),
        forall|k: int|
            0 <= k < w.tech_tree@.len() ==> spec_node_like(
                #[trigger] r.tech_tree@[k],
                w.tech_tree@[k],
            ),
        r.companies@.len() == w.companies@.len(),
        forall|k: int|
            0 <= k < w.companies@.len() ==> spec_company_like(
                #[trigger] r.companies@[k],
                w.companies@[k],
            ),
        r.segments@ == w.segments@,
{
    let mut tech: Vec<crate::domain::TechNode> = Vec::new();
    let mut i: usize = 0;
    while i < w.tech_tree.len()
        invariant
            i <= w.tech_tree@.len(),
            tech@.len() == i,
            forall|k: int|
                0 <= k < i ==> spec_node_like(#[trigger] tech@[k], w.tech_tree@[k]),
        decreases w.tech_tree@.len() - i,
    {
        let n = &w.tech_tree[i];
        let mut deps: Vec<TechNodeId> = Vec::new();
        let mut k: usize = 0;
        while k < n.dependencies.len()
            invariant
                k <= n.dependencies@.len(),
                deps@.len() == k,
                forall|l: int|
                    0 <= l < k ==> (#[trigger] deps@[l]).0@ == n.dependencies@[l].0@,
            decreases n.dependencies@.len() - k,
        {
            deps.push(TechNodeId(n.dependencies[k].0.clone()));
            k += 1;
        }
        tech.push(
            crate::domain::TechNode {
                id: TechNodeId(n.id.0.clone()),
                year_available: n.year_available,
                density_mtr_per_mm2_milli: n.density_mtr_per_mm2_milli,
                freq_ghz_baseline_milli: n.freq_ghz_baseline_milli,
                leakage_index_milli: n.leakage_index_milli,
                yield_baseline_bp: n.yield_baseline_bp,
                wafer_cost_cents: n.wafer_cost_cents,
                mask_set_cost_cents: n.mask_set_cost_cents,
                dependencies: deps,
            },
        );
        i += 1;
    }
    let mut companies: Vec<Company> = Vec::new();
    let mut i: usize = 0;
    while i < w.companies.len()
        invariant
            i <= w.companies@.len(),
            companies@.len() == i,
            forall|k: int|
                0 <= k < i ==> spec_company_like(#[trigger] companies@[k], w.companies@[k]),
        decreases w.companies@.len() - i,
    {
        let c = &w.companies[i];
        let mut ip: Vec<String> = Vec::new();
        let mut k: usize = 0;
        while k < c.ip_portfolio.len()
            invariant
                k <= c.ip_portfolio@.len(),
                ip@.len() == k,
                forall|l: int| 0 <= l < k ==> (#[trigger] ip@[l])@ == c.ip_portfolio@[l]@,
            decreases c.ip_portfolio@.len() - k,
        {
            ip.push(c.ip_portfolio[k].clone());
            k += 1;
        }
        companies.push(
            Company {
                name: c.name.clone(),
                cash_cents: c.cash_cents,
                debt_cents: c.debt_cents,
                ip_portfolio: ip,
            },
        );
        i += 1;
    }
    let mut segments: Vec<crate::domain::MarketSegment> = Vec::new();
    let mut i: usize = 0;
    while i < w.segments.len()
        invariant
            i <= w.segments@.len(),
            segments@.len() == i,
            forall|k: int| 0 <= k < i ==> #[trigger] segments@[k] == w.segments@[k],
        decreases w.segments@.len() - i,
    {
        let s = &w.segments[i];
        segments.push(
            crate::domain::MarketSegment {
                name: s.name.clone(),
                base_demand_units: s.base_demand_units,
                price_elasticity_milli: s.price_elasticity_milli,
            },
        );
        i += 1;
    }
    proof {
        assert(segments@ =~= w.segments@);
    }
    World { macro_state: w.macro_state, tech_tree: tech, companies, segments }
}

fn clone_contracts(v: &Vec<FoundryContract>) -> (r: Vec<FoundryContract>)
    ensures
        r@ == v@,
{
    let mut out: Vec<FoundryContract> = Vec::new();
    let mut i: usize = 0;
    while i < v.len()
        invariant
            i <= v@.len(),
            out@.len() == i,
            forall|k: int| 0 <= k < i ==> #[trigger] out@[k] == v@[k],
        decreases v@.len() - i,
    {
        let c = &v[i];
        out.push(
            FoundryContract {
                foundry_id: c.foundry_id.clone(),
                wafers_per_month: c.wafers_per_month,
                price_per_wafer_cents: c.price_per_wafer_cents,
                take_or_pay_bp: c.take_or_pay_bp,
                billing_cents_per_wafer: c.billing_cents_per_wafer,
                billing_model: c.billing_model.clone(),
                lead_time_months: c.lead_time_months,
                start: c.start,
                end: c.end,
            },
        );
        i += 1;
    }
    proof {
        assert(out@ =~= v@);
    }
    out
}

fn clone_product(p: &ProductSpec) -> (r: ProductSpec)
    ensures
        r == *p,
{
    ProductSpec {
        kind: p.kind,
        tech_node: TechNodeId(p.tech_node.0.clone()),
        microarch: p.microarch,
        die_area_mm2_milli: p.die_area_mm2_milli,
        perf_index_bp: p.perf_index_bp,
        tdp_mw: p.tdp_mw,
        bom_cents: p.bom_cents,
    }
}

fn clone_tapeouts(v: &Vec<crate::pipeline::TapeoutRequest>) -> (r: Vec<
    crate::pipeline::TapeoutRequest,
>)
    ensures
        r@ == v@,
{
    let mut out: Vec<crate::pipeline::TapeoutRequest> = Vec::new();
    let mut i: usize = 0;
    while i < v.len()
        invariant
            i <= v@.len(),
            out@.len() == i,
            forall|k: int| 0 <= k < i ==> #[trigger] out@[k] == v@[k],
        decreases v@.len() - i,
    {
        let t = &v[i];
        out.push(
            crate::pipeline::TapeoutRequest {
                product: clone_product(&t.product),
                tech_node: TechNodeId(t.tech_node.0.clone()),
                start: t.start,
                ready: t.ready,
                expedite: t.expedite,
                expedite_cost_cents: t.expedite_cost_cents,
            },
        );
        i += 1;
    }
    proof {
        assert(out@ =~= v@);
    }
    out
}

fn clone_products(v: &Vec<ProductSpec>) -> (r: Vec<ProductSpec>)
    ensures
        r@ == v@,
{
    let mut out: Vec<ProductSpec> = Vec::new();
    let mut i: usize = 0;
    while i < v.len()
        invariant
            i <= v@.len(),
            out@.len() == i,
            forall|k: int| 0 <= k < i ==> #[trigger] out@[k] == v@[k],
        decreases v@.len() - i,
    {
        out.push(clone_product(&v[i]));
        i += 1;
    }
    proof {
        assert(out@ =~= v@);
    }
    out
}

fn clone_cfg_segments(v: &Vec<crate::market::MarketCfgSegment>) -> (r: Vec<
    crate::market::MarketCfgSegment,
>)
    ensures
        r@.len() == v@.len(),
        forall|k: int|
            0 <= k < v@.len() ==> spec_cfg_segment_like(#[trigger] r@[k], v@[k]),
{
    let mut out: Vec<crate::market::MarketCfgSegment> = Vec::new();
    let mut i: usize = 0;
    while i < v.len()
        invariant
            i <= v@.len(),
            out@.len() == i,
            forall|k: int| 0 <= k < i ==> spec_cfg_segment_like(#[trigger] out@[k], v@[k]),
        decreases v@.len() - i,
    {
        let s = &v[i];
        let mut steps: Vec<crate::market::MarketStepEvent> = Vec::new();
        let mut k: usize = 0;
        while k < s.step_events.len()
            invariant
                k <= s.step_events@.len(),
                steps@.len() == k,
                forall|l: int| 0 <= l < k ==> #[trigger] steps@[l] == s.step_events@[l],
            decreases s.step_events@.len() - k,
        {
            steps.push(s.step_events[k]);
            k += 1;
        }
        proof {
            assert(steps@ =~= s.step_events@);
        }
        out.push(
            crate::market::MarketCfgSegment {
                id: s.id.clone(),
                name: s.name.clone(),
                base_demand_units_1990: s.base_demand_units_1990,
                base_asp_cents_1990: s.base_asp_cents_1990,
                elasticity_milli: s.elasticity_milli,
                annual_growth_bp: s.annual_growth_bp,
                step_events: steps,
            },
        );
        i += 1;
    }
    out
}

fn clone_trends(v: &Vec<crate::market::MarketSegmentTrend>) -> (r: Vec<
    crate::market::MarketSegmentTrend,
>)
    ensures
        r@ == v@,
{
    let mut out: Vec<crate::market::MarketSegmentTrend> = Vec::new();
    let mut i: usize = 0;
    while i < v.len()
        invariant
            i <= v@.len(),
            out@.len() == i,
            forall|k: int| 0 <= k < i ==> #[trigger] out@[k] == v@[k],
        decreases v@.len() - i,
    {
        let t = &v[i];
        out.push(
            crate::market::MarketSegmentTrend {
                id: t.id.clone(),
                name: t.name.clone(),
                base_demand_t: t.base_demand_t,
                ref_price_t_cents: t.ref_price_t_cents,
                elasticity_milli: t.elasticity_milli,
                trend_bp: t.trend_bp,
                sold_units: t.sold_units,
            },
        );
        i += 1;
    }
    proof {
        assert(out@ =~= v@);
    }
    out
}

fn clone_effects(v: &Vec<crate::market::MarketEffectActive>) -> (r: Vec<
    crate::market::MarketEffectActive,
>)
    ensures
        r@ == v@,
{
    let mut out: Vec<crate::market::MarketEffectActive> = Vec::new();
    let mut i: usize = 0;
    while i < v.len()
        invariant
            i <= v@.len(),
            out@.len() == i,
            forall|k: int| 0 <= k < i ==> #[trigger] out@[k] == v@[k],
        decreases v@.len() - i,
    {
        let e = &v[i];
        out.push(
            crate::market::MarketEffectActive {
                id: e.id.clone(),
                segment_id: e.segment_id.clone(),
                start: e.start,
                end: e.end,
                base_demand_pct_bp: e.base_demand_pct_bp,
                elasticity_delta_bp: e.elasticity_delta_bp,
            },
        );
        i += 1;
    }
    proof {
        assert(out@ =~= v@);
    }
    out
}

fn clone_events(v: &Vec<MarketEvent>) -> (r: Vec<MarketEvent>)
    ensures
        r@ == v@,
{
    let mut out: Vec<MarketEvent> = Vec::new();
    let mut i: usize = 0;
    while i < v.len()
        invariant
            i <= v@.len(),
            out@.len() == i,
            forall|k: int| 0 <= k < i ==> #[trigger] out@[k] == v@[k],
        decreases v@.len() - i,
    {
        let e = &v[i];
        out.push(
            MarketEvent {
                id: e.id.clone(),
                segment_id: e.segment_id.clone(),
                start: e.start,
                months: e.months,
                base_demand_pct_bp: e.base_demand_pct_bp,
                elasticity_delta_bp: e.elasticity_delta_bp,
            },
        );
        i += 1;
    }
    proof {
        assert(out@ =~= v@);
    }
    out
}

fn clone_effect_specs(v: &Vec<EffectSpec>) -> (r: Vec<EffectSpec>)
    ensures
        r@ == v@,
{
    let mut out: Vec<EffectSpec> = Vec::new();
    let mut i: usize = 0;
    while i < v.len()
        invariant
            i <= v@.len(),
            out@.len() == i,
            forall|k: int| 0 <= k < i ==> #[trigger] out@[k] == v@[k],
        decreases v@.len() - i,
    {
        out.push(v[i]);
        i += 1;
    }
    proof {
        assert(out@ =~= v@);
    }
    out
}

fn clone_ledger(v: &Vec<crate::effects::ActiveEffect>) -> (r: Vec<crate::effects::ActiveEffect>)
    ensures
        r@.len() == v@.len(),
        forall|k: int| 0 <= k < v@.len() ==> spec_effect_entry_like(#[trigger] r@[k], v@[k]),
{
    let mut out: Vec<crate::effects::ActiveEffect> = Vec::new();
    let mut i: usize = 0;
    while i < v.len()
        invariant
            i <= v@.len(),
            out@.len() == i,
            forall|k: int| 0 <= k < i ==> spec_effect_entry_like(#[trigger] out@[k], v@[k]),
        decreases v@.len() - i,
    {
        let e = &v[i];
        let mut ps: Vec<crate::effects::Patch> = Vec::new();
        let mut k: usize = 0;
        while k < e.patches.len()
            invariant
                k <= e.patches@.len(),
                ps@.len() == k,
                forall|l: int| 0 <= l < k ==> #[trigger] ps@[l] == e.patches@[l],
            decreases e.patches@.len() - k,
        {
            ps.push(e.patches[k]);
            k += 1;
        }
        proof {
            assert(ps@ =~= e.patches@);
        }
        out.push(crate::effects::ActiveEffect { start: e.start, end: e.end, patches: ps });
        i += 1;
    }
    out
}

fn clone_scenario(sc: &CampaignScenarioRes) -> (r: CampaignScenarioRes)
    ensures
        spec_scenario_like(r, *sc),
{
    let mut goals: Vec<crate::campaign::GoalKind> = Vec::new();
    let mut i: usize = 0;
    while i < sc.goals.len()
        invariant
            i <= sc.goals@.len(),
            goals@.len() == i,
            forall|k: int| 0 <= k < i ==> #[trigger] goals@[k] == sc.goals@[k],
        decreases sc.goals@.len() - i,
    {
        let g = match &sc.goals[i] {
            crate::campaign::GoalKind::ReachShare { segment, min_share_bp, deadline } => {
                crate::campaign::GoalKind::ReachShare {
                    segment: segment.clone(),
                    min_share_bp: *min_share_bp,
                    deadline: *deadline,
                }
            },
            crate::campaign::GoalKind::LaunchNode { node, deadline } => {
                crate::campaign::GoalKind::LaunchNode { node: node.clone(), deadline: *deadline }
            },
            crate::campaign::GoalKind::ProfitTarget { profit_cents, deadline } => {
                crate::campaign::GoalKind::ProfitTarget {
                    profit_cents: *profit_cents,
                    deadline: *deadline,
                }
            },
            crate::campaign::GoalKind::SurviveEvent { event_id, deadline } => {
                crate::campaign::GoalKind::SurviveEvent {
                    event_id: event_id.clone(),
                    deadline: *deadline,
                }
            },
        };
        goals.push(g);
        i += 1;
    }
    proof {
        assert(goals@ =~= sc.goals@);
    }
    let mut fails: Vec<crate::campaign::FailCondKind> = Vec::new();
    let mut i: usize = 0;
    while i < sc.fails.len()
        invariant
            i <= sc.fails@.len(),
            fails@.len() == i,
            forall|k: int| 0 <= k < i ==> #[trigger] fails@[k] == sc.fails@[k],
        decreases sc.fails@.len() - i,
    {
        let f = match &sc.fails[i] {
            crate::campaign::FailCondKind::CashBelow { threshold_cents } => {
                crate::campaign::FailCondKind::CashBelow { threshold_cents: *threshold_cents }
            },
            crate::campaign::FailCondKind::ShareBelow { segment, min_share_bp, deadline } => {
                crate::campaign::FailCondKind::ShareBelow {
                    segment: segment.clone(),
                    min_share_bp: *min_share_bp,
                    deadline: *deadline,
                }
            },
        };
        fails.push(f);
        i += 1;
    }
    proof {
        assert(fails@ =~= sc.fails@);
    }
    let difficulty: Option<String> = match &sc.difficulty {
        Some(d) => Some(d.clone()),
        None => None,
    };
    CampaignScenarioRes { start: sc.start, end: sc.end, difficulty, goals, fails }
}

fn clone_statuses(v: &Vec<crate::campaign::GoalStatus>) -> (r: Vec<crate::campaign::GoalStatus>)
    ensures
        r@ == v@,
{
    let mut out: Vec<crate::campaign::GoalStatus> = Vec::new();
    let mut i: usize = 0;
    while i < v.len()
        invariant
            i <= v@.len(),
            out@.len() == i,
            forall|k: int| 0 <= k < i ==> #[trigger] out@[k] == v@[k],
        decreases v@.len() - i,
    {
        out.push(v[i]);
        i += 1;
    }
    proof {
        assert(out@ =~= v@);
    }
    out
}

/// Apply a player price delta with the margin floor: the committed price
/// is the requested factor (a factor below zero reads as zero) or the
/// floor, whichever is higher.  The margin floor holds for every such
/// call, whatever delta is requested.
pub fn apply_price_delta(state: &mut SimState, delta_bp: i64) -> (new_price: i64)
    requires
        spec_sim_wf(*old(state)),
    ensures
        spec_sim_wf(*final(state)),
        new_price == final(state).pricing.asp_cents,
        new_price >= spec_min_price(
            old(state).pricing.unit_cost_cents as int,
            old(state).ai.tactics.min_margin_bp as int,
        ),
        new_price as int == spec_committed_price(spec_player_priced(
            old(state).pricing.asp_cents as int,
            old(state).pricing.unit_cost_cents as int,
            delta_bp as int,
            old(state).ai.tactics.min_margin_bp as int,
        )),
        final(state).stats == old(state).stats,
        final(state).domain == old(state).domain,
{
    let floor_p = min_price(state.pricing.unit_cost_cents, state.ai.tactics.min_margin_bp);
    let f: i128 = if 10000i128 + (delta_bp as i128) < 0i128 {
        0
    } else {
        10000i128 + (delta_bp as i128)
    };
    proof {
        assert(0 <= (state.pricing.asp_cents as int) * (f as int) <= 0x20000000000000 * (10000
            + 0x7fffffffffffffff)) by (nonlinear_arith)
            requires
                0 <= state.pricing.asp_cents <= 0x20000000000000,
                0 <= f <= 10000 + 0x7fffffffffffffff,
        ;
        vstd::arithmetic::div_mod::lemma_div_pos_is_pos(
            (state.pricing.asp_cents as int) * (f as int),
            10000,
        );
    }
    let raw: i128 = (state.pricing.asp_cents as i128) * f / 10000;
    let p: i128 = if raw < floor_p as i128 {
        floor_p as i128
    } else {
        raw
    };
    let committed: i64 = if p < 1 {
        1
    } else if p > 0x20000000000000i128 {
        0x20000000000000
    } else {
        p as i64
    };
    state.pricing.asp_cents = committed;
    committed
}

/// The price a player delta asks for before clamping: the factor (held at
/// zero when the delta is below minus one whole) or the margin floor,
/// whichever is higher.
pub open spec fn spec_player_priced(
    asp_cents: int,
    unit_cost_cents: int,
    delta_bp: int,
    min_margin_bp: int,
) -> int {
    let f = if 10000 + delta_bp < 0 {
        0
    } else {
        10000 + delta_bp
    };
    let raw = asp_cents * f / 10000;
    let floor_p = spec_min_price(unit_cost_cents, min_margin_bp);
    if raw < floor_p {
        floor_p
    } else {
        raw
    }
}

/// A committed price: clamped into the currency range with a floor of one
/// cent.
pub open spec fn spec_committed_price(p: int) -> int {
    if p < 1 {
        1
    } else if p > 0x20000000000000 {
        0x20000000000000
    } else {
        p
    }
}

/// Apply a delta to the monthly R&D budget; the budget never drops below
/// zero.  Returns the new budget.
pub fn apply_rd_delta(state: &mut SimState, delta_cents: i64) -> (new_budget: i64)
    requires
        spec_sim_wf(*old(state)),
    ensures
        spec_sim_wf(*final(state)),
        new_budget == final(state).rd_budget.0,
        new_budget as int == if spec_sat_money(old(state).rd_budget.0 + delta_cents) >= 0 {
            spec_sat_money(old(state).rd_budget.0 + delta_cents)
        } else {
            0
        },
        final(state).pricing == old(state).pricing,
        final(state).stats == old(state).stats,
{
    let d: i64 = if delta_cents > 0x20000000000000 {
        0x20000000000000
    } else if delta_cents < -0x20000000000000 {
        -0x20000000000000
    } else {
        delta_cents
    };
    proof {
        if delta_cents > 0x20000000000000 {
            assert(spec_sat_money(old(state).rd_budget.0 + delta_cents) == spec_money_cap());
        }
        if delta_cents < -0x20000000000000 {
            assert(spec_sat_money(old(state).rd_budget.0 + delta_cents) < 0);
            assert(spec_sat_money(old(state).rd_budget.0 + d) <= 0);
        }
    }
    let s = sat_add_money(state.rd_budget.0, d);
    let b = if s < 0 {
        0
    } else {
        s
    };
    state.rd_budget.0 = b;
    b
}

/// The per-wafer rate a capacity request commits to: the requested rate,
/// or 10000 cents when none is given.
pub open spec fn spec_requested_rate(billing: Option<i64>) -> int {
    match billing {
        Some(p) => p as int,
        None => 10000,
    }
}

/// The take-or-pay fraction a capacity request commits to: the requested
/// fraction, or the difficulty default, clamped into one whole.
pub open spec fn spec_requested_top(top: Option<i64>, default_bp: int) -> int {
    let t = match top {
        Some(t) => t as int,
        None => default_bp,
    };
    if t < 0 {
        0
    } else if t > 10000 {
        10000
    } else {
        t
    }
}

/// Record a player capacity request: a take-or-pay contract starting after
/// the planner lead time, running for the requested months (capped at a
/// century).  Returns the created contract's start and end dates.
pub fn apply_capacity_request(
    state: &mut SimState,
    wafers_per_month: u32,
    months: u16,
    billing_cents_per_wafer: Option<i64>,
    take_or_pay_bp: Option<i64>,
) -> (window: (Date, Date))
    requires
        spec_sim_wf(*old(state)),
        old(state).book.contracts@.len() < 0x100000000,
    ensures
        spec_sim_wf(*final(state)),
        final(state).book.contracts@.len() == old(state).book.contracts@.len() + 1,
        ({
            let c = final(state).book.contracts@.last();
            &&& c.wafers_per_month == wafers_per_month
            &&& c.start == window.0
            &&& c.end == window.1
            &&& c.billing_cents_per_wafer as int == spec_requested_rate(billing_cents_per_wafer)
            &&& c.price_per_wafer_cents as int == spec_requested_rate(billing_cents_per_wafer)
            &&& c.take_or_pay_bp as int == spec_requested_top(
                take_or_pay_bp,
                old(state).difficulty.default_take_or_pay_bp as int,
            )
            &&& window.0 == spec_add_months(
                old(state).domain.macro_state.date,
                old(state).ai.planner.quarter_step as int,
            )
            &&& window.1 == spec_add_months(window.0, if months > 1200 {
                1200int
            } else {
                months as int
            })
        }),
        final(state).pricing == old(state).pricing,
        final(state).stats == old(state).stats,
{
    let lead: u32 = state.ai.planner.quarter_step;
    let date = state.domain.macro_state.date;
    let start = add_months(date, lead);
    // duration capped at a century, well inside the calendar horizon
    let months_capped: u32 = if months > 1200 {
        1200
    } else {
        months as u32
    };
    let end = add_months(start, months_capped);
    let price: i64 = match billing_cents_per_wafer {
        Some(p) => p,
        None => 10000,
    };
    let top_default = state.difficulty.default_take_or_pay_bp;
    let top: i64 = match take_or_pay_bp {
        Some(t) => {
            if t < 0 {
                0
            } else if t > 10000 {
                10000
            } else {
                t
            }
        },
        None => {
            if top_default < 0 {
                0
            } else if top_default > 10000 {
                10000
            } else {
                top_default
            }
        },
    };
    let contract = FoundryContract {
        foundry_id: planner_foundry_id(),
        wafers_per_month,
        price_per_wafer_cents: price,
        take_or_pay_bp: top,
        billing_cents_per_wafer: price,
        billing_model: planner_billing_model(),
        lead_time_months: if lead > 255 {
            255
        } else {
            lead as u8
        },
        start,
        end,
    };
    state.book.contracts.push(contract);
    (start, end)
}

/// Queue a player tape-out request on the named node, optionally expedited
/// (three months sooner for a one-off fee).  Returns the computed ready
/// date.
pub fn apply_tapeout_request(
    state: &mut SimState,
    perf_index_bp: i64,
    die_area_mm2_milli: i64,
    tech_node: String,
    expedite: bool,
) -> (ready: Date)
    requires
        spec_sim_wf(*old(state)),
        die_area_mm2_milli > 0,
    ensures
        spec_sim_wf(*final(state)),
        ready == spec_add_months(old(state).domain.macro_state.date, if expedite {
            6int
        } else {
            9int
        }),
        final(state).pipeline.queue@.len() == old(state).pipeline.queue@.len() + 1,
        ({
            let q = final(state).pipeline.queue@.last();
            &&& q.product.perf_index_bp == perf_index_bp
            &&& q.product.die_area_mm2_milli == die_area_mm2_milli
            &&& q.product.tech_node.0@ == tech_node@
            &&& q.tech_node.0@ == tech_node@
            &&& q.start == old(state).domain.macro_state.date
            &&& q.ready == ready
            &&& q.expedite == expedite
            &&& q.expedite_cost_cents == if expedite {
                100000int
            } else {
                0int
            }
        }),
        // the one-off expedite fee is booked through the finance events
        final(state).fevents.expedite_spend_cents as int == if expedite {
            spec_sat_money(old(state).fevents.expedite_spend_cents + 100000)
        } else {
            old(state).fevents.expedite_spend_cents as int
        },
        final(state).pipeline.released@ == old(state).pipeline.released@,
        final(state).pricing == old(state).pricing,
        final(state).stats == old(state).stats,
{
    let date = state.domain.macro_state.date;
    queue_standard_tapeout(
        &mut state.pipeline,
        &mut state.fevents,
        TechNodeId(tech_node),
        perf_index_bp,
        die_area_mm2_milli,
        expedite,
        date,
    )
}

/// Enable the guided tutorial, taking the current selling price as the
/// baseline for the price-cut checkpoint.
pub fn start_tutorial(state: &mut SimState, month24_cash_threshold_cents: i64) -> (r: ())
    requires
        spec_sim_wf(*old(state)),
    ensures
        spec_sim_wf(*final(state)),
        final(state).tutorial.enabled,
        final(state).tutorial.initial_asp_cents == old(state).pricing.asp_cents,
        final(state).tutorial.current_step_index == 0,
{
    let asp = state.pricing.asp_cents;
    crate::tutorial::init_tutorial(&mut state.tutorial, asp, month24_cash_threshold_cents);
}

/// Install a campaign scenario, resetting the per-goal status vector and
/// the aggregate outcome; goals are tracked from Pending again.
pub fn install_campaign(state: &mut SimState, scenario: CampaignScenarioRes) -> (r: ())
    requires
        spec_sim_wf(*old(state)),
    ensures
        spec_sim_wf(*final(state)),
        final(state).campaign matches Some(sc) && sc.goals@.len() == scenario.goals@.len(),
        final(state).campaign_state.goal_status@.len() == 0,
        final(state).campaign_state.outcome == crate::campaign::CampaignOutcome::InProgress,
        final(state).pricing == old(state).pricing,
        final(state).stats == old(state).stats,
        final(state).domain == old(state).domain,
{
    state.campaign = Some(scenario);
    state.campaign_state = CampaignStateRes::new();
}

/// Apply difficulty parameters; they shape the defaults of future
/// capacity requests.
pub fn set_difficulty(state: &mut SimState, params: DifficultyParams) -> (r: ())
    requires
        spec_sim_wf(*old(state)),
    ensures
        spec_sim_wf(*final(state)),
        final(state).difficulty == params,
        final(state).pricing == old(state).pricing,
        final(state).stats == old(state).stats,
        final(state).domain == old(state).domain,
{
    state.difficulty = params;
}

/// Rehydrate released products supplied by the persistence layer: the specs
/// are appended to the released list, the last one becomes the active
/// product and recomputes the unit cost from its node, and the appeal is
/// proportional to the total release count.
pub fn rehydrate_released_products(state: &mut SimState, rows: &Vec<ProductSpec>) -> (r: ())
    requires
        spec_sim_wf(*old(state)),
        forall|j: int| 0 <= j < rows@.len() ==> (#[trigger] rows@[j]).die_area_mm2_milli > 0,
    ensures
        spec_sim_wf(*final(state)),
        final(state).pipeline.released@.len() == old(state).pipeline.released@.len() + rows@.len(),
        rows@.len() > 0 ==> final(state).appeal.0 as int == spec_rehydrated_appeal(
            final(state).pipeline.released@.len() as int,
        ),
        // the last supplied product becomes the active one and, when its
        // node resolves, sets the unit cost from that node
        rows@.len() > 0 ==> final(state).active_product.perf_index_bp as int == spec_norm_perf(
            rows@.last().perf_index_bp as int,
        ),
        rows@.len() > 0 ==> forall|n: int|
            0 <= n < final(state).domain.tech_tree@.len() && (#[trigger] final(state).domain.tech_tree@[n]).id.0@ == rows@.last().tech_node.0@ && (forall|m: int|
                n < m < final(state).domain.tech_tree@.len() ==> (#[trigger] final(state).domain.tech_tree@[m]).id.0@ != rows@.last().tech_node.0@) ==> final(state).pricing.unit_cost_cents as int == spec_capped_unit_cost(
                crate::pipeline::spec_unit_cost_cents(
                    final(state).domain.tech_tree@[n],
                    rows@.last(),
                    old(state).ai.product_cost,
                ),
            ),
        rows@.len() == 0 ==> *final(state) == *old(state),
{
    if rows.len() == 0 {
        return ;
    }
    let mut i: usize = 0;
    let ghost r0 = state.pipeline.released@;
    while i < rows.len()
        invariant
            i <= rows@.len(),
            spec_sim_wf(*state),
            state.pipeline.released@.len() == r0.len() + i,
            state.pipeline.queue@ == old(state).pipeline.queue@,
            state.pricing == old(state).pricing,
            state.domain == old(state).domain,
            state.ai == old(state).ai,
            state.stats == old(state).stats,
            state.appeal == old(state).appeal,
            state.active_product == old(state).active_product,
            forall|j: int| 0 <= j < rows@.len() ==> (#[trigger] rows@[j]).die_area_mm2_milli > 0,
        decreases rows@.len() - i,
    {
        push_released(&mut state.pipeline, &rows[i]);
        i += 1;
    }
    let last = rows.len() - 1;
    let perf = rows[last].perf_index_bp;
    state.active_product.perf_index_bp = if perf < 0 {
        0
    } else if perf > 10000 {
        10000
    } else {
        perf
    };
    // unit cost from the owning node, when it exists; the scan keeps the
    // last matching node
    let mut n: usize = 0;
    let mut found: usize = state.domain.tech_tree.len();
    while n < state.domain.tech_tree.len()
        invariant
            n <= state.domain.tech_tree@.len(),
            found <= state.domain.tech_tree@.len(),
            last < rows@.len(),
            last + 1 == rows@.len(),
            found == state.domain.tech_tree@.len() ==> forall|m: int|
                0 <= m < n ==> (#[trigger] state.domain.tech_tree@[m]).id.0@
                    != rows@.last().tech_node.0@,
            found < state.domain.tech_tree@.len() ==> found < n
                && state.domain.tech_tree@[found as int].id.0@ == rows@.last().tech_node.0@ && (
            forall|m: int|
                found < m < n ==> (#[trigger] state.domain.tech_tree@[m]).id.0@
                    != rows@.last().tech_node.0@),
        decreases state.domain.tech_tree@.len() - n,
    {
        if state.domain.tech_tree[n].id.0 == rows[last].tech_node.0 {
            found = n;
        }
        n += 1;
    }
    let ghost tree = state.domain.tech_tree@;
    let ghost found0 = found as int;
    proof {
        assert forall|n2: int|
            0 <= n2 < tree.len() && (#[trigger] tree[n2]).id.0@ == rows@.last().tech_node.0@ && (
            forall|m: int|
                n2 < m < tree.len() ==> (#[trigger] tree[m]).id.0@ != rows@.last().tech_node.0@)
                implies n2 == found0 by {
            if n2 != found0 {
                if found0 == tree.len() {
                    assert(tree[n2].id.0@ != rows@.last().tech_node.0@);
                } else {
                    assert(tree[found0].id.0@ == rows@.last().tech_node.0@);
                    if n2 < found0 {
                        assert(tree[found0].id.0@ != rows@.last().tech_node.0@);
                    } else {
                        assert(tree[n2].id.0@ != rows@.last().tech_node.0@);
                    }
                }
            }
        }
    }
    if found < state.domain.tech_tree.len() {
        let cost = compute_unit_cost(
            &state.domain.tech_tree[found],
            &rows[last],
            &state.ai.product_cost,
        );
        state.pricing.unit_cost_cents = if cost > 0x10000000000000 {
            0x10000000000000
        } else {
            cost
        };
    }
    // appeal proportional to the release count, capped at one half
    let count = state.pipeline.released.len();
    let appeal: i64 = if count >= 10 {
        5000
    } else {
        (count as i64) * 500
    };
    state.appeal.0 = appeal;
}

/// Appeal after rehydration: five percent per released product, capped at
/// one half.
pub open spec fn spec_rehydrated_appeal(count: int) -> int {
    if count >= 10 {
        5000
    } else {
        count * 500
    }
}

/// Append one released product spec.
fn push_released(pipeline: &mut ProductPipeline, row: &ProductSpec) -> (r: ())
    ensures
        final(pipeline).released@.len() == old(pipeline).released@.len() + 1,
        final(pipeline).queue@ == old(pipeline).queue@,
{
    pipeline.released.push(
        ProductSpec {
            kind: row.kind,
            tech_node: TechNodeId(row.tech_node.0.clone()),
            microarch: row.microarch,
            die_area_mm2_milli: row.die_area_mm2_milli,
            perf_index_bp: row.perf_index_bp,
            tdp_mw: row.tdp_mw,
            bom_cents: row.bom_cents,
        },
    );
}

} // verus!
