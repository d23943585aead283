//! Scheduler, mod-effect, market, campaign and tutorial tests.

use chip_tycoon::campaign::{
    campaign_step, CampaignInputs, CampaignOutcome, CampaignScenarioRes, CampaignStateRes,
    FailCondKind, GoalKind, GoalStatus,
};
use chip_tycoon::date::Date;
use chip_tycoon::domain::{
    Company, MacroState, MarketSegment, SimConfig, TechNode, TechNodeId, World,
};
use chip_tycoon::effects::{
    apply_effect, cost_multiplier, tick_effects, EffectSpec, EffectsLedger,
};
use chip_tycoon::market::{
    compute_trends, update_market_effects, MarketCfgSegment, MarketConfigRes, MarketEvent,
    MarketModEffects,
};
use chip_tycoon::domain::{MicroArch, ProductKind, ProductSpec};
use chip_tycoon::pipeline::{compute_unit_cost, ProductCostCfg};
use chip_tycoon::sim::{
    apply_capacity_request, apply_price_delta, apply_rd_delta, apply_tapeout_request, init_world,
    rehydrate_released_products, run_months, run_months_in_place, start_tutorial, tick, SimState,
};

fn date(y: i32, m: u32, d: u32) -> Date {
    Date { year: y, month: m, day: d }
}

fn tech_node(id: &str) -> TechNode {
    TechNode {
        id: TechNodeId(id.to_string()),
        year_available: 1990,
        density_mtr_per_mm2_milli: 1000,
        freq_ghz_baseline_milli: 1000,
        leakage_index_milli: 1000,
        yield_baseline_bp: 9000,
        wafer_cost_cents: 100_000,
        mask_set_cost_cents: 500_000,
        dependencies: vec![],
    }
}

fn world(
    start: Date,
    tech: Vec<TechNode>,
    companies: Vec<Company>,
    segments: Vec<MarketSegment>,
) -> World {
    World {
        macro_state: MacroState {
            date: start,
            inflation_annual_bp: 200,
            interest_rate_bp: 500,
            fx_usd_index_milli: 100_000,
        },
        tech_tree: tech,
        companies,
        segments,
    }
}

fn company(cash_cents: i64) -> Company {
    Company {
        name: "A".to_string(),
        cash_cents,
        debt_cents: 0,
        ip_portfolio: vec![],
    }
}

fn segment(base: u64, elasticity_milli: i64) -> MarketSegment {
    MarketSegment {
        name: "Seg".to_string(),
        base_demand_units: base,
        price_elasticity_milli: elasticity_milli,
    }
}

fn cfg(seed: u64) -> SimConfig {
    SimConfig { tick_days: 30, rng_seed: seed }
}

#[test]
fn world_creates_and_ticks() {
    let dom = world(date(1990, 1, 1), vec![], vec![], vec![]);
    let state = init_world(dom, cfg(42));
    let snap = run_months(state, 3);
    assert_eq!(snap.months_run, 3);
    assert!(snap.rd_progress_bp >= 0);
    assert!(snap.output_units > 0);
    assert!(snap.revenue_cents >= 0);
}

#[test]
fn calendar_advances_monthly_and_rolls_year() {
    // advancing from 1997-12-01 by two months lands exactly on 1998-02-01
    let dom = world(
        date(1997, 12, 1),
        vec![],
        vec![company(100_000_000)],
        vec![segment(1000, -1200)],
    );
    let mut state = init_world(dom, cfg(1));
    let _ = run_months_in_place(&mut state, 2);
    assert_eq!(state.domain.macro_state.date, date(1998, 2, 1));
}

#[test]
fn deterministic_kpis_with_same_seed() {
    // two runs from the identical seed and config match bit for bit
    let mk = || {
        let dom = world(
            date(1990, 1, 1),
            vec![],
            vec![company(100_000_000)],
            vec![segment(1_000_000, -1200)],
        );
        init_world(dom, cfg(123))
    };
    let snap1 = run_months(mk(), 36);
    let snap2 = run_months(mk(), 36);
    assert_eq!(snap1.months_run, snap2.months_run);
    assert_eq!(snap1.revenue_cents, snap2.revenue_cents);
    assert_eq!(snap1.profit_cents, snap2.profit_cents);
    assert_eq!(snap1.market_share_bp, snap2.market_share_bp);
    assert_eq!(snap1, snap2);
}

#[test]
fn end_to_end_scenario_is_reproducible() {
    // one tech node (yield 0.9, wafer cost $1000, mask cost $5000), one
    // company with $1,000,000, one segment of 1,000,000 at -1.2, three
    // months at seed 42
    let mk = || {
        let dom = world(
            date(1990, 1, 1),
            vec![tech_node("800nm")],
            vec![company(100_000_000)],
            vec![segment(1_000_000, -1200)],
        );
        init_world(dom, cfg(42))
    };
    let snap1 = run_months(mk(), 3);
    let snap2 = run_months(mk(), 3);
    assert_eq!(snap1.months_run, 3);
    assert!(snap1.output_units > 0);
    assert_eq!(snap1, snap2);
}

#[test]
fn example_mod_applies_and_expires() {
    let mut dom = world(date(1997, 12, 1), vec![tech_node("N90")], vec![], vec![]);
    let mut ledger = EffectsLedger::new();
    // a whole-percent cost shock of 15 with a two-point yield dip
    let spec_a = EffectSpec {
        start: date(1998, 1, 1),
        months: 6,
        cost_increase_milli: 15_000,
        yield_delta_bp: -200,
    };
    apply_effect(&mut ledger, &mut dom, &spec_a);
    assert_eq!(dom.tech_tree[0].wafer_cost_cents, 115_000);
    assert_eq!(dom.tech_tree[0].yield_baseline_bp, 8800);
    // the same window on its start date is not applied twice
    let specs = vec![spec_a];
    tick_effects(&mut ledger, &mut dom, &specs, spec_a.start);
    assert_eq!(dom.tech_tree[0].wafer_cost_cents, 115_000);
    assert_eq!(dom.tech_tree[0].yield_baseline_bp, 8800);
    // after six months the original fields return exactly
    tick_effects(&mut ledger, &mut dom, &specs, date(1998, 7, 1));
    assert_eq!(dom.tech_tree[0].wafer_cost_cents, 100_000);
    assert_eq!(dom.tech_tree[0].yield_baseline_bp, 9000);

    // the fractional spelling of the same shock behaves identically
    let mut dom2 = world(date(1998, 12, 1), vec![tech_node("N90")], vec![], vec![]);
    let mut ledger2 = EffectsLedger::new();
    let spec_b = EffectSpec {
        start: date(1999, 1, 1),
        months: 6,
        cost_increase_milli: 150,
        yield_delta_bp: -200,
    };
    apply_effect(&mut ledger2, &mut dom2, &spec_b);
    assert_eq!(dom2.tech_tree[0].wafer_cost_cents, 115_000);
    assert_eq!(dom2.tech_tree[0].yield_baseline_bp, 8800);
    tick_effects(&mut ledger2, &mut dom2, &vec![spec_b], date(1999, 7, 1));
    assert_eq!(dom2.tech_tree[0].wafer_cost_cents, 100_000);
    assert_eq!(dom2.tech_tree[0].yield_baseline_bp, 9000);
}

#[test]
fn test_cost_multiplier() {
    // 15 as a whole percent and 0.15 as a fraction both mean +15%
    assert_eq!(cost_multiplier(15_000), 1_150_000);
    assert_eq!(cost_multiplier(150), 1_150_000);
    assert_eq!(cost_multiplier(-10_000), 900_000);
    assert_eq!(cost_multiplier(-100), 900_000);
}

fn console_cfg() -> MarketConfigRes {
    MarketConfigRes {
        segments: vec![MarketCfgSegment {
            id: "console".to_string(),
            name: "Console".to_string(),
            base_demand_units_1990: 100_000,
            base_asp_cents_1990: 10_000,
            elasticity_milli: -1500,
            annual_growth_bp: 0,
            step_events: vec![],
        }],
    }
}

fn console_boom() -> MarketEvent {
    MarketEvent {
        id: "console_boom".to_string(),
        segment_id: "console".to_string(),
        start: date(1995, 9, 1),
        months: 12,
        base_demand_pct_bp: Some(3000),
        elasticity_delta_bp: None,
    }
}

#[test]
fn mod_engine_market_effect_not_applied_twice_on_same_start() {
    let mut active = MarketModEffects(vec![]);
    let events = vec![console_boom()];
    update_market_effects(&mut active, &events, date(1995, 9, 1));
    update_market_effects(&mut active, &events, date(1995, 9, 1));
    assert_eq!(active.0.len(), 1);
}

#[test]
fn market_effect_applies_and_reverts_in_trends() {
    let cfgm = console_cfg();
    let mut active = MarketModEffects(vec![]);
    let events = vec![console_boom()];
    update_market_effects(&mut active, &events, date(1995, 9, 1));
    let trends = compute_trends(&cfgm, &active, date(1995, 9, 1));
    assert_eq!(trends.0[0].base_demand_t, 130_000);
    // a year later the window has closed and the baseline returns
    update_market_effects(&mut active, &events, date(1996, 9, 1));
    let trends2 = compute_trends(&cfgm, &active, date(1996, 9, 1));
    assert_eq!(trends2.0[0].base_demand_t, 100_000);
}

#[test]
fn market_trend_scales_for_1995_and_2000() {
    let cfgm = MarketConfigRes {
        segments: vec![MarketCfgSegment {
            id: "desktop".to_string(),
            name: "Desktop".to_string(),
            base_demand_units_1990: 1000,
            base_asp_cents_1990: 10_000,
            elasticity_milli: -1500,
            annual_growth_bp: 800,
            step_events: vec![],
        }],
    };
    let active = MarketModEffects(vec![]);
    let t95 = compute_trends(&cfgm, &active, date(1995, 1, 1));
    // the exact floor of 1000 * 1.08^5
    assert_eq!(t95.0[0].base_demand_t, 1469);
    let t00 = compute_trends(&cfgm, &active, date(2000, 1, 1));
    // the exact floor of 1000 * 1.08^10
    assert_eq!(t00.0[0].base_demand_t, 2158);
}

#[test]
fn stronger_segment_predicts_more_sales() {
    let cfgm = MarketConfigRes {
        segments: vec![
            MarketCfgSegment {
                id: "A".to_string(),
                name: "A".to_string(),
                base_demand_units_1990: 100_000,
                base_asp_cents_1990: 10_000,
                elasticity_milli: -1200,
                annual_growth_bp: 0,
                step_events: vec![],
            },
            MarketCfgSegment {
                id: "B".to_string(),
                name: "B".to_string(),
                base_demand_units_1990: 80_000,
                base_asp_cents_1990: 10_000,
                elasticity_milli: -2000,
                annual_growth_bp: 0,
                step_events: vec![],
            },
        ],
    };
    let dom = world(
        date(1990, 1, 1),
        vec![],
        vec![],
        vec![segment(1, -1000), segment(1, -1000)],
    );
    let mut state = init_world(dom, cfg(1));
    state.market_cfg = cfgm;
    state.stats.inventory_units = 10_000_000;
    state.pricing.asp_cents = 10_000;
    state.pricing.unit_cost_cents = 5_000;
    tick(&mut state);
    let a = state.trends.0.iter().find(|t| t.name == "A").unwrap().sold_units;
    let b = state.trends.0.iter().find(|t| t.name == "B").unwrap().sold_units;
    assert!(a > b, "stronger segment should sell more: a={}, b={}", a, b);
}

#[test]
fn ai_tactics_lower_price_on_share_drop_with_floor() {
    let dom = world(
        date(1990, 1, 1),
        vec![],
        vec![company(100_000_000)],
        vec![segment(1_000_000, -1200)],
    );
    let mut state = init_world(dom, cfg(42));
    state.stats.market_share_bp = 3000;
    state.stats.last_share_bp = 5000;
    state.pricing.asp_cents = 22_000;
    state.pricing.unit_cost_cents = 20_000;
    tick(&mut state);
    // the cut is limited by the five percent margin floor over 200.00
    assert!(state.pricing.asp_cents >= 21_000);
    assert!(state.pricing.asp_cents <= 22_000);
}

#[test]
fn ai_tactics_raise_price_on_shortage() {
    let dom = world(
        date(1990, 1, 1),
        vec![],
        vec![company(100_000_000)],
        vec![segment(1_000_000, -1200)],
    );
    let mut state = init_world(dom, cfg(42));
    state.stats.market_share_bp = 5000;
    state.stats.last_share_bp = 5000;
    state.pricing.asp_cents = 30_000;
    state.pricing.unit_cost_cents = 20_000;
    tick(&mut state);
    assert!(state.pricing.asp_cents > 30_000);
}

#[test]
fn take_or_pay_charges_cash_in_the_tick() {
    let start = date(1990, 1, 1);
    let dom = world(start, vec![], vec![company(100_000_000)], vec![]);
    let mut state = init_world(dom, cfg(1));
    state.book.contracts.push(chip_tycoon::ledger::FoundryContract {
        foundry_id: "F1".to_string(),
        wafers_per_month: 3000,
        price_per_wafer_cents: 1000,
        take_or_pay_bp: 10000,
        billing_cents_per_wafer: 1000,
        billing_model: "take_or_pay".to_string(),
        lead_time_months: 0,
        start,
        end: start,
    });
    tick(&mut state);
    assert_eq!(state.stats.contract_costs_cents, 3_000_000);
    // the settlement nets the month's profit against the full bill
    assert_eq!(
        state.domain.companies[0].cash_cents,
        100_000_000 + state.stats.profit_cents - 3_000_000
    );
}

#[test]
fn cash_flow_reconciles_with_profit_zero_lag() {
    let dom = world(
        date(1990, 1, 1),
        vec![tech_node("N90")],
        vec![company(100_000_000)],
        vec![segment(1_000_000, -1200)],
    );
    let mut state = init_world(dom, cfg(55));
    state.rd_budget.0 = 10_000;
    let _ready = apply_tapeout_request(&mut state, 7000, 100_000, "N90".to_string(), true);
    let cash0 = state.domain.companies[0].cash_cents;
    let (snap, _t) = run_months_in_place(&mut state, 12);
    let cash1 = state.domain.companies[0].cash_cents;
    let delta = cash1 - cash0;
    let expected = snap.profit_cents - snap.contract_costs_cents - 12 * 10_000 - 100_000;
    let diff = (delta - expected).abs();
    assert!(diff <= 100, "diff too large: {}", diff);
}

#[test]
fn multi_company_shares_not_degenerate() {
    let companies: Vec<Company> = (0..5).map(|_| company(100_000_000)).collect();
    let dom = world(date(1990, 1, 1), vec![], companies, vec![segment(1_000_000, -1200)]);
    let snap = run_months(init_world(dom, cfg(999)), 48);
    assert!(snap.market_share_bp > 500 && snap.market_share_bp < 9500);
}

#[test]
fn stronger_product_sells_more() {
    let mk = || {
        let dom = world(
            date(1990, 1, 1),
            vec![tech_node("N90")],
            vec![company(100_000_000)],
            vec![segment(1_000_000, -1200)],
        );
        init_world(dom, cfg(42))
    };
    let mut wa = mk();
    wa.active_product.perf_index_bp = 2000;
    wa.stats.inventory_units = 100_000;
    tick(&mut wa);
    let sold_a = wa.stats.last_sold_units;
    let mut wb = mk();
    wb.active_product.perf_index_bp = 9000;
    wb.stats.inventory_units = 100_000;
    tick(&mut wb);
    let sold_b = wb.stats.last_sold_units;
    assert!(sold_b > sold_a);
}

#[test]
fn unit_cost_monotonicity() {
    let node = tech_node("N90");
    let cost_cfg = ProductCostCfg { usable_die_area_mm2_milli: 6_200_000, yield_overhead_bp: 500 };
    let _ = &cost_cfg;
    let spec_small = ProductSpec {
        kind: ProductKind::CPU,
        tech_node: TechNodeId("N90".to_string()),
        microarch: MicroArch {
            ipc_index_milli: 1000,
            pipeline_depth: 10,
            cache_l1_kb: 64,
            cache_l2_mb_milli: 1000,
            chiplet: false,
        },
        die_area_mm2_milli: 100_000,
        perf_index_bp: 5000,
        tdp_mw: 65_000,
        bom_cents: 5_000,
    };
    let mut spec_large = spec_small.clone();
    spec_large.die_area_mm2_milli = 200_000;
    let cost_small = compute_unit_cost(&node, &spec_small, &cost_cfg);
    let cost_large = compute_unit_cost(&node, &spec_large, &cost_cfg);
    assert!(cost_large > cost_small);
    let mut node2 = node.clone();
    node2.yield_baseline_bp = 9500;
    let cost_high_yield = compute_unit_cost(&node2, &spec_small, &cost_cfg);
    assert!(cost_high_yield < cost_small);
}

#[test]
fn expedite_tapeout_reduces_ready_and_spends_cash() {
    let dom = world(
        date(1990, 1, 1),
        vec![tech_node("N90")],
        vec![company(100_000_000)],
        vec![segment(1_000_000, -1200)],
    );
    let mut state = init_world(dom, cfg(7));
    let ready = apply_tapeout_request(&mut state, 8000, 100_000, "N90".to_string(), true);
    // six months instead of nine
    assert_eq!(ready, date(1990, 7, 1));
    let _ = run_months_in_place(&mut state, 7);
    assert!(!state.pipeline.released.is_empty());
    assert!(state.appeal.0 > 0);
    // the expedite fee costs exactly its one-off price against an
    // otherwise identical run
    let dom2 = world(
        date(1990, 1, 1),
        vec![tech_node("N90")],
        vec![company(100_000_000)],
        vec![segment(1_000_000, -1200)],
    );
    let mut plain = init_world(dom2, cfg(7));
    let ready_plain = apply_tapeout_request(&mut plain, 8000, 100_000, "N90".to_string(), false);
    assert_eq!(ready_plain, date(1990, 10, 1));
    let _ = run_months_in_place(&mut plain, 1);
    let mut state1 = init_world(
        world(
            date(1990, 1, 1),
            vec![tech_node("N90")],
            vec![company(100_000_000)],
            vec![segment(1_000_000, -1200)],
        ),
        cfg(7),
    );
    let _ = apply_tapeout_request(&mut state1, 8000, 100_000, "N90".to_string(), true);
    let _ = run_months_in_place(&mut state1, 1);
    assert_eq!(
        state1.domain.companies[0].cash_cents + 100_000,
        plain.domain.companies[0].cash_cents
    );
}

#[test]
fn rehydrate_released_products_sets_active_and_sales() {
    let dom = world(
        date(1990, 1, 1),
        vec![tech_node("N90")],
        vec![company(100_000_000)],
        vec![segment(1_000_000, -1200)],
    );
    let mut state = init_world(dom, cfg(7));
    let spec = ProductSpec {
        kind: ProductKind::CPU,
        tech_node: TechNodeId("N90".to_string()),
        microarch: MicroArch {
            ipc_index_milli: 1000,
            pipeline_depth: 10,
            cache_l1_kb: 64,
            cache_l2_mb_milli: 1000,
            chiplet: false,
        },
        die_area_mm2_milli: 100_000,
        perf_index_bp: 7500,
        tdp_mw: 65_000,
        bom_cents: 5_000,
    };
    rehydrate_released_products(&mut state, &vec![spec]);
    assert_eq!(state.active_product.perf_index_bp, 7500);
    assert!(state.appeal.0 > 0);
    assert!(state.pricing.unit_cost_cents > 0);
    let (snap, _t) = run_months_in_place(&mut state, 1);
    assert!(snap.revenue_cents > 0);
    assert!(state.stats.last_sold_units > 0);
}

#[test]
fn tutorial_steps_progress_in_order() {
    let dom = world(
        date(1990, 1, 1),
        vec![tech_node("N90")],
        vec![company(100_000_000)],
        vec![segment(1_000_000, -1200)],
    );
    let mut state = init_world(dom, cfg(42));
    start_tutorial(&mut state, 100_000_000);
    // 1) cut the price by five percent
    let _ = apply_price_delta(&mut state, -500);
    eval_tutorial(&mut state);
    assert!(state.tutorial.step1_price_cut_done);
    assert_eq!(state.tutorial.current_step_index, 1);
    // 2) a contract of 1000 wafers/month for 12 months
    let _ = apply_capacity_request(&mut state, 1000, 12, Some(10_000), Some(10000));
    eval_tutorial(&mut state);
    assert!(state.tutorial.step2_contract_done);
    assert_eq!(state.tutorial.current_step_index, 2);
    // 3) an expedited tape-out
    let _ = apply_tapeout_request(&mut state, 7000, 100_000, "N90".to_string(), true);
    eval_tutorial(&mut state);
    assert!(state.tutorial.step3_tapeout_expedite_done);
    assert_eq!(state.tutorial.current_step_index, 3);
    // 4) after 24 months the index is three or four
    let _ = run_months_in_place(&mut state, 24);
    assert!(state.tutorial.current_step_index >= 3);
}

fn eval_tutorial(state: &mut SimState) {
    let asp = state.pricing.asp_cents;
    let months = state.stats.months_run;
    let cash = if state.domain.companies.is_empty() {
        0
    } else {
        state.domain.companies[0].cash_cents
    };
    let book = state.book.clone();
    let pipeline = state.pipeline.clone();
    chip_tycoon::tutorial::tutorial_step(
        &mut state.tutorial,
        asp,
        &book,
        &pipeline,
        months,
        cash,
    );
}

#[test]
fn tutorial_regression_24m_three_steps_done() {
    let dom = world(
        date(1990, 1, 1),
        vec![tech_node("N90")],
        vec![company(100_000_000)],
        vec![segment(1_000_000, -1200)],
    );
    let mut state = init_world(dom, cfg(42));
    start_tutorial(&mut state, 100_000_000);
    let _ = apply_price_delta(&mut state, -500);
    let _ = apply_capacity_request(&mut state, 1000, 12, Some(10_000), Some(10000));
    let _ = apply_tapeout_request(&mut state, 8000, 100_000, "N90".to_string(), true);
    let _ = run_months_in_place(&mut state, 24);
    assert!(
        state.tutorial.step1_price_cut_done && state.tutorial.step2_contract_done
            && state.tutorial.step3_tapeout_expedite_done
    );
}

#[test]
fn campaign_profit_target_reaches_success() {
    // a single profit-target goal of zero cents with a far deadline is Done
    // on the first month with non-negative profit, and the outcome Success
    let scenario = CampaignScenarioRes {
        start: date(1990, 1, 1),
        end: date(2000, 1, 1),
        difficulty: None,
        goals: vec![GoalKind::ProfitTarget { profit_cents: 0, deadline: date(2099, 1, 1) }],
        fails: vec![],
    };
    let mut st = CampaignStateRes::new();
    let released: Vec<TechNodeId> = vec![];
    let ids: Vec<String> = vec![];
    let inputs = CampaignInputs {
        date: date(1990, 2, 1),
        share_bp: 1000,
        profit_cents: 0,
        cash_cents: 1_000,
        released_nodes: &released,
        active_event_ids: &ids,
    };
    campaign_step(&scenario, &mut st, &inputs);
    assert_eq!(st.goal_status, vec![GoalStatus::Done]);
    assert_eq!(st.outcome, CampaignOutcome::Success);
}

#[test]
fn campaign_cash_below_fails_and_never_reverts() {
    let scenario = CampaignScenarioRes {
        start: date(1990, 1, 1),
        end: date(2000, 1, 1),
        difficulty: None,
        goals: vec![GoalKind::ProfitTarget { profit_cents: 0, deadline: date(2099, 1, 1) }],
        fails: vec![FailCondKind::CashBelow { threshold_cents: 0 }],
    };
    let mut st = CampaignStateRes::new();
    let released: Vec<TechNodeId> = vec![];
    let ids: Vec<String> = vec![];
    // cash breaches the floor: the campaign fails
    let breach = CampaignInputs {
        date: date(1990, 2, 1),
        share_bp: 1000,
        profit_cents: 100,
        cash_cents: -1,
        released_nodes: &released,
        active_event_ids: &ids,
    };
    campaign_step(&scenario, &mut st, &breach);
    assert_eq!(st.outcome, CampaignOutcome::Failed);
    // cash later recovers; the outcome stays Failed
    let recovered = CampaignInputs {
        date: date(1990, 3, 1),
        share_bp: 9000,
        profit_cents: 1_000_000,
        cash_cents: 1_000_000_000,
        released_nodes: &released,
        active_event_ids: &ids,
    };
    campaign_step(&scenario, &mut st, &recovered);
    assert_eq!(st.outcome, CampaignOutcome::Failed);
    campaign_step(&scenario, &mut st, &recovered);
    assert_eq!(st.outcome, CampaignOutcome::Failed);
}

#[test]
fn campaign_goal_failed_on_deadline_miss_is_latched() {
    let scenario = CampaignScenarioRes {
        start: date(1990, 1, 1),
        end: date(2000, 1, 1),
        difficulty: None,
        goals: vec![GoalKind::ReachShare {
            segment: "Seg".to_string(),
            min_share_bp: 9000,
            deadline: date(1990, 6, 1),
        }],
        fails: vec![],
    };
    let mut st = CampaignStateRes::new();
    let released: Vec<TechNodeId> = vec![];
    let ids: Vec<String> = vec![];
    let missed = CampaignInputs {
        date: date(1990, 7, 1),
        share_bp: 1000,
        profit_cents: 0,
        cash_cents: 0,
        released_nodes: &released,
        active_event_ids: &ids,
    };
    campaign_step(&scenario, &mut st, &missed);
    assert_eq!(st.goal_status, vec![GoalStatus::Failed]);
    assert_eq!(st.outcome, CampaignOutcome::Failed);
    // reaching the share afterwards does not resurrect the goal
    let late = CampaignInputs { share_bp: 9500, date: date(1990, 8, 1), ..missed };
    campaign_step(&scenario, &mut st, &late);
    assert_eq!(st.goal_status, vec![GoalStatus::Failed]);
    assert_eq!(st.outcome, CampaignOutcome::Failed);
}

#[test]
fn rd_budget_delta_clamps_at_zero() {
    let dom = world(date(1990, 1, 1), vec![], vec![company(100_000_000)], vec![]);
    let mut state = init_world(dom, cfg(1));
    assert_eq!(apply_rd_delta(&mut state, 10_000), 10_000);
    assert_eq!(apply_rd_delta(&mut state, -25_000), 0);
    assert_eq!(apply_rd_delta(&mut state, 5_000), 5_000);
}
