//! Tactics and quarterly-planner tests.

use chip_tycoon::planner::{plan_horizon, CurrentKpis, PlanAction, PlannerConfig};
use chip_tycoon::tactics::{
    decide_tactics, min_price, scale_price, utility_score, CompanyMetrics, ScoreWeights,
    TacticsConfig,
};

fn weights() -> ScoreWeights {
    ScoreWeights::default()
}

#[test]
fn monotonic_in_share_and_margin() {
    let w = weights();
    let base = CompanyMetrics {
        share_12m_bp: 2000,
        margin_ratio_bp: 2000,
        liquidity_k_bp: 5000,
        portfolio_div_bp: 3000,
    };
    let mut up_share = base;
    up_share.share_12m_bp = 3000;
    let mut up_margin = base;
    up_margin.margin_ratio_bp = 3000;
    assert!(utility_score(&up_share, &w) >= utility_score(&base, &w));
    assert!(utility_score(&up_margin, &w) >= utility_score(&base, &w));
}

#[test]
fn stability_same_inputs_same_score() {
    let w = weights();
    let m = CompanyMetrics {
        share_12m_bp: 4000,
        margin_ratio_bp: 2500,
        liquidity_k_bp: 15000,
        portfolio_div_bp: 6000,
    };
    let s1 = utility_score(&m, &w);
    let s2 = utility_score(&m, &w);
    assert_eq!(s1, s2);
    assert!(s1 >= 0 && s1 <= 10000);
}

#[test]
fn reduces_price_on_share_drop_with_floor() {
    let cfg = TacticsConfig { share_drop_delta_bp: 500, price_epsilon_bp: 1000, ..Default::default() };
    let unit_cost = 20_000;
    let asp = 22_000;
    let m = CompanyMetrics {
        share_12m_bp: 2000,
        margin_ratio_bp: 900,
        liquidity_k_bp: 10000,
        portfolio_div_bp: 5000,
    };
    // share dropped from 0.30 to 0.20; the requested ten percent cut would
    // violate the five percent margin floor and is clamped
    let (df, _rd) = decide_tactics(&m, 3000, 10000, unit_cost, asp, &cfg);
    assert!(df <= 0);
    let new_price = scale_price(asp, df);
    let floor = min_price(unit_cost, cfg.min_margin_bp);
    assert!(new_price >= floor);
    // the clamp lands on the largest cut that still respects the floor
    assert_eq!(df, -454);
}

#[test]
fn increases_price_on_shortage() {
    let cfg = TacticsConfig {
        shortage_raise_threshold_bp: 12000,
        shortage_raise_epsilon_bp: 300,
        ..Default::default()
    };
    let unit_cost = 20_000;
    let asp = 30_000;
    let m = CompanyMetrics {
        share_12m_bp: 3000,
        margin_ratio_bp: 3300,
        liquidity_k_bp: 10000,
        portfolio_div_bp: 5000,
    };
    let (df, _rd) = decide_tactics(&m, 3000, 15000, unit_cost, asp, &cfg);
    assert!(df > 0);
    assert_eq!(df, 300);
}

#[test]
fn rd_policy_cuts_under_low_liquidity() {
    let cfg = TacticsConfig::default();
    let low_liq = CompanyMetrics {
        share_12m_bp: 3000,
        margin_ratio_bp: 3000,
        liquidity_k_bp: 1000,
        portfolio_div_bp: 5000,
    };
    let (_df, rd) = decide_tactics(&low_liq, 3000, 10000, 20000, 30000, &cfg);
    assert!(rd < 0);
    // a material share drop with healthy liquidity boosts instead
    let healthy = CompanyMetrics { liquidity_k_bp: 20000, ..low_liq };
    let (_df2, rd2) = decide_tactics(&healthy, 5000, 10000, 20000, 30000, &cfg);
    assert!(rd2 > 0);
}

#[test]
fn low_share_prefers_price_down_not_negative_margin() {
    let w = weights();
    let cfg = PlannerConfig {
        months: 12,
        beam_width: 3,
        price_step_bp: 500,
        min_margin_bp: 500,
        competitor_attractiveness_bp: 50000,
        price_pref_beta_milli: 2000,
        ..Default::default()
    };
    let current = CurrentKpis {
        asp_cents: 30_000,
        unit_cost_cents: 28_000,
        capacity_units_per_month: 500_000,
        cash_cents: 100_000_000,
        debt_cents: 0,
        share_bp: 1000,
        rd_progress_bp: 1000,
    };
    let plan = plan_horizon(1_000_000, -1300, 1, &current, &w, &cfg);
    assert!(!plan.decisions.is_empty());
    let first = &plan.decisions[0];
    if let PlanAction::AdjustPriceFrac(df) = first.action {
        // a low-share node never raises the price
        assert!(df <= 0);
        // and the applied price respects the margin floor
        let applied = scale_price(current.asp_cents, df);
        let floor = min_price(current.unit_cost_cents, cfg.min_margin_bp);
        assert!(applied.max(floor) >= floor);
    }
}

#[test]
fn capacity_shortage_prefers_capacity_over_price_cut() {
    let w = weights();
    let cfg = PlannerConfig {
        months: 12,
        beam_width: 4,
        price_step_bp: 500,
        capacity_step_units: 200_000,
        ..Default::default()
    };
    let current = CurrentKpis {
        asp_cents: 30_000,
        unit_cost_cents: 20_000,
        capacity_units_per_month: 5_000,
        cash_cents: 100_000_000,
        debt_cents: 0,
        share_bp: 4000,
        rd_progress_bp: 2000,
    };
    let plan = plan_horizon(1_000_000, -1300, 1, &current, &w, &cfg);
    assert!(!plan.decisions.is_empty());
    match plan.decisions[0].action {
        PlanAction::RequestCapacity(_) => {},
        PlanAction::AdjustPriceFrac(df) => {
            // under a severe shortage the plan at least avoids cutting further
            assert!(df >= 0);
        },
        _ => {},
    }
}

#[test]
fn plan_decisions_fall_on_decision_months() {
    let w = weights();
    let cfg = PlannerConfig::default();
    let current = CurrentKpis {
        asp_cents: 30_000,
        unit_cost_cents: 20_000,
        capacity_units_per_month: 100_000,
        cash_cents: 100_000_000,
        debt_cents: 0,
        share_bp: 4000,
        rd_progress_bp: 2000,
    };
    let plan = plan_horizon(1_000_000, -1200, 1, &current, &w, &cfg);
    assert!(!plan.decisions.is_empty());
    for d in &plan.decisions {
        assert!(d.month_index >= 1 && d.month_index <= cfg.months);
        assert_eq!(d.month_index % cfg.quarter_step, 1);
    }
}
