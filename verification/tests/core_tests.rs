//! Domain validation, calendar, ledger and allocation tests.

use chip_tycoon::apportion::allocate_sold_units;
use chip_tycoon::date::{add_months, months_between, Date};
use chip_tycoon::domain::{
    validate_macro_state, validate_microarch, validate_product_spec, validate_segment,
    validate_tech_node, validate_world, Company, MacroState, MarketSegment, MicroArch, ProductKind,
    ProductSpec, TechNode, TechNodeId, ValidationError, World,
};
use chip_tycoon::ledger::{bill_contracts, monthly_capacity, CapacityBook, FoundryContract};
use chip_tycoon::default_sqlite_url;

fn node(id: &str) -> TechNode {
    TechNode {
        id: TechNodeId(id.to_string()),
        year_available: 2000,
        density_mtr_per_mm2_milli: 100_000,
        freq_ghz_baseline_milli: 4_000,
        leakage_index_milli: 1_000,
        yield_baseline_bp: 9_000,
        wafer_cost_cents: 100_000,
        mask_set_cost_cents: 500_000,
        dependencies: vec![],
    }
}

fn world_of(tech: Vec<TechNode>) -> World {
    World {
        macro_state: MacroState {
            date: Date { year: 1990, month: 1, day: 1 },
            inflation_annual_bp: 200,
            interest_rate_bp: 500,
            fx_usd_index_milli: 100_000,
        },
        tech_tree: tech,
        companies: vec![Company {
            name: "TestCo".to_string(),
            cash_cents: 100_000_000,
            debt_cents: 0,
            ip_portfolio: vec!["uArchX".to_string()],
        }],
        segments: vec![MarketSegment {
            name: "Desktop CPU".to_string(),
            base_demand_units: 1_000_000,
            price_elasticity_milli: -1200,
        }],
    }
}

#[test]
fn url_is_sqlite() {
    assert!(default_sqlite_url().starts_with("sqlite://"));
}

#[test]
fn validation_accepts_well_formed_world() {
    let world = world_of(vec![node("800nm"), node("N7")]);
    assert!(validate_world(&world).is_ok());
    assert!(validate_macro_state(&world.macro_state).is_ok());
    for n in &world.tech_tree {
        assert!(validate_tech_node(n).is_ok());
    }
    for s in &world.segments {
        assert!(validate_segment(s).is_ok());
    }
}

#[test]
fn validation_reports_each_error() {
    let mut bad_year = node("a");
    bad_year.year_available = 1900;
    assert_eq!(validate_tech_node(&bad_year), Err(ValidationError::YearOutOfRange(1900)));

    let mut bad_yield = node("a");
    bad_yield.yield_baseline_bp = 10_001;
    assert_eq!(validate_tech_node(&bad_yield), Err(ValidationError::InvalidYield));

    let mut bad_money = node("a");
    bad_money.wafer_cost_cents = -1;
    assert_eq!(validate_tech_node(&bad_money), Err(ValidationError::NegativeMoney));

    let mut bad_density = node("a");
    bad_density.density_mtr_per_mm2_milli = 0;
    assert_eq!(validate_tech_node(&bad_density), Err(ValidationError::NonFinite));

    let seg = MarketSegment {
        name: "Seg".to_string(),
        base_demand_units: 1000,
        price_elasticity_milli: 0,
    };
    assert_eq!(validate_segment(&seg), Err(ValidationError::ElasticityNonNegative));

    let spec = ProductSpec {
        kind: ProductKind::CPU,
        tech_node: TechNodeId("a".to_string()),
        microarch: MicroArch {
            ipc_index_milli: 1000,
            pipeline_depth: 10,
            cache_l1_kb: 64,
            cache_l2_mb_milli: 1000,
            chiplet: false,
        },
        die_area_mm2_milli: 0,
        perf_index_bp: 5000,
        tdp_mw: 65_000,
        bom_cents: 5_000,
    };
    assert_eq!(validate_product_spec(&spec), Err(ValidationError::NonPositiveArea));

    let arch = MicroArch {
        ipc_index_milli: 0,
        pipeline_depth: 10,
        cache_l1_kb: 64,
        cache_l2_mb_milli: 1000,
        chiplet: false,
    };
    assert_eq!(validate_microarch(&arch), Err(ValidationError::NonFinite));
}

#[test]
fn validation_catches_dangling_dependency() {
    let mut n2 = node("N7");
    n2.dependencies = vec![TechNodeId("missing".to_string())];
    let world = world_of(vec![node("800nm"), n2]);
    assert_eq!(
        validate_world(&world),
        Err(ValidationError::DependencyNotFound("missing".to_string()))
    );
    // duplicate identifiers are also rejected
    let world2 = world_of(vec![node("800nm"), node("800nm")]);
    assert_eq!(
        validate_world(&world2),
        Err(ValidationError::DependencyNotFound("800nm".to_string()))
    );
}

#[test]
fn calendar_clamps_day_to_month_end() {
    let jan31 = Date { year: 1999, month: 1, day: 31 };
    assert_eq!(add_months(jan31, 1), Date { year: 1999, month: 2, day: 28 });
    // a leap year keeps the 29th
    let jan31_leap = Date { year: 2000, month: 1, day: 31 };
    assert_eq!(add_months(jan31_leap, 1), Date { year: 2000, month: 2, day: 29 });
    // the original day returns when the month allows it
    assert_eq!(add_months(jan31, 2), Date { year: 1999, month: 3, day: 31 });
    assert_eq!(months_between(jan31, Date { year: 2000, month: 1, day: 5 }), 12);
}

#[test]
fn take_or_pay_bills_even_when_underused() {
    // a contract committing 3000 wafers/month at 1000 cents/wafer with
    // take-or-pay of one whole bills exactly 3,000,000 cents
    let date = Date { year: 1990, month: 1, day: 1 };
    let contract = FoundryContract {
        foundry_id: "F1".to_string(),
        wafers_per_month: 3000,
        price_per_wafer_cents: 1000,
        take_or_pay_bp: 10000,
        billing_cents_per_wafer: 1000,
        billing_model: "take_or_pay".to_string(),
        lead_time_months: 0,
        start: date,
        end: date,
    };
    let book = CapacityBook { contracts: vec![contract] };
    assert_eq!(bill_contracts(&book, date, 0), 3_000_000);
    assert_eq!(bill_contracts(&book, date, 1000), 3_000_000);
    assert_eq!(bill_contracts(&book, date, 3000), 3_000_000);
}

#[test]
fn take_or_pay_bills_full_even_when_partially_used() {
    let date = Date { year: 1990, month: 1, day: 1 };
    let contract = FoundryContract {
        foundry_id: "F1".to_string(),
        wafers_per_month: 3000,
        price_per_wafer_cents: 1000,
        take_or_pay_bp: 10000,
        billing_cents_per_wafer: 1000,
        billing_model: "take_or_pay".to_string(),
        lead_time_months: 0,
        start: date,
        end: date,
    };
    let book = CapacityBook { contracts: vec![contract] };
    assert_eq!(bill_contracts(&book, date, 1000), 3_000_000);
    // usage above the floor is billed at the actual draw
    let mut partial = book.contracts[0].clone();
    partial.take_or_pay_bp = 5000;
    let book2 = CapacityBook { contracts: vec![partial] };
    assert_eq!(bill_contracts(&book2, date, 0), 1_500_000);
    assert_eq!(bill_contracts(&book2, date, 2000), 2_000_000);
}

#[test]
fn capacity_contract_increases_after_lead_time() {
    let date = Date { year: 1990, month: 1, day: 1 };
    let start_plus_2 = add_months(date, 2);
    let contract = FoundryContract {
        foundry_id: "F1".to_string(),
        wafers_per_month: 500,
        price_per_wafer_cents: 10_000,
        take_or_pay_bp: 10000,
        billing_cents_per_wafer: 10_000,
        billing_model: "take_or_pay".to_string(),
        lead_time_months: 2,
        start: start_plus_2,
        end: add_months(start_plus_2, 12),
    };
    let book = CapacityBook { contracts: vec![contract] };
    let base = monthly_capacity(0, 1, &book, date);
    assert_eq!(base, 1000);
    let later = monthly_capacity(0, 1, &book, start_plus_2);
    assert_eq!(later, 1500);
}

#[test]
fn sold_units_conserve_total() {
    // multi-segment allocation lands exactly on min(total demand, inventory)
    let demand = vec![3u64, 3, 3];
    let sold = allocate_sold_units(&demand, 7);
    assert_eq!(sold.iter().sum::<u64>(), 7);
    for (s, d) in sold.iter().zip(demand.iter()) {
        assert!(s <= d);
    }
    // the leftover goes to the largest remainders, ties to the lower index
    assert_eq!(sold, vec![3, 2, 2]);
}

#[test]
fn sold_units_edge_cases() {
    // inventory above demand sells everything
    assert_eq!(allocate_sold_units(&vec![10, 0, 5], 100), vec![10, 0, 5]);
    // zero inventory sells nothing
    assert_eq!(allocate_sold_units(&vec![10, 20], 0), vec![0, 0]);
    // no segments, nothing to allocate
    assert_eq!(allocate_sold_units(&vec![], 50), Vec::<u64>::new());
    // equal demands with an odd total split with ties to the left
    assert_eq!(allocate_sold_units(&vec![5, 5], 5), vec![3, 2]);
    // extreme sizes stay exact
    let sold = allocate_sold_units(&vec![u64::MAX, u64::MAX], u64::MAX);
    assert_eq!(sold.iter().sum::<u64>(), u64::MAX);
}
