//! Domain model: plain data describing the world, with structural
//! validation.
//!
//! Monetary fields are integer cents; dimensionless ratios are fixed-point
//! (`_bp` fields are basis points, `_milli` fields thousandths), so every
//! field is finite by construction.

use crate::date::{spec_date_valid, Date};
use vstd::prelude::*;

verus! {

/// Unique identifier for a technology node, e.g. "800nm", "N7", "N5".
#[derive(Clone, Debug, PartialEq, Eq, PartialOrd, Ord, Hash)]
pub struct TechNodeId(pub String);

/// A fabrication technology node with cost and physical characteristics.
#[derive(Clone, Debug)]
pub struct TechNode {
    /// Node identifier, e.g. "N5".
    pub id: TechNodeId,
    /// First year the node becomes available.
    pub year_available: i32,
    /// Transistor density in thousandths of MTr per mm².
    pub density_mtr_per_mm2_milli: i64,
    /// Baseline achievable frequency in thousandths of GHz.
    pub freq_ghz_baseline_milli: i64,
    /// Relative leakage index, in thousandths (>= 0).
    pub leakage_index_milli: i64,
    /// Baseline die yield in basis points of one whole, in [0, 10000].
    pub yield_baseline_bp: i64,
    /// Wafer cost in cents.
    pub wafer_cost_cents: i64,
    /// Mask set cost in cents.
    pub mask_set_cost_cents: i64,
    /// Prerequisite nodes that must exist/be unlocked.
    pub dependencies: Vec<TechNodeId>,
}

/// Kinds of semiconductor products.
#[derive(Clone, Copy, Debug, PartialEq, Eq, Structural)]
pub enum ProductKind {
    /// Central Processing Unit
    CPU,
    /// Graphics Processing Unit
    GPU,
    /// Accelerated Processing Unit (CPU+GPU)
    APU,
    /// Application-Specific Integrated Circuit
    ASIC,
    /// Neural Processing Unit
    NPU,
}

/// Micro-architecture characteristics that affect performance/cost.
#[derive(Clone, Copy, Debug)]
pub struct MicroArch {
    /// Relative IPC index in thousandths (> 0).
    pub ipc_index_milli: i64,
    /// Pipeline depth in stages (> 0).
    pub pipeline_depth: u8,
    /// L1 cache size (KB).
    pub cache_l1_kb: u16,
    /// L2 cache size in thousandths of a MB.
    pub cache_l2_mb_milli: i64,
    /// Whether design uses chiplets.
    pub chiplet: bool,
}

/// A specific product specification for manufacturing.
#[derive(Clone, Debug)]
pub struct ProductSpec {
    /// Product kind.
    pub kind: ProductKind,
    /// Target technology node ID.
    pub tech_node: TechNodeId,
    /// Micro-architectural parameters.
    pub microarch: MicroArch,
    /// Die area in thousandths of a mm² (> 0).
    pub die_area_mm2_milli: i64,
    /// Performance index in basis points of one whole.
    pub perf_index_bp: i64,
    /// Thermal Design Power in milliwatts (>= 0).
    pub tdp_mw: i64,
    /// Bill of materials cost in cents (>= 0).
    pub bom_cents: i64,
}

/// Macro-economic state for a given date.
#[derive(Clone, Copy, Debug)]
pub struct MacroState {
    /// Current simulation date.
    pub date: Date,
    /// Annual inflation in basis points (200 = 2%).
    pub inflation_annual_bp: i64,
    /// Short-term interest rate in basis points.
    pub interest_rate_bp: i64,
    /// USD FX index in thousandths (baseline ~100000).
    pub fx_usd_index_milli: i64,
}

/// A targetable market segment with demand characteristics.
#[derive(Clone, Debug)]
pub struct MarketSegment {
    /// Human-readable segment name (e.g., "Desktop CPU").
    pub name: String,
    /// Baseline demand in units per tick.
    pub base_demand_units: u64,
    /// Price elasticity in thousandths (< 0 for standard goods).
    pub price_elasticity_milli: i64,
}

/// Simulation configuration parameters.
#[derive(Clone, Copy, Debug)]
pub struct SimConfig {
    /// Number of days per tick (informational; ticks are one month).
    pub tick_days: u16,
    /// Seed for deterministic noise.
    pub rng_seed: u64,
}

/// Minimal representation of a company participating in the simulation.
#[derive(Clone, Debug)]
pub struct Company {
    /// Company brand name.
    pub name: String,
    /// Cash reserves in cents (>= 0 for the baseline setup).
    pub cash_cents: i64,
    /// Outstanding debt in cents (>= 0).
    pub debt_cents: i64,
    /// Owned IP tags.
    pub ip_portfolio: Vec<String>,
}

/// Top-level world state with technology, companies, and market data.
#[derive(Clone, Debug)]
pub struct World {
    /// Macro-economic state.
    pub macro_state: MacroState,
    /// Technology tree (unique IDs).
    pub tech_tree: Vec<TechNode>,
    /// Participating companies.
    pub companies: Vec<Company>,
    /// Addressable market segments.
    pub segments: Vec<MarketSegment>,
}

/// Validation errors for domain invariants.
#[derive(Clone, Debug, PartialEq, Eq)]
pub enum ValidationError {
    /// Year outside supported range [1970, 2100].
    YearOutOfRange(i32),
    /// Yield must be within [0, 1].
    InvalidYield,
    /// Numeric field out of its meaningful range, or an empty name.
    NonFinite,
    /// Price or cost must be non-negative.
    NegativeMoney,
    /// Area must be strictly positive.
    NonPositiveArea,
    /// Elasticity must be strictly negative.
    ElasticityNonNegative,
    /// Missing or duplicated identifier in the tech tree.
    DependencyNotFound(String),
}

/// Mirror of `validate_tech_node`, check for check, in order.
pub open spec fn spec_validate_tech_node(node: TechNode) -> Result<(), ValidationError> {
    if !(1970 <= node.year_available <= 2100) {
        Err(ValidationError::YearOutOfRange(node.year_available))
    } else if node.yield_baseline_bp < 0 || node.yield_baseline_bp > 10000 {
        Err(ValidationError::InvalidYield)
    } else if node.wafer_cost_cents < 0 || node.mask_set_cost_cents < 0 {
        Err(ValidationError::NegativeMoney)
    } else if node.density_mtr_per_mm2_milli <= 0 || node.leakage_index_milli < 0 {
        Err(ValidationError::NonFinite)
    } else if node.freq_ghz_baseline_milli < 0 {
        Err(ValidationError::NonFinite)
    } else {
        Ok(())
    }
}

/// Validate a technology node.
pub fn validate_tech_node(node: &TechNode) -> (result: Result<(), ValidationError>)
    ensures
        result == spec_validate_tech_node(*node),
{
    if !(1970 <= node.year_available && node.year_available <= 2100) {
        return Err(ValidationError::YearOutOfRange(node.year_available));
    }
    if node.yield_baseline_bp < 0 || node.yield_baseline_bp > 10000 {
        return Err(ValidationError::InvalidYield);
    }
    if node.wafer_cost_cents < 0 || node.mask_set_cost_cents < 0 {
        return Err(ValidationError::NegativeMoney);
    }
    if node.density_mtr_per_mm2_milli <= 0 || node.leakage_index_milli < 0 {
        return Err(ValidationError::NonFinite);
    }
    if node.freq_ghz_baseline_milli < 0 {
        return Err(ValidationError::NonFinite);
    }
    Ok(())
}

/// Mirror of `validate_microarch`.
pub open spec fn spec_validate_microarch(m: MicroArch) -> Result<(), ValidationError> {
    if m.ipc_index_milli <= 0 || m.pipeline_depth == 0 || m.cache_l2_mb_milli < 0 {
        Err(ValidationError::NonFinite)
    } else {
        Ok(())
    }
}

/// Validate a micro-architecture.
pub fn validate_microarch(m: &MicroArch) -> (result: Result<(), ValidationError>)
    ensures
        result == spec_validate_microarch(*m),
{
    if m.ipc_index_milli <= 0 || m.pipeline_depth == 0 || m.cache_l2_mb_milli < 0 {
        return Err(ValidationError::NonFinite);
    }
    Ok(())
}

/// Mirror of `validate_product_spec`: micro-architecture first, then area,
/// then money.
pub open spec fn spec_validate_product_spec(p: ProductSpec) -> Result<(), ValidationError> {
    if spec_validate_microarch(p.microarch) is Err {
        spec_validate_microarch(p.microarch)
    } else if p.die_area_mm2_milli <= 0 {
        Err(ValidationError::NonPositiveArea)
    } else if p.tdp_mw < 0 || p.bom_cents < 0 {
        Err(ValidationError::NegativeMoney)
    } else {
        Ok(())
    }
}

/// Validate a product specification.
pub fn validate_product_spec(p: &ProductSpec) -> (result: Result<(), ValidationError>)
    ensures
        result == spec_validate_product_spec(*p),
{
    match validate_microarch(&p.microarch) {
        Err(e) => {
            return Err(e);
        },
        Ok(()) => (),
    }
    if p.die_area_mm2_milli <= 0 {
        return Err(ValidationError::NonPositiveArea);
    }
    if p.tdp_mw < 0 || p.bom_cents < 0 {
        return Err(ValidationError::NegativeMoney);
    }
    Ok(())
}

/// Mirror of `validate_segment`: a segment needs a non-empty name and a
/// strictly negative elasticity.
pub open spec fn spec_validate_segment(s: MarketSegment) -> Result<(), ValidationError> {
    if s.name@.len() == 0 {
        Err(ValidationError::NonFinite)
    } else if s.price_elasticity_milli >= 0 {
        Err(ValidationError::ElasticityNonNegative)
    } else {
        Ok(())
    }
}

/// Validate a market segment.
pub fn validate_segment(s: &MarketSegment) -> (result: Result<(), ValidationError>)
    ensures
        result == spec_validate_segment(*s),
{
    if s.name.as_str().unicode_len() == 0 {
        return Err(ValidationError::NonFinite);
    }
    if s.price_elasticity_milli >= 0 {
        return Err(ValidationError::ElasticityNonNegative);
    }
    Ok(())
}

/// Validate macro-economic state fields.  All macro fields are fixed-point
/// integers, hence finite by construction; the check never fails.
pub fn validate_macro_state(m: &MacroState) -> (result: Result<(), ValidationError>)
    ensures
        result == Ok::<(), ValidationError>(()),
{
    let _ = m;
    Ok(())
}

/// The identifiers in the tech tree are pairwise distinct.
pub open spec fn spec_tech_ids_unique(tech: Seq<TechNode>) -> bool {
    forall|i: int, j: int| 0 <= i < j < tech.len() ==> tech[i].id.0@ != tech[j].id.0@
}

/// Every dependency names a node of the tree.
pub open spec fn spec_tech_deps_resolve(tech: Seq<TechNode>) -> bool {
    forall|i: int, k: int|
        0 <= i < tech.len() && 0 <= k < tech[i].dependencies.len() ==> exists|j: int|
            0 <= j < tech.len() && tech[j].id.0@ == #[trigger] tech[i].dependencies[k].0@
}

/// Structural validity of a whole world, cross-references included.
pub open spec fn spec_world_valid(w: World) -> bool {
    &&& forall|i: int| 0 <= i < w.segments.len() ==> spec_validate_segment(#[trigger] w.segments[i])
        is Ok
    &&& forall|i: int|
        0 <= i < w.companies.len() ==> (#[trigger] w.companies[i].name@.len() > 0
            && w.companies[i].cash_cents >= 0 && w.companies[i].debt_cents >= 0)
    &&& forall|i: int|
        0 <= i < w.tech_tree.len() ==> spec_validate_tech_node(#[trigger] w.tech_tree[i]) is Ok
    &&& spec_tech_ids_unique(w.tech_tree@)
    &&& spec_tech_deps_resolve(w.tech_tree@)
}

/// Validate the world, including cross-references like tech dependencies:
/// segments first, then companies, then nodes (with unique identifiers),
/// then dependency resolution.  Succeeds exactly on valid worlds.
pub fn validate_world(world: &World) -> (result: Result<(), ValidationError>)
    ensures
        result is Ok <==> spec_world_valid(*world),
{
    let mut i: usize = 0;
    while i < world.segments.len()
        invariant
            i <= world.segments@.len(),
            forall|k: int| 0 <= k < i ==> spec_validate_segment(#[trigger] world.segments@[k])
                is Ok,
        decreases world.segments@.len() - i,
    {
        match validate_segment(&world.segments[i]) {
            Err(e) => {
                return Err(e);
            },
            Ok(()) => (),
        }
        i += 1;
    }
    let mut i: usize = 0;
    while i < world.companies.len()
        invariant
            i <= world.companies@.len(),
            forall|k: int|
                0 <= k < i ==> (#[trigger] world.companies@[k].name@.len() > 0
                    && world.companies@[k].cash_cents >= 0 && world.companies@[k].debt_cents >= 0),
        decreases world.companies@.len() - i,
    {
        let c = &world.companies[i];
        if c.name.as_str().unicode_len() == 0 {
            return Err(ValidationError::NonFinite);
        }
        if c.cash_cents < 0 || c.debt_cents < 0 {
            return Err(ValidationError::NegativeMoney);
        }
        i += 1;
    }
    let mut i: usize = 0;
    while i < world.tech_tree.len()
        invariant
            i <= world.tech_tree@.len(),
            forall|k: int|
                0 <= k < i ==> spec_validate_tech_node(#[trigger] world.tech_tree@[k]) is Ok,
            forall|k: int, l: int|
                0 <= k < l < i ==> world.tech_tree@[k].id.0@ != world.tech_tree@[l].id.0@,
        decreases world.tech_tree@.len() - i,
    {
        match validate_tech_node(&world.tech_tree[i]) {
            Err(e) => {
                return Err(e);
            },
            Ok(()) => (),
        }
        let mut j: usize = 0;
        while j < i
            invariant
                j <= i < world.tech_tree@.len(),
                forall|l: int|
                    0 <= l < j ==> world.tech_tree@[l].id.0@ != world.tech_tree@[i as int].id.0@,
            decreases i - j,
        {
            if world.tech_tree[j].id.0 == world.tech_tree[i].id.0 {
                let dup = world.tech_tree[i].id.0.clone();
                return Err(ValidationError::DependencyNotFound(dup));
            }
            j += 1;
        }
        i += 1;
    }
    let mut i: usize = 0;
    while i < world.tech_tree.len()
        invariant
            i <= world.tech_tree@.len(),
            forall|k: int, l: int|
                0 <= k < world.tech_tree@.len() && 0 <= l < world.tech_tree@[k].dependencies.len()
                    && (k < i) ==> exists|j: int|
                    0 <= j < world.tech_tree@.len() && world.tech_tree@[j].id.0@ == #[trigger] world
                        .tech_tree@[k].dependencies[l].0@,
        decreases world.tech_tree@.len() - i,
    {
        let deps_len = world.tech_tree[i].dependencies.len();
        let mut k: usize = 0;
        while k < deps_len
            invariant
                i < world.tech_tree@.len(),
                deps_len == world.tech_tree@[i as int].dependencies.len(),
                k <= deps_len,
                forall|l: int|
                    0 <= l < k ==> exists|j: int|
                        0 <= j < world.tech_tree@.len() && world.tech_tree@[j].id.0@ == #[trigger]
                        world.tech_tree@[i as int].dependencies[l].0@,
            decreases deps_len - k,
        {
            let mut found = false;
            let mut j: usize = 0;
            while j < world.tech_tree.len()
                invariant
                    i < world.tech_tree@.len(),
                    k < world.tech_tree@[i as int].dependencies.len(),
                    j <= world.tech_tree@.len(),
                    found ==> exists|j2: int|
                        0 <= j2 < world.tech_tree@.len() && world.tech_tree@[j2].id.0@ == world
                            .tech_tree@[i as int].dependencies[k as int].0@,
                    !found ==> forall|j2: int|
                        0 <= j2 < j ==> world.tech_tree@[j2].id.0@
                            != world.tech_tree@[i as int].dependencies[k as int].0@,
                decreases world.tech_tree@.len() - j,
            {
                if world.tech_tree[j].id.0 == world.tech_tree[i].dependencies[k].0 {
                    found = true;
                }
                j += 1;
            }
            if !found {
                let missing = world.tech_tree[i].dependencies[k].0.clone();
                return Err(ValidationError::DependencyNotFound(missing));
            }
            k += 1;
        }
        i += 1;
    }
    Ok(())
}

} // verus!
