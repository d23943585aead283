//! Product tape-out pipeline: in-flight requests and released products.
//!
//! A request moves from the queue to the released list exactly when its
//! ready date has arrived; a release recomputes the unit cost from the
//! owning tech node's overhead-adjusted yield and the usable die area, and
//! bumps the bounded appeal score.

use crate::date::{spec_date_le, Date};
use crate::domain::{ProductSpec, TechNode, TechNodeId};
use vstd::prelude::*;

verus! {

/// An in-flight tape-out request.
#[derive(Clone, Debug)]
pub struct TapeoutRequest {
    pub product: ProductSpec,
    pub tech_node: TechNodeId,
    pub start: Date,
    pub ready: Date,
    pub expedite: bool,
    pub expedite_cost_cents: i64,
}

/// Pending queue of tape-outs plus the already-released products.
#[derive(Clone, Debug)]
pub struct ProductPipeline {
    pub queue: Vec<TapeoutRequest>,
    pub released: Vec<ProductSpec>,
}

impl ProductPipeline {
    pub fn new() -> (r: ProductPipeline)
        ensures
            r.queue@.len() == 0,
            r.released@.len() == 0,
    {
        ProductPipeline { queue: Vec::new(), released: Vec::new() }
    }
}

/// Parameters for the unit-cost computation.
#[derive(Clone, Copy, Debug, PartialEq, Eq, Structural)]
pub struct ProductCostCfg {
    /// Usable area of one wafer, in thousandths of a mm².
    pub usable_die_area_mm2_milli: i64,
    /// Yield overhead fraction in basis points, clamped to [0, 9900].
    pub yield_overhead_bp: i64,
}

impl Default for ProductCostCfg {
    fn default() -> (r: ProductCostCfg)
        ensures
            r == (ProductCostCfg { usable_die_area_mm2_milli: 6200000, yield_overhead_bp: 500 }),
    {
        ProductCostCfg { usable_die_area_mm2_milli: 6200000, yield_overhead_bp: 500 }
    }
}

/// Overhead fraction clamped into `[0, 9900]` basis points.
pub open spec fn spec_overhead_clamped(bp: int) -> int {
    if bp < 0 {
        0
    } else if bp > 9900 {
        9900
    } else {
        bp
    }
}

/// Whole dies cut from one wafer: `floor(usable / die_area)`, at least one.
pub open spec fn spec_units_per_wafer(usable_milli: int, die_area_milli: int) -> int {
    let usable = if usable_milli < 1000000 {
        1000000
    } else {
        usable_milli
    };
    let q = usable / die_area_milli;
    if q < 1 {
        1
    } else {
        q
    }
}

/// Effective yield after overhead, floored at one percent.
pub open spec fn spec_effective_yield_bp(yield_bp: int, overhead_bp: int) -> int {
    let y = yield_bp * (10000 - spec_overhead_clamped(overhead_bp)) / 10000;
    if y < 100 {
        100
    } else {
        y
    }
}

/// Unit cost in cents: wafer cost spread over the good dies per wafer,
/// `wafer_cost / (units_per_wafer * effective_yield)`.
pub open spec fn spec_unit_cost_cents(node: TechNode, spec_p: ProductSpec, cfg: ProductCostCfg) -> int {
    let upw = spec_units_per_wafer(
        cfg.usable_die_area_mm2_milli as int,
        spec_p.die_area_mm2_milli as int,
    );
    let ey = spec_effective_yield_bp(node.yield_baseline_bp as int, cfg.yield_overhead_bp as int);
    node.wafer_cost_cents * 10000 / (upw * ey)
}

/// Compute the unit cost of a product on a node under the given cost
/// parameters.
pub fn compute_unit_cost(node: &TechNode, product: &ProductSpec, cfg: &ProductCostCfg) -> (r: i64)
    requires
        0 <= node.wafer_cost_cents <= 0x20000000000000,
        0 <= node.yield_baseline_bp <= 10000,
        product.die_area_mm2_milli > 0,
    ensures
        r == spec_unit_cost_cents(*node, *product, *cfg),
        0 <= r <= node.wafer_cost_cents * 100,
{
    let usable: i64 = if cfg.usable_die_area_mm2_milli < 1000000 {
        1000000
    } else {
        cfg.usable_die_area_mm2_milli
    };
    let q: i64 = usable / product.die_area_mm2_milli;
    let upw: i64 = if q < 1 {
        1
    } else {
        q
    };
    let overhead: i64 = if cfg.yield_overhead_bp < 0 {
        0
    } else if cfg.yield_overhead_bp > 9900 {
        9900
    } else {
        cfg.yield_overhead_bp
    };
    proof {
        vstd::arithmetic::div_mod::lemma_div_pos_is_pos(usable as int, product.die_area_mm2_milli as int);
        assert(0 <= node.yield_baseline_bp * (10000 - overhead) <= 10000 * 10000)
            by (nonlinear_arith)
            requires
                0 <= node.yield_baseline_bp <= 10000,
                100 <= 10000 - overhead <= 10000,
        ;
        vstd::arithmetic::div_mod::lemma_div_pos_is_pos(
            node.yield_baseline_bp * (10000 - overhead),
            10000,
        );
        vstd::arithmetic::div_mod::lemma_multiply_divide_le(
            node.yield_baseline_bp * (10000 - overhead),
            10000,
            10000,
        );
    }
    let ey_raw: i64 = node.yield_baseline_bp * (10000 - overhead) / 10000;
    let ey: i64 = if ey_raw < 100 {
        100
    } else {
        ey_raw
    };
    proof {
        assert(100 <= (upw as int) * (ey as int)) by (nonlinear_arith)
            requires
                1 <= upw,
                100 <= ey,
        ;
        assert(0 <= (node.wafer_cost_cents as int) * 10000 <= 0x20000000000000 * 10000);
        vstd::arithmetic::div_mod::lemma_div_pos_is_pos(
            (node.wafer_cost_cents as int) * 10000,
            (upw as int) * (ey as int),
        );
        assert((node.wafer_cost_cents as int) * 10000 <= ((upw as int) * (ey as int)) * (
        node.wafer_cost_cents * 100)) by (nonlinear_arith)
            requires
                0 <= node.wafer_cost_cents,
                100 <= (upw as int) * (ey as int),
        ;
        vstd::arithmetic::div_mod::lemma_multiply_divide_le(
            (node.wafer_cost_cents as int) * 10000,
            (upw as int) * (ey as int),
            node.wafer_cost_cents * 100,
        );
    }
    proof {
        assert((upw as int) * (ey as int) <= 0x8000000000000000 * 10000) by (nonlinear_arith)
            requires
                0 <= upw < 0x8000000000000000,
                0 <= ey <= 10000,
        ;
    }
    let denom: i128 = (upw as i128) * (ey as i128);
    let r: i128 = ((node.wafer_cost_cents as i128) * 10000) / denom;
    r as i64
}

/// Appeal bumped by one release: +0.05, capped at 0.5 (in basis points).
pub open spec fn spec_bump_appeal(appeal_bp: int) -> int {
    if appeal_bp + 500 > 5000 {
        5000
    } else {
        appeal_bp + 500
    }
}

/// Requests from the first `n` whose ready date has arrived.
pub open spec fn spec_ready_count(queue: Seq<TapeoutRequest>, date: Date, n: int) -> int
    decreases n,
{
    if n <= 0 {
        0
    } else {
        spec_ready_count(queue, date, n - 1) + if spec_date_le(queue[n - 1].ready, date) {
            1int
        } else {
            0int
        }
    }
}

/// The requests from the first `n` that are not yet ready, in order.
pub open spec fn spec_kept_queue(queue: Seq<TapeoutRequest>, date: Date, n: int) -> Seq<
    TapeoutRequest,
>
    decreases n,
{
    if n <= 0 {
        Seq::empty()
    } else {
        let prev = spec_kept_queue(queue, date, n - 1);
        if spec_date_le(queue[n - 1].ready, date) {
            prev
        } else {
            prev.push(queue[n - 1])
        }
    }
}

/// The products of the requests from the first `n` that are ready, in
/// order.
pub open spec fn spec_released_products(queue: Seq<TapeoutRequest>, date: Date, n: int) -> Seq<
    ProductSpec,
>
    decreases n,
{
    if n <= 0 {
        Seq::empty()
    } else {
        let prev = spec_released_products(queue, date, n - 1);
        if spec_date_le(queue[n - 1].ready, date) {
            prev.push(queue[n - 1].product)
        } else {
            prev
        }
    }
}

/// Advance the tape-out queue for the month: every request whose ready
/// date has arrived is released, in queue order; the rest stay queued in
/// order.  Returns the number of products released this month.
pub fn advance_tapeouts(pipeline: &mut ProductPipeline, date: Date) -> (released_now: usize)
    ensures
        // the queue keeps exactly the not-yet-ready requests, in order
        final(pipeline).queue@ == spec_kept_queue(
            old(pipeline).queue@,
            date,
            old(pipeline).queue@.len() as int,
        ),
        forall|j: int|
            0 <= j < final(pipeline).queue@.len() ==> !spec_date_le(
                #[trigger] final(pipeline).queue@[j].ready,
                date,
            ),
        final(pipeline).queue@.len() + released_now == old(pipeline).queue@.len(),
        released_now == spec_ready_count(
            old(pipeline).queue@,
            date,
            old(pipeline).queue@.len() as int,
        ),
        // exactly the ready products are appended to the released list, in
        // order
        final(pipeline).released@ == old(pipeline).released@ + spec_released_products(
            old(pipeline).queue@,
            date,
            old(pipeline).queue@.len() as int,
        ),
        final(pipeline).released@.len() == old(pipeline).released@.len() + released_now,
        forall|j: int|
            0 <= j < old(pipeline).released@.len() ==> #[trigger] final(pipeline).released@[j]
                == old(pipeline).released@[j],
        // structural bounds on the queued products survive the advance
        (forall|j: int|
            0 <= j < old(pipeline).queue@.len() ==> (#[trigger] old(pipeline).queue@[j]).product.die_area_mm2_milli > 0) ==> (forall|j: int|
            0 <= j < final(pipeline).queue@.len() ==> (#[trigger] final(pipeline).queue@[j]).product.die_area_mm2_milli > 0),
{
    let mut rest: Vec<TapeoutRequest> = Vec::new();
    let mut released_now: usize = 0;
    let mut i: usize = 0;
    let ghost q0 = pipeline.queue@;
    let ghost r0 = pipeline.released@;
    while i < pipeline.queue.len()
        invariant
            i <= pipeline.queue@.len(),
            pipeline.queue@ == q0,
            rest@.len() + released_now == i,
            released_now == spec_ready_count(q0, date, i as int),
            rest@ == spec_kept_queue(q0, date, i as int),
            pipeline.released@ == r0 + spec_released_products(q0, date, i as int),
            forall|j: int|
                0 <= j < rest@.len() ==> !spec_date_le(#[trigger] rest@[j].ready, date),
            (forall|j: int|
                0 <= j < q0.len() ==> (#[trigger] q0[j]).product.die_area_mm2_milli > 0) ==> (
            forall|j: int|
                0 <= j < rest@.len() ==> (#[trigger] rest@[j]).product.die_area_mm2_milli > 0),
            pipeline.released@.len() == r0.len() + released_now,
            forall|j: int| 0 <= j < r0.len() ==> #[trigger] pipeline.released@[j] == r0[j],
        decreases pipeline.queue@.len() - i,
    {
        let req = &pipeline.queue[i];
        if req.ready.le(&date) {
            let spec_released = ProductSpec {
                kind: req.product.kind,
                tech_node: TechNodeId(req.product.tech_node.0.clone()),
                microarch: req.product.microarch,
                die_area_mm2_milli: req.product.die_area_mm2_milli,
                perf_index_bp: req.product.perf_index_bp,
                tdp_mw: req.product.tdp_mw,
                bom_cents: req.product.bom_cents,
            };
            pipeline.released.push(spec_released);
            proof {
                assert(pipeline.released@ =~= r0 + spec_released_products(
                    q0,
                    date,
                    i as int + 1,
                ));
            }
            released_now += 1;
        } else {
            rest.push(
                TapeoutRequest {
                    product: ProductSpec {
                        kind: req.product.kind,
                        tech_node: TechNodeId(req.product.tech_node.0.clone()),
                        microarch: req.product.microarch,
                        die_area_mm2_milli: req.product.die_area_mm2_milli,
                        perf_index_bp: req.product.perf_index_bp,
                        tdp_mw: req.product.tdp_mw,
                        bom_cents: req.product.bom_cents,
                    },
                    tech_node: TechNodeId(req.tech_node.0.clone()),
                    start: req.start,
                    ready: req.ready,
                    expedite: req.expedite,
                    expedite_cost_cents: req.expedite_cost_cents,
                },
            );
            proof {
                assert(rest@.last() == q0[i as int]);
                assert(rest@ =~= spec_kept_queue(q0, date, i as int + 1));
            }
        }
        i += 1;
    }
    pipeline.queue = rest;
    released_now
}

} // verus!
