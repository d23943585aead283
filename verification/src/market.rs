//! Market trends: per-segment demand recomputed from scratch each tick.
//!
//! A trend is derived from the 1990-baseline configuration (compound annual
//! growth, scripted step events) plus any active mod-driven perturbation;
//! nothing is accumulated across ticks.

use crate::date::{spec_add_months, spec_date_le, spec_date_lt, spec_date_valid, spec_month_index,
    add_months, months_between, Date};
use crate::numeric::is_pow_ratio_floor;
use vstd::prelude::*;

verus! {

/// Scripted step event that perturbs a segment for a window of months.
#[derive(Clone, Copy, Debug)]
pub struct MarketStepEvent {
    pub start: Date,
    pub months: u32,
    /// Demand change in basis points of one whole (3000 = +30%).
    pub base_demand_pct_bp: Option<i64>,
    /// Reference price change in basis points.
    pub ref_price_pct_bp: Option<i64>,
    /// Elasticity scaling in basis points: the elasticity is multiplied by
    /// `1 - delta`.
    pub elasticity_delta_bp: Option<i64>,
}

/// Configuration for a single market segment.
#[derive(Clone, Debug)]
pub struct MarketCfgSegment {
    pub id: String,
    pub name: String,
    pub base_demand_units_1990: u64,
    pub base_asp_cents_1990: i64,
    /// Price elasticity in thousandths (< 0).
    pub elasticity_milli: i64,
    /// Compound annual demand growth in basis points (800 = 8%/year).
    pub annual_growth_bp: i64,
    pub step_events: Vec<MarketStepEvent>,
}

/// Market configuration resource.
#[derive(Clone, Debug)]
pub struct MarketConfigRes {
    pub segments: Vec<MarketCfgSegment>,
}

impl MarketConfigRes {
    pub fn new() -> (r: MarketConfigRes)
        ensures
            r.segments@.len() == 0,
    {
        MarketConfigRes { segments: Vec::new() }
    }
}

/// Computed trend values for one segment in one month.
#[derive(Clone, Debug)]
pub struct MarketSegmentTrend {
    pub id: String,
    pub name: String,
    pub base_demand_t: u64,
    pub ref_price_t_cents: i64,
    pub elasticity_milli: i64,
    pub trend_bp: i64,
    pub sold_units: u64,
}

/// Current trends per segment.
#[derive(Clone, Debug)]
pub struct MarketTrends(pub Vec<MarketSegmentTrend>);

/// A market effect window applied to a specific segment by a mod or a
/// campaign event.
#[derive(Clone, Debug)]
pub struct MarketEffectActive {
    pub id: String,
    pub segment_id: String,
    pub start: Date,
    pub end: Date,
    pub base_demand_pct_bp: Option<i64>,
    pub elasticity_delta_bp: Option<i64>,
}

/// Active market effects.
#[derive(Clone, Debug)]
pub struct MarketModEffects(pub Vec<MarketEffectActive>);

/// A parsed campaign market event: a window of months from `start` during
/// which a segment's demand or elasticity is perturbed.
#[derive(Clone, Debug)]
pub struct MarketEvent {
    pub id: String,
    pub segment_id: String,
    pub start: Date,
    pub months: u32,
    pub base_demand_pct_bp: Option<i64>,
    pub elasticity_delta_bp: Option<i64>,
}

/// Whether `date` is one of the `months` months starting at `start`.
pub open spec fn spec_window_active(start: Date, months: int, date: Date) -> bool {
    let k = spec_month_index(date) - spec_month_index(start);
    0 <= k < months && spec_add_months(start, k) == date
}

/// Whether `date` falls inside a window `[start, end)`.
pub open spec fn spec_effect_window(start: Date, end: Date, date: Date) -> bool {
    spec_date_le(start, date) && spec_date_lt(date, end)
}

/// `v * (1 + pct)` rounded half-up, clamped into the `u64` unit range.
pub open spec fn spec_apply_demand_pct(v: int, pct_bp: int) -> int {
    let x = v * (10000 + pct_bp);
    if x <= 0 {
        0
    } else {
        clamp_u64((x + 5000) / 10000)
    }
}

/// `v * (1 + pct)` rounded half-up, clamped into the money range.
pub open spec fn spec_apply_price_pct(v: int, pct_bp: int) -> int {
    let x = v * (10000 + pct_bp);
    if x <= 0 {
        0
    } else {
        clamp_money((x + 5000) / 10000)
    }
}

/// Elasticity scaled by `1 - delta`, truncating toward zero, clamped into
/// the supported thousandths range.
pub open spec fn spec_scale_elasticity(el_milli: int, delta_bp: int) -> int {
    let x = el_milli * (10000 - delta_bp);
    if x >= 0 {
        clamp_elasticity(x / 10000)
    } else {
        clamp_elasticity(-((-x) / 10000))
    }
}

/// Demand and elasticity after folding the first `n` step events of a
/// segment at `date` over the pair `(demand, ref_price, elasticity)`.
pub open spec fn spec_fold_steps(
    steps: Seq<MarketStepEvent>,
    date: Date,
    demand: int,
    ref_price: int,
    el: int,
    n: int,
) -> (int, int, int)
    decreases n,
{
    if n <= 0 {
        (demand, ref_price, el)
    } else {
        let prev = spec_fold_steps(steps, date, demand, ref_price, el, n - 1);
        let ev = steps[n - 1];
        if spec_window_active(ev.start, ev.months as int, date) {
            let d2 = match ev.base_demand_pct_bp {
                Some(p) => spec_apply_demand_pct(prev.0, p as int),
                None => prev.0,
            };
            let r2 = match ev.ref_price_pct_bp {
                Some(p) => spec_apply_price_pct(prev.1, p as int),
                None => prev.1,
            };
            let e2 = match ev.elasticity_delta_bp {
                Some(p) => spec_scale_elasticity(prev.2, p as int),
                None => prev.2,
            };
            (d2, r2, e2)
        } else {
            prev
        }
    }
}

/// Demand and elasticity after folding the first `n` active mod effects
/// that target the segment.
pub open spec fn spec_fold_effects(
    effects: Seq<MarketEffectActive>,
    seg_id: Seq<char>,
    date: Date,
    demand: int,
    el: int,
    n: int,
) -> (int, int)
    decreases n,
{
    if n <= 0 {
        (demand, el)
    } else {
        let prev = spec_fold_effects(effects, seg_id, date, demand, el, n - 1);
        let e = effects[n - 1];
        if e.segment_id@ == seg_id && spec_effect_window(e.start, e.end, date) {
            let d2 = match e.base_demand_pct_bp {
                Some(p) => spec_apply_demand_pct(prev.0, p as int),
                None => prev.0,
            };
            let e2 = match e.elasticity_delta_bp {
                Some(p) => spec_scale_elasticity(prev.1, p as int),
                None => prev.1,
            };
            (d2, e2)
        } else {
            prev
        }
    }
}

/// Growth rate clamped below at -99%.
pub open spec fn spec_growth_clamped(g_bp: int) -> int {
    if g_bp < -9900 {
        -9900
    } else {
        g_bp
    }
}

/// A trend record is correct for a segment: some exact compounded base
/// `grown` ties the record to the configuration.
pub open spec fn spec_trend_ok(
    seg: MarketCfgSegment,
    effects: Seq<MarketEffectActive>,
    date: Date,
    t: MarketSegmentTrend,
) -> bool {
    exists|grown: u64| spec_trend_matches(seg, effects, date, grown, t)
}

/// The whole trend of one segment: the 1990 baseline compounded by
/// `(1 + growth)^years` (exact floor, `grown` names that value), then the
/// active step events, then the active mod effects.
pub open spec fn spec_trend_matches(
    seg: MarketCfgSegment,
    effects: Seq<MarketEffectActive>,
    date: Date,
    grown: u64,
    t: MarketSegmentTrend,
) -> bool {
    let years = if date.year >= 1990 {
        date.year - 1990
    } else {
        0
    };
    let stepped = spec_fold_steps(
        seg.step_events@,
        date,
        grown as int,
        seg.base_asp_cents_1990 as int,
        seg.elasticity_milli as int,
        seg.step_events@.len() as int,
    );
    let after = spec_fold_effects(
        effects,
        seg.id@,
        date,
        stepped.0,
        stepped.2,
        effects.len() as int,
    );
    &&& is_pow_ratio_floor(
        grown,
        seg.base_demand_units_1990,
        (10000 + spec_growth_clamped(seg.annual_growth_bp as int)) as u64,
        10000,
        years as nat,
        1,
    )
    &&& t.id@ == seg.id@
    &&& t.name@ == seg.name@
    &&& t.base_demand_t as int == after.0
    &&& t.ref_price_t_cents as int == clamp_money(stepped.1)
    &&& t.elasticity_milli as int == after.1
    &&& t.trend_bp == seg.annual_growth_bp
    &&& t.sold_units == 0
}

/// Clamp an exact value into the `u64` range.
pub open spec fn clamp_u64(x: int) -> int {
    if x < 0 {
        0
    } else if x > u64::MAX {
        u64::MAX as int
    } else {
        x
    }
}

/// Clamp an exact money value into the supported cent range.
pub open spec fn clamp_money(x: int) -> int {
    if x < 0 {
        0
    } else if x > 0x20000000000000 {
        0x20000000000000
    } else {
        x
    }
}

/// Clamp an elasticity into a sane thousandths range.
pub open spec fn clamp_elasticity(x: int) -> int {
    if x < -1000000 {
        -1000000
    } else if x > 1000000 {
        1000000
    } else {
        x
    }
}

/// Whether `date` lies in the window of `months` months from `start`.
pub fn window_active(start: Date, months: u32, date: Date) -> (r: bool)
    requires
        spec_date_valid(start),
        spec_date_valid(date),
    ensures
        r == spec_window_active(start, months as int, date),
{
    let k = months_between(start, date);
    if k < 0 || k >= months as i64 {
        return false;
    }
    let candidate = add_months(start, k as u32);
    candidate.year == date.year && candidate.month == date.month && candidate.day == date.day
}

/// `v * (1 + pct)` rounded half-up, clamped into the `u64` unit range.
pub fn apply_demand_pct(v: u64, pct_bp: i64) -> (r: u64)
    requires
        -1000000 <= pct_bp <= 1000000,
    ensures
        r == spec_apply_demand_pct(v as int, pct_bp as int),
{
    proof {
        assert((v as int) * (10000 + pct_bp) <= 0xffffffffffffffff * 1010000 && (v as int) * (
        10000 + pct_bp) >= -(0xffffffffffffffff * 1010000)) by (nonlinear_arith)
            requires
                0 <= v <= 0xffffffffffffffff,
                -990000 <= 10000 + pct_bp <= 1010000,
        ;
    }
    let x: i128 = (v as i128) * ((10000 + pct_bp) as i128);
    if x <= 0 {
        0
    } else {
        proof {
            vstd::arithmetic::div_mod::lemma_div_pos_is_pos(x as int + 5000, 10000);
        }
        let q: i128 = (x + 5000) / 10000;
        if q > u64::MAX as i128 {
            u64::MAX
        } else {
            q as u64
        }
    }
}

/// `v * (1 + pct)` rounded half-up, clamped into the money range.
pub fn apply_price_pct(v: i64, pct_bp: i64) -> (r: i64)
    requires
        0 <= v <= 0x20000000000000,
        -1000000 <= pct_bp <= 1000000,
    ensures
        r == spec_apply_price_pct(v as int, pct_bp as int),
        0 <= r <= 0x20000000000000,
{
    proof {
        assert((v as int) * (10000 + pct_bp) <= 0x20000000000000 * 1010000 && (v as int) * (10000
            + pct_bp) >= -(0x20000000000000 * 1010000)) by (nonlinear_arith)
            requires
                0 <= v <= 0x20000000000000,
                -990000 <= 10000 + pct_bp <= 1010000,
        ;
    }
    let x: i128 = (v as i128) * ((10000 + pct_bp) as i128);
    if x <= 0 {
        0
    } else {
        proof {
            vstd::arithmetic::div_mod::lemma_div_pos_is_pos(x as int + 5000, 10000);
        }
        let q: i128 = (x + 5000) / 10000;
        if q > 0x20000000000000i128 {
            0x20000000000000
        } else {
            q as i64
        }
    }
}

/// Elasticity scaled by `1 - delta`, truncating toward zero, clamped.
pub fn scale_elasticity(el_milli: i64, delta_bp: i64) -> (r: i64)
    requires
        -1000000 <= el_milli <= 1000000,
        -1000000 <= delta_bp <= 1000000,
    ensures
        r == spec_scale_elasticity(el_milli as int, delta_bp as int),
        -1000000 <= r <= 1000000,
{
    proof {
        assert(-1000000 * 1010000 <= (el_milli as int) * (10000 - delta_bp) <= 1000000 * 1010000)
            by (nonlinear_arith)
            requires
                -1000000 <= el_milli <= 1000000,
                -990000 <= 10000 - delta_bp <= 1010000,
        ;
    }
    let x: i128 = (el_milli as i128) * ((10000 - delta_bp) as i128);
    if x >= 0 {
        proof {
            vstd::arithmetic::div_mod::lemma_div_pos_is_pos(x as int, 10000);
        }
        let q: i128 = x / 10000;
        if q > 1000000 {
            1000000
        } else {
            q as i64
        }
    } else {
        proof {
            vstd::arithmetic::div_mod::lemma_div_pos_is_pos(-(x as int), 10000);
        }
        let q: i128 = (-x) / 10000;
        if q > 1000000 {
            -1000000
        } else {
            -(q as i64)
        }
    }
}

} // verus!

verus! {

/// Well-formedness bounds on the market configuration: money and fraction
/// fields within their fixed-point ranges, dates valid.
pub open spec fn spec_segment_cfg_wf(seg: MarketCfgSegment) -> bool {
    &&& 0 <= seg.base_asp_cents_1990 <= 0x20000000000000
    &&& -1000000 <= seg.elasticity_milli <= 1000000
    &&& forall|k: int|
        0 <= k < seg.step_events@.len() ==> {
            let ev = #[trigger] seg.step_events@[k];
            &&& spec_date_valid(ev.start)
            &&& (ev.base_demand_pct_bp matches Some(p) ==> -1000000 <= p <= 1000000)
            &&& (ev.ref_price_pct_bp matches Some(p) ==> -1000000 <= p <= 1000000)
            &&& (ev.elasticity_delta_bp matches Some(p) ==> -1000000 <= p <= 1000000)
        }
}

pub open spec fn spec_market_cfg_wf(segments: Seq<MarketCfgSegment>) -> bool {
    forall|i: int| 0 <= i < segments.len() ==> spec_segment_cfg_wf(#[trigger] segments[i])
}

/// Bounds on the perturbations an event may carry.
pub open spec fn spec_events_wf(events: Seq<MarketEvent>) -> bool {
    forall|i: int|
        0 <= i < events.len() ==> {
            let e = #[trigger] events[i];
            &&& (e.base_demand_pct_bp matches Some(p) ==> -1000000 <= p <= 1000000)
            &&& (e.elasticity_delta_bp matches Some(p) ==> -1000000 <= p <= 1000000)
        }
}

pub open spec fn spec_effects_wf(effects: Seq<MarketEffectActive>) -> bool {
    forall|i: int|
        0 <= i < effects.len() ==> {
            let e = #[trigger] effects[i];
            &&& (e.base_demand_pct_bp matches Some(p) ==> -1000000 <= p <= 1000000)
            &&& (e.elasticity_delta_bp matches Some(p) ==> -1000000 <= p <= 1000000)
        }
}

/// Recompute the trend of every configured segment for `date` from the
/// 1990 baselines, growth, active step events and active mod effects.
/// Nothing carries over from earlier ticks.
pub fn compute_trends(cfg: &MarketConfigRes, effects: &MarketModEffects, date: Date) -> (trends:
    MarketTrends)
    requires
        spec_date_valid(date),
        spec_market_cfg_wf(cfg.segments@),
        spec_effects_wf(effects.0@),
    ensures
        trends.0@.len() == cfg.segments@.len(),
        forall|i: int|
            0 <= i < trends.0@.len() ==> spec_trend_ok(
                cfg.segments@[i],
                effects.0@,
                date,
                #[trigger] trends.0@[i],
            ),
{
    let mut out: Vec<MarketSegmentTrend> = Vec::new();
    let ghost mut growns: Seq<u64> = Seq::empty();
    let mut i: usize = 0;
    while i < cfg.segments.len()
        invariant
            i <= cfg.segments@.len(),
            out@.len() == i,
            growns.len() == i,
            spec_date_valid(date),
            spec_market_cfg_wf(cfg.segments@),
            spec_effects_wf(effects.0@),
            forall|j: int|
                0 <= j < i ==> spec_trend_matches(
                    cfg.segments@[j],
                    effects.0@,
                    date,
                    growns[j],
                    #[trigger] out@[j],
                ),
        decreases cfg.segments@.len() - i,
    {
        let seg = &cfg.segments[i];
        let years: u32 = if date.year >= 1990 {
            (date.year - 1990) as u32
        } else {
            0
        };
        let g: i64 = if seg.annual_growth_bp < -9900 {
            -9900
        } else {
            seg.annual_growth_bp
        };
        let gp: u64 = ((10000i128 + g as i128)) as u64;
        let grown: u64 = crate::numeric::pow_ratio_floor(
            seg.base_demand_units_1990,
            gp,
            10000,
            years as u64,
            1,
        );
        // Fold the active step events over (demand, ref price, elasticity).
        let mut d: u64 = grown;
        let mut rp: i64 = seg.base_asp_cents_1990;
        let mut el: i64 = seg.elasticity_milli;
        let mut k: usize = 0;
        let ghost base_tuple = (grown as int, seg.base_asp_cents_1990 as int,
            seg.elasticity_milli as int);
        while k < seg.step_events.len()
            invariant
                k <= seg.step_events@.len(),
                spec_date_valid(date),
                spec_segment_cfg_wf(*seg),
                (d as int, rp as int, el as int) == spec_fold_steps(
                    seg.step_events@,
                    date,
                    base_tuple.0,
                    base_tuple.1,
                    base_tuple.2,
                    k as int,
                ),
                base_tuple == (grown as int, seg.base_asp_cents_1990 as int,
                    seg.elasticity_milli as int),
                0 <= rp <= 0x20000000000000,
                -1000000 <= el <= 1000000,
            decreases seg.step_events@.len() - k,
        {
            let ev = &seg.step_events[k];
            if window_active(ev.start, ev.months, date) {
                match ev.base_demand_pct_bp {
                    Some(p) => {
                        d = apply_demand_pct(d, p);
                    },
                    None => (),
                }
                match ev.ref_price_pct_bp {
                    Some(p) => {
                        rp = apply_price_pct(rp, p);
                    },
                    None => (),
                }
                match ev.elasticity_delta_bp {
                    Some(p) => {
                        el = scale_elasticity(el, p);
                    },
                    None => (),
                }
            }
            k += 1;
        }
        let ghost stepped = (d as int, rp as int, el as int);
        // Fold the active mod effects over (demand, elasticity).
        let mut k: usize = 0;
        while k < effects.0.len()
            invariant
                k <= effects.0@.len(),
                spec_date_valid(date),
                spec_effects_wf(effects.0@),
                i < cfg.segments@.len(),
                seg == &cfg.segments@[i as int],
                (d as int, el as int) == spec_fold_effects(
                    effects.0@,
                    seg.id@,
                    date,
                    stepped.0,
                    stepped.2,
                    k as int,
                ),
                rp as int == stepped.1,
                -1000000 <= el <= 1000000,
            decreases effects.0@.len() - k,
        {
            let e = &effects.0[k];
            if e.segment_id == seg.id && e.start.le(&date) && date.lt(&e.end) {
                match e.base_demand_pct_bp {
                    Some(p) => {
                        d = apply_demand_pct(d, p);
                    },
                    None => (),
                }
                match e.elasticity_delta_bp {
                    Some(p) => {
                        el = scale_elasticity(el, p);
                    },
                    None => (),
                }
            }
            k += 1;
        }
        let t = MarketSegmentTrend {
            id: seg.id.clone(),
            name: seg.name.clone(),
            base_demand_t: d,
            ref_price_t_cents: rp,
            elasticity_milli: el,
            trend_bp: seg.annual_growth_bp,
            sold_units: 0,
        };
        out.push(t);
        proof {
            growns = growns.push(grown);
            assert(spec_trend_matches(
                cfg.segments@[i as int],
                effects.0@,
                date,
                grown,
                out@[i as int],
            ));
        }
        i += 1;
    }
    let trends = MarketTrends(out);
    proof {
        assert forall|j: int| 0 <= j < trends.0@.len() implies spec_trend_ok(
            cfg.segments@[j],
            effects.0@,
            date,
            #[trigger] trends.0@[j],
        ) by {
            assert(spec_trend_matches(cfg.segments@[j], effects.0@, date, growns[j], trends.0@[j]));
        }
    }
    trends
}

/// Two effect records describe the same window.
pub open spec fn spec_same_effect(a: MarketEffectActive, b: MarketEffectActive) -> bool {
    a.id@ == b.id@ && a.start == b.start && a.end == b.end
}

/// Number of windows among the first `n` that are still open at `date`.
pub open spec fn spec_live_count(list: Seq<MarketEffectActive>, date: Date, n: int) -> int
    decreases n,
{
    if n <= 0 {
        0
    } else {
        spec_live_count(list, date, n - 1) + if spec_date_lt(date, list[n - 1].end) {
            1int
        } else {
            0int
        }
    }
}

/// A record with this identity is present among the first `n` entries.
pub open spec fn spec_effect_present(
    list: Seq<MarketEffectActive>,
    id: Seq<char>,
    start: Date,
    end: Date,
    n: int,
) -> bool {
    exists|j: int|
        0 <= j < n && #[trigger] list[j].id@ == id && list[j].start == start && list[j].end == end
}

/// Update the set of active market effects for the current month: windows
/// whose end has passed are dropped, and every campaign event whose window
/// contains `date` is added unless an identical window is already tracked,
/// so re-running on the same date never duplicates an effect.
pub fn update_market_effects(
    active: &mut MarketModEffects,
    events: &Vec<MarketEvent>,
    date: Date,
) -> (r: ())
    requires
        spec_date_valid(date),
        spec_effects_wf(old(active).0@),
        spec_events_wf(events@),
        forall|j: int| 0 <= j < events@.len() ==> spec_date_valid(#[trigger] events@[j].start)
            && spec_month_index(events@[j].start) + events@[j].months <= 12 * 9999 + 11,
    ensures
        spec_effects_wf(final(active).0@),
        // expired windows are gone
        forall|j: int|
            0 <= j < final(active).0@.len() ==> spec_date_lt(
                date,
                #[trigger] final(active).0@[j].end,
            ),
        // live windows survive
        forall|j: int|
            0 <= j < old(active).0@.len() && spec_date_lt(date, old(active).0@[j].end)
                ==> spec_effect_present(
                final(active).0@,
                #[trigger] old(active).0@[j].id@,
                old(active).0@[j].start,
                old(active).0@[j].end,
                final(active).0@.len() as int,
            ),
        // every event active this month is tracked
        forall|j: int|
            0 <= j < events@.len() && spec_window_active(
                #[trigger] events@[j].start,
                events@[j].months as int,
                date,
            ) ==> spec_effect_present(
                final(active).0@,
                events@[j].id@,
                events@[j].start,
                spec_add_months(events@[j].start, events@[j].months as int),
                final(active).0@.len() as int,
            ),
        // no duplicates: when every active event's window is already
        // tracked, only the expired entries leave and nothing is added
        (forall|j: int|
            0 <= j < events@.len() && spec_window_active(
                #[trigger] events@[j].start,
                events@[j].months as int,
                date,
            ) ==> spec_effect_present(
                old(active).0@,
                events@[j].id@,
                events@[j].start,
                spec_add_months(events@[j].start, events@[j].months as int),
                old(active).0@.len() as int,
            )) ==> final(active).0@.len() == spec_live_count(
            old(active).0@,
            date,
            old(active).0@.len() as int,
        ),
{
    let ghost all_tracked = forall|j: int|
        0 <= j < events@.len() && spec_window_active(
            #[trigger] events@[j].start,
            events@[j].months as int,
            date,
        ) ==> spec_effect_present(
            old(active).0@,
            events@[j].id@,
            events@[j].start,
            spec_add_months(events@[j].start, events@[j].months as int),
            old(active).0@.len() as int,
        );
    let mut kept: Vec<MarketEffectActive> = Vec::new();
    let mut i: usize = 0;
    while i < active.0.len()
        invariant
            i <= active.0@.len(),
            active.0@ == old(active).0@,
            kept@.len() == spec_live_count(active.0@, date, i as int),
            spec_effects_wf(active.0@),
            spec_effects_wf(kept@),
            forall|j: int| 0 <= j < kept@.len() ==> spec_date_lt(date, #[trigger] kept@[j].end),
            forall|j: int|
                0 <= j < i && spec_date_lt(date, active.0@[j].end) ==> spec_effect_present(
                    kept@,
                    #[trigger] active.0@[j].id@,
                    active.0@[j].start,
                    active.0@[j].end,
                    kept@.len() as int,
                ),
        decreases active.0@.len() - i,
    {
        let e = &active.0[i];
        if date.lt(&e.end) {
            let ghost prev = kept@;
            kept.push(
                MarketEffectActive {
                    id: e.id.clone(),
                    segment_id: e.segment_id.clone(),
                    start: e.start,
                    end: e.end,
                    base_demand_pct_bp: e.base_demand_pct_bp,
                    elasticity_delta_bp: e.elasticity_delta_bp,
                },
            );
            proof {
                lemma_presence_preserved_by_push(prev, kept@);
                assert(kept@[prev.len() as int].id@ == active.0@[i as int].id@);
                assert(spec_effect_present(
                    kept@,
                    active.0@[i as int].id@,
                    active.0@[i as int].start,
                    active.0@[i as int].end,
                    kept@.len() as int,
                ));
            }
        }
        i += 1;
    }
    let mut i: usize = 0;
    while i < events.len()
        invariant
            i <= events@.len(),
            spec_date_valid(date),
            spec_events_wf(events@),
            spec_effects_wf(kept@),
            all_tracked == (forall|j: int|
                0 <= j < events@.len() && spec_window_active(
                    #[trigger] events@[j].start,
                    events@[j].months as int,
                    date,
                ) ==> spec_effect_present(
                    old(active).0@,
                    events@[j].id@,
                    events@[j].start,
                    spec_add_months(events@[j].start, events@[j].months as int),
                    old(active).0@.len() as int,
                )),
            all_tracked ==> kept@.len() == spec_live_count(
                old(active).0@,
                date,
                old(active).0@.len() as int,
            ),
            forall|j: int| 0 <= j < events@.len() ==> spec_date_valid(#[trigger] events@[j].start)
                && spec_month_index(events@[j].start) + events@[j].months <= 12 * 9999 + 11,
            forall|j: int| 0 <= j < kept@.len() ==> spec_date_lt(date, #[trigger] kept@[j].end),
            forall|j: int|
                0 <= j < old(active).0@.len() && spec_date_lt(date, old(active).0@[j].end)
                    ==> spec_effect_present(
                    kept@,
                    #[trigger] old(active).0@[j].id@,
                    old(active).0@[j].start,
                    old(active).0@[j].end,
                    kept@.len() as int,
                ),
            forall|j: int|
                0 <= j < i && spec_window_active(
                    #[trigger] events@[j].start,
                    events@[j].months as int,
                    date,
                ) ==> spec_effect_present(
                    kept@,
                    events@[j].id@,
                    events@[j].start,
                    spec_add_months(events@[j].start, events@[j].months as int),
                    kept@.len() as int,
                ),
        decreases events@.len() - i,
    {
        let ev = &events[i];
        if window_active(ev.start, ev.months, date) {
            let end = add_months(ev.start, ev.months);
            // skip when an identical window is already tracked
            let mut found = false;
            let mut j: usize = 0;
            while j < kept.len()
                invariant
                    j <= kept@.len(),
                    i < events@.len(),
                    *ev == events@[i as int],
                    end == spec_add_months(events@[i as int].start, events@[i as int].months as int),
                    found ==> spec_effect_present(
                        kept@,
                        events@[i as int].id@,
                        events@[i as int].start,
                        end,
                        kept@.len() as int,
                    ),
                    !found ==> forall|l: int|
                        0 <= l < j ==> !(#[trigger] kept@[l].id@ == events@[i as int].id@ && kept@[l].start == events@[i as int].start && kept@[l].end == end),
                decreases kept@.len() - j,
            {
                let ke = &kept[j];
                if ke.id == ev.id && ke.start.le(&ev.start) && ev.start.le(&ke.start) && ke.end.le(
                    &end,
                ) && end.le(&ke.end) {
                    found = true;
                    proof {
                        assert(kept@[j as int].start == events@[i as int].start);
                        assert(kept@[j as int].end == end);
                        assert(spec_effect_present(
                            kept@,
                            events@[i as int].id@,
                            events@[i as int].start,
                            end,
                            kept@.len() as int,
                        ));
                    }
                } else {
                    proof {
                        if kept@[j as int].id@ == events@[i as int].id@ && kept@[j as int].start
                            == events@[i as int].start && kept@[j as int].end == end {
                            assert(false);
                        }
                    }
                }
                j += 1;
            }
            if !found {
                let ghost prev = kept@;
                proof {
                    // the current month lies strictly before the window end
                    let k = spec_month_index(date) - spec_month_index(events@[i as int].start);
                    crate::date::lemma_add_months_index(events@[i as int].start, k);
                    crate::date::lemma_add_months_index(
                        events@[i as int].start,
                        events@[i as int].months as int,
                    );
                    assert(spec_month_index(date) < spec_month_index(end));
                    assert(spec_date_lt(date, end));
                    // a window already tracked in the old list is live and
                    // therefore present in the kept list, so the scan would
                    // have found it
                    if all_tracked {
                        assert(spec_effect_present(
                            old(active).0@,
                            events@[i as int].id@,
                            events@[i as int].start,
                            end,
                            old(active).0@.len() as int,
                        ));
                        let w = choose|w: int|
                            0 <= w < old(active).0@.len() && (#[trigger] old(active).0@[w]).id@
                                == events@[i as int].id@ && old(active).0@[w].start == events@[i as int].start && old(active).0@[w].end == end;
                        assert(spec_date_lt(date, old(active).0@[w].end));
                        assert(spec_effect_present(
                            kept@,
                            old(active).0@[w].id@,
                            old(active).0@[w].start,
                            old(active).0@[w].end,
                            kept@.len() as int,
                        ));
                        let w2 = choose|w2: int|
                            0 <= w2 < kept@.len() && (#[trigger] kept@[w2]).id@ == old(
                                active,
                            ).0@[w].id@ && kept@[w2].start == old(active).0@[w].start && kept@[w2].end == old(active).0@[w].end;
                        assert(!(kept@[w2].id@ == events@[i as int].id@ && kept@[w2].start
                            == events@[i as int].start && kept@[w2].end == end));
                        assert(false);
                    }
                }
                kept.push(
                    MarketEffectActive {
                        id: ev.id.clone(),
                        segment_id: ev.segment_id.clone(),
                        start: ev.start,
                        end,
                        base_demand_pct_bp: ev.base_demand_pct_bp,
                        elasticity_delta_bp: ev.elasticity_delta_bp,
                    },
                );
                proof {
                    lemma_presence_preserved_by_push(prev, kept@);
                    assert(kept@[prev.len() as int].id@ == events@[i as int].id@);
                    assert(spec_effect_present(
                        kept@,
                        events@[i as int].id@,
                        events@[i as int].start,
                        end,
                        kept@.len() as int,
                    ));
                }
            }
        }
        i += 1;
    }
    active.0 = kept;
}

/// Pushing one more effect keeps every previously present window present.
proof fn lemma_presence_preserved_by_push(
    prev: Seq<MarketEffectActive>,
    now: Seq<MarketEffectActive>,
)
    requires
        now.len() == prev.len() + 1,
        forall|j: int| 0 <= j < prev.len() ==> now[j] == prev[j],
    ensures
        forall|id: Seq<char>, start: Date, end: Date|
            #[trigger] spec_effect_present(prev, id, start, end, prev.len() as int)
                ==> spec_effect_present(now, id, start, end, now.len() as int),
{
    assert forall|id: Seq<char>, start: Date, end: Date|
        #[trigger] spec_effect_present(prev, id, start, end, prev.len() as int)
            implies spec_effect_present(now, id, start, end, now.len() as int) by {
        let w = choose|w: int|
            0 <= w < prev.len() && #[trigger] prev[w].id@ == id && prev[w].start == start
                && prev[w].end == end;
        assert(now[w].id@ == id);
    }
}

} // verus!
