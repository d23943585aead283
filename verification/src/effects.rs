//! Time-boxed mod effects on technology nodes.
//!
//! Script execution is an external collaborator: the core receives plain
//! effect specifications and is responsible only for applying each window
//! exactly once and reverting it exactly at expiry, restoring the original
//! field values bit for bit.

use crate::date::{spec_add_months, spec_date_le, spec_date_valid, spec_month_index, add_months,
    Date};
use crate::domain::World;
use vstd::prelude::*;

verus! {

/// Metadata of a mod package, as parsed by the loading collaborator.
#[derive(Clone, Debug)]
pub struct ModMeta {
    pub id: String,
    pub name: String,
    pub version: String,
    pub engine_schema_version: u32,
    pub compat: Option<String>,
    pub hooks: Option<Vec<String>>,
}

/// A parsed, time-boxed effect specification.
///
/// `cost_increase_milli` carries an ambiguous magnitude inherited from the
/// mod format: values of magnitude up to one whole (1000 thousandths) are
/// read as a fraction, larger values as a whole percent.  The heuristic is
/// preserved deliberately as a known rough edge; see `spec_cost_multiplier`.
#[derive(Clone, Copy, Debug, PartialEq, Eq, Structural)]
pub struct EffectSpec {
    pub start: Date,
    pub months: u32,
    /// Wafer-cost increase, in thousandths of the ambiguous unit.
    pub cost_increase_milli: i64,
    /// Yield delta in basis points.
    pub yield_delta_bp: i64,
}

/// Saved original values of one patched tech node.
#[derive(Clone, Copy, Debug, PartialEq, Eq, Structural)]
pub struct Patch {
    pub index: usize,
    pub old_cost_cents: i64,
    pub old_yield_bp: i64,
}

/// An applied effect with the patches needed to revert it at expiry.
#[derive(Clone, Debug)]
pub struct ActiveEffect {
    pub start: Date,
    pub end: Date,
    pub patches: Vec<Patch>,
}

/// Applied effects not yet expired.
#[derive(Clone, Debug)]
pub struct EffectsLedger {
    pub active: Vec<ActiveEffect>,
}

impl EffectsLedger {
    pub fn new() -> (r: EffectsLedger)
        ensures
            r.active@.len() == 0,
    {
        EffectsLedger { active: Vec::new() }
    }
}

/// Cost multiplier in millionths: `|x| <= 1` is read as a fraction
/// (`0.15` means +15%), anything larger as a whole percent (`15` also
/// means +15%).  This ambiguity is inherited from observed mod data and
/// kept on purpose.
pub open spec fn spec_cost_multiplier_micro(x_milli: int) -> int {
    let magnitude = if x_milli < 0 {
        -x_milli
    } else {
        x_milli
    };
    if magnitude <= 1000 {
        1000000 + x_milli * 1000
    } else {
        1000000 + x_milli * 10
    }
}

/// Convert the ambiguous cost value into a multiplier in millionths.
pub fn cost_multiplier(x_milli: i64) -> (r: i64)
    requires
        -100000000 <= x_milli <= 100000000,
    ensures
        r == spec_cost_multiplier_micro(x_milli as int),
{
    let magnitude = if x_milli < 0 {
        -x_milli
    } else {
        x_milli
    };
    if magnitude <= 1000 {
        1000000 + x_milli * 1000
    } else {
        1000000 + x_milli * 10
    }
}

/// Wafer cost under an effect: scaled by the multiplier, rounded half-up
/// to a whole dollar, clamped at zero and at the money cap.
pub open spec fn spec_shocked_cost_cents(old_cents: int, mult_micro: int) -> int {
    let scaled = old_cents * mult_micro;
    if scaled <= 0 {
        0
    } else {
        let dollars = (scaled / 1000000 + 50) / 100;
        if dollars * 100 > 0x20000000000000 {
            0x20000000000000
        } else {
            dollars * 100
        }
    }
}

/// Yield under an effect: the delta added, clamped into `[0, 10000]`.
pub open spec fn spec_shocked_yield_bp(old_bp: int, delta_bp: int) -> int {
    let y = old_bp + delta_bp;
    if y < 0 {
        0
    } else if y > 10000 {
        10000
    } else {
        y
    }
}

/// Every tech node's shockable fields lie in their fixed-point ranges.
pub open spec fn spec_nodes_bounded(w: World) -> bool {
    forall|j: int|
        0 <= j < w.tech_tree@.len() ==> 0 <= (#[trigger] w.tech_tree@[j]).wafer_cost_cents
            <= 0x20000000000000 && 0 <= w.tech_tree@[j].yield_baseline_bp <= 10000
}

/// Every saved patch value lies in the fixed-point ranges of the fields it
/// restores.
pub open spec fn spec_ledger_wf(l: Seq<ActiveEffect>) -> bool {
    forall|j: int, k: int|
        0 <= j < l.len() && 0 <= k < (#[trigger] l[j]).patches@.len() ==> {
            let p = #[trigger] l[j].patches@[k];
            0 <= p.old_cost_cents <= 0x20000000000000 && 0 <= p.old_yield_bp <= 10000
        }
}

/// A ledger entry for this window is already present.
pub open spec fn spec_effect_active(ledger: Seq<ActiveEffect>, start: Date, end: Date) -> bool {
    exists|j: int| 0 <= j < ledger.len() && (#[trigger] ledger[j]).start == start && ledger[j].end
        == end
}

fn shocked_cost(old_cents: i64, mult_micro: i64) -> (r: i64)
    requires
        0 <= old_cents <= 0x20000000000000,
        -200000000000 <= mult_micro <= 200000000000,
    ensures
        r == spec_shocked_cost_cents(old_cents as int, mult_micro as int),
        0 <= r <= 0x20000000000000,
{
    proof {
        assert(-(0x20000000000000 * 200000000000) <= (old_cents as int) * (mult_micro as int) <= 0x20000000000000
            * 200000000000) by (nonlinear_arith)
            requires
                0 <= old_cents <= 0x20000000000000,
                -200000000000 <= mult_micro <= 200000000000,
        ;
    }
    let scaled: i128 = (old_cents as i128) * (mult_micro as i128);
    if scaled <= 0 {
        0
    } else {
        proof {
            vstd::arithmetic::div_mod::lemma_div_pos_is_pos(scaled as int, 1000000);
            vstd::arithmetic::div_mod::lemma_div_pos_is_pos(scaled as int / 1000000 + 50, 100);
        }
        let dollars: i128 = (scaled / 1000000 + 50) / 100;
        if dollars * 100 > 0x20000000000000i128 {
            0x20000000000000
        } else {
            (dollars * 100) as i64
        }
    }
}

/// Apply a cost/yield shock to every tech node, recording the original
/// values so that the window can later be reverted exactly.  The ledger
/// gains one entry covering `[start, start + months)`.
pub fn apply_effect(ledger: &mut EffectsLedger, world: &mut World, effect: &EffectSpec) -> (r: ())
    requires
        spec_ledger_wf(old(ledger).active@),
        spec_date_valid(effect.start),
        spec_month_index(effect.start) + effect.months <= 12 * 9999 + 11,
        -100000000 <= effect.cost_increase_milli <= 100000000,
        spec_nodes_bounded(*old(world)),
    ensures
        spec_nodes_bounded(*final(world)),
        final(world).tech_tree@.len() == old(world).tech_tree@.len(),
        forall|j: int|
            0 <= j < final(world).tech_tree@.len() ==> {
                let oldn = old(world).tech_tree@[j];
                let newn = #[trigger] final(world).tech_tree@[j];
                &&& newn.wafer_cost_cents as int == spec_shocked_cost_cents(
                    oldn.wafer_cost_cents as int,
                    spec_cost_multiplier_micro(effect.cost_increase_milli as int),
                )
                &&& newn.yield_baseline_bp as int == spec_shocked_yield_bp(
                    oldn.yield_baseline_bp as int,
                    effect.yield_delta_bp as int,
                )
                &&& newn.id == oldn.id
                &&& newn.dependencies == oldn.dependencies
            },
        final(world).macro_state == old(world).macro_state,
        final(world).companies == old(world).companies,
        final(world).segments == old(world).segments,
        // the ledger records the window and the exact original values
        final(ledger).active@.len() == old(ledger).active@.len() + 1,
        forall|j: int|
            0 <= j < old(ledger).active@.len() ==> #[trigger] final(ledger).active@[j] == old(
                ledger,
            ).active@[j],
        ({
            let entry = final(ledger).active@.last();
            &&& entry.start == effect.start
            &&& entry.end == spec_add_months(effect.start, effect.months as int)
            &&& entry.patches@.len() == old(world).tech_tree@.len()
            &&& forall|j: int|
                0 <= j < entry.patches@.len() ==> (#[trigger] entry.patches@[j]).index == j
                    && entry.patches@[j].old_cost_cents == old(world).tech_tree@[j].wafer_cost_cents
                    && entry.patches@[j].old_yield_bp == old(world).tech_tree@[j].yield_baseline_bp
        }),
        spec_effect_active(
            final(ledger).active@,
            effect.start,
            spec_add_months(effect.start, effect.months as int),
        ),
        spec_ledger_wf(final(ledger).active@),
{
    let mult = cost_multiplier(effect.cost_increase_milli);
    let mut patches: Vec<Patch> = Vec::new();
    let mut i: usize = 0;
    let ghost t0 = world.tech_tree@;
    while i < world.tech_tree.len()
        invariant
            i <= world.tech_tree@.len(),
            world.tech_tree@.len() == t0.len(),
            patches@.len() == i,
            mult == spec_cost_multiplier_micro(effect.cost_increase_milli as int),
            -200000000000 <= mult <= 200000000000,
            forall|j: int|
                0 <= j < t0.len() ==> 0 <= (#[trigger] t0[j]).wafer_cost_cents
                    <= 0x20000000000000 && 0 <= t0[j].yield_baseline_bp <= 10000,
            world.macro_state == old(world).macro_state,
            world.companies == old(world).companies,
            world.segments == old(world).segments,
            forall|j: int| i <= j < t0.len() ==> #[trigger] world.tech_tree@[j] == t0[j],
            forall|j: int|
                0 <= j < i ==> {
                    let oldn = t0[j];
                    let newn = #[trigger] world.tech_tree@[j];
                    &&& newn.wafer_cost_cents as int == spec_shocked_cost_cents(
                        oldn.wafer_cost_cents as int,
                        spec_cost_multiplier_micro(effect.cost_increase_milli as int),
                    )
                    &&& newn.yield_baseline_bp as int == spec_shocked_yield_bp(
                        oldn.yield_baseline_bp as int,
                        effect.yield_delta_bp as int,
                    )
                    &&& newn.id == oldn.id
                    &&& newn.dependencies == oldn.dependencies
                    &&& newn.year_available == oldn.year_available
                    &&& newn.density_mtr_per_mm2_milli == oldn.density_mtr_per_mm2_milli
                    &&& newn.freq_ghz_baseline_milli == oldn.freq_ghz_baseline_milli
                    &&& newn.leakage_index_milli == oldn.leakage_index_milli
                    &&& newn.mask_set_cost_cents == oldn.mask_set_cost_cents
                },
            forall|j: int|
                0 <= j < i ==> (#[trigger] patches@[j]).index == j && patches@[j].old_cost_cents
                    == t0[j].wafer_cost_cents && patches@[j].old_yield_bp == t0[j].yield_baseline_bp,
        decreases world.tech_tree@.len() - i,
    {
        let old_cost = world.tech_tree[i].wafer_cost_cents;
        let old_yield = world.tech_tree[i].yield_baseline_bp;
        let new_cost = shocked_cost(old_cost, mult);
        let ny: i128 = old_yield as i128 + effect.yield_delta_bp as i128;
        let new_yield: i64 = if ny < 0 {
            0
        } else if ny > 10000 {
            10000
        } else {
            ny as i64
        };
        let node = &mut world.tech_tree;
        set_node_shock(node, i, new_cost, new_yield);
        patches.push(Patch { index: i, old_cost_cents: old_cost, old_yield_bp: old_yield });
        i += 1;
    }
    let end = add_months(effect.start, effect.months);
    let ghost led0 = ledger.active@;
    ledger.active.push(ActiveEffect { start: effect.start, end, patches });
    proof {
        assert(final(ledger).active@[led0.len() as int].start == effect.start);
    }
}

/// Overwrite the shocked fields of one node in place.
fn set_node_shock(tech: &mut Vec<crate::domain::TechNode>, i: usize, cost: i64, yield_bp: i64)
    requires
        i < old(tech)@.len(),
    ensures
        final(tech)@.len() == old(tech)@.len(),
        forall|j: int| 0 <= j < old(tech)@.len() && j != i ==> #[trigger] final(tech)@[j] == old(
            tech,
        )@[j],
        ({
            let oldn = old(tech)@[i as int];
            let newn = final(tech)@[i as int];
            &&& newn.wafer_cost_cents == cost
            &&& newn.yield_baseline_bp == yield_bp
            &&& newn.id == oldn.id
            &&& newn.dependencies == oldn.dependencies
            &&& newn.year_available == oldn.year_available
            &&& newn.density_mtr_per_mm2_milli == oldn.density_mtr_per_mm2_milli
            &&& newn.freq_ghz_baseline_milli == oldn.freq_ghz_baseline_milli
            &&& newn.leakage_index_milli == oldn.leakage_index_milli
            &&& newn.mask_set_cost_cents == oldn.mask_set_cost_cents
        }),
{
    let node = &mut tech[i];
    node.wafer_cost_cents = cost;
    node.yield_baseline_bp = yield_bp;
}

/// Revert every effect whose end date has been reached, restoring the
/// saved tech-node fields exactly, in ledger order; windows still open are
/// kept in order.  Reversal is exact: when the single tracked window
/// expires, every patched field equals its recorded original bit for bit.
pub fn expire_effects(ledger: &mut EffectsLedger, world: &mut World, date: Date) -> (r: ())
    requires
        spec_ledger_wf(old(ledger).active@),
        spec_nodes_bounded(*old(world)),
    ensures
        spec_nodes_bounded(*final(world)),
        forall|j: int|
            0 <= j < final(ledger).active@.len() ==> !spec_date_le(
                (#[trigger] final(ledger).active@[j]).end,
                date,
            ),
        spec_ledger_wf(final(ledger).active@),
        final(world).tech_tree@.len() == old(world).tech_tree@.len(),
        final(world).macro_state == old(world).macro_state,
        final(world).companies == old(world).companies,
        final(world).segments == old(world).segments,
        // nothing expired: the world and the ledger are untouched
        (forall|j: int|
            0 <= j < old(ledger).active@.len() ==> !spec_date_le(
                (#[trigger] old(ledger).active@[j]).end,
                date,
            )) ==> final(world).tech_tree@ == old(world).tech_tree@ && final(ledger).active@ == old(
            ledger,
        ).active@,
        // the single tracked window expires: every patch is restored exactly
        (old(ledger).active@.len() == 1 && spec_date_le(old(ledger).active@[0].end, date) && old(
            ledger,
        ).active@[0].patches@.len() == old(world).tech_tree@.len() && (forall|j: int|
            0 <= j < old(ledger).active@[0].patches@.len() ==> (#[trigger] old(
                ledger,
            ).active@[0].patches@[j]).index == j)) ==> {
            &&& final(ledger).active@.len() == 0
            &&& forall|j: int|
                0 <= j < final(world).tech_tree@.len() ==> {
                    let p = old(ledger).active@[0].patches@[j];
                    let oldn = old(world).tech_tree@[j];
                    let newn = #[trigger] final(world).tech_tree@[j];
                    &&& newn.wafer_cost_cents == p.old_cost_cents
                    &&& newn.yield_baseline_bp == p.old_yield_bp
                    &&& newn.id == oldn.id
                    &&& newn.dependencies == oldn.dependencies
                    &&& newn.year_available == oldn.year_available
                    &&& newn.density_mtr_per_mm2_milli == oldn.density_mtr_per_mm2_milli
                    &&& newn.freq_ghz_baseline_milli == oldn.freq_ghz_baseline_milli
                    &&& newn.leakage_index_milli == oldn.leakage_index_milli
                    &&& newn.mask_set_cost_cents == oldn.mask_set_cost_cents
                }
        },
{
    let ghost t0 = world.tech_tree@;
    let ghost led0 = ledger.active@;
    let mut idx: usize = 0;
    let ghost mut removed: int = 0;
    while idx < ledger.active.len()
        invariant
            idx <= ledger.active@.len(),
            spec_ledger_wf(ledger.active@),
            removed >= 0,
            ledger.active@.len() + removed == led0.len(),
            spec_nodes_bounded(*world),
            forall|j: int|
                0 <= j < idx ==> !spec_date_le((#[trigger] ledger.active@[j]).end, date),
            world.tech_tree@.len() == t0.len(),
            world.macro_state == old(world).macro_state,
            world.companies == old(world).companies,
            world.segments == old(world).segments,
            removed == 0 ==> ledger.active@ == led0 && world.tech_tree@ == t0,
            removed == 0 ==> (forall|j: int|
                0 <= j < idx ==> !spec_date_le((#[trigger] led0[j]).end, date)),
            removed > 0 ==> exists|j: int|
                0 <= j < led0.len() && spec_date_le((#[trigger] led0[j]).end, date),
            // the special single-window shape, after its removal
            (led0.len() == 1 && removed == 1 && spec_date_le(led0[0].end, date)
                && led0[0].patches@.len() == t0.len() && (forall|j: int|
                0 <= j < led0[0].patches@.len() ==> (#[trigger] led0[0].patches@[j]).index == j))
                ==> ledger.active@.len() == 0 && (forall|j: int|
                0 <= j < world.tech_tree@.len() ==> {
                    let p = led0[0].patches@[j];
                    let oldn = t0[j];
                    let newn = #[trigger] world.tech_tree@[j];
                    &&& newn.wafer_cost_cents == p.old_cost_cents
                    &&& newn.yield_baseline_bp == p.old_yield_bp
                    &&& newn.id == oldn.id
                    &&& newn.dependencies == oldn.dependencies
                    &&& newn.year_available == oldn.year_available
                    &&& newn.density_mtr_per_mm2_milli == oldn.density_mtr_per_mm2_milli
                    &&& newn.freq_ghz_baseline_milli == oldn.freq_ghz_baseline_milli
                    &&& newn.leakage_index_milli == oldn.leakage_index_milli
                    &&& newn.mask_set_cost_cents == oldn.mask_set_cost_cents
                }),
        decreases ledger.active@.len() - idx,
    {
        let expired = {
            let eff = &ledger.active[idx];
            eff.end.le(&date)
        };
        if expired {
            let ghost t_before = world.tech_tree@;
            let patch_len = ledger.active[idx].patches.len();
            let ghost entry = ledger.active@[idx as int];
            let mut k: usize = 0;
            while k < patch_len
                invariant
                    idx < ledger.active@.len(),
                    entry == ledger.active@[idx as int],
                    spec_ledger_wf(ledger.active@),
                    patch_len == entry.patches@.len(),
                    k <= patch_len,
                    spec_nodes_bounded(*world),
                    world.tech_tree@.len() == t0.len(),
                    world.macro_state == old(world).macro_state,
                    world.companies == old(world).companies,
                    world.segments == old(world).segments,
                    // with index-aligned patches, the first k nodes are
                    // restored and the rest untouched
                    (patch_len == t0.len() && (forall|l: int|
                        0 <= l < patch_len ==> (#[trigger] entry.patches@[l]).index == l)) ==> (
                    forall|j: int|
                        k <= j < t0.len() ==> #[trigger] world.tech_tree@[j] == t_before[j]) && (
                    forall|j: int|
                        0 <= j < k ==> {
                            let p = entry.patches@[j];
                            let oldn = t_before[j];
                            let newn = #[trigger] world.tech_tree@[j];
                            &&& newn.wafer_cost_cents == p.old_cost_cents
                            &&& newn.yield_baseline_bp == p.old_yield_bp
                            &&& newn.id == oldn.id
                            &&& newn.dependencies == oldn.dependencies
                            &&& newn.year_available == oldn.year_available
                            &&& newn.density_mtr_per_mm2_milli == oldn.density_mtr_per_mm2_milli
                            &&& newn.freq_ghz_baseline_milli == oldn.freq_ghz_baseline_milli
                            &&& newn.leakage_index_milli == oldn.leakage_index_milli
                            &&& newn.mask_set_cost_cents == oldn.mask_set_cost_cents
                        }),
                decreases patch_len - k,
            {
                let idx2 = ledger.active[idx].patches[k].index;
                let oc = ledger.active[idx].patches[k].old_cost_cents;
                let oy = ledger.active[idx].patches[k].old_yield_bp;
                if idx2 < world.tech_tree.len() {
                    set_node_shock(&mut world.tech_tree, idx2, oc, oy);
                }
                k += 1;
            }
            let _ = ledger.active.remove(idx);
            proof {
                removed = removed + 1;
            }
        } else {
            idx += 1;
        }
    }
}

/// One tick of the effects pipeline: expire finished windows, then apply
/// every specification whose start is exactly this month and whose window
/// is not already tracked.  Application is idempotent: a specification whose
/// window is already in the ledger is not applied again, so running the
/// same tick twice on the start date leaves the world unchanged.
pub fn tick_effects(
    ledger: &mut EffectsLedger,
    world: &mut World,
    specs: &Vec<EffectSpec>,
    date: Date,
) -> (r: ())
    requires
        spec_ledger_wf(old(ledger).active@),
        forall|j: int|
            0 <= j < specs@.len() ==> spec_date_valid((#[trigger] specs@[j]).start)
                && spec_month_index(specs@[j].start) + specs@[j].months <= 12 * 9999 + 11
                && -100000000 <= specs@[j].cost_increase_milli <= 100000000,
        spec_nodes_bounded(*old(world)),
    ensures
        spec_nodes_bounded(*final(world)),
        spec_ledger_wf(final(ledger).active@),
        final(world).tech_tree@.len() == old(world).tech_tree@.len(),
        final(world).macro_state == old(world).macro_state,
        final(world).companies == old(world).companies,
        final(world).segments == old(world).segments,
        // every tracked window is still open or was applied this very month
        forall|j: int|
            0 <= j < final(ledger).active@.len() ==> !spec_date_le(
                (#[trigger] final(ledger).active@[j]).end,
                date,
            ) || final(ledger).active@[j].start == date,
        // idempotence: with nothing expired and every specification whose
        // start is this month already tracked, the tick is a no-op
        (spec_no_window_expired(old(ledger).active@, date) && spec_all_specs_tracked(
            specs@,
            old(ledger).active@,
            date,
        )) ==> final(world).tech_tree@ == old(world).tech_tree@ && final(ledger).active@ == old(
            ledger,
        ).active@,
        // application: a single specification starting this month and not
        // yet tracked shocks every node exactly once and is recorded
        (specs@.len() == 1 && specs@[0].start == date && spec_no_window_expired(
            old(ledger).active@,
            date,
        ) && !spec_effect_active(
            old(ledger).active@,
            specs@[0].start,
            spec_add_months(specs@[0].start, specs@[0].months as int),
        )) ==> {
            &&& final(ledger).active@.len() == old(ledger).active@.len() + 1
            &&& spec_effect_active(
                final(ledger).active@,
                specs@[0].start,
                spec_add_months(specs@[0].start, specs@[0].months as int),
            )
            &&& forall|j: int|
                0 <= j < final(world).tech_tree@.len() ==> {
                    let oldn = old(world).tech_tree@[j];
                    let newn = #[trigger] final(world).tech_tree@[j];
                    &&& newn.wafer_cost_cents as int == spec_shocked_cost_cents(
                        oldn.wafer_cost_cents as int,
                        spec_cost_multiplier_micro(specs@[0].cost_increase_milli as int),
                    )
                    &&& newn.yield_baseline_bp as int == spec_shocked_yield_bp(
                        oldn.yield_baseline_bp as int,
                        specs@[0].yield_delta_bp as int,
                    )
                }
        },
{
    let ghost led0 = old(ledger).active@;
    expire_effects(ledger, world, date);
    let ghost none_expired = spec_no_window_expired(led0, date);
    let ghost all_tracked = spec_all_specs_tracked(specs@, led0, date);
    let ghost single_fresh = specs@.len() == 1 && specs@[0].start == date && none_expired
        && !spec_effect_active(led0, specs@[0].start, spec_add_months(
        specs@[0].start,
        specs@[0].months as int,
    ));
    let mut i: usize = 0;
    while i < specs.len()
        invariant
            i <= specs@.len(),
            forall|j: int|
                0 <= j < specs@.len() ==> spec_date_valid((#[trigger] specs@[j]).start)
                    && spec_month_index(specs@[j].start) + specs@[j].months <= 12 * 9999 + 11
                    && -100000000 <= specs@[j].cost_increase_milli <= 100000000,
            world.tech_tree@.len() == old(world).tech_tree@.len(),
            world.macro_state == old(world).macro_state,
            world.companies == old(world).companies,
            world.segments == old(world).segments,
            spec_nodes_bounded(*world),
            spec_ledger_wf(ledger.active@),
            none_expired == spec_no_window_expired(led0, date),
            all_tracked == spec_all_specs_tracked(specs@, led0, date),
            single_fresh == (specs@.len() == 1 && specs@[0].start == date && none_expired
                && !spec_effect_active(led0, specs@[0].start, spec_add_months(
                specs@[0].start,
                specs@[0].months as int,
            ))),
            forall|j: int|
                0 <= j < ledger.active@.len() ==> !spec_date_le(
                    (#[trigger] ledger.active@[j]).end,
                    date,
                ) || ledger.active@[j].start == date,
            (none_expired && all_tracked) ==> world.tech_tree@ == old(world).tech_tree@
                && ledger.active@ == led0,
            single_fresh && i == 0 ==> world.tech_tree@ == old(world).tech_tree@
                && ledger.active@ == led0,
            single_fresh && i > 0 ==> {
                &&& ledger.active@.len() == led0.len() + 1
                &&& spec_effect_active(
                    ledger.active@,
                    specs@[0].start,
                    spec_add_months(specs@[0].start, specs@[0].months as int),
                )
                &&& forall|j: int|
                    0 <= j < world.tech_tree@.len() ==> {
                        let oldn = old(world).tech_tree@[j];
                        let newn = #[trigger] world.tech_tree@[j];
                        &&& newn.wafer_cost_cents as int == spec_shocked_cost_cents(
                            oldn.wafer_cost_cents as int,
                            spec_cost_multiplier_micro(specs@[0].cost_increase_milli as int),
                        )
                        &&& newn.yield_baseline_bp as int == spec_shocked_yield_bp(
                            oldn.yield_baseline_bp as int,
                            specs@[0].yield_delta_bp as int,
                        )
                    }
            },
        decreases specs@.len() - i,
    {
        let s = &specs[i];
        let same_day = s.start.year == date.year && s.start.month == date.month && s.start.day
            == date.day;
        if same_day {
            let end = add_months(s.start, s.months);
            let mut present = false;
            let mut j: usize = 0;
            while j < ledger.active.len()
                invariant
                    j <= ledger.active@.len(),
                    i < specs@.len(),
                    *s == specs@[i as int],
                    end == spec_add_months(specs@[i as int].start, specs@[i as int].months as int),
                    present ==> spec_effect_active(ledger.active@, specs@[i as int].start, end),
                    !present ==> forall|l: int|
                        0 <= l < j ==> !((#[trigger] ledger.active@[l]).start == specs@[i as int].start && ledger.active@[l].end == end),
                decreases ledger.active@.len() - j,
            {
                let e = &ledger.active[j];
                if e.start.le(&s.start) && s.start.le(&e.start) && e.end.le(&end) && end.le(
                    &e.end,
                ) {
                    present = true;
                    proof {
                        assert(ledger.active@[j as int].start == specs@[i as int].start);
                        assert(ledger.active@[j as int].end == end);
                    }
                } else {
                    proof {
                        if ledger.active@[j as int].start == specs@[i as int].start
                            && ledger.active@[j as int].end == end {
                            assert(false);
                        }
                    }
                }
                j += 1;
            }
            if !present {
                apply_effect(ledger, world, s);
            }
        }
        i += 1;
    }
}

/// No tracked window has reached its end this month.
pub open spec fn spec_no_window_expired(ledger: Seq<ActiveEffect>, date: Date) -> bool {
    forall|j: int|
        0 <= j < ledger.len() ==> !spec_date_le((#[trigger] ledger[j]).end, date)
}

/// Every specification whose window starts this month is already tracked.
pub open spec fn spec_all_specs_tracked(
    specs: Seq<EffectSpec>,
    ledger: Seq<ActiveEffect>,
    date: Date,
) -> bool {
    forall|j: int|
        0 <= j < specs.len() && (#[trigger] specs[j]).start == date ==> spec_effect_active(
            ledger,
            specs[j].start,
            spec_add_months(specs[j].start, specs[j].months as int),
        )
}

} // verus!
