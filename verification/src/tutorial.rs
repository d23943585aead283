//! Guided-tutorial checkpoints.
//!
//! Four ordered boolean checkpoints plus a derived current step index: the
//! index of the first checkpoint not yet done, or four when all are done,
//! so a linear guided tour needs no state of its own.

use crate::date::spec_month_index;
use crate::ledger::CapacityBook;
use crate::pipeline::ProductPipeline;
use vstd::prelude::*;

verus! {

/// Tutorial guidance state.
#[derive(Clone, Copy, Debug, PartialEq, Eq, Structural)]
pub struct TutorialState {
    pub enabled: bool,
    pub initial_asp_cents: i64,
    pub step1_price_cut_done: bool,
    pub step2_contract_done: bool,
    pub step3_tapeout_expedite_done: bool,
    pub step4_cash_24m_done: bool,
    pub month24_cash_threshold_cents: i64,
    pub current_step_index: u8,
}

impl TutorialState {
    /// A disabled tutorial.
    pub fn new() -> (r: TutorialState)
        ensures
            r == (TutorialState {
                enabled: false,
                initial_asp_cents: 0,
                step1_price_cut_done: false,
                step2_contract_done: false,
                step3_tapeout_expedite_done: false,
                step4_cash_24m_done: false,
                month24_cash_threshold_cents: 0,
                current_step_index: 0,
            }),
    {
        TutorialState {
            enabled: false,
            initial_asp_cents: 0,
            step1_price_cut_done: false,
            step2_contract_done: false,
            step3_tapeout_expedite_done: false,
            step4_cash_24m_done: false,
            month24_cash_threshold_cents: 0,
            current_step_index: 0,
        }
    }
}

/// Enable the tutorial with the current selling price as the baseline and
/// the given month-24 cash target (clamped at zero); all checkpoints reset.
pub fn init_tutorial(
    state: &mut TutorialState,
    current_asp_cents: i64,
    month24_cash_threshold_cents: i64,
) -> (r: ())
    ensures
        final(state).enabled,
        final(state).initial_asp_cents == current_asp_cents,
        final(state).month24_cash_threshold_cents == if month24_cash_threshold_cents >= 0 {
            month24_cash_threshold_cents as int
        } else {
            0
        },
        !final(state).step1_price_cut_done,
        !final(state).step2_contract_done,
        !final(state).step3_tapeout_expedite_done,
        !final(state).step4_cash_24m_done,
        final(state).current_step_index == 0,
{
    state.enabled = true;
    state.initial_asp_cents = current_asp_cents;
    state.month24_cash_threshold_cents = if month24_cash_threshold_cents >= 0 {
        month24_cash_threshold_cents
    } else {
        0
    };
    state.step1_price_cut_done = false;
    state.step2_contract_done = false;
    state.step3_tapeout_expedite_done = false;
    state.step4_cash_24m_done = false;
    state.current_step_index = 0;
}

/// Checkpoint one: the price has been cut by at least five percent of the
/// tutorial's baseline (rounded half-up).
pub open spec fn spec_price_cut_reached(initial_asp_cents: int, asp_cents: int) -> bool {
    initial_asp_cents > 0 && asp_cents <= (initial_asp_cents * 95 + 50) / 100
}

/// Checkpoint two: some contract commits at least 1000 wafers per month
/// over a window of at least 12 months.
pub open spec fn spec_big_contract(book: CapacityBook) -> bool {
    exists|j: int|
        0 <= j < book.contracts@.len() && (#[trigger] book.contracts@[j]).wafers_per_month >= 1000
            && spec_month_index(book.contracts@[j].end) - spec_month_index(
            book.contracts@[j].start,
        ) >= 12
}

/// Checkpoint three: an expedited tape-out is queued or something was
/// already released.
pub open spec fn spec_expedite_seen(pipeline: ProductPipeline) -> bool {
    (exists|j: int| 0 <= j < pipeline.queue@.len() && (#[trigger] pipeline.queue@[j]).expedite)
        || pipeline.released@.len() > 0
}

/// The first not-yet-done checkpoint, or four when all are done.
pub open spec fn spec_current_step(s1: bool, s2: bool, s3: bool, s4: bool) -> int {
    if !s1 {
        0
    } else if !s2 {
        1
    } else if !s3 {
        2
    } else if !s4 {
        3
    } else {
        4
    }
}

/// Evaluate the tutorial checkpoints against the freshly updated state; a
/// checkpoint, once done, stays done, and the current step index is the
/// first unmet checkpoint.
pub fn tutorial_step(
    state: &mut TutorialState,
    asp_cents: i64,
    book: &CapacityBook,
    pipeline: &ProductPipeline,
    months_run: u32,
    cash_cents: i64,
) -> (r: ())
    requires
        0 <= old(state).initial_asp_cents <= 0x20000000000000,
    ensures
        !old(state).enabled ==> *final(state) == *old(state),
        old(state).enabled ==> {
            &&& final(state).step1_price_cut_done == (old(state).step1_price_cut_done
                || spec_price_cut_reached(old(state).initial_asp_cents as int, asp_cents as int))
            &&& final(state).step2_contract_done == (old(state).step2_contract_done
                || spec_big_contract(*book))
            &&& final(state).step3_tapeout_expedite_done == (old(
                state,
            ).step3_tapeout_expedite_done || spec_expedite_seen(*pipeline))
            &&& final(state).step4_cash_24m_done == (old(state).step4_cash_24m_done || (months_run
                >= 24 && cash_cents >= old(state).month24_cash_threshold_cents))
            &&& final(state).current_step_index as int == spec_current_step(
                final(state).step1_price_cut_done,
                final(state).step2_contract_done,
                final(state).step3_tapeout_expedite_done,
                final(state).step4_cash_24m_done,
            )
            &&& final(state).enabled
            &&& final(state).initial_asp_cents == old(state).initial_asp_cents
            &&& final(state).month24_cash_threshold_cents == old(
                state,
            ).month24_cash_threshold_cents
        },
{
    if !state.enabled {
        return ;
    }
    if !state.step1_price_cut_done {
        if state.initial_asp_cents > 0 {
            let cutoff: i64 = ((state.initial_asp_cents as i128 * 95 + 50) / 100) as i64;
            proof {
                vstd::arithmetic::div_mod::lemma_div_pos_is_pos(
                    old(state).initial_asp_cents * 95 + 50,
                    100,
                );
                vstd::arithmetic::div_mod::lemma_multiply_divide_le(
                    old(state).initial_asp_cents * 95 + 50,
                    100,
                    0x20000000000000,
                );
            }
            if asp_cents <= cutoff {
                state.step1_price_cut_done = true;
            }
        }
    }
    if !state.step2_contract_done {
        let mut j: usize = 0;
        let mut ok = false;
        while j < book.contracts.len()
            invariant
                j <= book.contracts@.len(),
                ok == exists|l: int|
                    0 <= l < j && (#[trigger] book.contracts@[l]).wafers_per_month >= 1000
                        && spec_month_index(book.contracts@[l].end) - spec_month_index(
                        book.contracts@[l].start,
                    ) >= 12,
            decreases book.contracts@.len() - j,
        {
            let c = &book.contracts[j];
            let months: i64 = (c.end.year as i64 - c.start.year as i64) * 12 + (c.end.month as i64
                - c.start.month as i64);
            if c.wafers_per_month >= 1000 && months >= 12 {
                ok = true;
                proof {
                    assert(book.contracts@[j as int].wafers_per_month >= 1000);
                }
            }
            j += 1;
        }
        if ok {
            state.step2_contract_done = true;
        }
    }
    if !state.step3_tapeout_expedite_done {
        let mut seen = pipeline.released.len() > 0;
        let mut j: usize = 0;
        while j < pipeline.queue.len()
            invariant
                j <= pipeline.queue@.len(),
                seen == (pipeline.released@.len() > 0 || exists|l: int|
                    0 <= l < j && (#[trigger] pipeline.queue@[l]).expedite),
            decreases pipeline.queue@.len() - j,
        {
            if pipeline.queue[j].expedite {
                seen = true;
                proof {
                    assert(pipeline.queue@[j as int].expedite);
                }
            }
            j += 1;
        }
        if seen {
            state.step3_tapeout_expedite_done = true;
        }
    }
    if !state.step4_cash_24m_done {
        if months_run >= 24 && cash_cents >= state.month24_cash_threshold_cents {
            state.step4_cash_24m_done = true;
        }
    }
    state.current_step_index = if !state.step1_price_cut_done {
        0
    } else if !state.step2_contract_done {
        1
    } else if !state.step3_tapeout_expedite_done {
        2
    } else if !state.step4_cash_24m_done {
        3
    } else {
        4
    };
}

} // verus!
