//! Financial and capacity ledger: foundry contracts, monthly capacity and
//! take-or-pay billing.
//!
//! A contract is billed every month of its validity window whether or not
//! its committed wafers were drawn: the billed quantity is
//! `max(drawn, ceil(committed * take_or_pay))`, so under-utilisation never
//! reduces the bill below the take-or-pay floor, while usage above the
//! floor is billed at the actual draw.

use crate::date::{spec_date_le, Date};
use vstd::arithmetic::div_mod::lemma_fundamental_div_mod_converse;
use vstd::prelude::*;

verus! {

/// A foundry capacity contract.
#[derive(Clone, Debug)]
pub struct FoundryContract {
    /// Identifier of the foundry granting the capacity.
    pub foundry_id: String,
    /// Committed wafers per month.
    pub wafers_per_month: u32,
    /// Contract price per wafer, in cents.
    pub price_per_wafer_cents: i64,
    /// Take-or-pay fraction in basis points; values outside [0, 10000] are
    /// clamped at billing time.
    pub take_or_pay_bp: i64,
    /// Billing rate per wafer in cents; when not positive, the contract
    /// price applies instead.
    pub billing_cents_per_wafer: i64,
    /// Billing model tag ("take_or_pay" or "pay_as_used"); informational.
    pub billing_model: String,
    /// Lead time before the window opens, in months.
    pub lead_time_months: u8,
    /// First month in which the contract is active.
    pub start: Date,
    /// Last month in which the contract is active.
    pub end: Date,
}

/// Book of capacity contracts, active and pending.
#[derive(Clone, Debug)]
pub struct CapacityBook {
    pub contracts: Vec<FoundryContract>,
}

impl CapacityBook {
    /// An empty book.
    pub fn new() -> (r: CapacityBook)
        ensures
            r.contracts@.len() == 0,
    {
        CapacityBook { contracts: Vec::new() }
    }
}

/// A contract is active in every month of `[start, end]`.
pub open spec fn spec_contract_active(c: FoundryContract, date: Date) -> bool {
    spec_date_le(c.start, date) && spec_date_le(date, c.end)
}

/// Addition on `u64` saturating at the maximum.
pub open spec fn spec_sat_add_u64(a: int, b: int) -> int {
    if a + b > u64::MAX {
        u64::MAX as int
    } else {
        a + b
    }
}

/// Wafers contributed by the first `n` contracts active at `date`,
/// saturating at `u64::MAX`.
pub open spec fn spec_active_wafers(cs: Seq<FoundryContract>, date: Date, n: int) -> int
    decreases n,
{
    if n <= 0 {
        0
    } else {
        let prev = spec_active_wafers(cs, date, n - 1);
        if spec_contract_active(cs[n - 1], date) {
            spec_sat_add_u64(prev, cs[n - 1].wafers_per_month as int)
        } else {
            prev
        }
    }
}

/// Monthly wafer capacity: a base proportional to the size of the world
/// (1000 wafers per tech node and company, at least one unit), plus every
/// contract whose validity window contains `date`.
pub fn monthly_capacity(
    tech_count: usize,
    company_count: usize,
    book: &CapacityBook,
    date: Date,
) -> (wafers: u64)
    ensures
        wafers == spec_sat_add_u64(
            spec_active_wafers(book.contracts@, date, book.contracts@.len() as int),
            spec_base_capacity(tech_count as int, company_count as int),
        ),
{
    let factor: u64 = if tech_count as u64 <= u64::MAX - company_count as u64 {
        let s = tech_count as u64 + company_count as u64;
        if s == 0 {
            1
        } else {
            s
        }
    } else {
        u64::MAX
    };
    let base: u64 = if factor <= u64::MAX / 1000 {
        1000 * factor
    } else {
        u64::MAX
    };
    proof {
        if factor <= u64::MAX as int / 1000 {
            assert(1000 * factor <= u64::MAX) by (nonlinear_arith)
                requires
                    0 <= factor <= u64::MAX as int / 1000,
            ;
        } else {
            assert(1000 * factor > u64::MAX) by (nonlinear_arith)
                requires
                    factor > u64::MAX as int / 1000,
                    u64::MAX as int / 1000 == 0x4189374bc6a7ef,
            ;
        }
        assert(base == spec_base_capacity(tech_count as int, company_count as int));
    }
    let mut wafers: u64 = base;
    let mut i: usize = 0;
    while i < book.contracts.len()
        invariant
            i <= book.contracts@.len(),
            wafers == spec_sat_add_u64(
                spec_active_wafers(book.contracts@, date, i as int),
                base as int,
            ),
        decreases book.contracts@.len() - i,
    {
        let c = &book.contracts[i];
        if c.start.le(&date) && date.le(&c.end) {
            wafers = wafers.saturating_add(c.wafers_per_month as u64);
        }
        i += 1;
    }
    wafers
}

/// The base capacity before contracts: 1000 wafers per tech node and
/// company, with a floor of one unit, saturated at `u64::MAX`.
pub open spec fn spec_base_capacity(tech_count: int, company_count: int) -> int {
    let f = if tech_count + company_count == 0 {
        1
    } else {
        tech_count + company_count
    };
    if f > u64::MAX {
        u64::MAX as int
    } else if 1000 * f > u64::MAX {
        u64::MAX as int
    } else {
        1000 * f
    }
}

/// Take-or-pay fraction clamped to `[0, 10000]` basis points.
pub open spec fn spec_top_clamped(c: FoundryContract) -> int {
    if c.take_or_pay_bp < 0 {
        0
    } else if c.take_or_pay_bp > 10000 {
        10000
    } else {
        c.take_or_pay_bp as int
    }
}

/// The take-or-pay floor: `ceil(committed * take_or_pay)` wafers.
pub open spec fn spec_min_billed_wafers(c: FoundryContract) -> int {
    (c.wafers_per_month * spec_top_clamped(c) + 9999) / 10000
}

/// The applicable per-wafer rate: the billing rate when positive, else the
/// contract price.
pub open spec fn spec_contract_price(c: FoundryContract) -> int {
    if c.billing_cents_per_wafer > 0 {
        c.billing_cents_per_wafer as int
    } else {
        c.price_per_wafer_cents as int
    }
}

/// Wafers actually drawn from a contract, given the remaining unassigned
/// supply: contracts are consumed in book order.
pub open spec fn spec_drawn_wafers(c: FoundryContract, remaining: int) -> int {
    if remaining >= c.wafers_per_month {
        c.wafers_per_month as int
    } else if remaining >= 0 {
        remaining
    } else {
        0
    }
}

/// Cost billed for one contract this month: inactive contracts bill
/// nothing; an active one bills `max(drawn, take-or-pay floor)` wafers at
/// the applicable rate.
pub open spec fn spec_contract_cost(c: FoundryContract, date: Date, remaining: int) -> int {
    if spec_contract_active(c, date) {
        let drawn = spec_drawn_wafers(c, remaining);
        let floor_w = spec_min_billed_wafers(c);
        let billed = if drawn >= floor_w {
            drawn
        } else {
            floor_w
        };
        billed * spec_contract_price(c)
    } else {
        0
    }
}

/// Supply left after the first `n` contracts have drawn from `rem0`.
pub open spec fn spec_bill_remaining(
    cs: Seq<FoundryContract>,
    date: Date,
    rem0: int,
    n: int,
) -> int
    decreases n,
{
    if n <= 0 {
        rem0
    } else {
        let r = spec_bill_remaining(cs, date, rem0, n - 1);
        if spec_contract_active(cs[n - 1], date) {
            r - spec_drawn_wafers(cs[n - 1], r)
        } else {
            r
        }
    }
}

/// Total cents billed by the first `n` contracts for this month.
pub open spec fn spec_bill_total(cs: Seq<FoundryContract>, date: Date, rem0: int, n: int) -> int
    decreases n,
{
    if n <= 0 {
        0
    } else {
        spec_bill_total(cs, date, rem0, n - 1) + spec_contract_cost(
            cs[n - 1],
            date,
            spec_bill_remaining(cs, date, rem0, n - 1),
        )
    }
}

/// Clamp an exact total into the `i64` currency range.
pub open spec fn spec_sat_i64(x: int) -> int {
    if x > i64::MAX {
        i64::MAX as int
    } else if x < i64::MIN {
        i64::MIN as int
    } else {
        x
    }
}

proof fn lemma_bill_remaining_nonneg(cs: Seq<FoundryContract>, date: Date, rem0: int, n: int)
    requires
        rem0 >= 0,
    ensures
        spec_bill_remaining(cs, date, rem0, n) >= 0,
        spec_bill_remaining(cs, date, rem0, n) <= rem0,
    decreases n,
{
    if n > 0 {
        lemma_bill_remaining_nonneg(cs, date, rem0, n - 1);
    }
}

proof fn lemma_bill_total_bound(cs: Seq<FoundryContract>, date: Date, rem0: int, n: int)
    requires
        0 <= n,
        rem0 >= 0,
    ensures
        -n * 0x7fffffffffffffff80000000 <= spec_bill_total(cs, date, rem0, n) <= n
            * 0x7fffffffffffffff80000000,
    decreases n,
{
    if n > 0 {
        lemma_bill_total_bound(cs, date, rem0, n - 1);
        let c = cs[n - 1];
        let rem = spec_bill_remaining(cs, date, rem0, n - 1);
        lemma_bill_remaining_nonneg(cs, date, rem0, n - 1);
        assert(-0x7fffffffffffffff80000000 <= spec_contract_cost(c, date, rem)
            <= 0x7fffffffffffffff80000000) by {
            if spec_contract_active(c, date) {
                let drawn = spec_drawn_wafers(c, rem);
                let floor_w = spec_min_billed_wafers(c);
                let billed = if drawn >= floor_w {
                    drawn
                } else {
                    floor_w
                };
                assert(0 <= floor_w <= 0xffffffff) by {
                    assert(0 <= c.wafers_per_month * spec_top_clamped(c) <= 0xffffffff * 10000)
                        by (nonlinear_arith)
                        requires
                            0 <= c.wafers_per_month < 0x100000000,
                            0 <= spec_top_clamped(c) <= 10000,
                    ;
                    assert(0 <= (c.wafers_per_month * spec_top_clamped(c) + 9999) / 10000
                        <= 0xffffffff) by (nonlinear_arith)
                        requires
                            0 <= c.wafers_per_month * spec_top_clamped(c) <= 0xffffffff * 10000,
                    ;
                };
                assert(0 <= billed <= 0xffffffff);
                assert(-0x8000000000000000 <= spec_contract_price(c) < 0x8000000000000000);
                assert(-0x7fffffffffffffff80000000 <= billed * spec_contract_price(c)
                    <= 0x7fffffffffffffff80000000) by (nonlinear_arith)
                    requires
                        0 <= billed <= 0xffffffff,
                        -0x8000000000000000 <= spec_contract_price(c) < 0x8000000000000000,
                ;
            }
        };
        assert((n - 1) * 0x7fffffffffffffff80000000 + 0x7fffffffffffffff80000000 == n
            * 0x7fffffffffffffff80000000) by (nonlinear_arith);
    }
}

/// Bill every contract active at `date`, consuming `supply_wafers` of
/// actual usage in book order; the total is clamped to the `i64` range.
pub fn bill_contracts(book: &CapacityBook, date: Date, supply_wafers: u64) -> (total: i64)
    requires
        book.contracts@.len() <= 0x100000000,
    ensures
        total == spec_sat_i64(
            spec_bill_total(
                book.contracts@,
                date,
                supply_wafers as int,
                book.contracts@.len() as int,
            ),
        ),
{
    let mut total: i128 = 0;
    let mut remaining: u64 = supply_wafers;
    let mut i: usize = 0;
    while i < book.contracts.len()
        invariant
            i <= book.contracts@.len(),
            book.contracts@.len() <= 0x100000000,
            total == spec_bill_total(book.contracts@, date, supply_wafers as int, i as int),
            remaining == spec_bill_remaining(book.contracts@, date, supply_wafers as int, i as int),
            remaining <= supply_wafers,
        decreases book.contracts@.len() - i,
    {
        proof {
            lemma_bill_total_bound(book.contracts@, date, supply_wafers as int, i as int);
            lemma_bill_remaining_nonneg(book.contracts@, date, supply_wafers as int, i as int);
        }
        let c = &book.contracts[i];
        if c.start.le(&date) && date.le(&c.end) {
            let committed = c.wafers_per_month as u64;
            let drawn: u64 = if remaining >= committed {
                committed
            } else {
                remaining
            };
            remaining = remaining - drawn;
            let top: i64 = if c.take_or_pay_bp < 0 {
                0
            } else if c.take_or_pay_bp > 10000 {
                10000
            } else {
                c.take_or_pay_bp
            };
            proof {
                assert(0 <= committed * top <= 0xffffffff * 10000) by (nonlinear_arith)
                    requires
                        0 <= committed < 0x100000000,
                        0 <= top <= 10000,
                ;
                assert(0 <= (committed * top + 9999) / 10000 <= 0xffffffff) by (nonlinear_arith)
                    requires
                        0 <= committed * top <= 0xffffffff * 10000,
                ;
            }
            let floor_w: u64 = ((committed as u128 * top as u128 + 9999) / 10000) as u64;
            let billed: u64 = if drawn >= floor_w {
                drawn
            } else {
                floor_w
            };
            let price: i64 = if c.billing_cents_per_wafer > 0 {
                c.billing_cents_per_wafer
            } else {
                c.price_per_wafer_cents
            };
            proof {
                assert(billed <= 0xffffffff);
                assert(-0x7fffffffffffffff80000000 <= (billed as int) * (price as int)
                    <= 0x7fffffffffffffff80000000) by (nonlinear_arith)
                    requires
                        0 <= billed <= 0xffffffff,
                        -0x8000000000000000 <= price < 0x8000000000000000,
                ;
                lemma_bill_total_bound(
                    book.contracts@,
                    date,
                    supply_wafers as int,
                    i as int + 1,
                );
            }
            let cost: i128 = (billed as i128) * (price as i128);
            total = total + cost;
        }
        i += 1;
    }
    if total > i64::MAX as i128 {
        i64::MAX
    } else if total < i64::MIN as i128 {
        i64::MIN
    } else {
        total as i64
    }
}

/// Take-or-pay billing always charges the committed volume.
///
/// A contract active this month with a take-or-pay fraction of one whole
/// bills exactly its committed volume at the applicable rate, whatever
/// quantity was actually drawn from it.
pub proof fn lemma_take_or_pay_bills_commitment(c: FoundryContract, date: Date, remaining: int)
    requires
        spec_contract_active(c, date),
        c.take_or_pay_bp == 10000,
        remaining >= 0,
    ensures
        spec_contract_cost(c, date, remaining) == c.wafers_per_month * spec_contract_price(c),
{
    let committed = c.wafers_per_month as int;
    assert(spec_min_billed_wafers(c) == committed) by {
        lemma_fundamental_div_mod_converse(committed * 10000 + 9999, 10000, committed, 9999);
        assert(committed * 10000 + 9999 == committed * 10000 + 9999);
    };
    assert(spec_drawn_wafers(c, remaining) <= committed);
}

} // verus!
