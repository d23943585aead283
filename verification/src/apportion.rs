//! Largest-remainder allocation of sold units across market segments.
//!
//! Theoretical demand per segment is scaled down proportionally so that the
//! total sold exactly equals `min(total demand, inventory)`: each segment
//! gets the floor of its ideal share, and the leftover units go one by one
//! to the segments with the largest fractional remainder, ties broken by
//! the lower segment index.

use vstd::arithmetic::div_mod::{lemma_fundamental_div_mod, lemma_multiply_divide_le};
use vstd::prelude::*;

verus! {

/// Sum of the first `n` entries.
pub open spec fn spec_sum(s: Seq<u64>, n: int) -> int
    decreases n,
{
    if n <= 0 {
        0
    } else {
        spec_sum(s, n - 1) + s[n - 1]
    }
}

/// Sum of the first `n` floors plus the number of the first `n` positions
/// that received a leftover unit.
pub open spec fn spec_granted_total(base: Seq<u128>, bumped: Seq<bool>, n: int) -> int
    decreases n,
{
    if n <= 0 {
        0
    } else {
        spec_granted_total(base, bumped, n - 1) + base[n - 1] + if bumped[n - 1] {
            1int
        } else {
            0int
        }
    }
}

/// Sum of the first `n` floors.
spec fn spec_base_sum(base: Seq<u128>, n: int) -> int
    decreases n,
{
    if n <= 0 {
        0
    } else {
        spec_base_sum(base, n - 1) + base[n - 1]
    }
}

/// Sum of the first `n` remainders at positions not yet granted a unit.
spec fn spec_open_rem(rem: Seq<u128>, bumped: Seq<bool>, n: int) -> int
    decreases n,
{
    if n <= 0 {
        0
    } else {
        spec_open_rem(rem, bumped, n - 1) + if bumped[n - 1] {
            0int
        } else {
            rem[n - 1] as int
        }
    }
}

/// Number of granted positions among the first `n`.
spec fn spec_bump_count(bumped: Seq<bool>, n: int) -> int
    decreases n,
{
    if n <= 0 {
        0
    } else {
        spec_bump_count(bumped, n - 1) + if bumped[n - 1] {
            1int
        } else {
            0int
        }
    }
}

proof fn lemma_sum_nonneg(s: Seq<u64>, n: int)
    ensures
        spec_sum(s, n) >= 0,
    decreases n,
{
    if n > 0 {
        lemma_sum_nonneg(s, n - 1);
    }
}

proof fn lemma_sum_bound(s: Seq<u64>, n: int)
    requires
        0 <= n,
    ensures
        spec_sum(s, n) <= n * 0xffffffffffffffff,
    decreases n,
{
    if n > 0 {
        lemma_sum_bound(s, n - 1);
        assert((n - 1) * 0xffffffffffffffff + 0xffffffffffffffff == n * 0xffffffffffffffff)
            by (nonlinear_arith);
    }
}

proof fn lemma_sum_prefix_mono(s: Seq<u64>, n: int, m: int)
    requires
        0 <= n <= m,
    ensures
        spec_sum(s, n) <= spec_sum(s, m),
    decreases m - n,
{
    if n < m {
        lemma_sum_prefix_mono(s, n + 1, m);
    }
}

proof fn lemma_sum_push_u64(s: Seq<u64>, x: u64, n: int)
    requires
        0 <= n <= s.len(),
    ensures
        spec_sum(s.push(x), n) == spec_sum(s, n),
    decreases n,
{
    if n > 0 {
        lemma_sum_push_u64(s, x, n - 1);
    }
}

/// Appending entries does not change the sums over an untouched prefix.
proof fn lemma_base_sum_push(base: Seq<u128>, x: u128, n: int)
    requires
        0 <= n <= base.len(),
    ensures
        spec_base_sum(base.push(x), n) == spec_base_sum(base, n),
    decreases n,
{
    if n > 0 {
        lemma_base_sum_push(base, x, n - 1);
    }
}

proof fn lemma_open_rem_nonneg(rem: Seq<u128>, bumped: Seq<bool>, n: int)
    ensures
        spec_open_rem(rem, bumped, n) >= 0,
    decreases n,
{
    if n > 0 {
        lemma_open_rem_nonneg(rem, bumped, n - 1);
    }
}

/// With no positions granted, the grant count is zero.
proof fn lemma_no_grants(bumped: Seq<bool>, n: int)
    requires
        forall|j: int| 0 <= j < n ==> !bumped[j],
    ensures
        spec_bump_count(bumped, n) == 0,
    decreases n,
{
    if n > 0 {
        lemma_no_grants(bumped, n - 1);
    }
}

/// When every open remainder is zero, the open sum is zero.
proof fn lemma_open_rem_all_zero(rem: Seq<u128>, bumped: Seq<bool>, n: int)
    requires
        forall|j: int| 0 <= j < n && !bumped[j] ==> rem[j] == 0,
    ensures
        spec_open_rem(rem, bumped, n) == 0,
    decreases n,
{
    if n > 0 {
        lemma_open_rem_all_zero(rem, bumped, n - 1);
    }
}

/// Granting one open position removes its remainder from the open sum and
/// raises the grant count by one.
proof fn lemma_grant_one(
    rem: Seq<u128>,
    old_b: Seq<bool>,
    new_b: Seq<bool>,
    p: int,
    n: int,
)
    requires
        0 <= p < n,
        !old_b[p],
        new_b[p],
        forall|j: int| 0 <= j < n && j != p ==> old_b[j] == new_b[j],
    ensures
        spec_open_rem(rem, new_b, n) == spec_open_rem(rem, old_b, n) - rem[p],
        spec_bump_count(new_b, n) == spec_bump_count(old_b, n) + 1,
    decreases n,
{
    if p == n - 1 {
        lemma_open_rem_agree(rem, old_b, new_b, n - 1);
        lemma_bump_count_agree(old_b, new_b, n - 1);
    } else {
        lemma_grant_one(rem, old_b, new_b, p, n - 1);
    }
}

proof fn lemma_open_rem_agree(rem: Seq<u128>, a: Seq<bool>, b: Seq<bool>, n: int)
    requires
        forall|j: int| 0 <= j < n ==> a[j] == b[j],
    ensures
        spec_open_rem(rem, a, n) == spec_open_rem(rem, b, n),
    decreases n,
{
    if n > 0 {
        lemma_open_rem_agree(rem, a, b, n - 1);
    }
}

proof fn lemma_bump_count_agree(a: Seq<bool>, b: Seq<bool>, n: int)
    requires
        forall|j: int| 0 <= j < n ==> a[j] == b[j],
    ensures
        spec_bump_count(a, n) == spec_bump_count(b, n),
    decreases n,
{
    if n > 0 {
        lemma_bump_count_agree(a, b, n - 1);
    }
}

/// Granting one position raises the granted total by exactly one.
proof fn lemma_granted_total_grant(
    base: Seq<u128>,
    old_b: Seq<bool>,
    new_b: Seq<bool>,
    p: int,
    n: int,
)
    requires
        0 <= p < n,
        !old_b[p],
        new_b[p],
        forall|j: int| 0 <= j < n && j != p ==> old_b[j] == new_b[j],
    ensures
        spec_granted_total(base, new_b, n) == spec_granted_total(base, old_b, n) + 1,
    decreases n,
{
    if p == n - 1 {
        lemma_granted_total_agree(base, old_b, new_b, n - 1);
    } else {
        lemma_granted_total_grant(base, old_b, new_b, p, n - 1);
    }
}

proof fn lemma_granted_total_agree(base: Seq<u128>, a: Seq<bool>, b: Seq<bool>, n: int)
    requires
        forall|j: int| 0 <= j < n ==> a[j] == b[j],
    ensures
        spec_granted_total(base, a, n) == spec_granted_total(base, b, n),
    decreases n,
{
    if n > 0 {
        lemma_granted_total_agree(base, a, b, n - 1);
    }
}

/// The granted total decomposes into floors plus grant count.
proof fn lemma_granted_total_split(base: Seq<u128>, bumped: Seq<bool>, n: int)
    ensures
        spec_granted_total(base, bumped, n) == spec_base_sum(base, n) + spec_bump_count(bumped, n),
    decreases n,
{
    if n > 0 {
        lemma_granted_total_split(base, bumped, n - 1);
    }
}

/// Reconstruction of the scaled demand: with `base` and `rem` the
/// quotients and remainders of `t * d[j]` by `big_d`,
/// `t * sum(d) == big_d * sum(base) + sum(rem)`.
proof fn lemma_alloc_reconstruct(
    d: Seq<u64>,
    base: Seq<u128>,
    rem: Seq<u128>,
    t: int,
    big_d: int,
    n: int,
)
    requires
        0 <= n <= d.len(),
        n <= base.len(),
        n <= rem.len(),
        big_d > 0,
        forall|j: int|
            0 <= j < n ==> base[j] == (t * d[j]) / big_d && rem[j] == (t * d[j]) % big_d,
    ensures
        t * spec_sum(d, n) == big_d * spec_base_sum(base, n) + spec_open_rem(
            rem,
            Seq::new(base.len(), |i: int| false),
            n,
        ),
    decreases n,
{
    let all_open = Seq::new(base.len(), |i: int| false);
    if n > 0 {
        lemma_alloc_reconstruct(d, base, rem, t, big_d, n - 1);
        lemma_fundamental_div_mod(t * d[n - 1], big_d);
        assert(t * spec_sum(d, n) == t * spec_sum(d, n - 1) + t * d[n - 1]) by (nonlinear_arith)
            requires
                spec_sum(d, n) == spec_sum(d, n - 1) + d[n - 1],
        ;
        assert(big_d * spec_base_sum(base, n) == big_d * spec_base_sum(base, n - 1) + big_d * (
        base[n - 1] as int)) by (nonlinear_arith)
            requires
                spec_base_sum(base, n) == spec_base_sum(base, n - 1) + base[n - 1],
        ;
    }
}

/// Whether the allocation has anything to distribute.
pub open spec fn spec_alloc_active(demand: Seq<u64>, inventory: u64) -> bool {
    spec_alloc_total(demand, inventory) > 0
}

/// The grand total to distribute: `min(sum(demand), inventory)`.
pub open spec fn spec_alloc_total(demand: Seq<u64>, inventory: u64) -> int {
    if spec_sum(demand, demand.len() as int) <= inventory {
        spec_sum(demand, demand.len() as int)
    } else {
        inventory as int
    }
}

/// The floor of segment `i`'s proportional share.
pub open spec fn spec_alloc_floor(demand: Seq<u64>, inventory: u64, i: int) -> int {
    spec_alloc_total(demand, inventory) * demand[i] / spec_sum(demand, demand.len() as int)
}

/// The fractional remainder of segment `i`'s share, scaled by the total
/// demand.
pub open spec fn spec_alloc_rem(demand: Seq<u64>, inventory: u64, i: int) -> int {
    spec_alloc_total(demand, inventory) * demand[i] % spec_sum(demand, demand.len() as int)
}

/// Allocate `min(total demand, inventory)` sold units across segments by
/// largest-remainder rounding.
///
/// Each segment receives the floor of its proportional share of the total;
/// the remaining units are granted one at a time to the segment with the
/// largest fractional remainder not yet granted one, ties going to the
/// lower index.  The result never exceeds the segment demand, and the
/// total sold is exactly `min(sum(demand), inventory)` - conservation of
/// sold units, with no rounding drift.
pub fn allocate_sold_units(demand: &Vec<u64>, inventory: u64) -> (sold: Vec<u64>)
    ensures
        sold@.len() == demand@.len(),
        forall|i: int| 0 <= i < sold@.len() ==> sold@[i] <= demand@[i],
        spec_sum(sold@, sold@.len() as int) == if spec_sum(demand@, demand@.len() as int)
            <= inventory {
            spec_sum(demand@, demand@.len() as int)
        } else {
            inventory as int
        },
        // each segment gets the floor of its proportional share or that
        // floor plus one
        forall|i: int|
            0 <= i < sold@.len() && spec_alloc_active(demand@, inventory) ==> #[trigger] sold@[i] as int == spec_alloc_floor(demand@, inventory, i) || sold@[i] as int
                == spec_alloc_floor(demand@, inventory, i) + 1,
        // the leftover units go to the largest fractional remainders, ties
        // to the lower segment index
        forall|i: int, j: int|
            0 <= i < sold@.len() && 0 <= j < sold@.len() && spec_alloc_active(demand@, inventory)
                && #[trigger] sold@[i] as int == spec_alloc_floor(demand@, inventory, i) + 1
                && #[trigger] sold@[j] as int == spec_alloc_floor(demand@, inventory, j) ==> (
            spec_alloc_rem(demand@, inventory, i) > spec_alloc_rem(demand@, inventory, j) || (
            spec_alloc_rem(demand@, inventory, i) == spec_alloc_rem(demand@, inventory, j) && i
                < j)),
{
    let n = demand.len();
    let ghost dn = n as int;
    // Total theoretical demand, exactly.
    let mut sum_demand: u128 = 0;
    let mut i: usize = 0;
    while i < n
        invariant
            i <= n,
            n == demand@.len(),
            sum_demand == spec_sum(demand@, i as int),
        decreases n - i,
    {
        proof {
            lemma_sum_bound(demand@, i as int + 1);
            assert((i as int + 1) * 0xffffffffffffffff < 0x100000000000000000000000000000000)
                by (nonlinear_arith)
                requires
                    0 <= i < 0x10000000000000000,
            ;
        }
        sum_demand = sum_demand + demand[i] as u128;
        i += 1;
    }
    let sold_total: u128 = if sum_demand <= inventory as u128 {
        sum_demand
    } else {
        inventory as u128
    };
    let ghost t = sold_total as int;
    let ghost big_d = sum_demand as int;
    if sold_total == 0 {
        let mut sold: Vec<u64> = Vec::new();
        let mut i: usize = 0;
        while i < n
            invariant
                i <= n,
                sold@.len() == i,
                forall|j: int| 0 <= j < i ==> sold@[j] == 0u64,
                spec_sum(sold@, i as int) == 0,
            decreases n - i,
        {
            proof {
                lemma_sum_push_u64(sold@, 0, i as int);
            }
            sold.push(0);
            i += 1;
        }
        return sold;
    }
    proof {
        lemma_sum_nonneg(demand@, dn);
        assert(t <= u64::MAX);
    }
    // Floor of each proportional share, with its remainder.
    let mut base: Vec<u128> = Vec::new();
    let mut rem: Vec<u128> = Vec::new();
    let mut acc: u128 = 0;
    let mut i: usize = 0;
    while i < n
        invariant
            i <= n,
            n == demand@.len(),
            dn == n,
            base@.len() == i,
            rem@.len() == i,
            0 < t <= big_d,
            t <= u64::MAX,
            t == sold_total,
            big_d == sum_demand,
            big_d == spec_sum(demand@, dn),
            forall|j: int|
                0 <= j < i ==> base@[j] == (t * demand@[j]) / big_d && rem@[j] == (t * demand@[j])
                    % big_d,
            forall|j: int| 0 <= j < i ==> base@[j] <= demand@[j],
            acc == spec_base_sum(base@, i as int),
            acc <= t,
        decreases n - i,
    {
        let ghost di = demand@[i as int] as int;
        proof {
            lemma_sum_bound(demand@, dn);
            assert(big_d < 0x10000000000000000 * 0x10000000000000000) by (nonlinear_arith)
                requires
                    big_d <= dn * 0xffffffffffffffff,
                    0 <= dn <= 0x10000000000000000,
            ;
            assert(0 <= t * di) by (nonlinear_arith)
                requires
                    t >= 0,
                    di >= 0,
            ;
            assert(t * di < 0x100000000000000000000000000000000) by (nonlinear_arith)
                requires
                    0 <= t <= 0xffffffffffffffff,
                    0 <= di < 0x10000000000000000,
            ;
        }
        let ideal: u128 = sold_total * (demand[i] as u128);
        let b: u128 = ideal / sum_demand;
        let r: u128 = ideal % sum_demand;
        proof {
            // the floor of the share never exceeds the demand itself
            assert(t * di <= big_d * di) by (nonlinear_arith)
                requires
                    0 < t <= big_d,
                    0 <= di,
            ;
            assert(big_d * di == di * big_d) by (nonlinear_arith);
            lemma_multiply_divide_le(t * di, big_d, di);
            // the running floor total never exceeds the grand total
            lemma_base_sum_push(base@, b, i as int);
            lemma_alloc_reconstruct(
                demand@,
                base@.push(b),
                rem@.push(r),
                t,
                big_d,
                i as int + 1,
            );
            lemma_open_rem_nonneg(
                rem@.push(r),
                Seq::new((base@.push(b)).len(), |x: int| false),
                i as int + 1,
            );
            lemma_sum_prefix_mono(demand@, i as int + 1, dn);
            assert(t * spec_sum(demand@, i as int + 1) <= t * big_d) by (nonlinear_arith)
                requires
                    spec_sum(demand@, i as int + 1) <= big_d,
                    t >= 0,
            ;
            assert(spec_base_sum(base@.push(b), i as int + 1) <= t) by (nonlinear_arith)
                requires
                    big_d * spec_base_sum(base@.push(b), i as int + 1) <= t * big_d,
                    big_d > 0,
            ;
        }
        proof {
            assert(b == (t * demand@[i as int]) / big_d);
            assert(r == (t * demand@[i as int]) % big_d);
        }
        base.push(b);
        rem.push(r);
        acc = acc + b;
        i += 1;
    }
    // Units owed beyond the floors.
    let mut leftover: u64 = (sold_total - acc) as u64;
    let mut bumped: Vec<bool> = Vec::new();
    let mut i: usize = 0;
    while i < n
        invariant
            i <= n,
            bumped@.len() == i,
            forall|j: int| 0 <= j < i ==> !bumped@[j],
        decreases n - i,
    {
        bumped.push(false);
        i += 1;
    }
    proof {
        lemma_alloc_reconstruct(demand@, base@, rem@, t, big_d, dn);
        lemma_open_rem_agree(rem@, Seq::new(base@.len(), |x: int| false), bumped@, dn);
        lemma_no_grants(bumped@, dn);
        assert(big_d * (leftover as int) == t * big_d - big_d * spec_base_sum(base@, dn))
            by (nonlinear_arith)
            requires
                leftover as int == t - spec_base_sum(base@, dn),
        ;
    }
    // Grant the leftovers to the largest remainders, ties to the lower
    // index.
    while leftover > 0
        invariant
            n == demand@.len(),
            dn == n,
            base@.len() == n,
            rem@.len() == n,
            bumped@.len() == n,
            0 < t <= u64::MAX,
            t <= big_d,
            big_d == spec_sum(demand@, dn),
            forall|j: int|
                0 <= j < n ==> base@[j] == (t * demand@[j]) / big_d && rem@[j] == (t * demand@[j])
                    % big_d,
            forall|j: int| 0 <= j < n ==> base@[j] <= demand@[j],
            forall|j: int| 0 <= j < n && bumped@[j] ==> base@[j] < demand@[j],
            leftover as int == t - spec_base_sum(base@, dn) - spec_bump_count(bumped@, dn),
            spec_open_rem(rem@, bumped@, dn) >= big_d * (leftover as int),
            // granted positions beat every open position on (remainder,
            // index)
            forall|i2: int, j2: int|
                #![trigger bumped@[i2], bumped@[j2]]
                0 <= i2 < n && 0 <= j2 < n && bumped@[i2] && !bumped@[j2] ==> ((rem@[i2] as int)
                    > rem@[j2] as int || (rem@[i2] as int == rem@[j2] as int && i2 < j2)),
        decreases leftover,
    {
        // scan for the largest open remainder
        let mut best: usize = n;
        let mut best_rem: u128 = 0;
        let mut j: usize = 0;
        while j < n
            invariant
                j <= n,
                n == demand@.len(),
                rem@.len() == n,
                bumped@.len() == n,
                best == n ==> best_rem == 0,
                best == n || (best < j && bumped@[best as int] == false && rem@[best as int]
                    == best_rem && best_rem > 0),
                forall|l: int|
                    0 <= l < j && !bumped@[l] ==> (rem@[l] as int) <= if best == n {
                        0int
                    } else {
                        best_rem as int
                    },
                // among equal remainders the earliest index is kept
                forall|l: int|
                    0 <= l < j && !bumped@[l] && best < n && (rem@[l] as int) == best_rem as int
                        ==> best <= l,
            decreases n - j,
        {
            if !bumped[j] {
                if rem[j] > best_rem {
                    best = j;
                    best_rem = rem[j];
                }
            }
            j += 1;
        }
        proof {
            if best == n {
                assert forall|l: int| 0 <= l < dn && !bumped@[l] implies rem@[l] == 0 by {
                    assert((rem@[l] as int) <= 0);
                }
                lemma_open_rem_all_zero(rem@, bumped@, dn);
                assert(big_d * (leftover as int) >= big_d * 1) by (nonlinear_arith)
                    requires
                        big_d > 0,
                        leftover >= 1,
                ;
                assert(false);
            }
        }
        let b = best;
        let ghost old_bumped = bumped@;
        proof {
            // a positive remainder forces the floor strictly below demand
            let db = demand@[b as int] as int;
            lemma_fundamental_div_mod(t * db, big_d);
            assert(t * db <= big_d * db) by (nonlinear_arith)
                requires
                    0 < t <= big_d,
                    0 <= db,
            ;
            assert(base@[b as int] < db) by (nonlinear_arith)
                requires
                    big_d * (base@[b as int] as int) + (rem@[b as int] as int) == t * db,
                    t * db <= big_d * db,
                    rem@[b as int] as int > 0,
                    big_d > 0,
            ;
        }
        bumped.set(b, true);
        proof {
            assert(forall|j: int| 0 <= j < dn && j != b ==> old_bumped[j] == bumped@[j]);
            assert forall|i2: int, j2: int|
                #![trigger bumped@[i2], bumped@[j2]]
                0 <= i2 < n && 0 <= j2 < n && bumped@[i2] && !bumped@[j2] implies ((rem@[i2] as int)
                    > rem@[j2] as int || (rem@[i2] as int == rem@[j2] as int && i2 < j2)) by {
                if i2 == b as int {
                    assert(!old_bumped[j2]);
                    assert((rem@[j2] as int) <= best_rem as int);
                } else {
                    assert(old_bumped[i2] && !old_bumped[j2]);
                }
            }
            lemma_grant_one(rem@, old_bumped, bumped@, b as int, dn);
            lemma_granted_total_grant(base@, old_bumped, bumped@, b as int, dn);
            // the granted remainder is below the divisor
            let db2 = demand@[b as int] as int;
            vstd::arithmetic::div_mod::lemma_mod_division_less_than_divisor(t * db2, big_d);
            assert(rem@[b as int] < big_d);
            let rb = rem@[b as int] as int;
            assert(spec_open_rem(rem@, bumped@, dn) >= big_d * (leftover as int - 1))
                by (nonlinear_arith)
                requires
                    spec_open_rem(rem@, bumped@, dn) >= big_d * (leftover as int) - rb,
                    rb < big_d,
            ;
        }
        leftover = leftover - 1;
    }
    // Emit the per-segment totals.
    let mut sold: Vec<u64> = Vec::new();
    let mut i: usize = 0;
    while i < n
        invariant
            i <= n,
            n == demand@.len(),
            dn == n,
            base@.len() == n,
            bumped@.len() == n,
            sold@.len() == i,
            forall|j: int| 0 <= j < n ==> base@[j] <= demand@[j],
            forall|j: int| 0 <= j < n && bumped@[j] ==> base@[j] < demand@[j],
            forall|j: int| 0 <= j < i ==> sold@[j] <= demand@[j],
            forall|j: int|
                0 <= j < i ==> #[trigger] sold@[j] as int == base@[j] + (if bumped@[j] {
                    1int
                } else {
                    0int
                }),
            spec_sum(sold@, i as int) == spec_granted_total(base@, bumped@, i as int),
        decreases n - i,
    {
        let extra: u64 = if bumped[i] {
            1
        } else {
            0
        };
        let s: u64 = (base[i] + extra as u128) as u64;
        proof {
            lemma_sum_push_u64(sold@, s, i as int);
        }
        sold.push(s);
        i += 1;
    }
    proof {
        lemma_granted_total_split(base@, bumped@, dn);
        assert(t == spec_alloc_total(demand@, inventory));
        assert(big_d == spec_sum(demand@, demand@.len() as int));
        assert forall|i2: int|
            0 <= i2 < sold@.len() && spec_alloc_active(demand@, inventory) implies #[trigger] sold@[i2] as int == spec_alloc_floor(demand@, inventory, i2) || sold@[i2] as int
            == spec_alloc_floor(demand@, inventory, i2) + 1 by {
            assert(base@[i2] == (t * demand@[i2]) / big_d);
            assert(base@[i2] as int == spec_alloc_floor(demand@, inventory, i2));
        }
        assert forall|i2: int, j2: int|
            0 <= i2 < sold@.len() && 0 <= j2 < sold@.len() && spec_alloc_active(demand@, inventory)
                && #[trigger] sold@[i2] as int == spec_alloc_floor(demand@, inventory, i2) + 1
                && #[trigger] sold@[j2] as int == spec_alloc_floor(demand@, inventory, j2)
                implies (spec_alloc_rem(demand@, inventory, i2) > spec_alloc_rem(
            demand@,
            inventory,
            j2,
        ) || (spec_alloc_rem(demand@, inventory, i2) == spec_alloc_rem(demand@, inventory, j2)
            && i2 < j2)) by {
            assert(base@[i2] == (t * demand@[i2]) / big_d);
            assert(base@[j2] == (t * demand@[j2]) / big_d);
            assert(base@[i2] as int == spec_alloc_floor(demand@, inventory, i2));
            assert(base@[j2] as int == spec_alloc_floor(demand@, inventory, j2));
            assert(sold@[i2] as int == base@[i2] + (if bumped@[i2] {
                1int
            } else {
                0int
            }));
            assert(bumped@[i2]);
            assert(!bumped@[j2]);
            assert(rem@[i2] as int == spec_alloc_rem(demand@, inventory, i2));
            assert(rem@[j2] as int == spec_alloc_rem(demand@, inventory, j2));
        }
    }
    sold
}

} // verus!
