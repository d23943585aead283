//! Exact evaluation of power-law ratios.
//!
//! The demand curve and the price-attractiveness model both need
//! `floor(a * (x / y) ^ (n / d))` for unsigned integers, with no rounding
//! slack: the result `q` is the greatest integer with
//! `q^d * y^n <= a^d * x^n`.  Those powers do not fit machine words, so the
//! comparison is carried out on an unsigned multi-limb integer.

use vstd::arithmetic::div_mod::{lemma_fundamental_div_mod, lemma_multiply_divide_lt};
use vstd::arithmetic::mul::{lemma_mul_inequality, lemma_mul_is_commutative, lemma_mul_nonnegative};
use vstd::arithmetic::power::{
    lemma0_pow, lemma_pow0, lemma_pow1, lemma_pow_distributes, lemma_pow_multiplies,
    lemma_pow_positive, pow,
};
use vstd::prelude::*;

verus! {

/// Radix of one limb.
pub open spec fn bn_base() -> int {
    0x10000000000000000
}

/// The limb at index `j`, with zero beyond the stored length.
pub open spec fn limb(s: Seq<u64>, j: int) -> u64 {
    if 0 <= j < s.len() {
        s[j]
    } else {
        0u64
    }
}

/// Value of the `n` least significant limbs, little endian.
pub open spec fn bn_val_n(s: Seq<u64>, n: nat) -> int
    decreases n,
{
    if n == 0 {
        0
    } else {
        bn_val_n(s, (n - 1) as nat) + (limb(s, n - 1) as int) * pow(bn_base(), (n - 1) as nat)
    }
}

/// Value of a multi-limb integer.
pub open spec fn bn_val(s: Seq<u64>) -> int {
    bn_val_n(s, s.len())
}

pub proof fn lemma_pow_succ(b: int, e: nat)
    ensures
        pow(b, e + 1) == b * pow(b, e),
{
    reveal(pow);
}

pub proof fn lemma_pow_nonneg(b: int, e: nat)
    requires
        b >= 0,
    ensures
        pow(b, e) >= 0,
    decreases e,
{
    reveal(pow);
    if e > 0 {
        lemma_pow_nonneg(b, (e - 1) as nat);
        lemma_mul_nonnegative(b, pow(b, (e - 1) as nat));
    }
}

pub proof fn lemma_bn_val_n_nonneg(s: Seq<u64>, n: nat)
    ensures
        bn_val_n(s, n) >= 0,
    decreases n,
{
    if n > 0 {
        lemma_bn_val_n_nonneg(s, (n - 1) as nat);
        lemma_pow_nonneg(bn_base(), (n - 1) as nat);
        lemma_mul_nonnegative(limb(s, n - 1) as int, pow(bn_base(), (n - 1) as nat));
    }
}

pub proof fn lemma_bn_val_n_bound(s: Seq<u64>, n: nat)
    ensures
        bn_val_n(s, n) < pow(bn_base(), n),
    decreases n,
{
    if n == 0 {
        lemma_pow0(bn_base());
    } else {
        let m = (n - 1) as nat;
        let pw = pow(bn_base(), m);
        let la = limb(s, n - 1) as int;
        lemma_bn_val_n_bound(s, m);
        lemma_pow_positive(bn_base(), m);
        lemma_pow_succ(bn_base(), m);
        assert(bn_val_n(s, m) + la * pw < bn_base() * pw) by (nonlinear_arith)
            requires
                bn_val_n(s, m) < pw,
                0 <= la < bn_base(),
                pw > 0,
        ;
    }
}

pub proof fn lemma_bn_val_n_beyond(s: Seq<u64>, n: nat)
    requires
        n >= s.len(),
    ensures
        bn_val_n(s, n) == bn_val(s),
    decreases n,
{
    if n > s.len() {
        lemma_bn_val_n_beyond(s, (n - 1) as nat);
        assert(limb(s, n - 1) == 0u64);
        assert(bn_val_n(s, n) == bn_val_n(s, (n - 1) as nat) + 0 * pow(bn_base(), (n - 1) as nat));
    }
}

pub proof fn lemma_bn_val_n_agree(a: Seq<u64>, b: Seq<u64>, n: nat)
    requires
        forall|j: int| 0 <= j < n ==> limb(a, j) == limb(b, j),
    ensures
        bn_val_n(a, n) == bn_val_n(b, n),
    decreases n,
{
    if n > 0 {
        lemma_bn_val_n_agree(a, b, (n - 1) as nat);
    }
}

/// If two numbers agree on the limbs above `i` and differ at `i`, the one
/// with the smaller limb at `i` is smaller.
pub proof fn lemma_bn_cmp(a: Seq<u64>, b: Seq<u64>, n: nat, i: nat)
    requires
        i < n,
        forall|j: int| i < j < n ==> limb(a, j) == limb(b, j),
        limb(a, i as int) < limb(b, i as int),
    ensures
        bn_val_n(a, n) < bn_val_n(b, n),
    decreases n,
{
    let m = (n - 1) as nat;
    if i == m {
        lemma_bn_val_n_bound(a, m);
        lemma_bn_val_n_nonneg(b, m);
        lemma_pow_positive(bn_base(), m);
        let pw = pow(bn_base(), m);
        let la = limb(a, i as int) as int;
        let lb = limb(b, i as int) as int;
        assert(bn_val_n(a, m) + la * pw < bn_val_n(b, m) + lb * pw) by (nonlinear_arith)
            requires
                bn_val_n(a, m) < pw,
                bn_val_n(b, m) >= 0,
                la < lb,
                pw > 0,
        ;
    } else {
        lemma_bn_cmp(a, b, m, i);
    }
}

/// Multiply a multi-limb integer by a machine word.
pub(crate) fn bn_mul_small(a: &Vec<u64>, m: u64) -> (r: Vec<u64>)
    ensures
        bn_val(r@) == bn_val(a@) * m,
{
    let mut res: Vec<u64> = Vec::new();
    let mut carry: u64 = 0;
    let mut i: usize = 0;
    proof {
        lemma_pow0(bn_base());
    }
    while i < a.len()
        invariant
            i <= a.len(),
            res.len() == i,
            bn_val_n(res@, i as nat) + (carry as int) * pow(bn_base(), i as nat) == bn_val_n(
                a@,
                i as nat,
            ) * m,
        decreases a.len() - i,
    {
        let ghost old_res = res@;
        let ghost old_carry = carry as int;
        proof {
            assert((a@[i as int] as int) * (m as int) + (carry as int)
                < 0x100000000000000000000000000000000) by (nonlinear_arith)
                requires
                    0 <= a@[i as int] < 0x10000000000000000,
                    0 <= m < 0x10000000000000000,
                    0 <= carry < 0x10000000000000000,
            ;
        }
        let prod: u128 = (a[i] as u128) * (m as u128) + (carry as u128);
        let lo: u64 = (prod % 0x10000000000000000u128) as u64;
        let hi: u64 = (prod / 0x10000000000000000u128) as u64;
        proof {
            lemma_fundamental_div_mod(prod as int, bn_base());
            lemma_multiply_divide_lt(
                prod as int,
                bn_base(),
                bn_base(),
            );
        }
        res.push(lo);
        carry = hi;
        i += 1;
        proof {
            let n = (i - 1) as nat;
            let pw = pow(bn_base(), n);
            let an = a@[n as int] as int;
            lemma_bn_val_n_agree(old_res, res@, n);
            lemma_pow_succ(bn_base(), n);
            assert(limb(res@, n as int) == lo);
            assert(bn_val_n(res@, i as nat) == bn_val_n(old_res, n) + (lo as int) * pw);
            assert(an * (m as int) + old_carry == bn_base() * (hi as int) + (lo as int));
            assert(bn_val_n(a@, i as nat) * m == bn_val_n(a@, n) * m + (lo as int) * pw + (
            hi as int) * (bn_base() * pw) - old_carry * pw) by (nonlinear_arith)
                requires
                    bn_val_n(a@, i as nat) == bn_val_n(a@, n) + an * pw,
                    an * (m as int) + old_carry == bn_base() * (hi as int) + (lo as int),
            ;
        }
    }
    proof {
        lemma_bn_val_n_beyond(a@, i as nat);
    }
    if carry > 0 {
        let ghost old_res = res@;
        proof {
            lemma_pow0(bn_base());
        }
        res.push(carry);
        proof {
            lemma_bn_val_n_agree(old_res, res@, i as nat);
        }
    }
    res
}

/// `x^e * y^f` as a multi-limb integer.
pub(crate) fn bn_pow_product(x: u64, e: u64, y: u64, f: u64) -> (r: Vec<u64>)
    ensures
        bn_val(r@) == pow(x as int, e as nat) * pow(y as int, f as nat),
{
    let mut r: Vec<u64> = Vec::new();
    r.push(1);
    proof {
        lemma_pow0(bn_base());
        lemma_pow0(x as int);
        assert(bn_val_n(r@, 0) == 0);
        assert(bn_val(r@) == 1);
    }
    let mut i: u64 = 0;
    while i < e
        invariant
            i <= e,
            bn_val(r@) == pow(x as int, i as nat),
        decreases e - i,
    {
        r = bn_mul_small(&r, x);
        proof {
            lemma_pow_succ(x as int, i as nat);
            lemma_mul_is_commutative(pow(x as int, i as nat), x as int);
        }
        i += 1;
    }
    let mut j: u64 = 0;
    proof {
        lemma_pow0(y as int);
    }
    while j < f
        invariant
            j <= f,
            bn_val(r@) == pow(x as int, e as nat) * pow(y as int, j as nat),
        decreases f - j,
    {
        r = bn_mul_small(&r, y);
        proof {
            lemma_pow_succ(y as int, j as nat);
            let px = pow(x as int, e as nat);
            let py = pow(y as int, j as nat);
            vstd::arithmetic::mul::lemma_mul_is_associative(px, py, y as int);
            lemma_mul_is_commutative(py, y as int);
        }
        j += 1;
    }
    r
}

/// Compare two multi-limb integers by value.
pub(crate) fn bn_le(a: &Vec<u64>, b: &Vec<u64>) -> (r: bool)
    ensures
        r == (bn_val(a@) <= bn_val(b@)),
{
    let n = if a.len() >= b.len() {
        a.len()
    } else {
        b.len()
    };
    proof {
        lemma_bn_val_n_beyond(a@, n as nat);
        lemma_bn_val_n_beyond(b@, n as nat);
    }
    let mut i: usize = n;
    while i > 0
        invariant
            i <= n,
            a.len() <= n,
            b.len() <= n,
            bn_val_n(a@, n as nat) == bn_val(a@),
            bn_val_n(b@, n as nat) == bn_val(b@),
            forall|j: int| i <= j < n ==> limb(a@, j) == limb(b@, j),
        decreases i,
    {
        i -= 1;
        let la = if i < a.len() {
            a[i]
        } else {
            0
        };
        let lb = if i < b.len() {
            b[i]
        } else {
            0
        };
        if la < lb {
            proof {
                lemma_bn_cmp(a@, b@, n as nat, i as nat);
            }
            return true;
        }
        if la > lb {
            proof {
                lemma_bn_cmp(b@, a@, n as nat, i as nat);
            }
            return false;
        }
    }
    proof {
        lemma_bn_val_n_agree(a@, b@, n as nat);
    }
    true
}

/// `q^d * p^n <= b^d * r^n`: whether `q` is still below
/// `b * (r / p) ^ (n / d)`.
pub open spec fn pow_ratio_le(q: int, b: int, r: int, p: int, n: nat, d: nat) -> bool {
    pow(q, d) * pow(p, n) <= pow(b, d) * pow(r, n)
}

/// `q` is exactly `floor(b * (r / p) ^ (n / d))`, saturated at `u64::MAX`.
pub open spec fn is_pow_ratio_floor(q: u64, b: u64, r: u64, p: u64, n: nat, d: nat) -> bool {
    &&& pow_ratio_le(q as int, b as int, r as int, p as int, n, d)
    &&& (q == u64::MAX || !pow_ratio_le(q as int + 1, b as int, r as int, p as int, n, d))
}

pub(crate) fn pow_ratio_le_exec(q: u64, b: u64, r: u64, p: u64, n: u64, d: u64) -> (res: bool)
    ensures
        res == pow_ratio_le(q as int, b as int, r as int, p as int, n as nat, d as nat),
{
    let lhs = bn_pow_product(q, d, p, n);
    let rhs = bn_pow_product(b, d, r, n);
    bn_le(&lhs, &rhs)
}

/// Monotonicity in the base: `a <= b` gives `a^e <= b^e`.
pub proof fn lemma_pow_le_base(a: int, b: int, e: nat)
    requires
        0 <= a <= b,
    ensures
        pow(a, e) <= pow(b, e),
    decreases e,
{
    reveal(pow);
    if e > 0 {
        let m = (e - 1) as nat;
        lemma_pow_le_base(a, b, m);
        lemma_pow_nonneg(a, m);
        lemma_pow_nonneg(b, m);
        assert(a * pow(a, m) <= b * pow(b, m)) by (nonlinear_arith)
            requires
                0 <= a <= b,
                0 <= pow(a, m) <= pow(b, m),
        ;
    }
}

/// Strict monotonicity in the base for a positive exponent.
pub proof fn lemma_pow_lt_base(a: int, b: int, e: nat)
    requires
        0 <= a < b,
        e >= 1,
    ensures
        pow(a, e) < pow(b, e),
{
    reveal(pow);
    let m = (e - 1) as nat;
    lemma_pow_le_base(a, b, m);
    lemma_pow_nonneg(a, m);
    lemma_pow_positive(b, m);
    assert(a * pow(a, m) < b * pow(b, m)) by (nonlinear_arith)
        requires
            0 <= a < b,
            0 <= pow(a, m) <= pow(b, m),
            pow(b, m) >= 1,
    ;
}

/// The feasible set of `pow_ratio_le` is downward closed in `q`.
pub proof fn lemma_pow_ratio_le_downward(q1: int, q2: int, b: int, r: int, p: int, n: nat, d: nat)
    requires
        0 <= q1 <= q2,
        0 <= b,
        0 <= r,
        0 <= p,
        pow_ratio_le(q2, b, r, p, n, d),
    ensures
        pow_ratio_le(q1, b, r, p, n, d),
{
    lemma_pow_le_base(q1, q2, d);
    lemma_pow_nonneg(p, n);
    lemma_mul_inequality(pow(q1, d), pow(q2, d), pow(p, n));
}

/// The floor value is unique.
pub proof fn lemma_pow_ratio_floor_unique(q1: u64, q2: u64, b: u64, r: u64, p: u64, n: nat, d: nat)
    requires
        is_pow_ratio_floor(q1, b, r, p, n, d),
        is_pow_ratio_floor(q2, b, r, p, n, d),
    ensures
        q1 == q2,
{
    if q1 < q2 {
        lemma_pow_ratio_le_downward(
            q1 as int + 1,
            q2 as int,
            b as int,
            r as int,
            p as int,
            n,
            d,
        );
    }
    if q2 < q1 {
        lemma_pow_ratio_le_downward(
            q2 as int + 1,
            q1 as int,
            b as int,
            r as int,
            p as int,
            n,
            d,
        );
    }
}

/// With a larger price `p2`, the floor can only be smaller: the demand
/// curve is non-increasing in the price.
pub proof fn lemma_pow_ratio_floor_antitone_p(
    q1: u64,
    q2: u64,
    b: u64,
    r: u64,
    p1: u64,
    p2: u64,
    n: nat,
    d: nat,
)
    requires
        p1 <= p2,
        is_pow_ratio_floor(q1, b, r, p1, n, d),
        is_pow_ratio_floor(q2, b, r, p2, n, d),
    ensures
        q2 <= q1,
{
    if q2 > q1 {
        // q1 + 1 <= q2 still satisfies the bound at the lower price p1.
        lemma_pow_ratio_le_downward(
            q1 as int + 1,
            q2 as int,
            b as int,
            r as int,
            p2 as int,
            n,
            d,
        );
        lemma_pow_le_base(p1 as int, p2 as int, n);
        lemma_pow_nonneg(q1 as int + 1, d);
        lemma_mul_inequality(pow(p1 as int, n), pow(p2 as int, n), pow(q1 as int + 1, d));
        lemma_mul_is_commutative(pow(p1 as int, n), pow(q1 as int + 1, d));
        lemma_mul_is_commutative(pow(p2 as int, n), pow(q1 as int + 1, d));
        assert(pow_ratio_le(q1 as int + 1, b as int, r as int, p1 as int, n, d));
        assert(false);
    }
}

/// At the reference price (`p == r`) the floor is the base itself.
pub proof fn lemma_pow_ratio_floor_identity(q: u64, b: u64, r: u64, n: nat, d: nat)
    requires
        d >= 1,
        r >= 1,
        is_pow_ratio_floor(q, b, r, r, n, d),
    ensures
        q == b,
{
    assert(pow_ratio_le(b as int, b as int, r as int, r as int, n, d));
    if b < u64::MAX {
        lemma_pow_lt_base(b as int, b as int + 1, d);
        lemma_pow_positive(r as int, n);
        assert(pow(b as int + 1, d) * pow(r as int, n) > pow(b as int, d) * pow(r as int, n))
            by (nonlinear_arith)
            requires
                pow(b as int + 1, d) > pow(b as int, d),
                pow(r as int, n) >= 1,
        ;
    }
    lemma_pow_ratio_floor_unique(q, b, b, r, r, n, d);
}

/// Raising both sides to the `g`-th power preserves the comparison, so the
/// exponent fraction `n / d` may be scaled freely.
pub proof fn lemma_pow_ratio_le_scale(
    q: int,
    b: int,
    r: int,
    p: int,
    n: nat,
    d: nat,
    g: nat,
)
    requires
        g >= 1,
        0 <= q,
        0 <= b,
        0 <= r,
        0 <= p,
    ensures
        pow_ratio_le(q, b, r, p, n, d) == pow_ratio_le(q, b, r, p, n * g, d * g),
{
    let x = pow(q, d) * pow(p, n);
    let y = pow(b, d) * pow(r, n);
    lemma_pow_nonneg(q, d);
    lemma_pow_nonneg(p, n);
    lemma_pow_nonneg(b, d);
    lemma_pow_nonneg(r, n);
    lemma_mul_nonnegative(pow(q, d), pow(p, n));
    lemma_mul_nonnegative(pow(b, d), pow(r, n));
    assert(pow(x, g) == pow(q, d * g) * pow(p, n * g)) by {
        lemma_pow_distributes(pow(q, d), pow(p, n), g);
        lemma_pow_multiplies(q, d, g);
        lemma_pow_multiplies(p, n, g);
    };
    assert(pow(y, g) == pow(b, d * g) * pow(r, n * g)) by {
        lemma_pow_distributes(pow(b, d), pow(r, n), g);
        lemma_pow_multiplies(b, d, g);
        lemma_pow_multiplies(r, n, g);
    };
    if x <= y {
        lemma_pow_le_base(x, y, g);
    }
    if pow(x, g) <= pow(y, g) && x > y {
        lemma_pow_lt_base(y, x, g);
        assert(false);
    }
}

/// Greatest `q` with `q^d * p^n <= b^d * r^n`, saturated at `u64::MAX`.
pub(crate) fn pow_ratio_floor(b: u64, r: u64, p: u64, n: u64, d: u64) -> (q: u64)
    requires
        d >= 1,
    ensures
        is_pow_ratio_floor(q, b, r, p, n as nat, d as nat),
{
    let mut lo: u64 = 0;
    let mut hi: u64 = u64::MAX;
    proof {
        lemma0_pow(d as nat);
        lemma_pow_nonneg(p as int, n as nat);
        lemma_pow_nonneg(b as int, d as nat);
        lemma_pow_nonneg(r as int, n as nat);
        lemma_mul_nonnegative(pow(b as int, d as nat), pow(r as int, n as nat));
    }
    while lo < hi
        invariant
            lo <= hi,
            pow_ratio_le(lo as int, b as int, r as int, p as int, n as nat, d as nat),
            hi == u64::MAX || !pow_ratio_le(
                hi as int + 1,
                b as int,
                r as int,
                p as int,
                n as nat,
                d as nat,
            ),
        decreases hi - lo,
    {
        let mid = lo + (hi - lo) / 2 + 1;
        if pow_ratio_le_exec(mid, b, r, p, n, d) {
            lo = mid;
        } else {
            hi = mid - 1;
        }
    }
    lo
}

} // verus!

verus! {

/// Greatest `q` with `q^1000 * den^m <= mult^1000 * num^m`, i.e. the exact
/// floor of `mult * (num / den) ^ (m / 1000)`, saturated at `u64::MAX`.
/// The exponent fraction is reduced by its common factors of 2 and 5
/// before the power comparisons so they stay small.
pub fn pow_ratio_floor_milli(mult: u64, num: u64, den: u64, m: u64) -> (q: u64)
    ensures
        is_pow_ratio_floor(q, mult, num, den, m as nat, 1000),
{
    let ghost m0 = m as nat;
    let mut n: u64 = m;
    let mut d: u64 = 1000;
    let ghost mut g: nat = 1nat;
    while n % 2 == 0 && d % 2 == 0
        invariant
            n as nat * g == m0,
            d as nat * g == 1000,
            1 <= d,
            1 <= g,
        decreases d,
    {
        proof {
            lemma_fundamental_div_mod(n as int, 2);
            lemma_fundamental_div_mod(d as int, 2);
            assert((n / 2) as nat * (g * 2) == m0) by (nonlinear_arith)
                requires
                    n as nat * g == m0,
                    n as int == 2 * ((n / 2) as int),
            ;
            assert((d / 2) as nat * (g * 2) == 1000) by (nonlinear_arith)
                requires
                    d as nat * g == 1000,
                    d as int == 2 * ((d / 2) as int),
            ;
        }
        n = n / 2;
        d = d / 2;
        proof {
            g = g * 2;
        }
    }
    while n % 5 == 0 && d % 5 == 0
        invariant
            n as nat * g == m0,
            d as nat * g == 1000,
            1 <= d,
            1 <= g,
        decreases d,
    {
        proof {
            lemma_fundamental_div_mod(n as int, 5);
            lemma_fundamental_div_mod(d as int, 5);
            assert((n / 5) as nat * (g * 5) == m0) by (nonlinear_arith)
                requires
                    n as nat * g == m0,
                    n as int == 5 * ((n / 5) as int),
            ;
            assert((d / 5) as nat * (g * 5) == 1000) by (nonlinear_arith)
                requires
                    d as nat * g == 1000,
                    d as int == 5 * ((d / 5) as int),
            ;
        }
        n = n / 5;
        d = d / 5;
        proof {
            g = g * 5;
        }
    }
    let q = pow_ratio_floor(mult, num, den, n, d);
    proof {
        lemma_pow_ratio_le_scale(q as int, mult as int, num as int, den as int, n as nat, d as nat, g);
        if q < u64::MAX {
            lemma_pow_ratio_le_scale(
                q as int + 1,
                mult as int,
                num as int,
                den as int,
                n as nat,
                d as nat,
                g,
            );
        }
    }
    q
}

} // verus!
