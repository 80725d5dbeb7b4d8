//! Number formats shared by the whole engine, and exact division helpers.
//!
//! * A **sample** is an `i32` counting units of 2^-24, so `SAMPLE_ONE` is
//!   full scale (1.0) and the type spans roughly -128.0 to +128.0.
//! * A **position** (`u128`) and a **pitch ratio** (`u64`) count units of
//!   2^-32 of one buffer slot, so `POSITION_ONE` is one whole slot.
//! * A **control parameter** is an `i32`; the panel range is 0 to 127 and a
//!   parameter `p` stands for the fraction `p / 127`.

use vstd::arithmetic::div_mod::{
    lemma_fundamental_div_mod, lemma_fundamental_div_mod_converse, lemma_mod_bound,
};
use vstd::prelude::*;

verus! {

/// Raw value of the sample 1.0.
pub const SAMPLE_ONE: i32 = 16777216;

/// Raw value of a position or ratio of exactly one buffer slot.
pub const POSITION_ONE: u64 = 4294967296;

/// `x` limited to the closed interval from `lo` to `hi`.
pub open spec fn clamp(x: int, lo: int, hi: int) -> int {
    if x < lo {
        lo
    } else if x > hi {
        hi
    } else {
        x
    }
}

/// The integer nearest to `n / d`, a tie going away from zero.
pub open spec fn round_div(n: int, d: int) -> int
    recommends
        d > 0,
{
    if n >= 0 {
        (2 * n + d) / (2 * d)
    } else {
        -((2 * (-n) + d) / (2 * d))
    }
}

/// The whole part of `n / d` for a positive quotient, and zero otherwise.
pub open spec fn whole_div(n: int, d: int) -> int
    recommends
        d > 0,
{
    if n <= 0 {
        0
    } else {
        n / d
    }
}

/// A numerator within `m` denominators of zero rounds to within `m` of zero.
pub proof fn lemma_round_div_bound(n: int, d: int, m: int)
    requires
        d > 0,
        m >= 0,
        -(m * d) <= n <= m * d,
    ensures
        -m <= round_div(n, d) <= m,
{
    let a: int = if n >= 0 { n } else { -n };
    let q: int = (2 * a + d) / (2 * d);
    assert(0 <= q <= m) by (nonlinear_arith)
        requires
            d > 0,
            m >= 0,
            0 <= a <= m * d,
            q == (2 * a + d) / (2 * d),
    ;
}

/// An exact multiple of the denominator rounds to its quotient.
pub proof fn lemma_round_div_exact(k: int, d: int)
    requires
        d > 0,
    ensures
        round_div(k * d, d) == k,
{
    let a: int = if k >= 0 { k } else { -k };
    assert((2 * (a * d) + d) / (2 * d) == a) by (nonlinear_arith)
        requires
            d > 0,
            a >= 0,
    ;
    assert(k >= 0 ==> k * d >= 0 && k * d == a * d) by (nonlinear_arith)
        requires
            d > 0,
            a == if k >= 0 { k } else { -k },
    ;
    assert(k < 0 ==> k * d < 0 && -(k * d) == a * d) by (nonlinear_arith)
        requires
            d > 0,
            a == if k >= 0 { k } else { -k },
    ;
}

/// The rounded quotient lies within half a denominator of the exact one.
pub proof fn lemma_round_div_error(n: int, d: int)
    requires
        d > 0,
    ensures
        -d <= 2 * (round_div(n, d) * d - n) <= d,
{
    let a: int = if n >= 0 { n } else { -n };
    let q: int = (2 * a + d) / (2 * d);
    assert(-d <= 2 * (q * d - a) <= d) by (nonlinear_arith)
        requires
            d > 0,
            a >= 0,
            q == (2 * a + d) / (2 * d),
    ;
    if n < 0 {
        assert((-q) * d == -(q * d)) by (nonlinear_arith);
    }
}

/// Rounding never reorders: a larger numerator gives no smaller result.
pub proof fn lemma_round_div_monotonic(a: int, b: int, d: int)
    requires
        d > 0,
        a <= b,
    ensures
        round_div(a, d) <= round_div(b, d),
{
    let pa: int = if a >= 0 { a } else { -a };
    let pb: int = if b >= 0 { b } else { -b };
    let qa: int = (2 * pa + d) / (2 * d);
    let qb: int = (2 * pb + d) / (2 * d);
    assert(qa >= 0 && qb >= 0) by (nonlinear_arith)
        requires
            d > 0,
            pa >= 0,
            pb >= 0,
            qa == (2 * pa + d) / (2 * d),
            qb == (2 * pb + d) / (2 * d),
    ;
    if a >= 0 {
        assert(qa <= qb) by (nonlinear_arith)
            requires
                d > 0,
                0 <= pa <= pb,
                qa == (2 * pa + d) / (2 * d),
                qb == (2 * pb + d) / (2 * d),
        ;
    } else if b < 0 {
        assert(qb <= qa) by (nonlinear_arith)
            requires
                d > 0,
                0 <= pb <= pa,
                qa == (2 * pa + d) / (2 * d),
                qb == (2 * pb + d) / (2 * d),
        ;
    }
}

/// Computes [`round_div`] on machine integers.
pub fn rounded_quotient(n: i128, d: i128) -> (r: i128)
    requires
        0 < d <= 0x1000_0000_0000_0000_0000_0000_0000_0000,
        -0x1000_0000_0000_0000_0000_0000_0000_0000 <= n <= 0x1000_0000_0000_0000_0000_0000_0000_0000,
    ensures
        r == round_div(n as int, d as int),
{
    if n >= 0 {
        (2 * n + d) / (2 * d)
    } else {
        let q: i128 = (2 * (-n) + d) / (2 * d);
        assert(q >= 0) by (nonlinear_arith)
            requires
                q == (2 * (-(n as int)) + d) / (2 * d),
                d > 0,
                n < 0,
        ;
        -q
    }
}

/// Computes [`whole_div`] on machine integers.
pub fn whole_quotient(n: i128, d: i128) -> (r: i128)
    requires
        d > 0,
    ensures
        r == whole_div(n as int, d as int),
        r >= 0,
        n > 0 ==> r <= n,
{
    if n <= 0 {
        0
    } else {
        let q: i128 = n / d;
        assert(0 <= q <= n) by (nonlinear_arith)
            requires
                q == (n as int) / (d as int),
                n > 0,
                d > 0,
        ;
        q
    }
}

/// How quotient and remainder by `d` move when the dividend grows by one.
pub proof fn lemma_div_mod_successor(n: int, d: int)
    requires
        n >= 0,
        d >= 1,
    ensures
        0 <= n % d < d,
        n % d + 1 < d ==> (n + 1) / d == n / d && (n + 1) % d == n % d + 1,
        n % d + 1 >= d ==> (n + 1) / d == n / d + 1 && (n + 1) % d == 0,
{
    let q = n / d;
    let r = n % d;
    lemma_fundamental_div_mod(n, d);
    lemma_mod_bound(n, d);
    if r + 1 < d {
        assert(n + 1 == q * d + (r + 1)) by (nonlinear_arith)
            requires
                n == d * q + r,
        ;
        lemma_fundamental_div_mod_converse(n + 1, d, q, r + 1);
    } else {
        assert(n + 1 == (q + 1) * d + 0) by (nonlinear_arith)
            requires
                n == d * q + r,
                r + 1 == d,
        ;
        lemma_fundamental_div_mod_converse(n + 1, d, q + 1, 0);
    }
}

/// A dividend below `d * t` has a quotient below `t`, and `d * t` itself has
/// the quotient `t` with no remainder.
pub proof fn lemma_div_below_multiple(n: int, d: int, t: int)
    requires
        n >= 0,
        d >= 1,
        t >= 0,
    ensures
        n < d * t ==> n / d < t,
        n == d * t ==> n / d == t && n % d == 0,
        n > d * t ==> n / d >= t,
{
    let q = n / d;
    let r = n % d;
    lemma_fundamental_div_mod(n, d);
    lemma_mod_bound(n, d);
    if n < d * t {
        assert(q < t) by (nonlinear_arith)
            requires
                n == d * q + r,
                0 <= r,
                n < d * t,
                d >= 1,
        ;
    } else if n == d * t {
        assert(n == t * d + 0) by (nonlinear_arith)
            requires
                n == d * t,
        ;
        lemma_fundamental_div_mod_converse(n, d, t, 0);
    } else {
        assert(q >= t) by (nonlinear_arith)
            requires
                n == d * q + r,
                r < d,
                n > d * t,
                d >= 1,
        ;
    }
}

} // verus!
