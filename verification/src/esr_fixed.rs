//! Fixed-point arithmetic for the scores.
//!
//! Nothing here is a floating-point number. Weights are whole numbers of
//! thousandths, counts are whole numbers of millionths, and a count times a
//! weight is a contribution in billionths; times are whole numbers of
//! billionths of a month. Roots are rounded down, so every score is an exact
//! integer that the same record always gives again.

use vstd::prelude::*;

verus! {

/// Seconds in one synthetic month of 30.5 days.
pub const SECONDS_PER_MONTH: u64 = 2_635_200;

/// The largest whole number whose square root `sqrt_of_count` takes.
pub const MAX_ROOT_COUNT: u128 = 0xffff_ffff_ffff_ffff_ffff;

/// No time between two moments of the clock is longer than this, in
/// billionths of a month.
pub const MAX_MONTHS: u128 = 0x200_0000_0000_0000_0000;

/// `r` is the integer square root of `n`: the largest natural number whose
/// square does not exceed `n`.
pub open spec fn is_isqrt(n: nat, r: nat) -> bool {
    r * r <= n && n < (r + 1) * (r + 1)
}

/// The integer square root of `n`.
pub open spec fn spec_isqrt(n: nat) -> nat {
    choose|r: nat| is_isqrt(n, r)
}

/// A number of seconds in billionths of a synthetic month, rounded down.
pub open spec fn spec_months(secs: nat) -> nat {
    secs * 1_000_000_000 / (SECONDS_PER_MONTH as nat)
}

/// The square root of a time in months, in millionths and rounded down. The
/// time is given in billionths of a month.
pub open spec fn spec_sqrt_of_months(months: nat) -> nat {
    spec_isqrt(months * 1000)
}

/// The square root of a whole number, in millionths and rounded down.
pub open spec fn spec_sqrt_of_count(n: nat) -> nat {
    spec_isqrt(n * 1_000_000_000_000)
}

/// A time in months to the power of one and a half, in millionths: the time
/// multiplied by its square root, the root being taken to nine decimals and
/// the product rounded down. The time is given in billionths of a month.
pub open spec fn spec_pow15_of_months(months: nat) -> nat {
    months * spec_isqrt(months * 1_000_000_000) / 1_000_000_000_000
}

/// Squaring keeps the order of natural numbers.
pub proof fn lemma_square_monotone(a: nat, b: nat)
    requires
        a <= b,
    ensures
        a * a <= b * b,
{
    assert(a * a <= b * b) by (nonlinear_arith)
        requires
            a <= b,
    ;
}

/// A number has at most one integer square root.
pub proof fn lemma_isqrt_unique(n: nat, r1: nat, r2: nat)
    requires
        is_isqrt(n, r1),
        is_isqrt(n, r2),
    ensures
        r1 == r2,
{
    if r1 < r2 {
        lemma_square_monotone(r1 + 1, r2);
    } else if r2 < r1 {
        lemma_square_monotone(r2 + 1, r1);
    }
}

/// Whatever meets `is_isqrt` is the integer square root.
pub proof fn lemma_isqrt_is(n: nat, r: nat)
    requires
        is_isqrt(n, r),
    ensures
        spec_isqrt(n) == r,
{
    lemma_isqrt_unique(n, r, spec_isqrt(n));
}

/// Integer square root by bisection.
pub fn isqrt(n: u128) -> (r: u128)
    ensures
        is_isqrt(n as nat, r as nat),
        r as nat == spec_isqrt(n as nat),
        r <= 0xffff_ffff_ffff_ffff,
{
    let mut lo: u128 = 0;
    let mut hi: u128 = 0x1_0000_0000_0000_0000;
    assert(0x1_0000_0000_0000_0000int * 0x1_0000_0000_0000_0000int
        == 0x1_0000_0000_0000_0000_0000_0000_0000_0000int) by (nonlinear_arith);
    while hi - lo > 1
        invariant
            lo < hi <= 0x1_0000_0000_0000_0000,
            lo * lo <= n,
            n < hi * hi,
        decreases hi - lo,
    {
        let mid: u128 = lo + (hi - lo) / 2;
        assert(mid * mid <= 0xffff_ffff_ffff_ffff * 0xffff_ffff_ffff_ffff) by (nonlinear_arith)
            requires
                0 <= mid <= 0xffff_ffff_ffff_ffff,
        ;
        assert(0xffff_ffff_ffff_ffffint * 0xffff_ffff_ffff_ffffint
            < 0x1_0000_0000_0000_0000_0000_0000_0000_0000int) by (nonlinear_arith);
        if mid * mid <= n {
            lo = mid;
        } else {
            hi = mid;
        }
    }
    proof {
        lemma_isqrt_is(n as nat, lo as nat);
    }
    lo
}

/// The square root of a number below `bound * bound` is below `bound`.
pub proof fn lemma_isqrt_below(n: nat, r: nat, bound: nat)
    requires
        is_isqrt(n, r),
        n < bound * bound,
    ensures
        r < bound,
{
    if r >= bound {
        lemma_square_monotone(bound, r);
    }
}

/// The square root of a time in months, in millionths.
pub fn sqrt_of_months(months: u128) -> (r: u128)
    requires
        months <= MAX_MONTHS,
    ensures
        r as nat == spec_sqrt_of_months(months as nat),
        r <= 0xffff_ffff_ffff_ffff,
{
    isqrt(months * 1000)
}

/// The square root of a whole number, in millionths.
pub fn sqrt_of_count(n: u128) -> (r: u128)
    requires
        n <= MAX_ROOT_COUNT,
    ensures
        r as nat == spec_sqrt_of_count(n as nat),
        r <= 0xffff_ffff_ffff_ffff,
{
    isqrt(n * 1_000_000_000_000)
}

/// A time in months to the power of one and a half, in millionths.
pub fn pow15_of_months(months: u128) -> (r: u128)
    requires
        months <= MAX_MONTHS,
    ensures
        r as nat == spec_pow15_of_months(months as nat),
        r <= 0x1000_0000_0000_0000_0000_0000,
{
    let wide: u128 = months * 1_000_000_000;
    let root: u128 = isqrt(wide);
    proof {
        assert(0x10_0000_0000_0000nat * 0x10_0000_0000_0000nat
            == 0x100_0000_0000_0000_0000_0000_0000nat) by (nonlinear_arith);
        lemma_isqrt_below(wide as nat, root as nat, 0x10_0000_0000_0000);
    }
    assert(months * root <= 0x200_0000_0000_0000_0000 * 0x10_0000_0000_0000) by (nonlinear_arith)
        requires
            0 <= months <= 0x200_0000_0000_0000_0000,
            0 <= root <= 0x10_0000_0000_0000,
    ;
    let product: u128 = months * root;
    product / 1_000_000_000_000
}

/// A number of seconds in billionths of a synthetic month, rounded down.
pub fn months(secs: u64) -> (m: u128)
    ensures
        m as nat == spec_months(secs as nat),
        m <= MAX_MONTHS,
{
    let wide: u128 = secs as u128 * 1_000_000_000;
    wide / (SECONDS_PER_MONTH as u128)
}

/// The power of one and a half is never above the true value, and below it
/// by less than one millionth and a billionth part of the time: with `p` for
/// the power in millionths and `m` for the time in billionths of a month,
/// the true value lies from `p` to `p + 1 + m / 10^12` millionths.
pub proof fn lemma_pow15_is_close(months: nat)
    ensures
        ({
            let p = spec_pow15_of_months(months);
            &&& p * p * 1_000_000_000_000_000 <= months * months * months
            &&& months * months * months * 1_000_000_000 < (1_000_000_000_000 * (p + 1) + months)
                * (1_000_000_000_000 * (p + 1) + months)
        }),
{
    let m = months as int;
    let r = spec_isqrt(months * 1_000_000_000) as int;
    let p = spec_pow15_of_months(months) as int;
    lemma_isqrt_exists(months * 1_000_000_000);
    assert(r * r <= m * 1_000_000_000 < (r + 1) * (r + 1));
    assert(p == (m * r) / 1_000_000_000_000);
    assert(1_000_000_000_000 * p <= m * r < 1_000_000_000_000 * (p + 1)) by (nonlinear_arith)
        requires
            p == (m * r) / 1_000_000_000_000,
            m * r >= 0,
    ;
    // from below
    assert((1_000_000_000_000 * p) * (1_000_000_000_000 * p) <= (m * r) * (m * r))
        by (nonlinear_arith)
        requires
            0 <= 1_000_000_000_000 * p <= m * r,
    ;
    assert((m * r) * (m * r) <= m * m * (m * 1_000_000_000)) by (nonlinear_arith)
        requires
            r * r <= m * 1_000_000_000,
            m >= 0,
    ;
    assert(p * p * 1_000_000_000_000_000 <= m * m * m) by (nonlinear_arith)
        requires
            (1_000_000_000_000 * p) * (1_000_000_000_000 * p) <= m * m * (m * 1_000_000_000),
    ;
    // from above
    let top = 1_000_000_000_000 * (p + 1) + m;
    assert(m * (r + 1) <= top) by (nonlinear_arith)
        requires
            m * r < 1_000_000_000_000 * (p + 1),
            top == 1_000_000_000_000 * (p + 1) + m,
    ;
    if m > 0 {
        assert(m * m * (m * 1_000_000_000) < (m * (r + 1)) * (m * (r + 1))) by (nonlinear_arith)
            requires
                m * 1_000_000_000 < (r + 1) * (r + 1),
                m > 0,
        ;
        assert((m * (r + 1)) * (m * (r + 1)) <= top * top) by (nonlinear_arith)
            requires
                0 <= m * (r + 1) <= top,
        ;
        assert(m * m * m * 1_000_000_000 == m * m * (m * 1_000_000_000)) by (nonlinear_arith);
    } else {
        assert(top * top > 0) by (nonlinear_arith)
            requires
                top > 0,
        ;
    }
}

/// Every number has an integer square root.
pub proof fn lemma_isqrt_exists(n: nat)
    ensures
        is_isqrt(n, spec_isqrt(n)),
    decreases n,
{
    if n == 0 {
        assert(0nat * 0nat == 0 && (0nat + 1) * (0nat + 1) == 1) by (nonlinear_arith);
        assert(is_isqrt(0, 0));
    } else {
        lemma_isqrt_exists((n - 1) as nat);
        let r = spec_isqrt((n - 1) as nat);
        if n < (r + 1) * (r + 1) {
            assert(is_isqrt(n, r));
        } else {
            assert(n == (r + 1) * (r + 1));
            assert((r + 1) * (r + 1) < (r + 2) * (r + 2)) by (nonlinear_arith)
                requires
                    r >= 0,
            ;
            assert(is_isqrt(n, r + 1));
        }
    }
}

} // verus!
