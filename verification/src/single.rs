//! Single-precision (IEEE 754 binary32) rounding, carried out on integers.
//!
//! The number of fragments of a firmware image is defined by a single-precision division that
//! is rounded up.  A single-precision number has 24 significant bits, so for very large images
//! the result differs from the exact quotient.  The functions here compute the rounded results
//! exactly, and the laws at the end say where they agree with plain integer arithmetic.

use vstd::arithmetic::power2::{lemma2_to64, lemma_pow2_pos, lemma_pow2_unfold, pow2};
use vstd::prelude::*;

verus! {

/// One more than the largest 24-bit significand.
pub const SIGNIFICAND_END: u128 = 0x100_0000;

/// The smallest significand of a normal number.
pub const SIGNIFICAND_MIN: u128 = 0x80_0000;

/// `p / q` rounded to the nearest integer, ties to the even one.
pub open spec fn nearest_even(p: nat, q: nat) -> nat {
    let floor = p / q;
    let rest = p % q;
    if 2 * rest < q || (2 * rest == q && floor % 2 == 0) {
        floor
    } else {
        floor + 1
    }
}

/// `p / q` rounded up to an integer.
pub open spec fn ceiling(p: nat, q: nat) -> nat {
    (p + q - 1) as nat / q
}

/// How often `q` has to be doubled until `p / q` is below 2^24.
pub open spec fn coarse_exponent(p: nat, q: nat) -> nat
    decreases p - q,
{
    if q == 0 || p < SIGNIFICAND_END * q {
        0
    } else {
        1 + coarse_exponent(p, 2 * q)
    }
}

/// How often `p` has to be doubled until `p / q` is at least 2^23.
pub open spec fn fine_exponent(p: nat, q: nat) -> nat
    decreases (if p < SIGNIFICAND_MIN * q { SIGNIFICAND_MIN * q - p } else { 0 }),
{
    if p == 0 || p >= SIGNIFICAND_MIN * q {
        0
    } else {
        1 + fine_exponent(2 * p, q)
    }
}

/// The single-precision number nearest to the integer `n`, ties to even.
pub open spec fn single_of_int(n: nat) -> nat {
    let unit = pow2(coarse_exponent(n, 1));
    nearest_even(n, unit) * unit
}

/// The single-precision quotient of `p` and `q`, rounded up to an integer.
///
/// The quotient is first rounded to 24 significant bits, ties to even, and then upwards.
pub open spec fn single_quotient_ceiling(p: nat, q: nat) -> nat {
    if p == 0 {
        0
    } else if p >= SIGNIFICAND_MIN * q {
        let unit = pow2(coarse_exponent(p, q));
        nearest_even(p, q * unit) * unit
    } else {
        let unit = pow2(fine_exponent(p, q));
        ceiling(nearest_even(p * unit, q), unit)
    }
}

/// `n` as a `usize`, or the largest `usize` if `n` does not fit.
pub open spec fn saturate(n: nat) -> usize {
    if n <= usize::MAX {
        n as usize
    } else {
        usize::MAX
    }
}

/// Divides and rounds to the nearest integer, ties to even.
fn div_nearest_even(p: u128, q: u128) -> (n: u128)
    requires
        0 < q <= u128::MAX / 2,
        p < u128::MAX,
    ensures
        n == nearest_even(p as nat, q as nat),
        n <= p + 1,
{
    let floor: u128 = p / q;
    let rest: u128 = p % q;
    assert(floor <= p) by (nonlinear_arith)
        requires
            floor == p / q,
            q > 0,
    ;
    if 2 * rest < q || (2 * rest == q && floor % 2 == 0) {
        floor
    } else {
        floor + 1
    }
}

/// The power of two by which `q` has to be scaled so that `p / q` is below 2^24.
fn coarse_unit(p: u128, q: u128) -> (unit: u128)
    requires
        p < 0x2_0000_0000_0000_0000_0000,
        0 < q <= 0x4_0000_0000_0000_0000,
    ensures
        unit == pow2(coarse_exponent(p as nat, q as nat)),
        unit >= 1,
        unit == 1 || q * unit <= p,
{
    let mut unit: u128 = 1;
    let mut scaled: u128 = q;
    let ghost mut steps: nat = 0;
    proof {
        lemma_pow2_zero();
    }
    while p >= SIGNIFICAND_END * scaled
        invariant
            p < 0x2_0000_0000_0000_0000_0000,
            0 < q <= scaled <= 0x2_0000_0000_0000_0000_0000,
            1 <= unit <= scaled,
            scaled == q * unit,
            unit == pow2(steps),
            unit == 1 || q * unit <= p,
            coarse_exponent(p as nat, q as nat) == steps + coarse_exponent(
                p as nat,
                scaled as nat,
            ),
        decreases p - scaled,
    {
        proof {
            lemma_pow2_unfold(steps + 1);
            assert(q * (2 * unit) == 2 * scaled) by (nonlinear_arith)
                requires
                    scaled == q * unit,
            ;
            steps = steps + 1;
        }
        unit = 2 * unit;
        scaled = 2 * scaled;
    }
    unit
}

/// Rounds an integer to the nearest single-precision number.
pub fn round_to_single(n: u128) -> (rounded: u128)
    requires
        n < 0x1_0000_0000_0000_0000_0000,
    ensures
        rounded == single_of_int(n as nat),
        rounded <= 2 * n,
        n > 0 ==> rounded > 0,
{
    let unit: u128 = coarse_unit(n, 1);
    let nearest: u128 = div_nearest_even(n, unit);
    proof {
        lemma_nearest_even_times(n as nat, unit as nat);
    }
    nearest * unit
}

/// Divides in single precision and rounds the quotient up to an integer.
pub fn quotient_ceiling(p: u128, q: u128) -> (n: u128)
    requires
        p < 0x2_0000_0000_0000_0000_0000,
        0 < q <= 0x4_0000_0000_0000_0000,
    ensures
        n == single_quotient_ceiling(p as nat, q as nat),
{
    if p == 0 {
        return 0;
    }
    if p >= SIGNIFICAND_MIN * q {
        let unit: u128 = coarse_unit(p, q);
        proof {
            assert(q * 1 == q);
            assert(1 <= q * unit && unit <= q * unit) by (nonlinear_arith)
                requires
                    q >= 1,
                    unit >= 1,
            ;
            lemma_nearest_even_times(p as nat, (q * unit) as nat);
            let nearest = nearest_even(p as nat, (q * unit) as nat);
            assert(nearest * unit <= nearest * (q * unit)) by (nonlinear_arith)
                requires
                    unit <= q * unit,
                    nearest >= 0,
            ;
        }
        let nearest: u128 = div_nearest_even(p, q * unit);
        nearest * unit
    } else {
        let mut unit: u128 = 1;
        let mut scaled: u128 = p;
        let ghost mut steps: nat = 0;
        proof {
            lemma_pow2_zero();
        }
        while scaled < SIGNIFICAND_MIN * q
            invariant
                0 < q <= 0x4_0000_0000_0000_0000,
                0 < p < SIGNIFICAND_MIN * q,
                1 <= unit <= scaled,
                scaled == p * unit,
                scaled < 2 * (SIGNIFICAND_MIN * q),
                unit == pow2(steps),
                fine_exponent(p as nat, q as nat) == steps + fine_exponent(
                    scaled as nat,
                    q as nat,
                ),
            decreases 2 * (SIGNIFICAND_MIN * q) - scaled,
        {
            proof {
                lemma_pow2_unfold(steps + 1);
                assert(p * (2 * unit) == 2 * scaled) by (nonlinear_arith)
                    requires
                        scaled == p * unit,
                ;
                steps = steps + 1;
            }
            unit = 2 * unit;
            scaled = 2 * scaled;
        }
        let nearest: u128 = div_nearest_even(scaled, q);
        (nearest + (unit - 1)) / unit
    }
}

/// Integers below 2^24 are single-precision numbers.
pub proof fn law_small_integers_are_exact(n: nat)
    requires
        n < SIGNIFICAND_END,
    ensures
        single_of_int(n) == n,
{
    lemma_pow2_zero();
    assert(n / 1 == n && n % 1 == 0);
    assert(n * 1 == n);
}

/// For a dividend below 2^24 the rounded-up single-precision quotient is the exact quotient,
/// rounded up.
pub proof fn law_small_quotients_are_exact(p: nat, q: nat)
    requires
        p < SIGNIFICAND_END,
        0 < q,
    ensures
        single_quotient_ceiling(p, q) == ceiling(p, q),
{
    if p == 0 {
        assert((q - 1) as nat / q == 0) by (nonlinear_arith)
            requires
                q > 0,
        ;
    } else if p >= SIGNIFICAND_MIN * q {
        lemma_pow2_zero();
        assert(q == 1);
        assert(p / 1 == p && p % 1 == 0 && p * 1 == p);
    } else {
        let steps = fine_exponent(p, q);
        let unit = pow2(steps);
        lemma_fine_exponent(p, q);
        lemma_pow2_pos(steps);
        let scaled = p * unit;
        let up = ceiling(p, q);
        let nearest = nearest_even(scaled, q);
        // up - 1 < p / q <= up
        assert((up - 1) * q < p <= up * q && up >= 1) by (nonlinear_arith)
            requires
                up == (p + q - 1) as nat / q,
                p > 0,
                q > 0,
        ;
        // 2 * unit > q
        assert(p * unit <= 0xff_ffff * unit) by (nonlinear_arith)
            requires
                p <= 0xff_ffff,
        ;
        assert(2 * unit > q);
        assert(scaled <= (up * unit) * q) by (nonlinear_arith)
            requires
                scaled == p * unit,
                p <= up * q,
        ;
        lemma_nearest_even_at_most(scaled, q, up * unit);
        assert(2 * scaled > (2 * ((up - 1) * unit) + 1) * q) by (nonlinear_arith)
            requires
                scaled == p * unit,
                p >= (up - 1) * q + 1,
                2 * unit > q,
        ;
        assert((up - 1) * unit >= 0) by (nonlinear_arith)
            requires
                up >= 1,
        ;
        lemma_nearest_even_above(scaled, q, ((up - 1) * unit) as nat);
        assert((nearest + unit - 1) as nat / unit == up) by (nonlinear_arith)
            requires
                (up - 1) * unit < nearest <= up * unit,
                unit > 0,
        ;
    }
}

/// An integer of more than 24 bits lies between two single-precision numbers, `m` and `m + 1` units
/// of `2^e`.  It rounds to the nearer one, and to the even one if it lies halfway.
pub proof fn law_integers_round_to_the_nearest(n: nat, m: nat, e: nat)
    requires
        0x80_0000 <= m < 0x100_0000,
        m * pow2(e) <= n < (m + 1) * pow2(e),
    ensures
        2 * (n - m * pow2(e)) < pow2(e) ==> single_of_int(n) == m * pow2(e),
        2 * (n - m * pow2(e)) > pow2(e) ==> single_of_int(n) == (m + 1) * pow2(e),
        2 * (n - m * pow2(e)) == pow2(e) ==> single_of_int(n) == (m + m % 2) * pow2(e),
{
    let unit = pow2(e);
    lemma_pow2_pos(e);
    assert(1 * unit == unit && m * (1 * unit) == m * unit && (m + 1) * (1 * unit) == (m + 1)
        * unit);
    lemma_coarse_exponent(n, 1, m, e);
    lemma_nearest_even_between(n, unit, m);
}

/// A quotient of more than 23 bits lies between two single-precision numbers, `m` and `m + 1` units
/// of `2^e`.  It rounds to the nearer one, and to the even one if it lies halfway.
pub proof fn law_large_quotients_round_to_the_nearest(p: nat, q: nat, m: nat, e: nat)
    requires
        q > 0,
        0x80_0000 <= m < 0x100_0000,
        m * (q * pow2(e)) <= p < (m + 1) * (q * pow2(e)),
    ensures
        2 * (p - m * (q * pow2(e))) < q * pow2(e) ==> single_quotient_ceiling(p, q) == m * pow2(e),
        2 * (p - m * (q * pow2(e))) > q * pow2(e) ==> single_quotient_ceiling(p, q) == (m + 1)
            * pow2(e),
        2 * (p - m * (q * pow2(e))) == q * pow2(e) ==> single_quotient_ceiling(p, q) == (m + m % 2)
            * pow2(e),
{
    let unit = pow2(e);
    lemma_pow2_pos(e);
    assert(q * unit >= q && m * (q * unit) >= 0x80_0000 * q && q * unit > 0) by (nonlinear_arith)
        requires
            unit >= 1,
            q >= 1,
            m >= 0x80_0000,
    ;
    lemma_coarse_exponent(p, q, m, e);
    lemma_nearest_even_between(p, q * unit, m);
}

/// A smaller quotient lies between two single-precision numbers, `m` and `m + 1` units of
/// `1 / 2^f`.  It rounds to the nearer one, to the even one if it lies halfway, and from there up
/// to an integer.
pub proof fn law_small_quotients_round_to_the_nearest(p: nat, q: nat, m: nat, f: nat, rounded: nat)
    requires
        q > 0,
        f > 0,
        0x80_0000 <= m < 0x100_0000,
        m * q <= p * pow2(f) < (m + 1) * q,
        2 * (p * pow2(f) - m * q) < q ==> rounded == m,
        2 * (p * pow2(f) - m * q) > q ==> rounded == m + 1,
        2 * (p * pow2(f) - m * q) == q ==> rounded == m + m % 2,
    ensures
        rounded <= single_quotient_ceiling(p, q) * pow2(f) < rounded + pow2(f),
{
    let unit = pow2(f);
    let half = pow2((f - 1) as nat);
    lemma_pow2_pos(f);
    lemma_pow2_pos((f - 1) as nat);
    lemma_pow2_unfold(f);
    assert(p * unit == 2 * (p * half)) by (nonlinear_arith)
        requires
            unit == 2 * half,
    ;
    assert(m * q >= 0x80_0000 * q && (m + 1) * q <= 0x100_0000 * q) by (nonlinear_arith)
        requires
            0x80_0000 <= m < 0x100_0000,
    ;
    assert(p * half >= p) by (nonlinear_arith)
        requires
            half >= 1,
    ;
    if p == 0 {
        assert(p * unit == 0) by (nonlinear_arith)
            requires
                p == 0,
        ;
    }
    lemma_fine_exponent_is(p, q, f);
    lemma_nearest_even_between(p * unit, q, m);
    let s = ceiling(rounded, unit);
    assert(rounded <= s * unit && s * unit < rounded + unit) by (nonlinear_arith)
        requires
            s == (rounded + unit - 1) as nat / unit,
            unit > 0,
    ;
}

/// The coarse exponent of a quotient between `m` and `m + 1` units of `2^e`.
proof fn lemma_coarse_exponent(p: nat, q: nat, m: nat, e: nat)
    requires
        q > 0,
        SIGNIFICAND_MIN <= m < SIGNIFICAND_END,
        m * (q * pow2(e)) <= p < (m + 1) * (q * pow2(e)),
    ensures
        coarse_exponent(p, q) == e,
    decreases e,
{
    let unit = pow2(e);
    lemma_pow2_pos(e);
    assert((m + 1) * (q * unit) <= SIGNIFICAND_END * (q * unit)) by (nonlinear_arith)
        requires
            m + 1 <= SIGNIFICAND_END,
            q > 0,
            unit > 0,
    ;
    if e == 0 {
        lemma_pow2_zero();
        assert(q * 1 == q);
    } else {
        let half = pow2((e - 1) as nat);
        lemma_pow2_unfold(e);
        lemma_pow2_pos((e - 1) as nat);
        assert(q * unit == (2 * q) * half) by (nonlinear_arith)
            requires
                unit == 2 * half,
        ;
        assert(m * (q * unit) >= SIGNIFICAND_END * q) by (nonlinear_arith)
            requires
                m >= 0x80_0000,
                SIGNIFICAND_END == 0x100_0000,
                unit == 2 * half,
                half >= 1,
                q > 0,
        ;
        lemma_coarse_exponent(p, 2 * q, m, (e - 1) as nat);
    }
}

/// The fine exponent is the first one that brings a quotient to at least 2^23.
proof fn lemma_fine_exponent_is(p: nat, q: nat, f: nat)
    requires
        p > 0,
        p * pow2(f) >= SIGNIFICAND_MIN * q,
        f > 0 ==> p * pow2((f - 1) as nat) < SIGNIFICAND_MIN * q,
    ensures
        fine_exponent(p, q) == f,
    decreases f,
{
    if f == 0 {
        lemma_pow2_zero();
        assert(p * 1 == p);
    } else {
        let half = pow2((f - 1) as nat);
        lemma_pow2_unfold(f);
        lemma_pow2_pos((f - 1) as nat);
        assert(p * half >= p) by (nonlinear_arith)
            requires
                half >= 1,
        ;
        assert(p * (2 * half) == (2 * p) * half) by (nonlinear_arith);
        if f > 1 {
            let quarter = pow2((f - 2) as nat);
            lemma_pow2_unfold((f - 1) as nat);
            assert(p * (2 * quarter) == (2 * p) * quarter) by (nonlinear_arith);
        }
        lemma_fine_exponent_is(2 * p, q, (f - 1) as nat);
    }
}

/// A quotient between `m` and `m + 1` rounds to the nearer one, and to the even one halfway.
proof fn lemma_nearest_even_between(p: nat, q: nat, m: nat)
    requires
        q > 0,
        m * q <= p < (m + 1) * q,
    ensures
        2 * (p - m * q) < q ==> nearest_even(p, q) == m,
        2 * (p - m * q) > q ==> nearest_even(p, q) == m + 1,
        2 * (p - m * q) == q ==> nearest_even(p, q) == m + m % 2,
{
    assert(p / q == m && p % q == p - m * q) by (nonlinear_arith)
        requires
            q > 0,
            m * q <= p < (m + 1) * q,
    ;
}

/// Scaling by the fine exponent brings the quotient to at least 2^23.
proof fn lemma_fine_exponent(p: nat, q: nat)
    requires
        p > 0,
    ensures
        p * pow2(fine_exponent(p, q)) >= SIGNIFICAND_MIN * q,
    decreases (if p < SIGNIFICAND_MIN * q { SIGNIFICAND_MIN * q - p } else { 0 }),
{
    if p >= SIGNIFICAND_MIN * q {
        lemma_pow2_zero();
        assert(p * 1 == p);
    } else {
        lemma_fine_exponent(2 * p, q);
        let rest = fine_exponent(2 * p, q);
        lemma_pow2_unfold(rest + 1);
        assert(p * (2 * pow2(rest)) == (2 * p) * pow2(rest)) by (nonlinear_arith);
    }
}

/// A quotient that is at most an integer rounds to at most that integer.
proof fn lemma_nearest_even_at_most(p: nat, q: nat, bound: nat)
    requires
        q > 0,
        p <= bound * q,
    ensures
        nearest_even(p, q) <= bound,
{
    let floor = p / q;
    let rest = p % q;
    assert(floor * q + rest == p && 0 <= rest < q) by (nonlinear_arith)
        requires
            floor == p / q,
            rest == p % q,
            q > 0,
    ;
    if floor >= bound {
        assert(floor == bound && rest == 0) by (nonlinear_arith)
            requires
                floor * q + rest == p,
                p <= bound * q,
                floor >= bound,
                q > 0,
                rest >= 0,
        ;
    }
}

/// A quotient that is more than one half above an integer rounds to more than that integer.
proof fn lemma_nearest_even_above(p: nat, q: nat, bound: nat)
    requires
        q > 0,
        2 * p > (2 * bound + 1) * q,
    ensures
        nearest_even(p, q) > bound,
{
    let floor = p / q;
    let rest = p % q;
    assert(floor * q + rest == p && 0 <= rest < q) by (nonlinear_arith)
        requires
            floor == p / q,
            rest == p % q,
            q > 0,
    ;
    if floor <= bound {
        assert(floor == bound && 2 * rest > q) by (nonlinear_arith)
            requires
                floor * q + rest == p,
                2 * p > (2 * bound + 1) * q,
                floor <= bound,
                q > 0,
                rest < q,
        ;
    }
}

/// `nearest_even(n, unit) * unit` is at most twice `n` when `unit` is 1 or at most `n`.
proof fn lemma_nearest_even_times(n: nat, unit: nat)
    requires
        unit == 1 || 1 <= unit <= n,
    ensures
        nearest_even(n, unit) * unit <= 2 * n,
        n > 0 ==> nearest_even(n, unit) * unit > 0,
{
    let floor = n / unit;
    assert(floor * unit + n % unit == n) by (nonlinear_arith)
        requires
            floor == n / unit,
            unit > 0,
    ;
    assert((floor + 1) * unit == floor * unit + unit) by (nonlinear_arith);
    assert(floor * unit >= 0) by (nonlinear_arith);
    if unit == 1 {
        assert(n % 1 == 0);
    }
    if n > 0 {
        assert(floor >= 1) by (nonlinear_arith)
            requires
                floor == n / unit,
                1 <= unit <= n,
        ;
        assert(nearest_even(n, unit) * unit > 0) by (nonlinear_arith)
            requires
                nearest_even(n, unit) >= 1,
                unit >= 1,
        ;
    }
}

proof fn lemma_pow2_zero()
    ensures
        pow2(0) == 1,
{
    lemma2_to64();
}

}
