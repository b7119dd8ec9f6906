//! Single-precision numbers as bit patterns.
//!
//! Every real-valued parameter of the equalizer is stored as the bit pattern of
//! an IEEE 754 single-precision number, so that it fits in one machine word.
//! This module gives a pattern its numeric value and orders patterns by it.

use vstd::arithmetic::power2::*;
use vstd::prelude::*;

verus! {

/// The pattern of 0.0.
pub const ZERO: u32 = 0;

/// The pattern of 1.0.
pub const ONE: u32 = 0x3f80_0000;

/// The pattern without its sign bit.
pub open spec fn magnitude(b: u32) -> int {
    b as int % 0x8000_0000
}

/// Whether the sign bit is set.
pub open spec fn negative(b: u32) -> bool {
    b >= 0x8000_0000
}

/// Whether the pattern is no number.
pub open spec fn nan(b: u32) -> bool {
    magnitude(b) > 0x7f80_0000
}

/// The value of a pattern without sign bit, in units of the smallest positive
/// number (2 to the power of -149). Infinity comes out above every number.
pub open spec fn unsigned_value(m: int) -> int {
    let exponent = m / 0x80_0000;
    let fraction = m % 0x80_0000;
    if exponent == 0 {
        fraction
    } else {
        (0x80_0000 + fraction) * pow2((exponent - 1) as nat)
    }
}

/// The value of a pattern in units of the smallest positive number.
pub open spec fn value(b: u32) -> int {
    if negative(b) {
        -unsigned_value(magnitude(b))
    } else {
        unsigned_value(magnitude(b))
    }
}

/// The number `n` in units of the smallest positive number.
pub open spec fn units(n: int) -> int {
    n * pow2(149)
}

/// `a < b` on numbers; false where one of them is no number.
pub open spec fn lt(a: u32, b: u32) -> bool {
    !nan(a) && !nan(b) && value(a) < value(b)
}

/// `a <= b` on numbers; false where one of them is no number.
pub open spec fn le(a: u32, b: u32) -> bool {
    !nan(a) && !nan(b) && value(a) <= value(b)
}

/// The larger of two; a pattern that is no number gives way to the other one.
pub open spec fn larger(a: u32, b: u32) -> u32 {
    if nan(a) {
        b
    } else if lt(a, b) {
        b
    } else {
        a
    }
}

/// The smaller of two; a pattern that is no number gives way to the other one.
pub open spec fn smaller(a: u32, b: u32) -> u32 {
    if nan(a) {
        b
    } else if lt(b, a) {
        b
    } else {
        a
    }
}

/// `v` moved into the range from `lo` to `hi`. What is no number stays.
pub open spec fn clamped(v: u32, lo: u32, hi: u32) -> u32 {
    if lt(v, lo) {
        lo
    } else if lt(hi, v) {
        hi
    } else {
        v
    }
}

/// The absolute value.
pub open spec fn absolute(b: u32) -> u32 {
    (b as int % 0x8000_0000) as u32
}

/// A pattern with a larger magnitude stands for a number further from zero.
pub proof fn lemma_unsigned_value_increases(m: int, n: int)
    requires
        0 <= m < n,
    ensures
        unsigned_value(m) < unsigned_value(n),
{
    let e1 = m / 0x80_0000;
    let f1 = m % 0x80_0000;
    let e2 = n / 0x80_0000;
    let f2 = n % 0x80_0000;
    if e1 == e2 {
        assert(f1 < f2);
        if e1 > 0 {
            let p = pow2((e1 - 1) as nat) as int;
            lemma_pow2_pos((e1 - 1) as nat);
            assert((0x80_0000 + f1) * p < (0x80_0000 + f2) * p) by (nonlinear_arith)
                requires
                    f1 < f2,
                    p > 0,
            ;
        }
    } else {
        assert(e1 < e2);
        let p2 = pow2((e2 - 1) as nat) as int;
        lemma_pow2_pos((e2 - 1) as nat);
        assert((0x80_0000 + f2) * p2 >= 0x80_0000 * p2) by (nonlinear_arith)
            requires
                f2 >= 0,
                p2 > 0,
        ;
        if e1 > 0 {
            let p1 = pow2((e1 - 1) as nat) as int;
            lemma_pow2_pos((e1 - 1) as nat);
            lemma_pow2_unfold(e1 as nat);
            assert(pow2(e1 as nat) == 2 * p1);
            if e1 < e2 - 1 {
                lemma_pow2_strictly_increases(e1 as nat, (e2 - 1) as nat);
            }
            assert(2 * p1 <= p2);
            assert((0x80_0000 + f1) * p1 < 0x100_0000 * p1) by (nonlinear_arith)
                requires
                    f1 < 0x80_0000,
                    p1 > 0,
            ;
        }
    }
}

/// Different magnitudes stand for different numbers, none of them negative.
proof fn lemma_unsigned_value_order(m: int, n: int)
    requires
        0 <= m,
        0 <= n,
    ensures
        m < n <==> unsigned_value(m) < unsigned_value(n),
        m == n <==> unsigned_value(m) == unsigned_value(n),
        0 <= unsigned_value(m),
        m == 0 <==> unsigned_value(m) == 0,
{
    if m < n {
        lemma_unsigned_value_increases(m, n);
    } else if n < m {
        lemma_unsigned_value_increases(n, m);
    }
    assert(unsigned_value(0) == 0);
    if 0 < m {
        lemma_unsigned_value_increases(0, m);
    }
}

/// Patterns without sign are ordered as the numbers they stand for.
pub proof fn lemma_order_of_patterns(a: u32, b: u32)
    requires
        a < 0x8000_0000,
        b < 0x8000_0000,
    ensures
        a < b <==> value(a) < value(b),
        value(a) >= 0,
{
    lemma_unsigned_value_order(a as int, b as int);
}

/// The value of a positive pattern of a whole number `n` below 2 to the power of
/// 24: its exponent field is `127 + k` where `n` lies between the powers `k` and
/// `k + 1` of two.
pub proof fn lemma_whole_number(b: u32, n: int, exponent: int, fraction: int, k: nat)
    requires
        exponent == 127 + k,
        k <= 23,
        0 <= fraction < 0x80_0000,
        b as int == exponent * 0x80_0000 + fraction,
        0x80_0000 + fraction == n * pow2((23 - k) as nat),
    ensures
        value(b) == units(n),
        !nan(b),
{
    assert(b < 0x7f80_0000);
    assert(magnitude(b) == b as int);
    assert(b as int / 0x80_0000 == exponent);
    assert(b as int % 0x80_0000 == fraction);
    let p = pow2((23 - k) as nat) as int;
    let r = pow2((126 + k) as nat) as int;
    lemma_pow2_adds((23 - k) as nat, (126 + k) as nat);
    assert(p * r == pow2(149));
    assert((n * p) * r == n * (p * r)) by (nonlinear_arith);
}

/// Whether a pattern is no number.
pub fn is_nan(b: u32) -> (r: bool)
    ensures
        r == nan(b),
{
    b % 0x8000_0000 > 0x7f80_0000
}

/// `a < b` on numbers.
pub fn less(a: u32, b: u32) -> (r: bool)
    ensures
        r == lt(a, b),
{
    if is_nan(a) || is_nan(b) {
        return false;
    }
    let m: u32 = a % 0x8000_0000;
    let n: u32 = b % 0x8000_0000;
    proof {
        lemma_unsigned_value_order(m as int, n as int);
        lemma_unsigned_value_order(n as int, m as int);
    }
    if a >= 0x8000_0000 {
        if b >= 0x8000_0000 {
            n < m
        } else {
            m > 0 || n > 0
        }
    } else if b >= 0x8000_0000 {
        false
    } else {
        m < n
    }
}

/// The larger of two numbers.
pub fn max_of(a: u32, b: u32) -> (r: u32)
    ensures
        r == larger(a, b),
{
    if is_nan(a) || less(a, b) {
        b
    } else {
        a
    }
}

/// The smaller of two numbers.
pub fn min_of(a: u32, b: u32) -> (r: u32)
    ensures
        r == smaller(a, b),
{
    if is_nan(a) || less(b, a) {
        b
    } else {
        a
    }
}

/// Moves a number into a range.
pub fn clamp(v: u32, lo: u32, hi: u32) -> (r: u32)
    requires
        le(lo, hi),
    ensures
        r == clamped(v, lo, hi),
{
    if less(v, lo) {
        lo
    } else if less(hi, v) {
        hi
    } else {
        v
    }
}

/// The absolute value of a number.
pub fn abs(b: u32) -> (r: u32)
    ensures
        r == absolute(b),
{
    b % 0x8000_0000
}

/// A number that is moved into a range stays as it is, pattern and all, where it lies in
/// the range already; below the range it comes out at its lower end and above it at its
/// upper end. What is no number stays.
pub proof fn law_clamp_moves_only_what_is_outside(v: u32, lo: u32, hi: u32)
    requires
        le(lo, hi),
    ensures
        nan(v) ==> clamped(v, lo, hi) == v,
        !nan(v) && value(lo) <= value(v) <= value(hi) ==> clamped(v, lo, hi) == v,
        !nan(v) && value(v) < value(lo) ==> clamped(v, lo, hi) == lo,
        !nan(v) && value(v) > value(hi) ==> clamped(v, lo, hi) == hi,
{
}

/// Of two numbers the larger and the smaller are the two of them, and no number is above
/// the larger or below the smaller. What is no number gives way.
pub proof fn law_larger_and_smaller(a: u32, b: u32)
    ensures
        !nan(a) && !nan(b) ==> {
            &&& value(larger(a, b)) >= value(a) && value(larger(a, b)) >= value(b)
            &&& value(smaller(a, b)) <= value(a) && value(smaller(a, b)) <= value(b)
        },
        larger(a, b) == a || larger(a, b) == b,
        smaller(a, b) == a || smaller(a, b) == b,
        nan(a) ==> larger(a, b) == b && smaller(a, b) == b,
        nan(b) && !nan(a) ==> larger(a, b) == a && smaller(a, b) == a,
        value(a) == value(b) && !nan(a) && !nan(b) ==> larger(a, b) == a && smaller(a, b) == a,
{
}

/// The absolute value has the distance from zero of the number and is not negative.
pub proof fn law_absolute_value(b: u32)
    ensures
        nan(absolute(b)) <==> nan(b),
        !negative(absolute(b)),
        value(absolute(b)) == if value(b) < 0 {
            -value(b)
        } else {
            value(b)
        },
{
    lemma_unsigned_value_order(magnitude(b), 0);
    assert(magnitude(absolute(b)) == magnitude(b));
}

/// Of two numbers either one is less than the other or both have the same value, and the
/// order goes from one to the next.
pub proof fn law_numbers_are_ordered(a: u32, b: u32, c: u32)
    ensures
        !lt(a, a),
        !(lt(a, b) && lt(b, a)),
        !nan(a) && !nan(b) ==> lt(a, b) || lt(b, a) || value(a) == value(b),
        le(a, b) <==> lt(a, b) || (!nan(a) && !nan(b) && value(a) == value(b)),
        lt(a, b) && lt(b, c) ==> lt(a, c),
        nan(a) || nan(b) ==> !lt(a, b) && !le(a, b),
{
}

} // verus!
