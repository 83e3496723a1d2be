//! What holds of doubles: how their bits stand for numbers, that they are compared as those numbers are,
//! and that an integer becomes the double nearest to it.
use vstd::arithmetic::power2::{
    lemma2_to64, lemma2_to64_rest, lemma_pow2_adds, lemma_pow2_pos, lemma_pow2_strictly_increases,
    lemma_pow2_unfold, pow2,
};
use vstd::prelude::*;

use crate::double::{
    double_of_int, double_of_nat, lemma_top_bit, less, magnitude, nan, nan_to_zero, rounded_quotient,
    same, top_bit,
};

verus! {

/// The number that the bits without a sign stand for, in units of the least positive double: the
/// fraction, with a one before it unless the exponent is the least, shifted by the exponent.
pub open spec fn units(bits: nat) -> nat {
    let exponent = bits / 0x10_0000_0000_0000;
    let fraction = bits % 0x10_0000_0000_0000;
    if exponent == 0 {
        fraction
    } else {
        (0x10_0000_0000_0000 + fraction) * pow2((exponent - 1) as nat)
    }
}

/// The number that a double stands for, in units of the least positive one. Not for a NaN; an infinite
/// one stands beyond all others.
pub open spec fn signed_units(bits: u64) -> int {
    if bits < 0x8000_0000_0000_0000 {
        units(bits as nat) as int
    } else {
        -(units((bits - 0x8000_0000_0000_0000) as nat) as int)
    }
}

/// The bits are those of a NaN exactly where the exponent is the greatest and the fraction is not zero.
/// A NaN becomes zero, and all else stays.
pub proof fn law_nan(bits: u64)
    ensures
        nan(bits) <==> (bits / 0x10_0000_0000_0000) % 2048 == 2047 && bits % 0x10_0000_0000_0000 != 0,
        nan(bits) ==> nan_to_zero(bits) == 0,
        !nan(bits) ==> nan_to_zero(bits) == bits,
{
}

proof fn lemma_units_grow(a: nat, b: nat)
    requires
        a < b,
    ensures
        units(a) < units(b),
{
    let w: nat = 0x10_0000_0000_0000;
    let (e, f) = (a / w, a % w);
    let (g, h) = (b / w, b % w);
    if e == g {
        if e > 0 {
            let p = pow2((e - 1) as nat);
            lemma_pow2_pos((e - 1) as nat);
            assert((w + f) * p < (w + h) * p) by (nonlinear_arith)
                requires
                    f < h,
                    p > 0,
            ;
        }
    } else {
        let q = pow2((g - 1) as nat);
        lemma_pow2_pos((g - 1) as nat);
        assert(w * q <= (w + h) * q) by (nonlinear_arith);
        if e == 0 {
            assert(w <= w * q) by (nonlinear_arith)
                requires
                    q > 0,
            ;
        } else {
            let p = pow2((e - 1) as nat);
            lemma_pow2_pos((e - 1) as nat);
            lemma_pow2_unfold(e);
            if e < g - 1 {
                lemma_pow2_strictly_increases(e, (g - 1) as nat);
            }
            assert(2 * p <= q);
            assert((w + f) * p < w * q) by (nonlinear_arith)
                requires
                    f < w,
                    p > 0,
                    2 * p <= q,
            ;
        }
    }
}

/// Of two doubles that are no NaN, one is less than the other exactly where the number that it stands for
/// is less, and they are the same exactly where the numbers are. A NaN is neither less than any double, nor
/// greater, nor the same.
pub proof fn law_doubles_are_compared(a: u64, b: u64)
    ensures
        less(a, b) <==> !nan(a) && !nan(b) && signed_units(a) < signed_units(b),
        same(a, b) <==> !nan(a) && !nan(b) && signed_units(a) == signed_units(b),
{
    let x = magnitude(a) as nat;
    let y = magnitude(b) as nat;
    assert(signed_units(a) == if a < 0x8000_0000_0000_0000 {
        units(x) as int
    } else {
        -(units(x) as int)
    });
    assert(signed_units(b) == if b < 0x8000_0000_0000_0000 {
        units(y) as int
    } else {
        -(units(y) as int)
    });
    assert(units(0) == 0);
    if x > 0 {
        lemma_units_grow(0, x);
    }
    if y > 0 {
        lemma_units_grow(0, y);
    }
    if x < y {
        lemma_units_grow(x, y);
    }
    if y < x {
        lemma_units_grow(y, x);
    }
}

/// The units of a double that is put together of an exponent and a significand.
proof fn lemma_assembled(e: nat, m: nat)
    requires
        0x10_0000_0000_0000 <= m <= 0x20_0000_0000_0000,
    ensures
        units((e + 1022) * 0x10_0000_0000_0000 + m) == m * pow2(e + 1022),
{
    let w: nat = 0x10_0000_0000_0000;
    let bits = (e + 1022) * w + m;
    if m < 2 * w {
        assert(bits == (e + 1023) * w + (m - w)) by (nonlinear_arith)
            requires
                bits == (e + 1022) * w + m,
        ;
        assert(bits / w == e + 1023 && bits % w == m - w) by {
            vstd::arithmetic::div_mod::lemma_fundamental_div_mod_converse(
                bits as int,
                w as int,
                (e + 1023) as int,
                (m - w) as int,
            );
        }
    } else {
        assert(bits == (e + 1024) * w + 0) by (nonlinear_arith)
            requires
                bits == (e + 1022) * w + m,
                m == 2 * w,
        ;
        assert(bits / w == e + 1024 && bits % w == 0) by {
            vstd::arithmetic::div_mod::lemma_fundamental_div_mod_converse(
                bits as int,
                w as int,
                (e + 1024) as int,
                0,
            );
        }
        lemma_pow2_unfold(e + 1023);
        let p = pow2(e + 1022);
        assert(w * (2 * p) == m * p) by (nonlinear_arith)
            requires
                m == 2 * w,
        ;
    }
}

/// A natural number of 64 bits becomes a double that is exact where the number is below two to the power
/// of 53, and else is off by at most one part in two to the power of 53. `units` counts the number that
/// the double stands for.
pub proof fn law_nearest_double(n: u64)
    ensures
        ({
            let one = pow2(1074);
            let v = units(double_of_nat(n as nat));
            &&& n < 0x20_0000_0000_0000 ==> v == n * one
            &&& (v - n * one) * 0x20_0000_0000_0000 <= n * one
            &&& (n * one - v) * 0x20_0000_0000_0000 <= n * one
        }),
{
    let one = pow2(1074);
    lemma_pow2_pos(1074);
    if n > 0 {
        let e = top_bit(n as nat);
        lemma_top_bit(n as nat);
        lemma2_to64();
        lemma2_to64_rest();
        if e <= 52 {
            let s = pow2((52 - e) as nat);
            lemma_pow2_pos((52 - e) as nat);
            lemma_pow2_adds(e, (52 - e) as nat);
            lemma_pow2_adds((e + 1) as nat, (52 - e) as nat);
            let low = pow2(e);
            let high = pow2((e + 1) as nat);
            let m = (n * s) as nat;
            assert(low * s <= m <= high * s) by (nonlinear_arith)
                requires
                    low <= n <= high,
                    m == n * s,
                    s > 0,
            ;
            lemma_assembled(e, m);
            lemma_pow2_adds((52 - e) as nat, e + 1022);
            let p = pow2(e + 1022);
            assert(m * p == n * one) by (nonlinear_arith)
                requires
                    m == n * s,
                    s * p == one,
            ;
            assert(n * one >= 0) by (nonlinear_arith)
                requires
                    one > 0,
            ;
        } else {
            lemma_rounded(n, e);
        }
    } else {
        assert(units(0) == 0);
    }
    if n < 0x20_0000_0000_0000 && n > 0 {
        let e = top_bit(n as nat);
        lemma_top_bit(n as nat);
        lemma2_to64_rest();
        if e > 53 {
            lemma_pow2_strictly_increases(53, e);
        }
    }
}

proof fn lemma_rounded(n: u64, e: nat)
    requires
        n > 0,
        e == top_bit(n as nat),
        e > 52,
        pow2(e) <= n < pow2(e + 1),
    ensures
        ({
            let one = pow2(1074);
            let v = units(double_of_nat(n as nat));
            &&& (v - n * one) * 0x20_0000_0000_0000 <= n * one
            &&& (n * one - v) * 0x20_0000_0000_0000 <= n * one
        }),
{
    let one = pow2(1074);
    lemma_pow2_pos(1074);
    lemma2_to64();
    lemma2_to64_rest();
    let unit = pow2((e - 52) as nat);
    lemma_pow2_pos((e - 52) as nat);
    lemma_pow2_adds(52, (e - 52) as nat);
    lemma_pow2_adds(53, (e - 52) as nat);
    let q = n as nat / unit;
    let r = n as nat % unit;
    let m = rounded_quotient(n as nat, unit);
    let w = pow2(52);
    vstd::arithmetic::div_mod::lemma_fundamental_div_mod(n as int, unit as int);
    assert(0 <= r < unit) by {
        vstd::arithmetic::div_mod::lemma_mod_bound(n as int, unit as int);
    }
    assert(w <= q < 2 * w) by (nonlinear_arith)
        requires
            unit > 0,
            n == unit * q + r,
            0 <= r < unit,
            w * unit <= n,
            n < 2 * w * unit,
    ;
    assert(w <= m <= 2 * w);
    lemma_assembled(e, m);
    lemma_pow2_adds((e - 52) as nat, 1074);
    assert(pow2(e + 1022) == unit * one);
    let v = units(double_of_nat(n as nat));
    assert(v == m * (unit * one));
    let d = m * unit - n;
    assert(2 * d <= unit && -unit <= 2 * d) by (nonlinear_arith)
        requires
            n == unit * q + r,
            0 <= r < unit,
            d == m * unit - n,
            (m == q + 1 && 2 * r >= unit) || (m == q && 2 * r <= unit),
    ;
    assert(v - n * one == d * one) by (nonlinear_arith)
        requires
            v == m * (unit * one),
            d == m * unit - n,
    ;
    let diff = v - n * one;
    assert(diff * (2 * w) <= n * one && -diff * (2 * w) <= n * one) by (nonlinear_arith)
        requires
            diff == d * one,
            2 * d <= unit,
            -unit <= 2 * d,
            w * unit <= n,
            one > 0,
            w > 0,
            unit > 0,
    ;
}

/// An integer becomes the double of its amount, with the sign of the integer.
pub proof fn law_sign_of_integer(i: i64)
    ensures
        i >= 0 ==> double_of_int(i as int) == double_of_nat(i as nat),
        i < 0 ==> double_of_int(i as int) == 0x8000_0000_0000_0000 + double_of_nat((-i) as nat),
{
}

/// An integer whose amount is below two to the power of 53 is itself as a double.
pub proof fn law_simple_doubles(i: i64)
    requires
        -0x20_0000_0000_0000 < i < 0x20_0000_0000_0000,
    ensures
        signed_units(double_of_int(i as int) as u64) == i * pow2(1074),
{
    let n: u64 = (if i < 0 {
        -i
    } else {
        i as int
    }) as u64;
    law_nearest_double(n);
    lemma_small(n);
    assert(i * pow2(1074) == if i < 0 {
        -(n * pow2(1074))
    } else {
        n * pow2(1074)
    }) by (nonlinear_arith)
        requires
            i < 0 ==> n == -i,
            i >= 0 ==> n == i,
    ;
}

proof fn lemma_small(n: u64)
    requires
        n < 0x20_0000_0000_0000,
    ensures
        double_of_nat(n as nat) < 0x8000_0000_0000_0000,
{
    if n > 0 {
        let e = top_bit(n as nat);
        lemma_top_bit(n as nat);
        lemma2_to64();
        lemma2_to64_rest();
        if e >= 53 {
            if e > 53 {
                lemma_pow2_strictly_increases(53, e);
            }
        } else {
            let s = pow2((52 - e) as nat);
            lemma_pow2_adds((e + 1) as nat, (52 - e) as nat);
            let high = pow2((e + 1) as nat);
            assert(n * s <= high * s) by (nonlinear_arith)
                requires
                    n <= high,
                    s >= 0,
            ;
        }
    }
}

} // verus!
