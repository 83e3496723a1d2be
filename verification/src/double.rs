//! IEEE 754 doubles, held as their bits: comparison, and conversion from integers.
use vstd::prelude::*;
use vstd::arithmetic::power2::{
    lemma_pow2_adds, lemma_pow2_strictly_increases, lemma_pow2_unfold, pow2,
};

verus! {

/// The bits without the sign.
pub open spec fn magnitude(bits: u64) -> u64 {
    bits % 0x8000_0000_0000_0000
}

/// Whether the bits are those of a NaN.
pub open spec fn nan(bits: u64) -> bool {
    magnitude(bits) > 0x7ff0_0000_0000_0000
}

/// A number that orders as the double does, the two zeros being equal. Not for a NaN.
pub open spec fn rank(bits: u64) -> int {
    if bits < 0x8000_0000_0000_0000 {
        magnitude(bits) as int
    } else {
        -(magnitude(bits) as int)
    }
}

/// Whether the double `a` is less than the double `b`: a NaN compares with nothing.
pub open spec fn less(a: u64, b: u64) -> bool {
    !nan(a) && !nan(b) && rank(a) < rank(b)
}

/// Whether two doubles are equal as numbers: the two zeros are, a NaN is equal to nothing.
pub open spec fn same(a: u64, b: u64) -> bool {
    !nan(a) && !nan(b) && rank(a) == rank(b)
}

/// The bits, or those of positive zero for a NaN.
pub open spec fn nan_to_zero(bits: u64) -> u64 {
    if nan(bits) {
        0
    } else {
        bits
    }
}

pub fn is_nan(bits: u64) -> (r: bool)
    ensures
        r == nan(bits),
{
    bits % 0x8000_0000_0000_0000 > 0x7ff0_0000_0000_0000
}

pub fn is_less(a: u64, b: u64) -> (r: bool)
    ensures
        r == less(a, b),
{
    if is_nan(a) || is_nan(b) {
        return false;
    }
    let ma: u64 = a % 0x8000_0000_0000_0000;
    let mb: u64 = b % 0x8000_0000_0000_0000;
    if a < 0x8000_0000_0000_0000 {
        b < 0x8000_0000_0000_0000 && ma < mb
    } else if b < 0x8000_0000_0000_0000 {
        ma > 0 || mb > 0
    } else {
        mb < ma
    }
}

pub fn is_same(a: u64, b: u64) -> (r: bool)
    ensures
        r == same(a, b),
{
    if is_nan(a) || is_nan(b) {
        return false;
    }
    let ma: u64 = a % 0x8000_0000_0000_0000;
    let mb: u64 = b % 0x8000_0000_0000_0000;
    ma == mb && (ma == 0 || (a < 0x8000_0000_0000_0000) == (b < 0x8000_0000_0000_0000))
}

pub fn without_nan(bits: u64) -> (r: u64)
    ensures
        r == nan_to_zero(bits),
{
    if is_nan(bits) {
        0
    } else {
        bits
    }
}

/// The position of the highest set bit of a positive number.
pub open spec fn top_bit(n: nat) -> nat
    decreases n,
{
    if n < 2 {
        0
    } else {
        1 + top_bit(n / 2)
    }
}

/// `n` divided by `unit`, rounded to the nearest integer, and to the even one of two that are
/// equally near.
pub open spec fn rounded_quotient(n: nat, unit: nat) -> nat {
    let q = n / unit;
    let r = n % unit;
    if 2 * r > unit || (2 * r == unit && q % 2 == 1) {
        q + 1
    } else {
        q
    }
}

/// The bits of the double nearest to `n`. The significand has 53 bits, of which the highest is not
/// stored: adding it to the exponent field leaves the field one higher.
pub open spec fn double_of_nat(n: nat) -> nat {
    let e = top_bit(n);
    if n == 0 {
        0
    } else if e <= 52 {
        (e + 1022) * pow2(52) + n * pow2((52 - e) as nat)
    } else {
        (e + 1022) * pow2(52) + rounded_quotient(n, pow2((e - 52) as nat))
    }
}

/// The bits of the double nearest to `i`.
pub open spec fn double_of_int(i: int) -> nat {
    if i < 0 {
        0x8000_0000_0000_0000 + double_of_nat((-i) as nat)
    } else {
        double_of_nat(i as nat)
    }
}

pub proof fn lemma_top_bit(n: nat)
    requires
        n > 0,
    ensures
        pow2(top_bit(n)) <= n < pow2(top_bit(n) + 1),
    decreases n,
{
    lemma_pow2_unfold(top_bit(n) + 1);
    if n < 2 {
        vstd::arithmetic::power2::lemma2_to64();
    } else {
        lemma_top_bit(n / 2);
        lemma_pow2_unfold(top_bit(n));
    }
}

fn power_of_two(k: u64) -> (r: u64)
    requires
        k < 64,
    ensures
        r == pow2(k as nat),
{
    let mut r: u64 = 1;
    let mut i: u64 = 0;
    proof {
        vstd::arithmetic::power2::lemma2_to64();
        vstd::arithmetic::power2::lemma2_to64_rest();
    }
    while i < k
        invariant
            i <= k < 64,
            r == pow2(i as nat),
            pow2(64) == 0x1_0000_0000_0000_0000,
        decreases k - i,
    {
        proof {
            lemma_pow2_unfold((i + 1) as nat);
            lemma_pow2_strictly_increases((i + 1) as nat, 64);
        }
        r = r * 2;
        i = i + 1;
    }
    r
}

proof fn lemma_top_bit_u64(n: nat)
    requires
        0 < n <= u64::MAX,
    ensures
        top_bit(n) < 64,
{
    lemma_top_bit(n);
    vstd::arithmetic::power2::lemma2_to64_rest();
    if top_bit(n) > 64 {
        lemma_pow2_strictly_increases(64, top_bit(n));
    }
}

/// The significand of the double nearest to `n`, with its highest bit.
fn significand(n: u64, e: u64) -> (m: u64)
    requires
        n > 0,
        e == top_bit(n as nat),
    ensures
        m == if e <= 52 {
            n * pow2((52 - e) as nat)
        } else {
            rounded_quotient(n as nat, pow2((e - 52) as nat)) as int
        },
        m <= 0x20_0000_0000_0000,
{
    proof {
        lemma_top_bit(n as nat);
        lemma_top_bit_u64(n as nat);
        vstd::arithmetic::power2::lemma2_to64();
        vstd::arithmetic::power2::lemma2_to64_rest();
    }
    if e <= 52 {
        let unit = power_of_two(52 - e);
        assert(n * unit <= 0x20_0000_0000_0000) by {
            lemma_pow2_adds((e + 1) as nat, (52 - e) as nat);
            let top = pow2((e + 1) as nat);
            assert(n * unit <= top * unit) by (nonlinear_arith)
                requires
                    n <= top,
            ;
        }
        n * unit
    } else {
        let unit = power_of_two(e - 52);
        let q: u64 = n / unit;
        let r: u64 = n % unit;
        proof {
            lemma_pow2_adds(53, (e - 52) as nat);
            lemma_pow2_strictly_increases(0, (e - 52) as nat);
            lemma_pow2_strictly_increases((e - 52) as nat, 12);
            let wide = pow2(53);
            assert(q < wide) by (nonlinear_arith)
                requires
                    unit > 0,
                    q == n / unit,
                    n < wide * unit,
            ;
        }
        if 2 * r > unit || (2 * r == unit && q % 2 == 1) {
            q + 1
        } else {
            q
        }
    }
}

/// The bits of the double nearest to `n`.
pub fn double_from_u64(n: u64) -> (r: u64)
    ensures
        r == double_of_nat(n as nat),
        r <= 0x43f0_0000_0000_0000,
{
    if n == 0 {
        return 0;
    }
    proof {
        lemma_top_bit_u64(n as nat);
        vstd::arithmetic::power2::lemma2_to64();
        vstd::arithmetic::power2::lemma2_to64_rest();
    }
    let mut e: u64 = 0;
    let mut t: u64 = n;
    while t >= 2
        invariant
            t >= 1,
            e + top_bit(t as nat) == top_bit(n as nat),
            top_bit(n as nat) < 64,
        decreases t,
    {
        t = t / 2;
        e = e + 1;
    }
    let m = significand(n, e);
    (e + 1022) * 0x10_0000_0000_0000 + m
}

/// The bits of the double nearest to `i`.
pub fn double_from_i64(i: i64) -> (r: u64)
    ensures
        r == double_of_int(i as int),
{
    if i < 0 {
        let m: u64 = (-(i + 1)) as u64 + 1;
        0x8000_0000_0000_0000 + double_from_u64(m)
    } else {
        double_from_u64(i as u64)
    }
}

} // verus!
