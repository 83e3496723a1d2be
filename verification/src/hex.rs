//! Identifiers in hexadecimal notation.
use vstd::prelude::*;
use vstd::string::StrSliceExecFns;
use vstd::utf8::encode_utf8;

use crate::text::{copy_bytes, lossy, lossy_text};
use crate::value::{Value, ValueView};

verus! {

/// The ASCII code of a lower-case hexadecimal digit.
pub open spec fn hex_digit(d: int) -> u8 {
    (if d < 10 {
        48 + d
    } else {
        87 + d
    }) as u8
}

/// Two digits for each byte, the high one first.
pub open spec fn hex_digits(bytes: Seq<u8>) -> Seq<u8> {
    Seq::new(
        2 * bytes.len(),
        |i: int|
            if i % 2 == 0 {
                hex_digit((bytes[i / 2] / 16) as int)
            } else {
                hex_digit((bytes[i / 2] % 16) as int)
            },
    )
}

/// The number that a character denotes as a hexadecimal digit of either case.
pub open spec fn digit_value(c: int) -> Option<int> {
    if 48 <= c <= 57 {
        Some(c - 48)
    } else if 97 <= c <= 102 {
        Some(c - 87)
    } else if 65 <= c <= 70 {
        Some(c - 55)
    } else {
        None
    }
}

/// Whether all codes are those of hexadecimal digits.
pub open spec fn all_hex(codes: Seq<int>) -> bool {
    forall|i: int| 0 <= i < codes.len() ==> digit_value(#[trigger] codes[i]) is Some
}

/// The bytes that pairs of hexadecimal digits denote.
pub open spec fn hex_bytes(codes: Seq<int>) -> Seq<u8> {
    Seq::new(
        codes.len() / 2,
        |i: int| (16 * digit_value(codes[2 * i])->0 + digit_value(codes[2 * i + 1])->0) as u8,
    )
}

pub open spec fn byte_codes(bytes: Seq<u8>) -> Seq<int> {
    Seq::new(bytes.len(), |i: int| bytes[i] as int)
}

pub open spec fn char_codes(chars: Seq<char>) -> Seq<int> {
    Seq::new(chars.len(), |i: int| chars[i] as int)
}

/// The bytes that a value gives in hexadecimal notation: pairs of digits, and at least one.
pub open spec fn hex_decoded(v: ValueView) -> Option<Seq<u8>> {
    match v {
        ValueView::Bytes(b) => if b.len() > 0 && b.len() % 2 == 0 && all_hex(byte_codes(b)) {
            Some(hex_bytes(byte_codes(b)))
        } else {
            None
        },
        _ => None,
    }
}

fn digit_of(c: u32) -> (r: Option<u8>)
    ensures
        match r {
            Some(d) => digit_value(c as int) == Some(d as int) && d < 16,
            None => digit_value(c as int) is None,
        },
{
    if 48 <= c && c <= 57 {
        Some((c - 48) as u8)
    } else if 97 <= c && c <= 102 {
        Some((c - 87) as u8)
    } else if 65 <= c && c <= 70 {
        Some((c - 55) as u8)
    } else {
        None
    }
}

/// The hexadecimal notation of bytes, as a value.
pub fn hex_encode(bytes: &Vec<u8>) -> (r: Value)
    ensures
        r@ == ValueView::Bytes(hex_digits(bytes@)),
{
    let mut out: Vec<u8> = Vec::new();
    let mut i: usize = 0;
    while i < bytes.len()
        invariant
            i <= bytes@.len(),
            out@ =~= hex_digits(bytes@.take(i as int)),
        decreases bytes@.len() - i,
    {
        let hi: u8 = bytes[i] / 16;
        let lo: u8 = bytes[i] % 16;
        let ghost before = out@;
        out.push(if hi < 10 { 48 + hi } else { 87 + hi });
        out.push(if lo < 10 { 48 + lo } else { 87 + lo });
        proof {
            let all = hex_digits(bytes@.take(i + 1));
            assert forall|j: int| 0 <= j < all.len() implies out@[j] == all[j] by {
                if j < 2 * i {
                    assert(out@[j] == before[j]);
                    assert(bytes@.take(i + 1)[j / 2] == bytes@.take(i as int)[j / 2]);
                }
            }
            assert(out@ =~= all);
        }
        i = i + 1;
    }
    assert(bytes@.take(i as int) =~= bytes@);
    Value::Bytes(out)
}

/// The bytes that a value gives in hexadecimal notation, or nothing where it is not a text of one
/// or more pairs of digits.
pub fn hex_decode(value: &Value) -> (r: Option<Vec<u8>>)
    ensures
        match r {
            Some(b) => hex_decoded(value@) == Some(b@),
            None => hex_decoded(value@) is None,
        },
{
    match value {
        Value::Bytes(b) => hex_decode_bytes(b),
        _ => None,
    }
}

/// The bytes that text gives in hexadecimal notation.
pub fn hex_decode_bytes(b: &Vec<u8>) -> (r: Option<Vec<u8>>)
    ensures
        match r {
            Some(d) => hex_decoded(ValueView::Bytes(b@)) == Some(d@),
            None => hex_decoded(ValueView::Bytes(b@)) is None,
        },
{
    if b.len() == 0 || b.len() % 2 != 0 {
        return None;
    }
    let ghost codes = byte_codes(b@);
    let mut out: Vec<u8> = Vec::new();
    let mut i: usize = 0;
    while i < b.len()
        invariant
            i <= b@.len(),
            i % 2 == 0,
            b@.len() % 2 == 0,
            codes == byte_codes(b@),
            out@.len() == i / 2,
            forall|j: int| 0 <= j < i ==> digit_value(#[trigger] codes[j]) is Some,
            forall|j: int| 0 <= j < i / 2 ==> #[trigger] out@[j] == hex_bytes(codes)[j],
        decreases b@.len() - i,
    {
        assert(codes[i as int] == b@[i as int]);
        assert(codes[i + 1] == b@[i + 1]);
        match (digit_of(b[i] as u32), digit_of(b[i + 1] as u32)) {
            (Some(hi), Some(lo)) => {
                out.push(hi * 16 + lo);
                assert(2 * (i as int / 2) == i);
            },
            _ => {
                return None;
            },
        }
        i = i + 2;
    }
    assert(out@ =~= hex_bytes(codes));
    Some(out)
}

/// The bytes that an identifier stands for: what its text gives in hexadecimal notation, its own
/// bytes where it is no such text, and none where it is not a text at all. A last character without
/// a partner is passed over where the text has an even number of bytes.
pub open spec fn hex_or_raw(v: ValueView) -> Seq<u8> {
    match v {
        ValueView::Bytes(b) => {
            let chars = lossy(b);
            let pairs = chars.take(2 * (chars.len() as int / 2));
            if encode_utf8(chars).len() % 2 == 0 && all_hex(char_codes(pairs)) {
                hex_bytes(char_codes(pairs))
            } else {
                b
            }
        },
        _ => Seq::empty(),
    }
}

/// The bytes that an identifier stands for.
pub fn hex_decode_value(val: &Value) -> (r: Vec<u8>)
    ensures
        r@ == hex_or_raw(val@),
{
    let b = match val {
        Value::Bytes(b) => b,
        _ => {
            return Vec::new();
        },
    };
    let s = lossy_text(b.as_slice());
    let text: &str = s.as_str();
    if text.as_bytes().len() % 2 != 0 {
        return copy_bytes(b);
    }
    let n: usize = text.unicode_len();
    let ghost pairs = text@.take(2 * (n as int / 2));
    let ghost codes = char_codes(pairs);
    let mut out: Vec<u8> = Vec::new();
    let mut i: usize = 0;
    while i + 1 < n
        invariant
            n == text@.len(),
            i <= n,
            i % 2 == 0,
            pairs == text@.take(2 * (n as int / 2)),
            codes == char_codes(pairs),
            out@.len() == i / 2,
            text@ == lossy(b@),
            val@ == ValueView::Bytes(b@),
            forall|j: int| 0 <= j < i ==> digit_value(#[trigger] codes[j]) is Some,
            forall|j: int| 0 <= j < i / 2 ==> #[trigger] out@[j] == hex_bytes(codes)[j],
        decreases n - i,
    {
        assert(codes[i as int] == text@[i as int] as int);
        assert(codes[i + 1] == text@[i + 1] as int);
        match (digit_of(text.get_char(i) as u32), digit_of(text.get_char(i + 1) as u32)) {
            (Some(hi), Some(lo)) => {
                out.push(hi * 16 + lo);
                assert(2 * (i as int / 2) == i);
            },
            _ => {
                return copy_bytes(b);
            },
        }
        i = i + 2;
    }
    assert(out@ =~= hex_bytes(codes));
    out
}

/// Decoding the hexadecimal notation of one or more bytes gives the bytes back.
pub proof fn law_hex_round_trip(bytes: Seq<u8>)
    requires
        bytes.len() > 0,
    ensures
        hex_decoded(ValueView::Bytes(hex_digits(bytes))) == Some(bytes),
{
    let digits = hex_digits(bytes);
    let codes = byte_codes(digits);
    assert forall|i: int| 0 <= i < codes.len() implies digit_value(#[trigger] codes[i]) is Some by {
        assert(codes[i] == digits[i] as int);
    }
    assert forall|i: int| 0 <= i < bytes.len() implies hex_bytes(codes)[i] == bytes[i] by {
        assert(codes[2 * i] == digits[2 * i] as int);
        assert(codes[2 * i + 1] == digits[2 * i + 1] as int);
        assert((2 * i + 1) / 2 == i);
        assert(2 * i / 2 == i);
    }
    assert(hex_bytes(codes) =~= bytes);
}

} // verus!
