//! Fields with a place of their own, taken out of the object that an event is written as. A value
//! that does not fit the place is put back.
use vstd::prelude::*;
use vstd::utf8::{decode_utf8, valid_utf8};

use crate::canonical::{int_or_zero, text_or_empty};
use crate::hex::{hex_decode, hex_decoded};
use crate::keyed::{opt_view, value_of, with_entry, without_entry, KeyedMap};
use crate::text::{parse_u64, parsed_u64, utf8_text};
use crate::time::{to_u64, wrap_u64};
use crate::value::{Value, ValueView};

verus! {

/// The value of a field that has two names: the one under the first where it is there, or else the
/// one under the second.
pub open spec fn picked(m: Seq<(Seq<char>, ValueView)>, name: Seq<char>, alias: Seq<char>) -> Option<
    ValueView,
> {
    match value_of(m, name) {
        Some(v) => Some(v),
        None => value_of(m, alias),
    }
}

/// The object without the value that `picked` gives.
pub open spec fn unpicked(m: Seq<(Seq<char>, ValueView)>, name: Seq<char>, alias: Seq<char>) -> Seq<
    (Seq<char>, ValueView),
> {
    match value_of(m, name) {
        Some(v) => without_entry(m, name),
        None => without_entry(m, alias),
    }
}

/// The object after a field with two names was taken out, if its value fits. One that does not is
/// put back under the first name.
pub open spec fn left_over(
    m: Seq<(Seq<char>, ValueView)>,
    name: Seq<char>,
    alias: Seq<char>,
    fits: bool,
) -> Seq<(Seq<char>, ValueView)> {
    match picked(m, name, alias) {
        Some(v) => if fits {
            unpicked(m, name, alias)
        } else {
            with_entry(unpicked(m, name, alias), name, v)
        },
        None => m,
    }
}

/// Takes a field that has two names out of an object.
pub fn pick(map: &mut KeyedMap<Value>, name: &str, alias: &str) -> (r: Option<Value>)
    ensures
        opt_view(r) == picked(old(map)@, name@, alias@),
        final(map)@ == unpicked(old(map)@, name@, alias@),
        old(map).wf() ==> final(map).wf(),
{
    match map.remove(name) {
        Some(v) => Some(v),
        None => map.remove(alias),
    }
}

/// The nanoseconds that a value gives: an integer, or a text of digits.
pub open spec fn nanos_in(v: Option<ValueView>) -> Option<u64> {
    match v {
        Some(ValueView::Integer(i)) => Some(wrap_u64(i as int)),
        Some(ValueView::Bytes(b)) => if valid_utf8(b) {
            parsed_u64(decode_utf8(b))
        } else {
            None
        },
        _ => None,
    }
}

/// The number, or zero where there is none.
pub open spec fn or_zero(n: Option<u64>) -> u64 {
    match n {
        Some(n) => n,
        None => 0,
    }
}

/// Takes a number of nanoseconds out of an object: an integer, or a text of digits.
pub fn extract_nanos_field(map: &mut KeyedMap<Value>, name: &str, alias: &str) -> (r: u64)
    ensures
        r == or_zero(nanos_in(picked(old(map)@, name@, alias@))),
        final(map)@ == left_over(
            old(map)@,
            name@,
            alias@,
            nanos_in(picked(old(map)@, name@, alias@)) is Some,
        ),
        old(map).wf() ==> final(map).wf(),
{
    match pick(map, name, alias) {
        Some(Value::Integer(n)) => to_u64(n),
        Some(Value::Bytes(b)) => {
            let parsed = match utf8_text(b.as_slice()) {
                Some(s) => parse_u64(s.as_str()),
                None => None,
            };
            match parsed {
                Some(n) => n,
                None => {
                    map.insert(name.to_owned(), Value::Bytes(b));
                    0
                },
            }
        },
        Some(other) => {
            map.insert(name.to_owned(), other);
            0
        },
        None => 0,
    }
}

/// Takes a text out of an object. Bytes that are no text count as an empty one.
pub fn extract_text(map: &mut KeyedMap<Value>, name: &str, alias: &str) -> (r: String)
    ensures
        r@ == text_or_empty(picked(old(map)@, name@, alias@)),
        final(map)@ == left_over(
            old(map)@,
            name@,
            alias@,
            picked(old(map)@, name@, alias@)->0 is Bytes,
        ),
        old(map).wf() ==> final(map).wf(),
{
    match pick(map, name, alias) {
        Some(Value::Bytes(b)) => match utf8_text(b.as_slice()) {
            Some(s) => s,
            None => String::new(),
        },
        Some(other) => {
            map.insert(name.to_owned(), other);
            String::new()
        },
        None => String::new(),
    }
}

/// Takes an integer out of an object, zero where there is none.
pub fn extract_integer(map: &mut KeyedMap<Value>, name: &str, alias: &str) -> (r: i64)
    ensures
        r == int_or_zero(picked(old(map)@, name@, alias@)),
        final(map)@ == left_over(
            old(map)@,
            name@,
            alias@,
            picked(old(map)@, name@, alias@)->0 is Integer,
        ),
        old(map).wf() ==> final(map).wf(),
{
    match pick(map, name, alias) {
        Some(Value::Integer(i)) => i,
        Some(other) => {
            map.insert(name.to_owned(), other);
            0
        },
        None => 0,
    }
}

/// The identifier that a value gives in hexadecimal notation.
pub open spec fn id_in(v: Option<ValueView>) -> Option<Seq<u8>> {
    match v {
        Some(v) => hex_decoded(v),
        None => None,
    }
}

/// The bytes, or none where there are none.
pub open spec fn or_none(b: Option<Seq<u8>>) -> Seq<u8> {
    match b {
        Some(b) => b,
        None => Seq::empty(),
    }
}

/// Takes an identifier in hexadecimal notation out of an object.
pub fn extract_id(map: &mut KeyedMap<Value>, name: &str, alias: &str) -> (r: Vec<u8>)
    ensures
        r@ == or_none(id_in(picked(old(map)@, name@, alias@))),
        final(map)@ == left_over(
            old(map)@,
            name@,
            alias@,
            id_in(picked(old(map)@, name@, alias@)) is Some,
        ),
        old(map).wf() ==> final(map).wf(),
{
    match pick(map, name, alias) {
        Some(v) => match hex_decode(&v) {
            Some(b) => b,
            None => {
                map.insert(name.to_owned(), v);
                Vec::new()
            },
        },
        None => Vec::new(),
    }
}

} // verus!
