//! JSON objects as they are put together field by field.
use vstd::prelude::*;
use vstd::string::StringExecFns;

use crate::double::{double_from_i64, double_of_int, magnitude};
use crate::hex::hex_digit;
use crate::json::{
    fields_view, items_view, lemma_json_array, lemma_json_object, Json, JsonNumber, JsonView,
};
use crate::text::{decimal, u64_text};

verus! {

/// The JSON number that an integer is.
pub open spec fn json_int(i: i64) -> JsonView {
    JsonView::Number(JsonNumber { integer: Some(i), double: Some(double_of_int(i as int) as u64) })
}

pub fn int_json(i: i64) -> (r: Json)
    ensures
        r@ == json_int(i),
{
    Json::Number(JsonNumber { integer: Some(i), double: Some(double_from_i64(i)) })
}

/// The JSON value that a double is: null where it is no number or infinite.
pub open spec fn json_double(bits: u64) -> JsonView {
    if magnitude(bits) >= 0x7ff0_0000_0000_0000 {
        JsonView::Null
    } else {
        JsonView::Number(JsonNumber { integer: None, double: Some(bits) })
    }
}

pub fn double_json(bits: u64) -> (r: Json)
    ensures
        r@ == json_double(bits),
{
    if bits % 0x8000_0000_0000_0000 >= 0x7ff0_0000_0000_0000 {
        Json::Null
    } else {
        Json::Number(JsonNumber { integer: None, double: Some(bits) })
    }
}

/// The object with the given fields.
pub fn object_json(fields: Vec<(String, Json)>) -> (r: Json)
    ensures
        r@ == JsonView::Object(fields_view(fields@)),
{
    proof {
        lemma_json_object(fields);
    }
    Json::Object(fields)
}

/// The array with the given items.
pub fn array_json(items: Vec<Json>) -> (r: Json)
    ensures
        r@ == JsonView::Array(items_view(items@)),
{
    proof {
        lemma_json_array(items);
    }
    Json::Array(items)
}

/// No fields.
pub fn no_fields() -> (r: Vec<(String, Json)>)
    ensures
        fields_view(r@) == Seq::<(Seq<char>, JsonView)>::empty(),
{
    let r: Vec<(String, Json)> = Vec::new();
    assert(fields_view(r@) =~= Seq::empty());
    r
}

/// Adds a field.
pub fn put(m: &mut Vec<(String, Json)>, key: &str, v: Json)
    ensures
        fields_view(final(m)@) == fields_view(old(m)@).push((key@, v@)),
{
    m.push((key.to_owned(), v));
    assert(fields_view(m@) =~= fields_view(old(m)@).push((key@, v@)));
}

/// The fields with a text, unless it is empty.
pub open spec fn and_text(m: Seq<(Seq<char>, JsonView)>, key: Seq<char>, text: Seq<char>) -> Seq<
    (Seq<char>, JsonView),
> {
    if text.len() == 0 {
        m
    } else {
        m.push((key, JsonView::String(text)))
    }
}

pub fn put_text_unless_empty(m: &mut Vec<(String, Json)>, key: &str, text: &str)
    ensures
        fields_view(final(m)@) == and_text(fields_view(old(m)@), key@, text@),
{
    if !text.is_empty() {
        put(m, key, Json::String(text.to_owned()));
    }
}

/// The fields with a number of nanoseconds as a text of digits, unless it is zero.
pub open spec fn and_nanos(m: Seq<(Seq<char>, JsonView)>, key: Seq<char>, n: u64) -> Seq<
    (Seq<char>, JsonView),
> {
    if n == 0 {
        m
    } else {
        m.push((key, JsonView::String(decimal(n as nat))))
    }
}

pub fn put_nanos_unless_zero(m: &mut Vec<(String, Json)>, key: &str, n: u64)
    ensures
        fields_view(final(m)@) == and_nanos(fields_view(old(m)@), key@, n),
{
    if n != 0 {
        put(m, key, Json::String(u64_text(n)));
    }
}

/// The fields with an integer, unless it is zero.
pub open spec fn and_int(m: Seq<(Seq<char>, JsonView)>, key: Seq<char>, i: i64) -> Seq<
    (Seq<char>, JsonView),
> {
    if i == 0 {
        m
    } else {
        m.push((key, json_int(i)))
    }
}

pub fn put_int_unless_zero(m: &mut Vec<(String, Json)>, key: &str, i: i64)
    ensures
        fields_view(final(m)@) == and_int(fields_view(old(m)@), key@, i),
{
    if i != 0 {
        put(m, key, int_json(i));
    }
}

/// The text of bytes in hexadecimal notation: two digits for each byte, the high one first.
pub open spec fn hex_text(bytes: Seq<u8>) -> Seq<char>
    decreases bytes.len(),
{
    if bytes.len() == 0 {
        Seq::empty()
    } else {
        hex_text(bytes.drop_last()).push(hex_digit((bytes.last() / 16) as int) as char).push(
            hex_digit((bytes.last() % 16) as int) as char,
        )
    }
}

fn digit_text(d: u8) -> (r: &'static str)
    requires
        d < 16,
    ensures
        r@ == seq![hex_digit(d as int) as char],
{
    proof {
        reveal_strlit("0");
        reveal_strlit("1");
        reveal_strlit("2");
        reveal_strlit("3");
        reveal_strlit("4");
        reveal_strlit("5");
        reveal_strlit("6");
        reveal_strlit("7");
        reveal_strlit("8");
        reveal_strlit("9");
        reveal_strlit("a");
        reveal_strlit("b");
        reveal_strlit("c");
        reveal_strlit("d");
        reveal_strlit("e");
        reveal_strlit("f");
    }
    match d {
        0 => "0",
        1 => "1",
        2 => "2",
        3 => "3",
        4 => "4",
        5 => "5",
        6 => "6",
        7 => "7",
        8 => "8",
        9 => "9",
        10 => "a",
        11 => "b",
        12 => "c",
        13 => "d",
        14 => "e",
        _ => "f",
    }
}

/// The text of bytes in hexadecimal notation.
pub fn hex_encode_bytes(bytes: &Vec<u8>) -> (r: String)
    ensures
        r@ == hex_text(bytes@),
{
    let mut s = String::new();
    let mut i: usize = 0;
    assert(bytes@.take(0) =~= Seq::empty());
    while i < bytes.len()
        invariant
            i <= bytes@.len(),
            s@ == hex_text(bytes@.take(i as int)),
        decreases bytes@.len() - i,
    {
        assert(bytes@.take(i + 1).drop_last() =~= bytes@.take(i as int));
        let ghost before = s@;
        s.append(digit_text(bytes[i] / 16));
        s.append(digit_text(bytes[i] % 16));
        assert(s@ =~= before.push(hex_digit((bytes@[i as int] / 16) as int) as char).push(
            hex_digit((bytes@[i as int] % 16) as int) as char,
        ));
        i = i + 1;
    }
    assert(bytes@.take(i as int) =~= bytes@);
    s
}

/// The fields with an identifier in hexadecimal notation, unless it is empty.
pub open spec fn and_id(m: Seq<(Seq<char>, JsonView)>, key: Seq<char>, id: Seq<u8>) -> Seq<
    (Seq<char>, JsonView),
> {
    if id.len() == 0 {
        m
    } else {
        m.push((key, JsonView::String(hex_text(id))))
    }
}

pub fn put_id_unless_empty(m: &mut Vec<(String, Json)>, key: &str, id: &Vec<u8>)
    ensures
        fields_view(final(m)@) == and_id(fields_view(old(m)@), key@, id@),
{
    if id.len() != 0 {
        put(m, key, Json::String(hex_encode_bytes(id)));
    }
}

/// The array of numbers as texts of digits.
pub open spec fn json_counts(counts: Seq<u64>) -> JsonView {
    JsonView::Array(Seq::new(counts.len(), |i: int| JsonView::String(decimal(counts[i] as nat))))
}

pub fn counts_json(counts: &Vec<u64>) -> (r: Json)
    ensures
        r@ == json_counts(counts@),
{
    let mut items: Vec<Json> = Vec::new();
    let mut i: usize = 0;
    while i < counts.len()
        invariant
            i <= counts@.len(),
            items@.len() == i,
            forall|j: int|
                0 <= j < i ==> (#[trigger] items@[j])@ == JsonView::String(
                    decimal(counts@[j] as nat),
                ),
        decreases counts@.len() - i,
    {
        items.push(Json::String(u64_text(counts[i])));
        i = i + 1;
    }
    assert(items_view(items@) =~= json_counts(counts@)->Array_0);
    array_json(items)
}

/// The array of doubles.
pub open spec fn json_doubles(bits: Seq<u64>) -> JsonView {
    JsonView::Array(Seq::new(bits.len(), |i: int| json_double(bits[i])))
}

pub fn doubles_json(bits: &Vec<u64>) -> (r: Json)
    ensures
        r@ == json_doubles(bits@),
{
    let mut items: Vec<Json> = Vec::new();
    let mut i: usize = 0;
    while i < bits.len()
        invariant
            i <= bits@.len(),
            items@.len() == i,
            forall|j: int| 0 <= j < i ==> (#[trigger] items@[j])@ == json_double(bits@[j]),
        decreases bits@.len() - i,
    {
        items.push(double_json(bits[i]));
        i = i + 1;
    }
    assert(items_view(items@) =~= json_doubles(bits@)->Array_0);
    array_json(items)
}

} // verus!
