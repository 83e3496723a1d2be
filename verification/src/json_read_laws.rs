//! What holds of attribute values that are written as JSON and read again.
use vstd::prelude::*;
use vstd::utf8::{
    decode_utf8, encode_utf8, encode_utf8_decode_utf8, encode_utf8_valid_utf8, is_ascii_chars,
    is_ascii_chars_encode_utf8, valid_utf8,
};

use crate::any_value::AnyView;
use crate::double::nan;
use crate::hex::{byte_codes, char_codes, hex_decoded};
use crate::json::{any_from_json, object_from_json, value_from_json, JsonNumber, JsonView};
use crate::json_fields::hex_text;
use crate::json_laws::{law_decimal_is_read, law_hex_text_is_read};
use crate::keyed::{ordered, value_of, with_entry};
use crate::map_laws::law_read_after_write;
use crate::otlp_json::{lemma_otlp_items, otlp_any, otlp_items, otlp_kv, otlp_kvs};
use crate::otlp_output::{
    json_any, json_kv, json_values, lemma_json_any_array, lemma_json_any_kvlist,
};
use crate::text::signed_decimal;
use crate::value::ValueView;

verus! {

/// Whether an attribute value can be told from what it is written as: no value in it is empty, and no
/// double is infinite or a NaN.
pub open spec fn is_told(a: AnyView) -> bool
    decreases a,
{
    match a {
        AnyView::Empty => false,
        AnyView::Double(d) => d % 0x8000_0000_0000_0000 < 0x7ff0_0000_0000_0000,
        AnyView::Array(items) => forall|i: int|
            0 <= i < items.len() ==> is_told(#[trigger] items[i]),
        AnyView::Kvlist(kvs) => forall|i: int|
            0 <= i < kvs.len() ==> match (#[trigger] kvs[i]).1 {
                Some(v) => is_told(v),
                None => true,
            },
        _ => true,
    }
}

proof fn lemma_names()
    ensures
        "stringValue"@.len() == 11 && "stringValue"@[0] == 's',
        "intValue"@.len() == 8,
        "doubleValue"@.len() == 11 && "doubleValue"@[0] == 'd',
        "boolValue"@.len() == 9,
        "bytesValue"@.len() == 10 && "bytesValue"@[0] == 'b',
        "arrayValue"@.len() == 10 && "arrayValue"@[0] == 'a',
        "kvlistValue"@.len() == 11 && "kvlistValue"@[0] == 'k',
        "values"@.len() == 6,
        "key"@.len() == 3,
        "value"@.len() == 5,
{
    reveal_strlit("stringValue");
    reveal_strlit("intValue");
    reveal_strlit("doubleValue");
    reveal_strlit("boolValue");
    reveal_strlit("bytesValue");
    reveal_strlit("arrayValue");
    reveal_strlit("kvlistValue");
    reveal_strlit("values");
    reveal_strlit("key");
    reveal_strlit("value");
}

/// The value of an object with one field.
proof fn lemma_single(key: Seq<char>, j: JsonView)
    ensures
        value_from_json(JsonView::Object(seq![(key, j)])) == ValueView::Object(
            seq![(key, value_from_json(j))],
        ),
        value_of(seq![(key, value_from_json(j))], key) == Some(value_from_json(j)),
{
    let m = seq![(key, j)];
    reveal_with_fuel(object_from_json, 3);
    assert(m.drop_last() =~= Seq::empty());
    let none = Seq::<(Seq<char>, ValueView)>::empty();
    let t = with_entry(none, key, value_from_json(j));
    law_read_after_write(none, key, value_from_json(j));
    assert(object_from_json(m) == t);
    assert(t =~= seq![(key, value_from_json(j))]);
}

proof fn lemma_array(a: Seq<JsonView>)
    ensures
        value_from_json(JsonView::Array(a)) == ValueView::Array(
            Seq::new(a.len(), |i: int| value_from_json(a[i])),
        ),
{
    reveal_with_fuel(value_from_json, 2);
    assert(value_from_json(JsonView::Array(a))->Array_0 =~= Seq::new(
        a.len(),
        |i: int| value_from_json(a[i]),
    ));
}

proof fn lemma_text(s: Seq<char>)
    ensures
        valid_utf8(encode_utf8(s)),
        decode_utf8(encode_utf8(s)) == s,
{
    encode_utf8_valid_utf8(s);
    encode_utf8_decode_utf8(s);
}

proof fn lemma_hex(b: Seq<u8>)
    ensures
        hex_decoded(ValueView::Bytes(encode_utf8(hex_text(b)))) == if b.len() == 0 {
            None
        } else {
            Some(b)
        },
        b.len() == 0 ==> encode_utf8(hex_text(b)) == b,
{
    law_hex_text_is_read(b);
    let s = hex_text(b);
    assert(is_ascii_chars(s)) by {
        assert forall|i: int| 0 <= i < s.len() implies 0 <= #[trigger] s[i] as nat && (s[i] as nat) < 128 by {
            assert('0' <= s[i] <= '9' || 'a' <= s[i] <= 'f');
        }
    }
    is_ascii_chars_encode_utf8(s);
    let e = encode_utf8(s);
    assert(byte_codes(e) =~= char_codes(s));
    assert forall|i: int| 0 <= i < char_codes(s).len() implies crate::hex::digit_value(
        #[trigger] char_codes(s)[i],
    ) is Some by {
        assert('0' <= s[i] <= '9' || 'a' <= s[i] <= 'f');
    }
    if b.len() == 0 {
        assert(e =~= b);
    }
}

/// Named values that are written as JSON are read again as they were.
proof fn lemma_pairs(kvs: Seq<(Seq<char>, Option<AnyView>)>)
    requires
        forall|i: int|
            0 <= i < kvs.len() ==> ((#[trigger] kvs[i]).1 matches Some(v) ==> otlp_any(
                value_from_json(json_any(v)),
            ) == Some(v)),
    ensures
        otlp_kvs(Seq::new(kvs.len(), |i: int| value_from_json(json_kv(kvs[i])))) == Some(kvs),
    decreases kvs.len(),
{
    let arr = Seq::new(kvs.len(), |i: int| value_from_json(json_kv(kvs[i])));
    reveal_with_fuel(otlp_kvs, 2);
    if kvs.len() == 0 {
        assert(kvs =~= Seq::empty());
    } else {
        let before = kvs.drop_last();
        assert forall|i: int| 0 <= i < before.len() implies ((#[trigger] before[i]).1 matches Some(v)
            ==> otlp_any(value_from_json(json_any(v))) == Some(v)) by {
            assert(before[i] == kvs[i]);
        }
        lemma_pairs(before);
        assert(arr.drop_last() =~= Seq::new(
            before.len(),
            |i: int| value_from_json(json_kv(before[i])),
        ));
        let kv = kvs[kvs.len() - 1];
        lemma_pair(kv);
        assert(arr.last() == value_from_json(json_kv(kv)));
        assert(before.push(kv) =~= kvs);
    }
}

proof fn lemma_pair(kv: (Seq<char>, Option<AnyView>))
    requires
        kv.1 matches Some(v) ==> otlp_any(value_from_json(json_any(v))) == Some(v),
    ensures
        otlp_kv(value_from_json(json_kv(kv))) == Some(kv),
{
    lemma_names();
    lemma_text(kv.0);
    let m = json_kv(kv)->Object_0;
    let name = JsonView::String(kv.0);
    let none = Seq::<(Seq<char>, ValueView)>::empty();
    reveal_with_fuel(object_from_json, 3);
    reveal_with_fuel(value_from_json, 2);
    law_read_after_write(none, "key"@, value_from_json(name));
    let o1 = with_entry(none, "key"@, value_from_json(name));
    match kv.1 {
        Some(v) => {
            let w = value_from_json(json_any(v));
            law_read_after_write(o1, "value"@, w);
            assert(m.drop_last() =~= seq![("key"@, name)]);
            assert(m.drop_last().drop_last() =~= Seq::empty());
            assert(value_from_json(json_kv(kv)) == ValueView::Object(object_from_json(m)));
            assert(object_from_json(m.drop_last()) == o1);
            let o = object_from_json(m);
            assert(o == with_entry(o1, "value"@, w));
            assert(value_of(o, "key"@) == Some(value_from_json(name)));
            assert(value_of(o, "value"@) == Some(w));
        },
        None => {
            assert(m =~= seq![("key"@, name)]);
            assert(m.drop_last() =~= Seq::empty());
            let o = object_from_json(m);
            assert(value_from_json(json_kv(kv)) == ValueView::Object(o));
            assert(o == o1);
            assert(value_of(o, "value"@) is None);
        },
    }
}

/// An attribute value that is written as JSON is read again as it was, if it can be told from what it is
/// written as.
pub proof fn law_attribute_value_is_read_back(a: AnyView)
    requires
        is_told(a),
    ensures
        otlp_any(value_from_json(json_any(a))) == Some(a),
    decreases a,
{
    lemma_names();
    match a {
        AnyView::Empty => {},
        AnyView::Str(s) => {
            lemma_single("stringValue"@, JsonView::String(s));
            lemma_text(s);
        },
        AnyView::Int(i) => {
            lemma_single("intValue"@, JsonView::String(signed_decimal(i as int)));
            lemma_text(signed_decimal(i as int));
            law_decimal_is_read(0, i);
        },
        AnyView::Double(d) => {
            let j = JsonView::Number(JsonNumber { integer: None, double: Some(d) });
            lemma_single("doubleValue"@, j);
            assert(json_any(a) == JsonView::Object(seq![("doubleValue"@, j)]));
            assert(value_from_json(j) == ValueView::Float(d));
        },
        AnyView::Bool(b) => {
            lemma_single("boolValue"@, JsonView::Bool(b));
        },
        AnyView::Bytes(b) => {
            lemma_single("bytesValue"@, JsonView::String(hex_text(b)));
            lemma_hex(b);
        },
        AnyView::Array(items) => {
            reveal_with_fuel(is_told, 2);
            lemma_json_any_array(items);
            let written = Seq::new(items.len(), |i: int| json_any(items[i]));
            lemma_array(written);
            let arr = Seq::new(written.len(), |i: int| value_from_json(written[i]));
            lemma_single("values"@, JsonView::Array(written));
            lemma_single("arrayValue"@, json_values(written));
            let v = value_from_json(json_any(a));
            lemma_otlp_items(v, arr);
            assert forall|i: int| 0 <= i < items.len() implies otlp_items(arr)[i] == items[i] by {
                assert(is_told(items[i]));
                law_attribute_value_is_read_back(items[i]);
            }
            assert(otlp_items(arr) =~= items);
        },
        AnyView::Kvlist(kvs) => {
            reveal_with_fuel(is_told, 2);
            lemma_json_any_kvlist(kvs);
            let written = Seq::new(kvs.len(), |i: int| json_kv(kvs[i]));
            lemma_array(written);
            let arr = Seq::new(written.len(), |i: int| value_from_json(written[i]));
            lemma_single("values"@, JsonView::Array(written));
            lemma_single("kvlistValue"@, json_values(written));
            assert forall|i: int| 0 <= i < kvs.len() implies ((#[trigger] kvs[i]).1 matches Some(v)
                ==> otlp_any(value_from_json(json_any(v))) == Some(v)) by {
                if let Some(v) = kvs[i].1 {
                    assert(is_told(v));
                    law_attribute_value_is_read_back(v);
                }
            }
            lemma_pairs(kvs);
            assert(arr =~= Seq::new(kvs.len(), |i: int| value_from_json(json_kv(kvs[i]))));
            reveal_with_fuel(otlp_any, 2);
        },
    }
}

/// A JSON value is taken as the attribute value that it is: a number as an integer where it is one, else
/// as a double, an array item by item, an object with its fields in order, and null as an empty value.
pub proof fn law_json_is_taken_as_attribute(j: JsonView)
    ensures
        j is Null ==> any_from_json(j) == AnyView::Empty,
        j matches JsonView::Bool(b) ==> any_from_json(j) == AnyView::Bool(b),
        j matches JsonView::String(s) ==> any_from_json(j) == AnyView::Str(s),
        j matches JsonView::Number(n) ==> (n.integer matches Some(i) ==> any_from_json(j)
            == AnyView::Int(i)),
        j matches JsonView::Number(n) ==> (n.integer is None ==> (n.double matches Some(d)
            ==> any_from_json(j) == AnyView::Double(d))),
        j matches JsonView::Array(a) ==> (any_from_json(j) matches AnyView::Array(items)
            && items.len() == a.len() && forall|i: int|
            0 <= i < a.len() ==> #[trigger] items[i] == any_from_json(a[i])),
        j matches JsonView::Object(m) ==> (any_from_json(j) matches AnyView::Kvlist(kvs)
            && kvs.len() == m.len() && forall|i: int|
            0 <= i < m.len() ==> (#[trigger] kvs[i]).0 == m[i].0 && kvs[i].1 == Some(
                any_from_json(m[i].1),
            )),
{
    reveal_with_fuel(any_from_json, 2);
}

/// A JSON value is taken as the value that it is: a number as an integer where it is one, else as a double,
/// a text as its bytes, an array item by item.
pub proof fn law_json_is_taken_as_value(j: JsonView)
    ensures
        j is Null ==> value_from_json(j) == ValueView::Null,
        j matches JsonView::Bool(b) ==> value_from_json(j) == ValueView::Boolean(b),
        j matches JsonView::String(s) ==> value_from_json(j) == ValueView::Bytes(encode_utf8(s)),
        j matches JsonView::Number(n) ==> (n.integer matches Some(i) ==> value_from_json(j)
            == ValueView::Integer(i)),
        j matches JsonView::Number(n) ==> (n.integer is None ==> (n.double matches Some(d) ==> (!nan(d)
            ==> value_from_json(j) == ValueView::Float(d)))),
        j matches JsonView::Array(a) ==> (value_from_json(j) matches ValueView::Array(items)
            && items.len() == a.len() && forall|i: int|
            0 <= i < a.len() ==> #[trigger] items[i] == value_from_json(a[i])),
        j is Object ==> value_from_json(j) is Object,
{
    if let JsonView::Array(a) = j {
        lemma_array(a);
    }
}

/// Of the fields of a JSON object each is found under its name, unless a later one has the same name.
pub proof fn law_json_fields_are_taken(m: Seq<(Seq<char>, JsonView)>, i: int)
    requires
        0 <= i < m.len(),
        forall|j: int| i < j < m.len() ==> (#[trigger] m[j]).0 != m[i].0,
    ensures
        ordered(object_from_json(m)),
        value_of(object_from_json(m), m[i].0) == Some(value_from_json(m[i].1)),
    decreases m.len(),
{
    let before = m.drop_last();
    let last = m.last();
    lemma_fields_ordered(before);
    law_read_after_write(object_from_json(before), last.0, value_from_json(last.1));
    reveal_with_fuel(object_from_json, 2);
    if i < before.len() {
        assert forall|j: int| i < j < before.len() implies (#[trigger] before[j]).0 != before[i].0 by {
            assert(m[j].0 != m[i].0);
        }
        law_json_fields_are_taken(before, i);
        assert(m[m.len() - 1].0 != m[i].0);
    }
}

proof fn lemma_fields_ordered(m: Seq<(Seq<char>, JsonView)>)
    ensures
        ordered(object_from_json(m)),
    decreases m.len(),
{
    reveal_with_fuel(object_from_json, 2);
    if m.len() > 0 {
        lemma_fields_ordered(m.drop_last());
        law_read_after_write(
            object_from_json(m.drop_last()),
            m.last().0,
            value_from_json(m.last().1),
        );
    }
}

} // verus!
