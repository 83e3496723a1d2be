//! Values as they stand in the messages of the Vector-native encoding.
use vstd::prelude::*;
use vstd::utf8::encode_utf8;

use crate::double::nan;
use crate::keyed::{opt_view, KeyedMap};
use crate::text::{copy_bytes, text_bytes};
use crate::time::{is_instant, lemma_instant, lemma_timestamp_at, Timestamp};
use crate::value::{
    array_view, lemma_array_view, lemma_field_decreases, lemma_item_decreases, lemma_object_view,
    Value, ValueView,
};

verus! {

/// A value in a message. A double is held as the bits of its IEEE 754 representation.
#[derive(Debug, PartialEq)]
pub enum WireValue {
    RawBytes(Vec<u8>),
    Timestamp { seconds: i64, nanos: i32 },
    Integer(i64),
    Float(u64),
    Boolean(bool),
    Fields(KeyedMap<WireValue>),
    Array(Vec<WireValue>),
    Null,
    /// A value of a kind that is not known.
    Unknown,
}

pub enum WireView {
    RawBytes(Seq<u8>),
    Timestamp { seconds: i64, nanos: i32 },
    Integer(i64),
    Float(u64),
    Boolean(bool),
    Fields(Seq<(Seq<char>, WireView)>),
    Array(Seq<WireView>),
    Null,
    Unknown,
}

impl View for WireValue {
    type V = WireView;

    open spec fn view(&self) -> WireView
        decreases self,
    {
        match self {
            WireValue::RawBytes(b) => WireView::RawBytes(b@),
            WireValue::Timestamp { seconds, nanos } => WireView::Timestamp {
                seconds: *seconds,
                nanos: *nanos,
            },
            WireValue::Integer(i) => WireView::Integer(*i),
            WireValue::Float(f) => WireView::Float(*f),
            WireValue::Boolean(b) => WireView::Boolean(*b),
            WireValue::Fields(m) => WireView::Fields(
                Seq::new(
                    m.entries@.len(),
                    |i: int|
                        if 0 <= i < m.entries@.len() {
                            (m.entries@[i].0@, m.entries@[i].1@)
                        } else {
                            arbitrary()
                        },
                ),
            ),
            WireValue::Array(a) => WireView::Array(
                Seq::new(
                    a@.len(),
                    |i: int|
                        if 0 <= i < a@.len() {
                            a@[i]@
                        } else {
                            arbitrary()
                        },
                ),
            ),
            WireValue::Null => WireView::Null,
            WireValue::Unknown => WireView::Unknown,
        }
    }
}

/// The items of an array in a message.
pub open spec fn wire_items(a: Seq<WireValue>) -> Seq<WireView> {
    Seq::new(a.len(), |i: int| a[i]@)
}

pub proof fn lemma_wire_map_view(m: KeyedMap<WireValue>)
    ensures
        WireValue::Fields(m)@ == WireView::Fields(m@),
{
    reveal_with_fuel(<WireValue as View>::view, 2);
    assert(WireValue::Fields(m)@->Fields_0 =~= m@);
}

pub proof fn lemma_wire_array_view(a: Vec<WireValue>)
    ensures
        WireValue::Array(a)@ == WireView::Array(wire_items(a@)),
{
    reveal_with_fuel(<WireValue as View>::view, 2);
    assert(WireValue::Array(a)@->Array_0 =~= wire_items(a@));
}

/// The value as it stands in a message. A regular expression stands as its text.
pub open spec fn encoded(v: ValueView) -> WireView
    decreases v,
{
    match v {
        ValueView::Bytes(b) => WireView::RawBytes(b),
        ValueView::Regex(s) => WireView::RawBytes(encode_utf8(s)),
        ValueView::Timestamp(t) => WireView::Timestamp {
            seconds: t.spec_secs(),
            nanos: t.spec_nanos() as i32,
        },
        ValueView::Integer(i) => WireView::Integer(i),
        ValueView::Float(f) => WireView::Float(f),
        ValueView::Boolean(b) => WireView::Boolean(b),
        ValueView::Object(m) => WireView::Fields(
            Seq::new(
                m.len(),
                |i: int|
                    if 0 <= i < m.len() {
                        (m[i].0, encoded(m[i].1))
                    } else {
                        arbitrary()
                    },
            ),
        ),
        ValueView::Array(a) => WireView::Array(
            Seq::new(
                a.len(),
                |i: int|
                    if 0 <= i < a.len() {
                        encoded(a[i])
                    } else {
                        arbitrary()
                    },
            ),
        ),
        ValueView::Null => WireView::Null,
    }
}

/// The value that stands in a message; nothing where any part of it is of a kind that is not known.
pub open spec fn decoded(w: WireView) -> Option<ValueView>
    decreases w,
{
    match w {
        WireView::RawBytes(b) => Some(ValueView::Bytes(b)),
        WireView::Timestamp { seconds, nanos } => Some(
            ValueView::Timestamp(Timestamp::at(seconds, nanos as u32)),
        ),
        WireView::Integer(i) => Some(ValueView::Integer(i)),
        WireView::Float(f) => Some(ValueView::Float(f)),
        WireView::Boolean(b) => Some(ValueView::Boolean(b)),
        WireView::Fields(m) => if forall|i: int|
            0 <= i < m.len() ==> decoded((#[trigger] m[i]).1) is Some {
            Some(
                ValueView::Object(
                    Seq::new(
                        m.len(),
                        |i: int|
                            if 0 <= i < m.len() {
                                (m[i].0, decoded(m[i].1)->0)
                            } else {
                                arbitrary()
                            },
                    ),
                ),
            )
        } else {
            None
        },
        WireView::Array(a) => if forall|i: int|
            0 <= i < a.len() ==> decoded(#[trigger] a[i]) is Some {
            Some(
                ValueView::Array(
                    Seq::new(
                        a.len(),
                        |i: int|
                            if 0 <= i < a.len() {
                                decoded(a[i])->0
                            } else {
                                arbitrary()
                            },
                    ),
                ),
            )
        } else {
            None
        },
        WireView::Null => Some(ValueView::Null),
        WireView::Unknown => None,
    }
}

/// Whether each instant in a value exists and no double is a NaN, up to the first part that is of a
/// kind that is not known.
pub open spec fn readable(w: WireView) -> bool
    decreases w,
{
    match w {
        WireView::Timestamp { seconds, nanos } => is_instant(seconds as int, nanos as int),
        WireView::Float(f) => !nan(f),
        WireView::Fields(m) => forall|i: int|
            0 <= i < m.len() && (forall|j: int| 0 <= j < i ==> decoded((#[trigger] m[j]).1) is Some)
                ==> readable((#[trigger] m[i]).1),
        WireView::Array(a) => forall|i: int|
            0 <= i < a.len() && (forall|j: int| 0 <= j < i ==> decoded(#[trigger] a[j]) is Some)
                ==> readable(#[trigger] a[i]),
        _ => true,
    }
}

/// The fields of a map in a message.
pub open spec fn encoded_fields(m: Seq<(Seq<char>, ValueView)>) -> Seq<(Seq<char>, WireView)> {
    Seq::new(m.len(), |i: int| (m[i].0, encoded(m[i].1)))
}

pub proof fn lemma_encoded_object(m: Seq<(Seq<char>, ValueView)>)
    ensures
        encoded(ValueView::Object(m)) == WireView::Fields(encoded_fields(m)),
{
    reveal_with_fuel(encoded, 2);
    assert(encoded(ValueView::Object(m))->Fields_0 =~= encoded_fields(m));
}

pub proof fn lemma_encoded_array(a: Seq<ValueView>)
    ensures
        encoded(ValueView::Array(a)) == WireView::Array(Seq::new(a.len(), |i: int| encoded(a[i]))),
{
    reveal_with_fuel(encoded, 2);
    assert(encoded(ValueView::Array(a))->Array_0 =~= Seq::new(a.len(), |i: int| encoded(a[i])));
}

/// The value as it stands in a message.
pub fn encode_value(value: &Value) -> (r: WireValue)
    ensures
        r@ == encoded(value@),
    decreases value,
{
    match value {
        Value::Bytes(b) => WireValue::RawBytes(copy_bytes(b)),
        Value::Regex(s) => WireValue::RawBytes(text_bytes(s.as_str())),
        Value::Timestamp(t) => {
            WireValue::Timestamp {
                seconds: t.timestamp(),
                nanos: t.timestamp_subsec_nanos() as i32,
            }
        },
        Value::Integer(i) => WireValue::Integer(*i),
        Value::Float(f) => WireValue::Float(*f),
        Value::Boolean(b) => WireValue::Boolean(*b),
        Value::Object(m) => {
            let mut entries: Vec<(String, WireValue)> = Vec::new();
            let mut i: usize = 0;
            while i < m.entries.len()
                invariant
                    i <= m.entries@.len(),
                    entries@.len() == i,
                    value == Value::Object(*m),
                    forall|j: int|
                        0 <= j < i ==> (#[trigger] entries@[j]).0@ == m.entries@[j].0@
                            && entries@[j].1@ == encoded(m.entries@[j].1@),
                decreases m.entries@.len() - i,
            {
                proof {
                    lemma_field_decreases(*value, *m, i as int);
                }
                let v = encode_value(&m.entries[i].1);
                entries.push((m.entries[i].0.clone(), v));
                i = i + 1;
            }
            let map = KeyedMap { entries };
            proof {
                lemma_object_view(*m);
                lemma_encoded_object(m@);
                lemma_wire_map_view(map);
                assert(map@ =~= encoded_fields(m@));
            }
            WireValue::Fields(map)
        },
        Value::Array(a) => {
            let mut items: Vec<WireValue> = Vec::new();
            let mut i: usize = 0;
            while i < a.len()
                invariant
                    i <= a@.len(),
                    items@.len() == i,
                    value == Value::Array(*a),
                    forall|j: int| 0 <= j < i ==> (#[trigger] items@[j])@ == encoded(a@[j]@),
                decreases a@.len() - i,
            {
                proof {
                    lemma_item_decreases(*value, *a, i as int);
                }
                items.push(encode_value(&a[i]));
                i = i + 1;
            }
            proof {
                lemma_array_view(*a);
                lemma_encoded_array(array_view(a@));
                lemma_wire_array_view(items);
                assert(wire_items(items@) =~= Seq::new(
                    a@.len(),
                    |i: int| encoded(array_view(a@)[i]),
                ));
            }
            WireValue::Array(items)
        },
        Value::Null => WireValue::Null,
    }
}

proof fn lemma_wire_field_decreases(w: WireValue, m: KeyedMap<WireValue>, i: int)
    requires
        w == WireValue::Fields(m),
        0 <= i < m.entries@.len(),
    ensures
        decreases_to!(w => m.entries@[i].1),
{
    assert(decreases_to!(w => w->Fields_0));
    assert(decreases_to!(m => m.entries));
    assert(decreases_to!(m.entries => m.entries@));
    assert(decreases_to!(m.entries@ => m.entries@[i]));
    assert(decreases_to!(m.entries@[i] => m.entries@[i].1));
}

proof fn lemma_wire_item_decreases(w: WireValue, a: Vec<WireValue>, i: int)
    requires
        w == WireValue::Array(a),
        0 <= i < a@.len(),
    ensures
        decreases_to!(w => a@[i]),
{
    assert(decreases_to!(w => w->Array_0));
    assert(decreases_to!(a => a@));
    assert(decreases_to!(a@ => a@[i]));
}

/// The value that stands in a message; nothing where any part of it is of a kind that is not known.
pub fn decode_value(input: &WireValue) -> (r: Option<Value>)
    requires
        readable(input@),
    ensures
        opt_view(r) == decoded(input@),
    decreases input,
{
    reveal_with_fuel(decoded, 2);
    reveal_with_fuel(readable, 2);
    match input {
        WireValue::RawBytes(b) => Some(Value::Bytes(copy_bytes(b))),
        WireValue::Timestamp { seconds, nanos } => match Timestamp::from_timestamp(
            *seconds,
            *nanos as u32,
        ) {
            Some(t) => Some(Value::Timestamp(t)),
            None => None,
        },
        WireValue::Integer(i) => Some(Value::Integer(*i)),
        WireValue::Float(f) => Some(Value::Float(*f)),
        WireValue::Boolean(b) => Some(Value::Boolean(*b)),
        WireValue::Fields(m) => {
            proof {
                lemma_wire_map_view(*m);
            }
            let ghost all = m@;
            let mut entries: Vec<(String, Value)> = Vec::new();
            let mut i: usize = 0;
            while i < m.entries.len()
                invariant
                    i <= m.entries@.len(),
                    entries@.len() == i,
                    input == WireValue::Fields(*m),
                    input@ == WireView::Fields(all),
                    all == m@,
                    readable(input@),
                    forall|j: int| 0 <= j < i ==> decoded((#[trigger] all[j]).1) is Some,
                    forall|j: int|
                        0 <= j < i ==> (#[trigger] entries@[j]).0@ == all[j].0 && Some(
                            entries@[j].1@,
                        ) == decoded(all[j].1),
                decreases m.entries@.len() - i,
            {
                reveal_with_fuel(readable, 2);
                reveal_with_fuel(decoded, 2);
                proof {
                    lemma_wire_field_decreases(*input, *m, i as int);
                    assert(all[i as int].1 == m.entries@[i as int].1@);
                    assert(readable(all[i as int].1));
                }
                match decode_value(&m.entries[i].1) {
                    Some(v) => {
                        entries.push((m.entries[i].0.clone(), v));
                    },
                    None => {
                        assert(decoded(all[i as int].1) is None);
                        return None;
                    },
                }
                i = i + 1;
            }
            let map = KeyedMap { entries };
            proof {
                lemma_object_view(map);
                assert(map@ =~= decoded(input@)->0->Object_0);
            }
            Some(Value::Object(map))
        },
        WireValue::Array(a) => {
            proof {
                lemma_wire_array_view(*a);
            }
            let ghost all = wire_items(a@);
            let mut items: Vec<Value> = Vec::new();
            let mut i: usize = 0;
            while i < a.len()
                invariant
                    i <= a@.len(),
                    items@.len() == i,
                    input == WireValue::Array(*a),
                    input@ == WireView::Array(all),
                    all == wire_items(a@),
                    readable(input@),
                    forall|j: int| 0 <= j < i ==> decoded(#[trigger] all[j]) is Some,
                    forall|j: int|
                        0 <= j < i ==> Some((#[trigger] items@[j])@) == decoded(all[j]),
                decreases a@.len() - i,
            {
                reveal_with_fuel(readable, 2);
                reveal_with_fuel(decoded, 2);
                proof {
                    lemma_wire_item_decreases(*input, *a, i as int);
                    assert(all[i as int] == a@[i as int]@);
                    assert(readable(all[i as int]));
                }
                match decode_value(&a[i]) {
                    Some(v) => {
                        items.push(v);
                    },
                    None => {
                        assert(decoded(all[i as int]) is None);
                        return None;
                    },
                }
                i = i + 1;
            }
            proof {
                lemma_array_view(items);
                assert(array_view(items@) =~= decoded(input@)->0->Array_0);
            }
            Some(Value::Array(items))
        },
        WireValue::Null => Some(Value::Null),
        WireValue::Unknown => None,
    }
}

/// A value in which each instant exists and no double is a NaN.
pub open spec fn is_sound(v: ValueView) -> bool
    decreases v,
{
    match v {
        ValueView::Timestamp(t) => is_instant(t.spec_secs() as int, t.spec_nanos() as int),
        ValueView::Float(f) => !nan(f),
        ValueView::Object(m) => forall|i: int| 0 <= i < m.len() ==> is_sound((#[trigger] m[i]).1),
        ValueView::Array(a) => forall|i: int| 0 <= i < a.len() ==> is_sound(#[trigger] a[i]),
        _ => true,
    }
}

/// A value whose regular expressions have become their texts.
pub open spec fn without_regexes(v: ValueView) -> ValueView
    decreases v,
{
    match v {
        ValueView::Regex(s) => ValueView::Bytes(encode_utf8(s)),
        ValueView::Object(m) => ValueView::Object(
            Seq::new(
                m.len(),
                |i: int|
                    if 0 <= i < m.len() {
                        (m[i].0, without_regexes(m[i].1))
                    } else {
                        arbitrary()
                    },
            ),
        ),
        ValueView::Array(a) => ValueView::Array(
            Seq::new(
                a.len(),
                |i: int|
                    if 0 <= i < a.len() {
                        without_regexes(a[i])
                    } else {
                        arbitrary()
                    },
            ),
        ),
        _ => v,
    }
}

/// A value that is put into a message comes out of it as it was, but for regular expressions, which
/// come out as their texts.
pub proof fn law_wire_round_trip(v: ValueView)
    requires
        is_sound(v),
    ensures
        readable(encoded(v)),
        decoded(encoded(v)) == Some(without_regexes(v)),
    decreases v,
{
    reveal_with_fuel(encoded, 2);
    reveal_with_fuel(decoded, 2);
    reveal_with_fuel(readable, 2);
    reveal_with_fuel(is_sound, 2);
    reveal_with_fuel(without_regexes, 2);
    match v {
        ValueView::Object(m) => {
            lemma_encoded_object(m);
            let w = encoded_fields(m);
            assert forall|i: int| 0 <= i < m.len() implies readable((#[trigger] w[i]).1) && decoded(
                w[i].1,
            ) == Some(without_regexes(m[i].1)) by {
                law_wire_round_trip(m[i].1);
            }
            assert(decoded(encoded(v))->0->Object_0 =~= without_regexes(v)->Object_0);
        },
        ValueView::Array(a) => {
            lemma_encoded_array(a);
            let w = Seq::new(a.len(), |i: int| encoded(a[i]));
            assert forall|i: int| 0 <= i < a.len() implies readable(#[trigger] w[i]) && decoded(w[i])
                == Some(without_regexes(a[i])) by {
                law_wire_round_trip(a[i]);
            }
            assert(decoded(encoded(v))->0->Array_0 =~= without_regexes(v)->Array_0);
        },
        ValueView::Timestamp(t) => {
            lemma_instant(t.spec_secs(), t.spec_nanos());
            lemma_timestamp_at(t);
        },
        _ => {},
    }
}

/// Whether no part of a value is a regular expression.
pub open spec fn has_no_regex(v: ValueView) -> bool
    decreases v,
{
    match v {
        ValueView::Regex(_) => false,
        ValueView::Object(m) => forall|i: int|
            0 <= i < m.len() ==> has_no_regex((#[trigger] m[i]).1),
        ValueView::Array(a) => forall|i: int| 0 <= i < a.len() ==> has_no_regex(#[trigger] a[i]),
        _ => true,
    }
}

proof fn lemma_regexes_stay_out(v: ValueView)
    requires
        has_no_regex(v),
    ensures
        without_regexes(v) == v,
    decreases v,
{
    reveal_with_fuel(has_no_regex, 2);
    reveal_with_fuel(without_regexes, 2);
    match v {
        ValueView::Object(m) => {
            assert forall|i: int| 0 <= i < m.len() implies without_regexes((#[trigger] m[i]).1)
                == m[i].1 by {
                lemma_regexes_stay_out(m[i].1);
            }
            assert(without_regexes(v)->Object_0 =~= m);
        },
        ValueView::Array(a) => {
            assert forall|i: int| 0 <= i < a.len() implies without_regexes(#[trigger] a[i]) == a[i] by {
                lemma_regexes_stay_out(a[i]);
            }
            assert(without_regexes(v)->Array_0 =~= a);
        },
        _ => {},
    }
}

/// The items of an array as they stand in a message.
pub open spec fn encoded_items(items: Seq<ValueView>) -> Seq<WireView> {
    Seq::new(items.len(), |i: int| encoded(items[i]))
}

/// The items of an array are put into a message one by one, and come out of it as they were and in
/// the same order, if no part of them is a regular expression.
pub proof fn law_items_round_trip(items: Seq<ValueView>)
    requires
        forall|i: int|
            0 <= i < items.len() ==> is_sound(#[trigger] items[i]) && has_no_regex(items[i]),
    ensures
        encoded(ValueView::Array(items)) == WireView::Array(encoded_items(items)),
        encoded_items(items).len() == items.len(),
        readable(WireView::Array(encoded_items(items))),
        decoded(WireView::Array(encoded_items(items))) == Some(ValueView::Array(items)),
{
    let v = ValueView::Array(items);
    lemma_encoded_array(items);
    assert(is_sound(v)) by {
        reveal_with_fuel(is_sound, 2);
    }
    assert(has_no_regex(v)) by {
        reveal_with_fuel(has_no_regex, 2);
    }
    lemma_regexes_stay_out(v);
    law_wire_round_trip(v);
}

} // verus!
