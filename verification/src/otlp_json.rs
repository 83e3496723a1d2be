//! Attribute values in the JSON encoding of the OpenTelemetry protocol, read back from the objects
//! that a JSON parser makes of them.
use vstd::prelude::*;
use vstd::utf8::{decode_utf8, valid_utf8};

use crate::any_value::{
    any_from_value, kvs_view, lemma_any_array_view, lemma_any_kvlist_view, values_view,
    vrl_value_to_any_value, AnyValue, AnyView, ArrayValue, KeyValue, KeyValueList, OtelValueKind,
};
use crate::double::{double_from_i64, double_of_int};
use crate::hex::{hex_decode_bytes, hex_decoded};
use crate::keyed::{lemma_slot_of, opt_view, slot_of, value_of, KeyedMap};
use crate::text::{copy_bytes, parse_i64, parsed_i64, str_eq, utf8_text};
use crate::value::{
    array_view, lemma_array_view, lemma_field_decreases, lemma_object_view, Value, ValueView,
};

verus! {

/// The attribute value that an object with a single field stands for, where the field is named
/// after a kind of attribute value and holds one of that kind. An integer may be given as a text of
/// digits, bytes in hexadecimal notation.
pub open spec fn otlp_any(v: ValueView) -> Option<AnyView>
    decreases v,
{
    match v {
        ValueView::Object(m) => if m.len() != 1 {
            None
        } else {
            let key = m[0].0;
            let val = m[0].1;
            if key == "stringValue"@ {
                match val {
                    ValueView::Bytes(b) => if valid_utf8(b) {
                        Some(AnyView::Str(decode_utf8(b)))
                    } else {
                        None
                    },
                    _ => None,
                }
            } else if key == "intValue"@ {
                match val {
                    ValueView::Integer(i) => Some(AnyView::Int(i)),
                    ValueView::Bytes(b) => if valid_utf8(b) {
                        match parsed_i64(decode_utf8(b)) {
                            Some(i) => Some(AnyView::Int(i)),
                            None => None,
                        }
                    } else {
                        None
                    },
                    _ => None,
                }
            } else if key == "doubleValue"@ {
                match val {
                    ValueView::Float(f) => Some(AnyView::Double(f)),
                    ValueView::Integer(i) => Some(AnyView::Double(double_of_int(i as int) as u64)),
                    _ => None,
                }
            } else if key == "boolValue"@ {
                match val {
                    ValueView::Boolean(b) => Some(AnyView::Bool(b)),
                    _ => None,
                }
            } else if key == "bytesValue"@ {
                match val {
                    ValueView::Bytes(b) => Some(
                        AnyView::Bytes(
                            match hex_decoded(val) {
                                Some(d) => d,
                                None => b,
                            },
                        ),
                    ),
                    _ => None,
                }
            } else if key == "arrayValue"@ {
                match val {
                    ValueView::Object(o) => {
                        proof {
                            lemma_slot_of(o, "values"@);
                        }
                        match value_of(o, "values"@) {
                            Some(ValueView::Array(arr)) => Some(
                                AnyView::Array(
                                    Seq::new(
                                        arr.len(),
                                        |i: int|
                                            if 0 <= i < arr.len() {
                                                match otlp_any(arr[i]) {
                                                    Some(a) => a,
                                                    None => any_from_value(arr[i]),
                                                }
                                            } else {
                                                arbitrary()
                                            },
                                    ),
                                ),
                            ),
                            _ => None,
                        }
                    },
                    _ => None,
                }
            } else if key == "kvlistValue"@ {
                match val {
                    ValueView::Object(o) => {
                        proof {
                            lemma_slot_of(o, "values"@);
                        }
                        match value_of(o, "values"@) {
                            Some(ValueView::Array(arr)) => match otlp_kvs(arr) {
                                Some(kvs) => Some(AnyView::Kvlist(kvs)),
                                None => None,
                            },
                            _ => None,
                        }
                    },
                    _ => None,
                }
            } else {
                None
            }
        },
        _ => None,
    }
}

/// The named attributes that objects with the fields `key` and `value` stand for. A value that is
/// not there, or that stands for none, is missing.
pub open spec fn otlp_kvs(arr: Seq<ValueView>) -> Option<Seq<(Seq<char>, Option<AnyView>)>>
    decreases arr,
{
    if arr.len() == 0 {
        Some(Seq::empty())
    } else {
        match (otlp_kvs(arr.drop_last()), otlp_kv(arr.last())) {
            (Some(kvs), Some(kv)) => Some(kvs.push(kv)),
            _ => None,
        }
    }
}

/// The named attribute that an object with the fields `key` and `value` stands for.
pub open spec fn otlp_kv(item: ValueView) -> Option<(Seq<char>, Option<AnyView>)>
    decreases item,
{
    match item {
        ValueView::Object(o) => match value_of(o, "key"@) {
            Some(ValueView::Bytes(b)) => if valid_utf8(b) {
                proof {
                    lemma_slot_of(o, "value"@);
                }
                Some(
                    (
                        decode_utf8(b),
                        match value_of(o, "value"@) {
                            Some(v) => otlp_any(v),
                            None => None,
                        },
                    ),
                )
            } else {
                None
            },
            _ => None,
        },
        _ => None,
    }
}

proof fn lemma_values_decrease(value: Value, m: KeyedMap<Value>, o: KeyedMap<Value>, arr: Vec<Value>, p: int, i: int)
    requires
        value == Value::Object(m),
        m.entries@.len() == 1,
        m.entries@[0].1 == Value::Object(o),
        0 <= p < o.entries@.len(),
        o.entries@[p].1 == Value::Array(arr),
        0 <= i < arr@.len(),
    ensures
        decreases_to!(value => arr@[i]),
        decreases_to!(value => arr),
{
    lemma_field_decreases(value, m, 0);
    lemma_field_decreases(m.entries@[0].1, o, p);
    assert(decreases_to!(o.entries@[p].1 => o.entries@[p].1->Array_0));
    assert(decreases_to!(arr => arr@));
    assert(decreases_to!(arr@ => arr@[i]));
}

proof fn lemma_values_vec_decreases(value: Value, m: KeyedMap<Value>, o: KeyedMap<Value>, arr: Vec<Value>, p: int)
    requires
        value == Value::Object(m),
        m.entries@.len() == 1,
        m.entries@[0].1 == Value::Object(o),
        0 <= p < o.entries@.len(),
        o.entries@[p].1 == Value::Array(arr),
    ensures
        decreases_to!(value => arr),
{
    lemma_field_decreases(value, m, 0);
    lemma_field_decreases(m.entries@[0].1, o, p);
    assert(decreases_to!(o.entries@[p].1 => o.entries@[p].1->Array_0));
}

/// The attribute value that `value` stands for in the JSON encoding, if it stands for one.
pub fn try_parse_otlp_any_value(value: &Value) -> (r: Option<AnyValue>)
    ensures
        opt_view(r) == otlp_any(value@),
    decreases value,
{
    let m = match value {
        Value::Object(m) => {
            proof {
                lemma_object_view(*m);
            }
            if m.len() != 1 {
                return None;
            }
            m
        },
        _ => {
            return None;
        },
    };
    let key: &str = m.entries[0].0.as_str();
    let val: &Value = &m.entries[0].1;
    assert(m@[0] == (key@, val@));
    if str_eq(key, "stringValue") {
        match val {
            Value::Bytes(b) => match utf8_text(b.as_slice()) {
                Some(s) => Some(AnyValue { value: Some(OtelValueKind::StringValue(s)) }),
                None => None,
            },
            _ => None,
        }
    } else if str_eq(key, "intValue") {
        match val {
            Value::Integer(i) => Some(AnyValue { value: Some(OtelValueKind::IntValue(*i)) }),
            Value::Bytes(b) => match utf8_text(b.as_slice()) {
                Some(s) => match parse_i64(s.as_str()) {
                    Some(i) => Some(AnyValue { value: Some(OtelValueKind::IntValue(i)) }),
                    None => None,
                },
                None => None,
            },
            _ => None,
        }
    } else if str_eq(key, "doubleValue") {
        match val {
            Value::Float(f) => Some(AnyValue { value: Some(OtelValueKind::DoubleValue(*f)) }),
            Value::Integer(i) => Some(
                AnyValue { value: Some(OtelValueKind::DoubleValue(double_from_i64(*i))) },
            ),
            _ => None,
        }
    } else if str_eq(key, "boolValue") {
        match val {
            Value::Boolean(b) => Some(AnyValue { value: Some(OtelValueKind::BoolValue(*b)) }),
            _ => None,
        }
    } else if str_eq(key, "bytesValue") {
        match val {
            Value::Bytes(b) => {
                let bytes = match hex_decode_bytes(b) {
                    Some(d) => d,
                    None => copy_bytes(b),
                };
                Some(AnyValue { value: Some(OtelValueKind::BytesValue(bytes)) })
            },
            _ => None,
        }
    } else if str_eq(key, "arrayValue") {
        match val {
            Value::Object(o) => {
                proof {
                    lemma_object_view(*o);
                }
                match o.get("values") {
                    Some(Value::Array(arr)) => {
                        let mut values: Vec<AnyValue> = Vec::new();
                        let mut i: usize = 0;
                        let ghost p = slot_of(o@, "values"@);
                        while i < arr.len()
                            invariant
                                i <= arr@.len(),
                                values@.len() == i,
                                *value == Value::Object(*m),
                                m.entries@.len() == 1,
                                m.entries@[0].1 == Value::Object(*o),
                                0 <= p < o.entries@.len(),
                                o.entries@[p].1 == Value::Array(*arr),
                                forall|j: int|
                                    0 <= j < i ==> (#[trigger] values@[j])@ == otlp_item(arr@[j]@),
                            decreases arr@.len() - i,
                        {
                            proof {
                                lemma_values_decrease(*value, *m, *o, *arr, p, i as int);
                            }
                            let v = match try_parse_otlp_any_value(&arr[i]) {
                                Some(a) => a,
                                None => vrl_value_to_any_value(&arr[i]),
                            };
                            values.push(v);
                            i = i + 1;
                        }
                        let a = ArrayValue { values };
                        proof {
                            lemma_array_view(*arr);
                            lemma_any_array_view(a);
                            lemma_otlp_items(value@, array_view(arr@));
                            assert(values_view(a.values@) =~= otlp_items(array_view(arr@)));
                        }
                        Some(AnyValue { value: Some(OtelValueKind::ArrayValue(a)) })
                    },
                    _ => None,
                }
            },
            _ => None,
        }
    } else if str_eq(key, "kvlistValue") {
        match val {
            Value::Object(o) => {
                proof {
                    lemma_object_view(*o);
                }
                match o.get("values") {
                    Some(Value::Array(arr)) => {
                        proof {
                            lemma_array_view(*arr);
                            lemma_values_vec_decreases(*value, *m, *o, *arr, slot_of(o@, "values"@));
                        }
                        match parse_otlp_key_value_array(arr) {
                            Some(values) => {
                                let l = KeyValueList { values };
                                proof {
                                    lemma_any_kvlist_view(l);
                                }
                                Some(AnyValue { value: Some(OtelValueKind::KvlistValue(l)) })
                            },
                            None => None,
                        }
                    },
                    _ => None,
                }
            },
            _ => None,
        }
    } else {
        None
    }
}

/// The named attributes that `arr` gives in the JSON encoding: `[{"key": .., "value": ..}, ..]`.
pub fn parse_otlp_key_value_array(arr: &Vec<Value>) -> (r: Option<Vec<KeyValue>>)
    ensures
        match r {
            Some(kvs) => otlp_kvs(array_view(arr@)) == Some(kvs_view(kvs@)),
            None => otlp_kvs(array_view(arr@)) is None,
        },
    decreases arr,
{
    let mut result: Vec<KeyValue> = Vec::new();
    let mut i: usize = 0;
    let ghost all = array_view(arr@);
    assert(all.take(0) =~= Seq::empty());
    assert(kvs_view(result@) =~= Seq::empty());
    while i < arr.len()
        invariant
            i <= arr@.len(),
            all == array_view(arr@),
            otlp_kvs(all.take(i as int)) == Some(kvs_view(result@)),
        decreases arr@.len() - i,
    {
        assert(all.take(i + 1).drop_last() =~= all.take(i as int));
        assert(all.take(i + 1).last() == arr@[i as int]@);
        proof {
            reveal_with_fuel(otlp_kvs, 3);
            reveal_with_fuel(otlp_kv, 3);
            if otlp_kvs(all.take(i + 1)) is None {
                lemma_otlp_kvs_prefix(all, i + 1);
            }
        }
        let o = match &arr[i] {
            Value::Object(o) => o,
            _ => {
                return None;
            },
        };
        proof {
            lemma_object_view(*o);
        }
        let key = match o.get("key") {
            Some(Value::Bytes(b)) => match utf8_text(b.as_slice()) {
                Some(s) => s,
                None => {
                    return None;
                },
            },
            _ => {
                return None;
            },
        };
        let value = match o.get("value") {
            Some(v) => {
                proof {
                    assert(decreases_to!(*arr => arr@));
                    assert(decreases_to!(arr@ => arr@[i as int]));
                    lemma_field_decreases(arr@[i as int], *o, slot_of(o@, "value"@));
                }
                try_parse_otlp_any_value(v)
            },
            None => None,
        };
        let ghost before = kvs_view(result@);
        let kv = KeyValue { key, value };
        let ghost item = kv@;
        result.push(kv);
        assert(kvs_view(result@) =~= before.push(item));
        i = i + 1;
    }
    assert(all.take(i as int) =~= all);
    Some(result)
}

/// What an item of an array in the JSON encoding stands for: the attribute value that it gives, or
/// itself.
pub open spec fn otlp_item(v: ValueView) -> AnyView {
    match otlp_any(v) {
        Some(a) => a,
        None => any_from_value(v),
    }
}

pub open spec fn otlp_items(arr: Seq<ValueView>) -> Seq<AnyView> {
    Seq::new(arr.len(), |i: int| otlp_item(arr[i]))
}

pub proof fn lemma_otlp_items(v: ValueView, arr: Seq<ValueView>)
    requires
        v is Object,
        v->Object_0.len() == 1,
        v->Object_0[0].0 == "arrayValue"@,
        v->Object_0[0].1 is Object,
        value_of(v->Object_0[0].1->Object_0, "values"@) == Some(ValueView::Array(arr)),
    ensures
        otlp_any(v) == Some(AnyView::Array(otlp_items(arr))),
{
    reveal_with_fuel(otlp_any, 3);
    reveal_strlit("arrayValue");
    reveal_strlit("stringValue");
    reveal_strlit("intValue");
    reveal_strlit("doubleValue");
    reveal_strlit("boolValue");
    reveal_strlit("bytesValue");
    assert("arrayValue"@[0] == 'a' && "bytesValue"@[0] == 'b');
    let items = otlp_any(v)->0->Array_0;
    assert(otlp_any(v) is Some && otlp_any(v)->0 is Array);
    assert(items.len() == arr.len());
    assert forall|i: int| 0 <= i < arr.len() implies items[i] == otlp_items(arr)[i] by {
        assert(items[i] == otlp_item(arr[i]));
    }
    assert(items =~= otlp_items(arr));
}

/// An array stands for named attributes only if each of its beginnings does.
proof fn lemma_otlp_kvs_prefix(arr: Seq<ValueView>, n: int)
    requires
        0 <= n <= arr.len(),
        otlp_kvs(arr.take(n)) is None,
    ensures
        otlp_kvs(arr) is None,
    decreases arr.len() - n,
{
    if n == arr.len() {
        assert(arr.take(n) =~= arr);
    } else {
        assert(arr.take(n + 1).drop_last() =~= arr.take(n));
        lemma_otlp_kvs_prefix(arr, n + 1);
    }
}

} // verus!
