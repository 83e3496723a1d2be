//! Attribute values of the OpenTelemetry protocol, and their conversion from and to `Value`.
use vstd::prelude::*;
use vstd::utf8::{decode_utf8, valid_utf8};

use crate::double::{nan_to_zero, without_nan};
use crate::keyed::{with_entry, KeyedMap};
use crate::text::{copy_bytes, utf8_text};
use crate::time::rfc3339;
use crate::value::{
    array_view, lemma_array_view, lemma_field_decreases, lemma_item_decreases, lemma_object_view,
    Value, ValueView,
};

verus! {

/// An attribute value, which may be empty.
#[derive(Debug, PartialEq)]
pub struct AnyValue {
    pub value: Option<OtelValueKind>,
}

/// What an attribute value holds. A double is held as its bits.
#[derive(Debug, PartialEq)]
pub enum OtelValueKind {
    StringValue(String),
    BoolValue(bool),
    IntValue(i64),
    DoubleValue(u64),
    ArrayValue(ArrayValue),
    KvlistValue(KeyValueList),
    BytesValue(Vec<u8>),
}

#[derive(Debug, PartialEq)]
pub struct ArrayValue {
    pub values: Vec<AnyValue>,
}

#[derive(Debug, PartialEq)]
pub struct KeyValueList {
    pub values: Vec<KeyValue>,
}

/// A named attribute, whose value may be missing.
#[derive(Debug, PartialEq)]
pub struct KeyValue {
    pub key: String,
    pub value: Option<AnyValue>,
}

/// What an `AnyValue` holds.
pub enum AnyView {
    Empty,
    Str(Seq<char>),
    Bool(bool),
    Int(i64),
    Double(u64),
    Array(Seq<AnyView>),
    Kvlist(Seq<(Seq<char>, Option<AnyView>)>),
    Bytes(Seq<u8>),
}

/// Named attributes, in order.
pub type KvView = Seq<(Seq<char>, Option<AnyView>)>;

impl View for AnyValue {
    type V = AnyView;

    open spec fn view(&self) -> AnyView
        decreases self,
    {
        match self.value {
            None => AnyView::Empty,
            Some(kind) => match kind {
                OtelValueKind::StringValue(s) => AnyView::Str(s@),
                OtelValueKind::BoolValue(b) => AnyView::Bool(b),
                OtelValueKind::IntValue(i) => AnyView::Int(i),
                OtelValueKind::DoubleValue(d) => AnyView::Double(d),
                OtelValueKind::ArrayValue(a) => AnyView::Array(
                    Seq::new(
                        a.values@.len(),
                        |i: int|
                            if 0 <= i < a.values@.len() {
                                a.values@[i]@
                            } else {
                                arbitrary()
                            },
                    ),
                ),
                OtelValueKind::KvlistValue(l) => AnyView::Kvlist(
                    Seq::new(
                        l.values@.len(),
                        |i: int|
                            if 0 <= i < l.values@.len() {
                                (
                                    l.values@[i].key@,
                                    match l.values@[i].value {
                                        Some(v) => Some(v@),
                                        None => None,
                                    },
                                )
                            } else {
                                arbitrary()
                            },
                    ),
                ),
                OtelValueKind::BytesValue(b) => AnyView::Bytes(b@),
            },
        }
    }
}

impl View for KeyValue {
    type V = (Seq<char>, Option<AnyView>);

    open spec fn view(&self) -> (Seq<char>, Option<AnyView>) {
        (
            self.key@,
            match self.value {
                Some(v) => Some(v@),
                None => None,
            },
        )
    }
}

pub open spec fn values_view(values: Seq<AnyValue>) -> Seq<AnyView> {
    Seq::new(values.len(), |i: int| values[i]@)
}

pub open spec fn kvs_view(kvs: Seq<KeyValue>) -> Seq<(Seq<char>, Option<AnyView>)> {
    Seq::new(kvs.len(), |i: int| kvs[i]@)
}

pub proof fn lemma_any_array_view(a: ArrayValue)
    ensures
        (AnyValue { value: Some(OtelValueKind::ArrayValue(a)) })@ == AnyView::Array(
            values_view(a.values@),
        ),
{
    reveal_with_fuel(<AnyValue as View>::view, 2);
    assert((AnyValue { value: Some(OtelValueKind::ArrayValue(a)) })@->Array_0 =~= values_view(
        a.values@,
    ));
}

pub proof fn lemma_any_kvlist_view(l: KeyValueList)
    ensures
        (AnyValue { value: Some(OtelValueKind::KvlistValue(l)) })@ == AnyView::Kvlist(
            kvs_view(l.values@),
        ),
{
    reveal_with_fuel(<AnyValue as View>::view, 2);
    assert((AnyValue { value: Some(OtelValueKind::KvlistValue(l)) })@->Kvlist_0 =~= kvs_view(
        l.values@,
    ));
}

/// The value as which an attribute value is read. A NaN is read as zero; of the named attributes of
/// a list with the same name, the last counts.
pub open spec fn value_from_any(a: AnyView) -> ValueView
    decreases a,
{
    match a {
        AnyView::Empty => ValueView::Null,
        AnyView::Str(s) => ValueView::text(s),
        AnyView::Bool(b) => ValueView::Boolean(b),
        AnyView::Int(i) => ValueView::Integer(i),
        AnyView::Double(d) => ValueView::Float(nan_to_zero(d)),
        AnyView::Bytes(b) => ValueView::Bytes(b),
        AnyView::Array(items) => ValueView::Array(
            Seq::new(
                items.len(),
                |i: int|
                    if 0 <= i < items.len() {
                        value_from_any(items[i])
                    } else {
                        arbitrary()
                    },
            ),
        ),
        AnyView::Kvlist(kvs) => ValueView::Object(object_from_kvs(kvs)),
    }
}

/// The object as which named attributes are read: a missing value is null.
pub open spec fn object_from_kvs(kvs: Seq<(Seq<char>, Option<AnyView>)>) -> Seq<
    (Seq<char>, ValueView),
>
    decreases kvs,
{
    if kvs.len() == 0 {
        Seq::empty()
    } else {
        let last = kvs.last();
        with_entry(
            object_from_kvs(kvs.drop_last()),
            last.0,
            match last.1 {
                Some(a) => value_from_any(a),
                None => ValueView::Null,
            },
        )
    }
}

/// The attribute value as which a value is stored. Bytes that are valid UTF-8 become a string.
pub open spec fn any_from_value(v: ValueView) -> AnyView
    decreases v,
{
    match v {
        ValueView::Bytes(b) => if valid_utf8(b) {
            AnyView::Str(decode_utf8(b))
        } else {
            AnyView::Bytes(b)
        },
        ValueView::Integer(i) => AnyView::Int(i),
        ValueView::Float(f) => AnyView::Double(f),
        ValueView::Boolean(b) => AnyView::Bool(b),
        ValueView::Timestamp(t) => AnyView::Str(rfc3339(t.spec_secs(), t.spec_nanos())),
        ValueView::Regex(s) => AnyView::Str(s),
        ValueView::Null => AnyView::Empty,
        ValueView::Object(m) => AnyView::Kvlist(
            Seq::new(
                m.len(),
                |i: int|
                    if 0 <= i < m.len() {
                        (m[i].0, Some(any_from_value(m[i].1)))
                    } else {
                        arbitrary()
                    },
            ),
        ),
        ValueView::Array(a) => AnyView::Array(
            Seq::new(
                a.len(),
                |i: int|
                    if 0 <= i < a.len() {
                        any_from_value(a[i])
                    } else {
                        arbitrary()
                    },
            ),
        ),
    }
}

/// Each item of an array, stored as an attribute value.
pub open spec fn anys_from_values(a: Seq<ValueView>) -> Seq<AnyView> {
    Seq::new(a.len(), |i: int| any_from_value(a[i]))
}

/// Each field of an object, stored as a named attribute.
pub open spec fn kvs_from_object(m: Seq<(Seq<char>, ValueView)>) -> Seq<
    (Seq<char>, Option<AnyView>),
> {
    Seq::new(m.len(), |i: int| (m[i].0, Some(any_from_value(m[i].1))))
}

/// Each attribute value of an array, read as a value.
pub open spec fn values_from_anys(a: Seq<AnyView>) -> Seq<ValueView> {
    Seq::new(a.len(), |i: int| value_from_any(a[i]))
}

pub proof fn lemma_any_from_array(a: Seq<ValueView>)
    ensures
        any_from_value(ValueView::Array(a)) == AnyView::Array(anys_from_values(a)),
{
    reveal_with_fuel(any_from_value, 2);
    assert(any_from_value(ValueView::Array(a))->Array_0 =~= anys_from_values(a));
}

pub proof fn lemma_any_from_object(m: Seq<(Seq<char>, ValueView)>)
    ensures
        any_from_value(ValueView::Object(m)) == AnyView::Kvlist(kvs_from_object(m)),
{
    reveal_with_fuel(any_from_value, 2);
    assert(any_from_value(ValueView::Object(m))->Kvlist_0 =~= kvs_from_object(m));
}

pub proof fn lemma_value_from_array(a: Seq<AnyView>)
    ensures
        value_from_any(AnyView::Array(a)) == ValueView::Array(values_from_anys(a)),
{
    reveal_with_fuel(value_from_any, 2);
    assert(value_from_any(AnyView::Array(a))->Array_0 =~= values_from_anys(a));
}

pub proof fn lemma_any_item_decreases(v: AnyValue, a: ArrayValue, i: int)
    requires
        v.value == Some(OtelValueKind::ArrayValue(a)),
        0 <= i < a.values@.len(),
    ensures
        decreases_to!(v => a.values@[i]),
{
    assert(decreases_to!(v => v.value));
    assert(decreases_to!(v.value => v.value->0));
    assert(decreases_to!(v.value->0 => v.value->0->ArrayValue_0));
    assert(decreases_to!(a => a.values));
    assert(decreases_to!(a.values => a.values@));
    assert(decreases_to!(a.values@ => a.values@[i]));
}

pub proof fn lemma_any_kv_decreases(v: AnyValue, l: KeyValueList, i: int)
    requires
        v.value == Some(OtelValueKind::KvlistValue(l)),
        0 <= i < l.values@.len(),
        l.values@[i].value is Some,
    ensures
        decreases_to!(v => l.values@[i].value->0),
{
    assert(decreases_to!(v => v.value));
    assert(decreases_to!(v.value => v.value->0));
    assert(decreases_to!(v.value->0 => v.value->0->KvlistValue_0));
    assert(decreases_to!(l => l.values));
    assert(decreases_to!(l.values => l.values@));
    assert(decreases_to!(l.values@ => l.values@[i]));
    assert(decreases_to!(l.values@[i] => l.values@[i].value));
    assert(decreases_to!(l.values@[i].value => l.values@[i].value->0));
}

impl Clone for AnyValue {
    fn clone(&self) -> (r: Self)
        ensures
            r@ == self@,
        decreases self,
    {
        let kind = match &self.value {
            None => {
                return AnyValue { value: None };
            },
            Some(kind) => kind,
        };
        match kind {
            OtelValueKind::StringValue(s) => AnyValue {
                value: Some(OtelValueKind::StringValue(s.clone())),
            },
            OtelValueKind::BoolValue(b) => AnyValue { value: Some(OtelValueKind::BoolValue(*b)) },
            OtelValueKind::IntValue(i) => AnyValue { value: Some(OtelValueKind::IntValue(*i)) },
            OtelValueKind::DoubleValue(d) => AnyValue {
                value: Some(OtelValueKind::DoubleValue(*d)),
            },
            OtelValueKind::BytesValue(b) => AnyValue {
                value: Some(OtelValueKind::BytesValue(copy_bytes(b))),
            },
            OtelValueKind::ArrayValue(a) => {
                let mut values: Vec<AnyValue> = Vec::new();
                let mut i: usize = 0;
                while i < a.values.len()
                    invariant
                        i <= a.values@.len(),
                        values@.len() == i,
                        self.value == Some(OtelValueKind::ArrayValue(*a)),
                        forall|j: int| 0 <= j < i ==> (#[trigger] values@[j])@ == a.values@[j]@,
                    decreases a.values@.len() - i,
                {
                    proof {
                        lemma_any_item_decreases(*self, *a, i as int);
                    }
                    let v = a.values[i].clone();
                    values.push(v);
                    i = i + 1;
                }
                let c = ArrayValue { values };
                proof {
                    lemma_any_array_view(*a);
                    lemma_any_array_view(c);
                    assert(values_view(c.values@) =~= values_view(a.values@));
                }
                AnyValue { value: Some(OtelValueKind::ArrayValue(c)) }
            },
            OtelValueKind::KvlistValue(l) => {
                let mut values: Vec<KeyValue> = Vec::new();
                let mut i: usize = 0;
                while i < l.values.len()
                    invariant
                        i <= l.values@.len(),
                        values@.len() == i,
                        self.value == Some(OtelValueKind::KvlistValue(*l)),
                        forall|j: int| 0 <= j < i ==> (#[trigger] values@[j])@ == l.values@[j]@,
                    decreases l.values@.len() - i,
                {
                    let value = match &l.values[i].value {
                        Some(v) => {
                            proof {
                                lemma_any_kv_decreases(*self, *l, i as int);
                            }
                            Some(v.clone())
                        },
                        None => None,
                    };
                    values.push(KeyValue { key: l.values[i].key.clone(), value });
                    i = i + 1;
                }
                let c = KeyValueList { values };
                proof {
                    lemma_any_kvlist_view(*l);
                    lemma_any_kvlist_view(c);
                    assert(kvs_view(c.values@) =~= kvs_view(l.values@));
                }
                AnyValue { value: Some(OtelValueKind::KvlistValue(c)) }
            },
        }
    }
}

impl Clone for KeyValue {
    fn clone(&self) -> (r: Self)
        ensures
            r@ == self@,
    {
        let value = match &self.value {
            Some(v) => Some(v.clone()),
            None => None,
        };
        KeyValue { key: self.key.clone(), value }
    }
}

/// A copy of named attributes.
pub fn clone_key_values(kvs: &Vec<KeyValue>) -> (r: Vec<KeyValue>)
    ensures
        kvs_view(r@) == kvs_view(kvs@),
{
    let mut r: Vec<KeyValue> = Vec::new();
    let mut i: usize = 0;
    while i < kvs.len()
        invariant
            i <= kvs@.len(),
            r@.len() == i,
            forall|j: int| 0 <= j < i ==> (#[trigger] r@[j])@ == kvs@[j]@,
        decreases kvs@.len() - i,
    {
        r.push(kvs[i].clone());
        i = i + 1;
    }
    assert(kvs_view(r@) =~= kvs_view(kvs@));
    r
}

impl AnyValue {
    /// An empty attribute value.
    pub fn empty() -> (r: AnyValue)
        ensures
            r@ == AnyView::Empty,
    {
        AnyValue { value: None }
    }
}

/// A string as an attribute value.
pub fn string_value(s: &str) -> (r: AnyValue)
    ensures
        r@ == AnyView::Str(s@),
{
    AnyValue { value: Some(OtelValueKind::StringValue(s.to_owned())) }
}

/// An integer as an attribute value.
pub fn int_value(i: i64) -> (r: AnyValue)
    ensures
        r@ == AnyView::Int(i),
{
    AnyValue { value: Some(OtelValueKind::IntValue(i)) }
}

/// The value as which an attribute value is read. A NaN is read as zero.
pub fn any_value_to_vrl(av: &AnyValue) -> (r: Value)
    ensures
        r@ == value_from_any(av@),
    decreases av,
{
    let kind = match &av.value {
        None => {
            return Value::Null;
        },
        Some(kind) => kind,
    };
    match kind {
        OtelValueKind::StringValue(s) => Value::from_text(s.as_str()),
        OtelValueKind::BoolValue(b) => Value::Boolean(*b),
        OtelValueKind::IntValue(i) => Value::Integer(*i),
        OtelValueKind::DoubleValue(d) => Value::Float(without_nan(*d)),
        OtelValueKind::BytesValue(b) => Value::Bytes(copy_bytes(b)),
        OtelValueKind::ArrayValue(a) => {
            let mut items: Vec<Value> = Vec::new();
            let mut i: usize = 0;
            while i < a.values.len()
                invariant
                    i <= a.values@.len(),
                    items@.len() == i,
                    av.value == Some(OtelValueKind::ArrayValue(*a)),
                    forall|j: int|
                        0 <= j < i ==> (#[trigger] items@[j])@ == value_from_any(a.values@[j]@),
                decreases a.values@.len() - i,
            {
                proof {
                    lemma_any_item_decreases(*av, *a, i as int);
                }
                let v = any_value_to_vrl(&a.values[i]);
                items.push(v);
                i = i + 1;
            }
            proof {
                lemma_any_array_view(*a);
                lemma_array_view(items);
                lemma_value_from_array(values_view(a.values@));
                assert(array_view(items@) =~= values_from_anys(values_view(a.values@)));
            }
            Value::Array(items)
        },
        OtelValueKind::KvlistValue(l) => {
            let mut map = KeyedMap::<Value>::new();
            let mut i: usize = 0;
            let ghost kvs = kvs_view(l.values@);
            assert(kvs.take(0) =~= Seq::empty());
            while i < l.values.len()
                invariant
                    i <= l.values@.len(),
                    av.value == Some(OtelValueKind::KvlistValue(*l)),
                    kvs == kvs_view(l.values@),
                    map@ == object_from_kvs(kvs.take(i as int)),
                    map.wf(),
                decreases l.values@.len() - i,
            {
                assert(kvs.take(i + 1).drop_last() =~= kvs.take(i as int));
                let v = match &l.values[i].value {
                    Some(v) => {
                        proof {
                            lemma_any_kv_decreases(*av, *l, i as int);
                        }
                        any_value_to_vrl(v)
                    },
                    None => Value::Null,
                };
                map.insert(l.values[i].key.clone(), v);
                i = i + 1;
            }
            proof {
                assert(kvs.take(i as int) =~= kvs);
                lemma_any_kvlist_view(*l);
                lemma_object_view(map);
            }
            Value::Object(map)
        },
    }
}

/// The object as which named attributes are read. A missing value is null; of the attributes with
/// the same name, the last counts.
pub fn kvlist_to_object_map(kvs: &Vec<KeyValue>) -> (r: KeyedMap<Value>)
    ensures
        r@ == object_from_kvs(kvs_view(kvs@)),
        r.wf(),
{
    let mut map = KeyedMap::<Value>::new();
    let mut i: usize = 0;
    let ghost all = kvs_view(kvs@);
    assert(all.take(0) =~= Seq::empty());
    while i < kvs.len()
        invariant
            i <= kvs@.len(),
            all == kvs_view(kvs@),
            map@ == object_from_kvs(all.take(i as int)),
            map.wf(),
        decreases kvs@.len() - i,
    {
        assert(all.take(i + 1).drop_last() =~= all.take(i as int));
        let v = match &kvs[i].value {
            Some(v) => any_value_to_vrl(v),
            None => Value::Null,
        };
        map.insert(kvs[i].key.clone(), v);
        i = i + 1;
    }
    assert(all.take(i as int) =~= all);
    map
}

/// The attribute value as which a value is stored. Bytes that are valid UTF-8 become a string, an
/// instant its RFC 3339 notation.
pub fn vrl_value_to_any_value(value: &Value) -> (r: AnyValue)
    ensures
        r@ == any_from_value(value@),
    decreases value,
{
    match value {
        Value::Bytes(b) => match utf8_text(b.as_slice()) {
            Some(s) => AnyValue { value: Some(OtelValueKind::StringValue(s)) },
            None => AnyValue { value: Some(OtelValueKind::BytesValue(copy_bytes(b))) },
        },
        Value::Integer(i) => AnyValue { value: Some(OtelValueKind::IntValue(*i)) },
        Value::Float(f) => AnyValue { value: Some(OtelValueKind::DoubleValue(*f)) },
        Value::Boolean(b) => AnyValue { value: Some(OtelValueKind::BoolValue(*b)) },
        Value::Timestamp(t) => AnyValue {
            value: Some(OtelValueKind::StringValue(t.to_rfc3339())),
        },
        Value::Regex(s) => AnyValue { value: Some(OtelValueKind::StringValue(s.clone())) },
        Value::Null => AnyValue { value: None },
        Value::Object(m) => {
            let mut values: Vec<KeyValue> = Vec::new();
            let mut i: usize = 0;
            while i < m.entries.len()
                invariant
                    i <= m.entries@.len(),
                    values@.len() == i,
                    value == Value::Object(*m),
                    forall|j: int|
                        0 <= j < i ==> (#[trigger] values@[j])@ == (
                            m.entries@[j].0@,
                            Some(any_from_value(m.entries@[j].1@)),
                        ),
                decreases m.entries@.len() - i,
            {
                proof {
                    lemma_field_decreases(*value, *m, i as int);
                }
                let v = vrl_value_to_any_value(&m.entries[i].1);
                values.push(KeyValue { key: m.entries[i].0.clone(), value: Some(v) });
                i = i + 1;
            }
            let l = KeyValueList { values };
            proof {
                lemma_object_view(*m);
                lemma_any_from_object(m@);
                lemma_any_kvlist_view(l);
                assert(kvs_view(l.values@) =~= kvs_from_object(m@));
            }
            AnyValue { value: Some(OtelValueKind::KvlistValue(l)) }
        },
        Value::Array(a) => {
            let mut values: Vec<AnyValue> = Vec::new();
            let mut i: usize = 0;
            while i < a.len()
                invariant
                    i <= a@.len(),
                    values@.len() == i,
                    value == Value::Array(*a),
                    forall|j: int|
                        0 <= j < i ==> (#[trigger] values@[j])@ == any_from_value(a@[j]@),
                decreases a@.len() - i,
            {
                proof {
                    lemma_item_decreases(*value, *a, i as int);
                }
                let v = vrl_value_to_any_value(&a[i]);
                values.push(v);
                i = i + 1;
            }
            let c = ArrayValue { values };
            proof {
                lemma_array_view(*a);
                lemma_any_from_array(array_view(a@));
                lemma_any_array_view(c);
                assert(values_view(c.values@) =~= anys_from_values(array_view(a@)));
            }
            AnyValue { value: Some(OtelValueKind::ArrayValue(c)) }
        },
    }
}

} // verus!
