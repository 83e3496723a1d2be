//! JSON values, and the log events that they give.
use vstd::prelude::*;

use crate::any_value::{
    lemma_any_array_view, lemma_any_kvlist_view, AnyValue, AnyView, ArrayValue, KeyValue,
    KeyValueList, OtelValueKind,
};
use crate::double::{nan_to_zero, without_nan};
use crate::keyed::{with_entry, KeyedMap};
use crate::log::{OtelLog, OtelLogView};
use crate::log_value::log_from_value;
use crate::metadata::EventMetadata;
use crate::otlp::LogRecord;
use crate::value::{lemma_array_view, lemma_object_view, Value, ValueView};

verus! {

/// A number of a JSON text: what it is as a signed integer, where it is one, and as the bits of a
/// double, where it is one.
#[derive(Clone, Copy, Debug, PartialEq, Eq)]
pub struct JsonNumber {
    pub integer: Option<i64>,
    pub double: Option<u64>,
}

/// A JSON value. The fields of an object stand in the order in which they are handed out.
#[derive(Debug)]
pub enum Json {
    Null,
    Bool(bool),
    Number(JsonNumber),
    String(String),
    Array(Vec<Json>),
    Object(Vec<(String, Json)>),
}

pub enum JsonView {
    Null,
    Bool(bool),
    Number(JsonNumber),
    String(Seq<char>),
    Array(Seq<JsonView>),
    Object(Seq<(Seq<char>, JsonView)>),
}

impl View for Json {
    type V = JsonView;

    open spec fn view(&self) -> JsonView
        decreases self,
    {
        match self {
            Json::Null => JsonView::Null,
            Json::Bool(b) => JsonView::Bool(*b),
            Json::Number(n) => JsonView::Number(*n),
            Json::String(s) => JsonView::String(s@),
            Json::Array(a) => JsonView::Array(
                Seq::new(
                    a@.len(),
                    |i: int|
                        if 0 <= i < a@.len() {
                            a@[i]@
                        } else {
                            arbitrary()
                        },
                ),
            ),
            Json::Object(m) => JsonView::Object(
                Seq::new(
                    m@.len(),
                    |i: int|
                        if 0 <= i < m@.len() {
                            (m@[i].0@, m@[i].1@)
                        } else {
                            arbitrary()
                        },
                ),
            ),
        }
    }
}

/// What a number is as a double; zero where it is none.
pub open spec fn number_bits(n: JsonNumber) -> u64 {
    match n.double {
        Some(d) => d,
        None => 0,
    }
}

/// The attribute value that a JSON value gives.
pub open spec fn any_from_json(j: JsonView) -> AnyView
    decreases j,
{
    match j {
        JsonView::Null => AnyView::Empty,
        JsonView::Bool(b) => AnyView::Bool(b),
        JsonView::Number(n) => match n.integer {
            Some(i) => AnyView::Int(i),
            None => AnyView::Double(number_bits(n)),
        },
        JsonView::String(s) => AnyView::Str(s),
        JsonView::Array(a) => AnyView::Array(
            Seq::new(
                a.len(),
                |i: int|
                    if 0 <= i < a.len() {
                        any_from_json(a[i])
                    } else {
                        arbitrary()
                    },
            ),
        ),
        JsonView::Object(m) => AnyView::Kvlist(
            Seq::new(
                m.len(),
                |i: int|
                    if 0 <= i < m.len() {
                        (m[i].0, Some(any_from_json(m[i].1)))
                    } else {
                        arbitrary()
                    },
            ),
        ),
    }
}

/// The value that a JSON value gives.
pub open spec fn value_from_json(j: JsonView) -> ValueView
    decreases j,
{
    match j {
        JsonView::Null => ValueView::Null,
        JsonView::Bool(b) => ValueView::Boolean(b),
        JsonView::Number(n) => match n.integer {
            Some(i) => ValueView::Integer(i),
            None => ValueView::Float(nan_to_zero(number_bits(n))),
        },
        JsonView::String(s) => ValueView::text(s),
        JsonView::Array(a) => ValueView::Array(
            Seq::new(
                a.len(),
                |i: int|
                    if 0 <= i < a.len() {
                        value_from_json(a[i])
                    } else {
                        arbitrary()
                    },
            ),
        ),
        JsonView::Object(m) => ValueView::Object(object_from_json(m)),
    }
}

/// The object that the fields of a JSON object give; of two of one name the later one counts.
pub open spec fn object_from_json(m: Seq<(Seq<char>, JsonView)>) -> Seq<(Seq<char>, ValueView)>
    decreases m,
{
    if m.len() == 0 {
        Seq::empty()
    } else {
        with_entry(object_from_json(m.drop_last()), m.last().0, value_from_json(m.last().1))
    }
}

/// The JSON values of a list.
pub open spec fn items_view(a: Seq<Json>) -> Seq<JsonView> {
    Seq::new(a.len(), |i: int| a[i]@)
}

/// The fields of a JSON object.
pub open spec fn fields_view(m: Seq<(String, Json)>) -> Seq<(Seq<char>, JsonView)> {
    Seq::new(m.len(), |i: int| (m[i].0@, m[i].1@))
}

pub proof fn lemma_json_array(a: Vec<Json>)
    ensures
        Json::Array(a)@ == JsonView::Array(items_view(a@)),
{
    reveal_with_fuel(<Json as View>::view, 2);
    assert(Json::Array(a)@->Array_0 =~= items_view(a@));
}

pub proof fn lemma_json_object(m: Vec<(String, Json)>)
    ensures
        Json::Object(m)@ == JsonView::Object(fields_view(m@)),
{
    reveal_with_fuel(<Json as View>::view, 2);
    assert(Json::Object(m)@->Object_0 =~= fields_view(m@));
}

proof fn lemma_item_decreases(j: Json, a: Vec<Json>, i: int)
    requires
        j == Json::Array(a),
        0 <= i < a@.len(),
    ensures
        decreases_to!(j => a@[i]),
{
    assert(decreases_to!(j => j->Array_0));
    assert(decreases_to!(a => a@));
    assert(decreases_to!(a@ => a@[i]));
}

proof fn lemma_field_decreases(j: Json, m: Vec<(String, Json)>, i: int)
    requires
        j == Json::Object(m),
        0 <= i < m@.len(),
    ensures
        decreases_to!(j => m@[i].1),
{
    assert(decreases_to!(j => j->Object_0));
    assert(decreases_to!(m => m@));
    assert(decreases_to!(m@ => m@[i]));
    assert(decreases_to!(m@[i] => m@[i].1));
}

/// What a number is as a double; zero where it is none.
fn bits_of(n: &JsonNumber) -> (r: u64)
    ensures
        r == number_bits(*n),
{
    match n.double {
        Some(d) => d,
        None => 0,
    }
}

/// Convert a JSON value to an attribute value.
pub fn json_to_any_value(value: &Json) -> (r: AnyValue)
    ensures
        r@ == any_from_json(value@),
    decreases value,
{
    reveal_with_fuel(any_from_json, 2);
    match value {
        Json::Null => AnyValue::empty(),
        Json::Bool(b) => AnyValue { value: Some(OtelValueKind::BoolValue(*b)) },
        Json::Number(n) => match n.integer {
            Some(i) => AnyValue { value: Some(OtelValueKind::IntValue(i)) },
            None => AnyValue { value: Some(OtelValueKind::DoubleValue(bits_of(n))) },
        },
        Json::String(s) => AnyValue { value: Some(OtelValueKind::StringValue(s.clone())) },
        Json::Array(a) => {
            proof {
                lemma_json_array(*a);
            }
            let mut values: Vec<AnyValue> = Vec::new();
            let mut i: usize = 0;
            while i < a.len()
                invariant
                    i <= a@.len(),
                    *value == Json::Array(*a),
                    values@.len() == i,
                    forall|j: int|
                        0 <= j < i ==> (#[trigger] values@[j])@ == any_from_json(a@[j]@),
                decreases a@.len() - i,
            {
                proof {
                    lemma_item_decreases(*value, *a, i as int);
                }
                values.push(json_to_any_value(&a[i]));
                i = i + 1;
            }
            let list = ArrayValue { values };
            proof {
                lemma_any_array_view(list);
            }
            let r = AnyValue { value: Some(OtelValueKind::ArrayValue(list)) };
            assert(r@->Array_0 =~= any_from_json(value@)->Array_0);
            r
        },
        Json::Object(m) => {
            proof {
                lemma_json_object(*m);
            }
            let mut values: Vec<KeyValue> = Vec::new();
            let mut i: usize = 0;
            while i < m.len()
                invariant
                    i <= m@.len(),
                    *value == Json::Object(*m),
                    values@.len() == i,
                    forall|j: int|
                        0 <= j < i ==> (#[trigger] values@[j])@ == (
                            m@[j].0@,
                            Some(any_from_json(m@[j].1@)),
                        ),
                decreases m@.len() - i,
            {
                proof {
                    lemma_field_decreases(*value, *m, i as int);
                }
                values.push(
                    KeyValue {
                        key: m[i].0.clone(),
                        value: Some(json_to_any_value(&m[i].1)),
                    },
                );
                i = i + 1;
            }
            let list = KeyValueList { values };
            proof {
                lemma_any_kvlist_view(list);
            }
            let r = AnyValue { value: Some(OtelValueKind::KvlistValue(list)) };
            assert(r@->Kvlist_0 =~= any_from_json(value@)->Kvlist_0);
            r
        },
    }
}

/// Convert a JSON value to a value.
pub fn json_to_vrl_value(value: &Json) -> (r: Value)
    ensures
        r@ == value_from_json(value@),
    decreases value,
{
    reveal_with_fuel(value_from_json, 2);
    match value {
        Json::Null => Value::Null,
        Json::Bool(b) => Value::Boolean(*b),
        Json::Number(n) => match n.integer {
            Some(i) => Value::Integer(i),
            None => Value::Float(without_nan(bits_of(n))),
        },
        Json::String(s) => Value::from_text(s.as_str()),
        Json::Array(a) => {
            proof {
                lemma_json_array(*a);
            }
            let mut values: Vec<Value> = Vec::new();
            let mut i: usize = 0;
            while i < a.len()
                invariant
                    i <= a@.len(),
                    *value == Json::Array(*a),
                    values@.len() == i,
                    forall|j: int|
                        0 <= j < i ==> (#[trigger] values@[j])@ == value_from_json(a@[j]@),
                decreases a@.len() - i,
            {
                proof {
                    lemma_item_decreases(*value, *a, i as int);
                }
                values.push(json_to_vrl_value(&a[i]));
                i = i + 1;
            }
            proof {
                lemma_array_view(values);
            }
            let r = Value::Array(values);
            assert(r@->Array_0 =~= value_from_json(value@)->Array_0);
            r
        },
        Json::Object(m) => {
            proof {
                lemma_json_object(*m);
            }
            let mut map: KeyedMap<Value> = KeyedMap::new();
            let mut i: usize = 0;
            let ghost all = fields_view(m@);
            assert(all.take(0) =~= Seq::empty());
            while i < m.len()
                invariant
                    i <= m@.len(),
                    *value == Json::Object(*m),
                    all == fields_view(m@),
                    map@ == object_from_json(all.take(i as int)),
                decreases m@.len() - i,
            {
                proof {
                    lemma_field_decreases(*value, *m, i as int);
                }
                assert(all.take(i + 1).drop_last() =~= all.take(i as int));
                map.insert(m[i].0.clone(), json_to_vrl_value(&m[i].1));
                i = i + 1;
            }
            assert(all.take(i as int) =~= all);
            proof {
                lemma_object_view(map);
            }
            Value::Object(map)
        },
    }
}

impl OtelLogView {
    /// Whether this is the event that a JSON value gives.
    pub open spec fn is_from_json(&self, j: JsonView) -> bool {
        &&& self.metadata.is_default()
        &&& *self == match j {
            JsonView::Object(m) => log_from_value(value_from_json(j), self.metadata),
            _ => OtelLogView::of_body(any_from_json(j), self.metadata),
        }
    }
}

impl OtelLog {
    /// Create an `OtelLog` from a JSON value.
    /// Objects are routed through `from_value_map` so canonical keys (`body`,
    /// `time_unix_nano`, `resource`, etc.) are restored to their proto slots.
    /// Scalars/arrays become the record body directly.
    pub fn from_json_value(value: &Json) -> (r: Self)
        ensures
            r@.is_from_json(value@),
    {
        match value {
            Json::Object(_) => OtelLog::from_value_map(
                json_to_vrl_value(value),
                EventMetadata::default(),
            ),
            _ => OtelLog::new(
                LogRecord { body: Some(json_to_any_value(value)), ..LogRecord::default() },
            ),
        }
    }
}

} // verus!
