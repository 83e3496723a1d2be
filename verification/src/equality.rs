//! When attribute values, and the data of events, count as equal.
use vstd::prelude::*;

use crate::any_value::{
    kvs_view, lemma_any_array_view, lemma_any_item_decreases, lemma_any_kv_decreases,
    lemma_any_kvlist_view, values_view, AnyValue, AnyView, KeyValue, OtelValueKind,
};
use crate::attributes::OtelAttributes;
use crate::double::{is_same, same};
use crate::keyed::opt_view;
use crate::log::{OtelLog, OtelLogView};
use crate::otlp::{InstrumentationScope, Resource, ResourceView, ScopeView};
use crate::text::str_eq;

verus! {

/// Whether two attribute values are equal; doubles are equal as numbers.
pub open spec fn same_any(a: AnyView, b: AnyView) -> bool
    decreases a,
{
    match (a, b) {
        (AnyView::Empty, AnyView::Empty) => true,
        (AnyView::Str(s), AnyView::Str(t)) => s == t,
        (AnyView::Bool(s), AnyView::Bool(t)) => s == t,
        (AnyView::Int(s), AnyView::Int(t)) => s == t,
        (AnyView::Double(s), AnyView::Double(t)) => same(s, t),
        (AnyView::Bytes(s), AnyView::Bytes(t)) => s == t,
        (AnyView::Array(s), AnyView::Array(t)) => s.len() == t.len() && forall|i: int|
            0 <= i < s.len() ==> same_any(#[trigger] s[i], t[i]),
        (AnyView::Kvlist(s), AnyView::Kvlist(t)) => s.len() == t.len() && forall|i: int|
            0 <= i < s.len() ==> (#[trigger] s[i]).0 == t[i].0 && match (s[i].1, t[i].1) {
                (Some(x), Some(y)) => same_any(x, y),
                (None, None) => true,
                _ => false,
            },
        _ => false,
    }
}

/// Whether two optional attribute values are equal.
pub open spec fn same_opt(a: Option<AnyView>, b: Option<AnyView>) -> bool {
    match (a, b) {
        (Some(x), Some(y)) => same_any(x, y),
        (None, None) => true,
        _ => false,
    }
}

/// Whether two lists of key-value pairs are equal.
pub open spec fn same_kvs(
    s: Seq<(Seq<char>, Option<AnyView>)>,
    t: Seq<(Seq<char>, Option<AnyView>)>,
) -> bool {
    s.len() == t.len() && forall|i: int|
        0 <= i < s.len() ==> (#[trigger] s[i]).0 == t[i].0 && same_opt(s[i].1, t[i].1)
}

/// Whether the attributes of two events are equal.
pub open spec fn same_attrs(s: Seq<(Seq<char>, AnyView)>, t: Seq<(Seq<char>, AnyView)>) -> bool {
    s.len() == t.len() && forall|i: int|
        0 <= i < s.len() ==> (#[trigger] s[i]).0 == t[i].0 && same_any(s[i].1, t[i].1)
}

pub fn bytes_eq(a: &Vec<u8>, b: &Vec<u8>) -> (r: bool)
    ensures
        r == (a@ == b@),
{
    if a.len() != b.len() {
        return false;
    }
    let mut i: usize = 0;
    while i < a.len()
        invariant
            i <= a@.len(),
            a@.len() == b@.len(),
            a@.take(i as int) == b@.take(i as int),
        decreases a@.len() - i,
    {
        if a[i] != b[i] {
            return false;
        }
        assert(a@.take(i + 1) =~= a@.take(i as int).push(a@[i as int]));
        assert(b@.take(i + 1) =~= b@.take(i as int).push(b@[i as int]));
        i = i + 1;
    }
    assert(a@.take(i as int) =~= a@);
    assert(b@.take(i as int) =~= b@);
    true
}

/// Whether two attribute values are equal.
pub fn any_eq(a: &AnyValue, b: &AnyValue) -> (r: bool)
    ensures
        r == same_any(a@, b@),
    decreases a,
{
    reveal_with_fuel(same_any, 2);
    match (&a.value, &b.value) {
        (None, None) => true,
        (Some(OtelValueKind::StringValue(s)), Some(OtelValueKind::StringValue(t))) => str_eq(
            s.as_str(),
            t.as_str(),
        ),
        (Some(OtelValueKind::BoolValue(s)), Some(OtelValueKind::BoolValue(t))) => *s == *t,
        (Some(OtelValueKind::IntValue(s)), Some(OtelValueKind::IntValue(t))) => *s == *t,
        (Some(OtelValueKind::DoubleValue(s)), Some(OtelValueKind::DoubleValue(t))) => is_same(
            *s,
            *t,
        ),
        (Some(OtelValueKind::BytesValue(s)), Some(OtelValueKind::BytesValue(t))) => bytes_eq(s, t),
        (Some(OtelValueKind::ArrayValue(s)), Some(OtelValueKind::ArrayValue(t))) => {
            proof {
                lemma_any_array_view(*s);
                lemma_any_array_view(*t);
            }
            let ghost sv = values_view(s.values@);
            let ghost tv = values_view(t.values@);
            if s.values.len() != t.values.len() {
                return false;
            }
            let mut i: usize = 0;
            while i < s.values.len()
                invariant
                    i <= s.values@.len(),
                    a.value == Some(OtelValueKind::ArrayValue(*s)),
                    b.value == Some(OtelValueKind::ArrayValue(*t)),
                    a@ == AnyView::Array(sv),
                    b@ == AnyView::Array(tv),
                    sv == values_view(s.values@),
                    tv == values_view(t.values@),
                    s.values@.len() == t.values@.len(),
                    forall|j: int| 0 <= j < i ==> same_any(#[trigger] sv[j], tv[j]),
                decreases s.values@.len() - i,
            {
                proof {
                    lemma_any_item_decreases(*a, *s, i as int);
                }
                if !any_eq(&s.values[i], &t.values[i]) {
                    assert(!same_any(sv[i as int], tv[i as int]));
                    return false;
                }
                i = i + 1;
            }
            true
        },
        (Some(OtelValueKind::KvlistValue(s)), Some(OtelValueKind::KvlistValue(t))) => {
            proof {
                lemma_any_kvlist_view(*s);
                lemma_any_kvlist_view(*t);
            }
            let ghost sv = kvs_view(s.values@);
            let ghost tv = kvs_view(t.values@);
            if s.values.len() != t.values.len() {
                return false;
            }
            let mut i: usize = 0;
            while i < s.values.len()
                invariant
                    i <= s.values@.len(),
                    a.value == Some(OtelValueKind::KvlistValue(*s)),
                    b.value == Some(OtelValueKind::KvlistValue(*t)),
                    a@ == AnyView::Kvlist(sv),
                    b@ == AnyView::Kvlist(tv),
                    sv == kvs_view(s.values@),
                    tv == kvs_view(t.values@),
                    s.values@.len() == t.values@.len(),
                    forall|j: int|
                        0 <= j < i ==> (#[trigger] sv[j]).0 == tv[j].0 && same_opt(sv[j].1, tv[j].1),
                decreases s.values@.len() - i,
            {
                assert(sv[i as int] == s.values@[i as int]@);
                assert(tv[i as int] == t.values@[i as int]@);
                if !str_eq(s.values[i].key.as_str(), t.values[i].key.as_str()) {
                    return false;
                }
                match (&s.values[i].value, &t.values[i].value) {
                    (Some(x), Some(y)) => {
                        proof {
                            lemma_any_kv_decreases(*a, *s, i as int);
                        }
                        if !any_eq(x, y) {
                            return false;
                        }
                    },
                    (None, None) => {},
                    _ => {
                        return false;
                    },
                }
                i = i + 1;
            }
            true
        },
        _ => false,
    }
}

/// Whether two optional attribute values are equal.
pub fn opt_any_eq(a: &Option<AnyValue>, b: &Option<AnyValue>) -> (r: bool)
    ensures
        r == same_opt(opt_view(*a), opt_view(*b)),
{
    match (a, b) {
        (Some(x), Some(y)) => any_eq(x, y),
        (None, None) => true,
        _ => false,
    }
}

/// Whether two lists of key-value pairs are equal.
pub fn kvs_eq(a: &Vec<KeyValue>, b: &Vec<KeyValue>) -> (r: bool)
    ensures
        r == same_kvs(kvs_view(a@), kvs_view(b@)),
{
    if a.len() != b.len() {
        return false;
    }
    let ghost av = kvs_view(a@);
    let ghost bv = kvs_view(b@);
    let mut i: usize = 0;
    while i < a.len()
        invariant
            i <= a@.len(),
            a@.len() == b@.len(),
            av == kvs_view(a@),
            bv == kvs_view(b@),
            forall|j: int|
                0 <= j < i ==> (#[trigger] av[j]).0 == bv[j].0 && same_opt(av[j].1, bv[j].1),
        decreases a@.len() - i,
    {
        assert(av[i as int] == a@[i as int]@);
        assert(bv[i as int] == b@[i as int]@);
        if !str_eq(a[i].key.as_str(), b[i].key.as_str()) || !opt_any_eq(&a[i].value, &b[i].value) {
            return false;
        }
        i = i + 1;
    }
    true
}

/// Whether attributes are equal.
pub fn attrs_eq(a: &OtelAttributes, b: &OtelAttributes) -> (r: bool)
    ensures
        r == same_attrs(a@, b@),
{
    if a.inner.entries.len() != b.inner.entries.len() {
        return false;
    }
    let ghost av = a@;
    let ghost bv = b@;
    let mut i: usize = 0;
    while i < a.inner.entries.len()
        invariant
            i <= a.inner.entries@.len(),
            a.inner.entries@.len() == b.inner.entries@.len(),
            av == a@,
            bv == b@,
            forall|j: int|
                0 <= j < i ==> (#[trigger] av[j]).0 == bv[j].0 && same_any(av[j].1, bv[j].1),
        decreases a.inner.entries@.len() - i,
    {
        assert(av[i as int].0 == a.inner.entries@[i as int].0@);
        assert(bv[i as int].0 == b.inner.entries@[i as int].0@);
        if !str_eq(a.inner.entries[i].0.as_str(), b.inner.entries[i].0.as_str()) || !any_eq(
            &a.inner.entries[i].1,
            &b.inner.entries[i].1,
        ) {
            return false;
        }
        i = i + 1;
    }
    true
}

/// Whether two optional resources are equal.
pub open spec fn same_resource(a: Option<ResourceView>, b: Option<ResourceView>) -> bool {
    match (a, b) {
        (Some(x), Some(y)) => same_kvs(x.attributes, y.attributes) && x.dropped_attributes_count
            == y.dropped_attributes_count,
        (None, None) => true,
        _ => false,
    }
}

/// Whether two optional scopes are equal.
pub open spec fn same_scope(a: Option<ScopeView>, b: Option<ScopeView>) -> bool {
    match (a, b) {
        (Some(x), Some(y)) => x.name == y.name && x.version == y.version && same_kvs(
            x.attributes,
            y.attributes,
        ) && x.dropped_attributes_count == y.dropped_attributes_count,
        (None, None) => true,
        _ => false,
    }
}

/// Whether two optional resources are equal.
pub fn resource_eq(a: &Option<Resource>, b: &Option<Resource>) -> (r: bool)
    ensures
        r == same_resource(opt_view(*a), opt_view(*b)),
{
    match (a, b) {
        (Some(x), Some(y)) => kvs_eq(&x.attributes, &y.attributes) && x.dropped_attributes_count
            == y.dropped_attributes_count,
        (None, None) => true,
        _ => false,
    }
}

/// Whether two optional scopes are equal.
pub fn scope_eq(a: &Option<InstrumentationScope>, b: &Option<InstrumentationScope>) -> (r: bool)
    ensures
        r == same_scope(opt_view(*a), opt_view(*b)),
{
    match (a, b) {
        (Some(x), Some(y)) => str_eq(x.name.as_str(), y.name.as_str()) && str_eq(
            x.version.as_str(),
            y.version.as_str(),
        ) && kvs_eq(&x.attributes, &y.attributes) && x.dropped_attributes_count
            == y.dropped_attributes_count,
        (None, None) => true,
        _ => false,
    }
}

impl OtelLogView {
    /// Whether two log events hold the same data. When they were observed and what their metadata
    /// holds does not count.
    pub open spec fn same_data(&self, other: &OtelLogView) -> bool {
        &&& same_opt(self.record.body, other.record.body)
        &&& self.record.severity_text == other.record.severity_text
        &&& self.record.severity_number == other.record.severity_number
        &&& self.record.time_unix_nano == other.record.time_unix_nano
        &&& self.record.flags == other.record.flags
        &&& self.record.trace_id == other.record.trace_id
        &&& self.record.span_id == other.record.span_id
        &&& same_attrs(self.record_attrs, other.record_attrs)
        &&& self.record.dropped_attributes_count == other.record.dropped_attributes_count
        &&& same_resource(self.resource, other.resource)
        &&& same_attrs(self.resource_attrs, other.resource_attrs)
        &&& same_scope(self.scope, other.scope)
        &&& same_attrs(self.scope_attrs, other.scope_attrs)
    }
}

impl OtelLog {
    /// Whether two log events hold the same data.
    pub fn event_data_eq(&self, other: &OtelLog) -> (r: bool)
        ensures
            r == self@.same_data(&other@),
    {
        opt_any_eq(&self.record.body, &other.record.body) && str_eq(
            self.record.severity_text.as_str(),
            other.record.severity_text.as_str(),
        ) && self.record.severity_number == other.record.severity_number
            && self.record.time_unix_nano == other.record.time_unix_nano && self.record.flags
            == other.record.flags && bytes_eq(&self.record.trace_id, &other.record.trace_id)
            && bytes_eq(&self.record.span_id, &other.record.span_id) && attrs_eq(
            &self.record_attrs,
            &other.record_attrs,
        ) && self.record.dropped_attributes_count == other.record.dropped_attributes_count
            && resource_eq(&self.resource, &other.resource) && attrs_eq(
            &self.resource_attrs,
            &other.resource_attrs,
        ) && scope_eq(&self.scope, &other.scope) && attrs_eq(&self.scope_attrs, &other.scope_attrs)
    }
}

} // verus!
