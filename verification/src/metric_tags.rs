//! The tags of a metric. A tag has any number of values, one of which may be that it is bare.
use vstd::prelude::*;

use crate::any_value::{
    lemma_any_array_view, string_value, AnyValue, AnyView, ArrayValue, OtelValueKind,
};
use crate::keyed::{value_of, views, with_entry, KeyedMap};
use crate::text::{i64_text, lossy, lossy_text, signed_decimal, str_eq};

verus! {

/// The value of a tag, or that the tag has none.
#[derive(Debug, PartialEq, Eq)]
pub enum TagValue {
    Bare,
    Value(String),
}

impl View for TagValue {
    type V = Option<Seq<char>>;

    open spec fn view(&self) -> Option<Seq<char>> {
        match self {
            TagValue::Bare => None,
            TagValue::Value(s) => Some(s@),
        }
    }
}

impl Clone for TagValue {
    fn clone(&self) -> (r: Self)
        ensures
            r@ == self@,
    {
        match self {
            TagValue::Bare => TagValue::Bare,
            TagValue::Value(s) => TagValue::Value(s.clone()),
        }
    }
}

impl TagValue {
    fn same(&self, other: &TagValue) -> (r: bool)
        ensures
            r == (self@ == other@),
    {
        match (self, other) {
            (TagValue::Bare, TagValue::Bare) => true,
            (TagValue::Value(s), TagValue::Value(t)) => str_eq(s.as_str(), t.as_str()),
            _ => false,
        }
    }
}

/// The values of a tag, in the order in which they were set, none of them twice.
#[derive(Debug, PartialEq, Eq)]
pub struct TagValueSet {
    pub values: Vec<TagValue>,
}

impl View for TagValueSet {
    type V = Seq<Option<Seq<char>>>;

    open spec fn view(&self) -> Seq<Option<Seq<char>>> {
        views(self.values@)
    }
}

/// The values without one of them.
pub open spec fn values_without(s: Seq<Option<Seq<char>>>, v: Option<Seq<char>>) -> Seq<
    Option<Seq<char>>,
>
    decreases s.len(),
{
    if s.len() == 0 {
        Seq::empty()
    } else if s.last() == v {
        values_without(s.drop_last(), v)
    } else {
        values_without(s.drop_last(), v).push(s.last())
    }
}

/// The values with one more; one that was there comes last.
pub open spec fn values_with(s: Seq<Option<Seq<char>>>, v: Option<Seq<char>>) -> Seq<
    Option<Seq<char>>,
> {
    values_without(s, v).push(v)
}

/// The values that a list sets one after the other.
pub open spec fn values_collected(list: Seq<Option<Seq<char>>>) -> Seq<Option<Seq<char>>>
    decreases list.len(),
{
    if list.len() == 0 {
        Seq::empty()
    } else {
        values_with(values_collected(list.drop_last()), list.last())
    }
}

impl Clone for TagValueSet {
    fn clone(&self) -> (r: Self)
        ensures
            r@ == self@,
    {
        let r = TagValueSet { values: self.values.clone() };
        assert(r@ =~= self@);
        r
    }
}

impl TagValueSet {
    pub fn new() -> (r: Self)
        ensures
            r@ == Seq::<Option<Seq<char>>>::empty(),
    {
        let r = TagValueSet { values: Vec::new() };
        assert(r@ =~= Seq::empty());
        r
    }

    /// Adds a value; one that was there comes last.
    pub fn insert(&mut self, value: TagValue)
        ensures
            final(self)@ == values_with(old(self)@, value@),
    {
        let mut kept: Vec<TagValue> = Vec::new();
        let ghost all = self@;
        let mut i: usize = 0;
        assert(all.take(0) =~= Seq::empty());
        assert(views(kept@) =~= Seq::empty());
        while i < self.values.len()
            invariant
                i <= self.values@.len(),
                all == self@,
                views(kept@) == values_without(all.take(i as int), value@),
            decreases self.values@.len() - i,
        {
            assert(all.take(i + 1).drop_last() =~= all.take(i as int));
            if !self.values[i].same(&value) {
                let ghost before = kept@;
                kept.push(self.values[i].clone());
                assert(views(kept@) =~= views(before).push(all[i as int]));
            }
            i = i + 1;
        }
        assert(all.take(i as int) =~= all);
        let ghost before = kept@;
        kept.push(value);
        assert(views(kept@) =~= views(before).push(value@));
        self.values = kept;
    }

    /// The values that a list sets one after the other.
    pub fn from_values(list: Vec<TagValue>) -> (r: Self)
        ensures
            r@ == values_collected(views(list@)),
    {
        let mut set = TagValueSet::new();
        let ghost all = views(list@);
        assert(all.take(0) =~= Seq::empty());
        for value in it: list
            invariant
                it.seq() == list@,
                all == views(list@),
                set@ == values_collected(all.take(it.index() as int)),
        {
            let ghost i = it.index() as int;
            assert(all.take(i + 1).drop_last() =~= all.take(i));
            set.insert(value);
        }
        assert(all.take(all.len() as int) =~= all);
        set
    }
}

/// The tags of a metric, by name.
#[derive(Debug, PartialEq)]
pub struct MetricTags {
    pub tags: KeyedMap<TagValueSet>,
}

impl View for MetricTags {
    type V = Seq<(Seq<char>, Seq<Option<Seq<char>>>)>;

    open spec fn view(&self) -> Seq<(Seq<char>, Seq<Option<Seq<char>>>)> {
        self.tags@
    }
}

/// The tags with a value added to one of them.
pub open spec fn tags_with(
    tags: Seq<(Seq<char>, Seq<Option<Seq<char>>>)>,
    name: Seq<char>,
    v: Option<Seq<char>>,
) -> Seq<(Seq<char>, Seq<Option<Seq<char>>>)> {
    let before = match value_of(tags, name) {
        Some(s) => s,
        None => Seq::empty(),
    };
    with_entry(tags, name, values_with(before, v))
}

impl Default for MetricTags {
    fn default() -> (r: Self)
        ensures
            r@ == Seq::<(Seq<char>, Seq<Option<Seq<char>>>)>::empty(),
    {
        MetricTags { tags: KeyedMap::new() }
    }
}

impl Clone for MetricTags {
    fn clone(&self) -> (r: Self)
        ensures
            r@ == self@,
    {
        let mut entries: Vec<(String, TagValueSet)> = Vec::new();
        let mut i: usize = 0;
        while i < self.tags.entries.len()
            invariant
                i <= self.tags.entries@.len(),
                entries@.len() == i,
                forall|j: int|
                    0 <= j < i ==> (#[trigger] entries@[j]).0@ == self.tags.entries@[j].0@
                        && entries@[j].1@ == self.tags.entries@[j].1@,
            decreases self.tags.entries@.len() - i,
        {
            entries.push((self.tags.entries[i].0.clone(), self.tags.entries[i].1.clone()));
            i = i + 1;
        }
        let r = MetricTags { tags: KeyedMap { entries } };
        assert(r@ =~= self@);
        r
    }
}

impl MetricTags {
    pub fn is_empty(&self) -> (r: bool)
        ensures
            r == (self@.len() == 0),
    {
        self.tags.is_empty()
    }

    /// Adds a value to a tag.
    pub fn insert(&mut self, name: String, value: TagValue)
        ensures
            final(self)@ == tags_with(old(self)@, name@, value@),
    {
        let mut set = match self.tags.get(name.as_str()) {
            Some(s) => s.clone(),
            None => TagValueSet::new(),
        };
        set.insert(value);
        self.tags.insert(name, set);
    }

    /// Replaces the values of a tag by one.
    pub fn replace(&mut self, name: String, value: TagValue)
        ensures
            final(self)@ == with_entry(old(self)@, name@, seq![value@]),
    {
        let set = TagValueSet { values: vec![value] };
        assert(set@ =~= seq![value@]);
        self.tags.insert(name, set);
    }

    /// Replaces the values of a tag.
    pub fn set_multi_value(&mut self, name: String, values: Vec<TagValue>)
        ensures
            final(self)@ == with_entry(old(self)@, name@, values_collected(views(values@))),
    {
        self.tags.insert(name, TagValueSet::from_values(values));
    }
}

/// The attribute value that a value of a tag becomes.
pub open spec fn any_from_tag(v: Option<Seq<char>>) -> AnyView {
    match v {
        Some(s) => AnyView::Str(s),
        None => AnyView::Empty,
    }
}

/// The attribute value that the values of a tag become: a single one as it is, any others as a list.
pub open spec fn any_from_tag_values(values: Seq<Option<Seq<char>>>) -> AnyView {
    if values.len() == 1 {
        any_from_tag(values[0])
    } else {
        AnyView::Array(Seq::new(values.len(), |i: int| any_from_tag(values[i])))
    }
}

fn tag_to_any(v: &TagValue) -> (r: AnyValue)
    ensures
        r@ == any_from_tag(v@),
{
    match v {
        TagValue::Value(s) => string_value(s.as_str()),
        TagValue::Bare => AnyValue::empty(),
    }
}

/// The attribute value that the values of a tag become.
pub fn tag_set_to_any(set: &TagValueSet) -> (r: AnyValue)
    ensures
        r@ == any_from_tag_values(set@),
{
    if set.values.len() == 1 {
        return tag_to_any(&set.values[0]);
    }
    let mut values: Vec<AnyValue> = Vec::new();
    let mut i: usize = 0;
    while i < set.values.len()
        invariant
            i <= set.values@.len(),
            values@.len() == i,
            forall|j: int| 0 <= j < i ==> (#[trigger] values@[j])@ == any_from_tag(set@[j]),
        decreases set.values@.len() - i,
    {
        values.push(tag_to_any(&set.values[i]));
        i = i + 1;
    }
    let list = ArrayValue { values };
    proof {
        lemma_any_array_view(list);
    }
    let r = AnyValue { value: Some(OtelValueKind::ArrayValue(list)) };
    assert(r@->Array_0 =~= any_from_tag_values(set@)->Array_0);
    r
}

/// Whether `shown` shows each double as `text` says.
pub open spec fn shows<F: Fn(u64) -> String>(shown: F, text: spec_fn(u64) -> Seq<char>) -> bool {
    forall|b: u64, s: String| #[trigger] call_ensures(shown, (b,), s) ==> s@ == text(b)
}

/// Whether `shown` shows a double as `text` says.
pub open spec fn double_shown<F: Fn(u64) -> String>(
    shown: F,
    d: u64,
    text: spec_fn(u64) -> Seq<char>,
) -> bool {
    forall|s: String| #[trigger] call_ensures(shown, (d,), s) ==> s@ == text(d)
}

/// Whether `shown` shows an attribute value that is a double as `text` says.
pub open spec fn top_shown<F: Fn(u64) -> String>(
    shown: F,
    v: AnyView,
    text: spec_fn(u64) -> Seq<char>,
) -> bool {
    v matches AnyView::Double(d) ==> double_shown(shown, d, text)
}

/// Whether `shown` may show an attribute value that is a double as `text` says.
pub open spec fn top_drawn<F: Fn(u64) -> String>(
    shown: F,
    v: AnyView,
    text: spec_fn(u64) -> Seq<char>,
) -> bool {
    v matches AnyView::Double(d) ==> exists|s: String| #[trigger]
        call_ensures(shown, (d,), s) && s@ == text(d)
}

/// Whether `shown` shows each double in a list as `text` says.
pub open spec fn values_shown<F: Fn(u64) -> String>(
    shown: F,
    values: Seq<AnyView>,
    text: spec_fn(u64) -> Seq<char>,
) -> bool {
    forall|i: int| 0 <= i < values.len() ==> top_shown(shown, #[trigger] values[i], text)
}

/// Whether `shown` shows each double that an attribute value is, or has in its list, as `text` says.
pub open spec fn value_shown<F: Fn(u64) -> String>(
    shown: F,
    v: AnyView,
    text: spec_fn(u64) -> Seq<char>,
) -> bool {
    top_shown(shown, v, text) && (v matches AnyView::Array(a) ==> values_shown(shown, a, text))
}

/// Whether `shown` shows each double among attributes as `text` says.
pub open spec fn attrs_shown<F: Fn(u64) -> String>(
    shown: F,
    attrs: Seq<(Seq<char>, AnyView)>,
    text: spec_fn(u64) -> Seq<char>,
) -> bool {
    forall|i: int| 0 <= i < attrs.len() ==> value_shown(shown, (#[trigger] attrs[i]).1, text)
}

/// The function that gives no text for any double.
pub open spec fn no_text() -> spec_fn(u64) -> Seq<char> {
    |b: u64| Seq::empty()
}

/// Whether this is an attribute value, or the text that `shown` may show it as where it is a double.
pub open spec fn is_spelled<F: Fn(u64) -> String>(shown: F, v: AnyView, r: AnyView) -> bool {
    match v {
        AnyView::Double(d) => exists|s: String| #[trigger]
            call_ensures(shown, (d,), s) && r == AnyView::Str(s@),
        _ => r == v,
    }
}

/// Whether these are attribute values, with texts that `shown` may show in place of doubles.
pub open spec fn are_spelled<F: Fn(u64) -> String>(
    shown: F,
    values: Seq<AnyView>,
    r: Seq<AnyView>,
) -> bool {
    &&& r.len() == values.len()
    &&& forall|i: int| 0 <= i < values.len() ==> is_spelled(shown, values[i], #[trigger] r[i])
}

/// Whether this is an attribute value, with texts that `shown` may show in place of a double that it
/// is, and of those in its list.
pub open spec fn is_spelled_out<F: Fn(u64) -> String>(shown: F, v: AnyView, r: AnyView) -> bool {
    match v {
        AnyView::Array(a) => r matches AnyView::Array(b) && are_spelled(shown, a, b),
        _ => is_spelled(shown, v, r),
    }
}

/// The text that an attribute value has as a tag, where `text` is the text of a double.
pub open spec fn tag_text(v: AnyView, text: spec_fn(u64) -> Seq<char>) -> Seq<char> {
    match v {
        AnyView::Str(s) => s,
        AnyView::Bool(b) => if b {
            "true"@
        } else {
            "false"@
        },
        AnyView::Int(i) => signed_decimal(i as int),
        AnyView::Double(d) => text(d),
        AnyView::Bytes(b) => lossy(b),
        AnyView::Array(_) => "<array>"@,
        AnyView::Kvlist(_) => "<kvlist>"@,
        AnyView::Empty => Seq::empty(),
    }
}

/// Convert an attribute value to a string for use as a metric tag. `shown` shows a double.
pub fn otel_value_to_tag_string<F: Fn(u64) -> String>(v: &OtelValueKind, shown: &F) -> (r: String)
    requires
        forall|b: u64| call_requires(*shown, (b,)),
    ensures
        forall|text: spec_fn(u64) -> Seq<char>| #[trigger]
            top_shown(*shown, (AnyValue { value: Some(*v) })@, text) ==> r@ == tag_text(
                (AnyValue { value: Some(*v) })@,
                text,
            ),
        exists|text: spec_fn(u64) -> Seq<char>|
            r@ == #[trigger] tag_text((AnyValue { value: Some(*v) })@, text) && top_drawn(
                *shown,
                (AnyValue { value: Some(*v) })@,
                text,
            ),
{
    let r = match v {
        OtelValueKind::StringValue(s) => s.clone(),
        OtelValueKind::BoolValue(b) => if *b {
            "true".to_owned()
        } else {
            "false".to_owned()
        },
        OtelValueKind::IntValue(i) => i64_text(*i),
        OtelValueKind::DoubleValue(d) => shown(*d),
        OtelValueKind::BytesValue(b) => lossy_text(b.as_slice()),
        OtelValueKind::ArrayValue(_) => "<array>".to_owned(),
        OtelValueKind::KvlistValue(_) => "<kvlist>".to_owned(),
    };
    proof {
        let text = |b: u64| r@;
        if let OtelValueKind::DoubleValue(d) = v {
            assert(call_ensures(*shown, (*d,), r));
        }
        assert(r@ == tag_text((AnyValue { value: Some(*v) })@, text));
    }
    r
}

} // verus!
