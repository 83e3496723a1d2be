//! Paths into values, and reading, writing and removing what they lead to.
use vstd::prelude::*;

use crate::keyed::{
    lemma_slot_of, lemma_slot_of_is, opt_view, slot_of, value_of, with_entry, without_entry,
    KeyedMap,
};
use crate::value::{array_view, lemma_array_view, lemma_object_view, Value, ValueView};

verus! {

/// One step of a path: to a field of an object, or to an item of an array, counted from the end
/// where it is negative.
#[derive(Debug, PartialEq, Eq)]
pub enum OwnedSegment {
    Field(String),
    Index(isize),
}

pub enum SegmentView {
    Field(Seq<char>),
    Index(int),
}

impl View for OwnedSegment {
    type V = SegmentView;

    open spec fn view(&self) -> SegmentView {
        match self {
            OwnedSegment::Field(f) => SegmentView::Field(f@),
            OwnedSegment::Index(i) => SegmentView::Index(*i as int),
        }
    }
}

/// The steps from a value to one inside it.
#[derive(Debug, PartialEq, Eq)]
pub struct OwnedValuePath {
    pub segments: Vec<OwnedSegment>,
}

impl View for OwnedValuePath {
    type V = Seq<SegmentView>;

    open spec fn view(&self) -> Seq<SegmentView> {
        Seq::new(self.segments@.len(), |i: int| self.segments@[i]@)
    }
}

/// What a path starts from: the event, or its metadata.
#[derive(Clone, Copy, Debug, PartialEq, Eq, Structural)]
pub enum PathPrefix {
    Event,
    Metadata,
}

/// A path with what it starts from.
#[derive(Debug, PartialEq, Eq)]
pub struct OwnedTargetPath {
    pub prefix: PathPrefix,
    pub path: OwnedValuePath,
}

pub struct TargetPathView {
    pub prefix: PathPrefix,
    pub path: Seq<SegmentView>,
}

impl View for OwnedTargetPath {
    type V = TargetPathView;

    open spec fn view(&self) -> TargetPathView {
        TargetPathView { prefix: self.prefix, path: self.path@ }
    }
}

impl Clone for OwnedSegment {
    fn clone(&self) -> (r: Self)
        ensures
            r@ == self@,
    {
        match self {
            OwnedSegment::Field(f) => OwnedSegment::Field(f.clone()),
            OwnedSegment::Index(i) => OwnedSegment::Index(*i),
        }
    }
}

impl Clone for OwnedValuePath {
    fn clone(&self) -> (r: Self)
        ensures
            r@ == self@,
    {
        let mut segments: Vec<OwnedSegment> = Vec::new();
        let mut i: usize = 0;
        while i < self.segments.len()
            invariant
                i <= self.segments@.len(),
                segments@.len() == i,
                forall|j: int| 0 <= j < i ==> (#[trigger] segments@[j])@ == self.segments@[j]@,
            decreases self.segments@.len() - i,
        {
            segments.push(self.segments[i].clone());
            i = i + 1;
        }
        let r = OwnedValuePath { segments };
        assert(r@ =~= self@);
        r
    }
}

impl Clone for OwnedTargetPath {
    fn clone(&self) -> (r: Self)
        ensures
            r@ == self@,
    {
        OwnedTargetPath { prefix: self.prefix, path: self.path.clone() }
    }
}

/// The item of an array at an index, counted from the end where it is negative.
pub open spec fn item_at(a: Seq<ValueView>, i: int) -> Option<ValueView> {
    let k = if i < 0 {
        a.len() + i
    } else {
        i
    };
    if 0 <= k < a.len() {
        Some(a[k])
    } else {
        None
    }
}

/// `n` nulls.
pub open spec fn nulls(n: int) -> Seq<ValueView> {
    Seq::new(n as nat, |i: int| ValueView::Null)
}

/// The array after an item was set. An index beyond either end extends the array with nulls.
pub open spec fn with_item(a: Seq<ValueView>, i: int, v: ValueView) -> Seq<ValueView> {
    if 0 <= i < a.len() {
        a.update(i, v)
    } else if i >= 0 {
        a + nulls(i - a.len()) + seq![v]
    } else if -i <= a.len() {
        a.update(a.len() + i, v)
    } else {
        seq![v] + nulls(-i - a.len() - 1) + a
    }
}

/// The array after the item at an index, if there is one, was taken out.
pub open spec fn without_item(a: Seq<ValueView>, i: int) -> Seq<ValueView> {
    if item_at(a, i) is Some {
        a.remove(
            if i < 0 {
                a.len() + i
            } else {
                i
            },
        )
    } else {
        a
    }
}

/// What one step leads to.
pub open spec fn child(v: ValueView, s: SegmentView) -> Option<ValueView> {
    match (v, s) {
        (ValueView::Object(m), SegmentView::Field(f)) => value_of(m, f),
        (ValueView::Array(a), SegmentView::Index(i)) => item_at(a, i),
        _ => None,
    }
}

/// What a path leads to.
pub open spec fn fetched(v: ValueView, path: Seq<SegmentView>) -> Option<ValueView>
    decreases path.len(),
{
    if path.len() == 0 {
        Some(v)
    } else {
        match child(v, path[0]) {
            Some(c) => fetched(c, path.drop_first()),
            None => None,
        }
    }
}

/// What stands in a place after `new` was written at a path from it. Whatever is not the kind of
/// collection that a step needs gives way to an empty one.
pub open spec fn stored(place: Option<ValueView>, path: Seq<SegmentView>, new: ValueView) -> ValueView
    decreases path.len(),
{
    if path.len() == 0 {
        new
    } else {
        match path[0] {
            SegmentView::Field(f) => {
                let m = match place {
                    Some(ValueView::Object(m)) => m,
                    _ => Seq::empty(),
                };
                ValueView::Object(with_entry(m, f, stored(value_of(m, f), path.drop_first(), new)))
            },
            SegmentView::Index(i) => {
                let a = match place {
                    Some(ValueView::Array(a)) => a,
                    _ => Seq::empty(),
                };
                ValueView::Array(with_item(a, i, stored(item_at(a, i), path.drop_first(), new)))
            },
        }
    }
}

/// Whether the value is an object or an array without content.
pub open spec fn is_empty_collection(v: ValueView) -> bool {
    match v {
        ValueView::Object(m) => m.len() == 0,
        ValueView::Array(a) => a.len() == 0,
        _ => false,
    }
}

/// The value after what one step leads to was replaced by `c`.
pub open spec fn with_child(v: ValueView, s: SegmentView, c: ValueView) -> ValueView {
    match (v, s) {
        (ValueView::Object(m), SegmentView::Field(f)) => ValueView::Object(with_entry(m, f, c)),
        (ValueView::Array(a), SegmentView::Index(i)) => ValueView::Array(with_item(a, i, c)),
        _ => v,
    }
}

/// The value after what one step leads to was taken out.
pub open spec fn without_child(v: ValueView, s: SegmentView) -> ValueView {
    match (v, s) {
        (ValueView::Object(m), SegmentView::Field(f)) => ValueView::Object(without_entry(m, f)),
        (ValueView::Array(a), SegmentView::Index(i)) => ValueView::Array(without_item(a, i)),
        _ => v,
    }
}

/// What is left of a value after what a path leads to was removed. With `prune`, the collections
/// on the way that this leaves empty go too. The value itself is never removed: a collection is
/// emptied, anything else becomes null.
pub open spec fn removed(v: ValueView, path: Seq<SegmentView>, prune: bool) -> ValueView
    decreases path.len(),
{
    if path.len() == 0 {
        match v {
            ValueView::Object(_) => ValueView::Object(Seq::empty()),
            ValueView::Array(_) => ValueView::Array(Seq::empty()),
            _ => ValueView::Null,
        }
    } else if fetched(v, path) is None {
        v
    } else if path.len() == 1 {
        without_child(v, path[0])
    } else {
        let c = removed(child(v, path[0])->0, path.drop_first(), prune);
        if prune && is_empty_collection(c) {
            without_child(v, path[0])
        } else {
            with_child(v, path[0], c)
        }
    }
}

impl OwnedValuePath {
    /// Whether the path has no steps.
    pub fn is_root(&self) -> (r: bool)
        ensures
            r == (self@.len() == 0),
    {
        self.segments.len() == 0
    }
}

impl Value {
    fn is_empty_collection(&self) -> (r: bool)
        ensures
            r == is_empty_collection(self@),
    {
        match self {
            Value::Object(m) => {
                proof {
                    lemma_object_view(*m);
                }
                m.is_empty()
            },
            Value::Array(a) => {
                proof {
                    lemma_array_view(*a);
                }
                a.len() == 0
            },
            _ => false,
        }
    }

    /// What a path leads to.
    pub fn get(&self, path: &OwnedValuePath) -> (r: Option<&Value>)
        ensures
            match r {
                Some(v) => fetched(self@, path@) == Some(v@),
                None => fetched(self@, path@) is None,
            },
    {
        let mut current: &Value = self;
        let mut i: usize = 0;
        assert(path@.skip(0) =~= path@);
        while i < path.segments.len()
            invariant
                i <= path.segments@.len(),
                fetched(self@, path@) == fetched(current@, path@.skip(i as int)),
            decreases path.segments@.len() - i,
        {
            assert(path@.skip(i as int).drop_first() =~= path@.skip(i + 1));
            assert(path@.skip(i as int)[0] == path.segments@[i as int]@);
            match (current, &path.segments[i]) {
                (Value::Object(m), OwnedSegment::Field(f)) => {
                    proof {
                        lemma_object_view(*m);
                    }
                    match m.get(f.as_str()) {
                        Some(v) => {
                            current = v;
                        },
                        None => {
                            return None;
                        },
                    }
                },
                (Value::Array(a), OwnedSegment::Index(k)) => {
                    proof {
                        lemma_array_view(*a);
                    }
                    match array_index(a.len(), *k) {
                        Some(p) => {
                            current = &a[p];
                        },
                        None => {
                            return None;
                        },
                    }
                },
                _ => {
                    return None;
                },
            }
            i = i + 1;
        }
        Some(current)
    }
}

/// The position in an array of `len` items that an index stands for.
fn array_index(len: usize, i: isize) -> (r: Option<usize>)
    ensures
        match r {
            Some(p) => p < len && p == if i < 0 {
                len + i
            } else {
                i as int
            },
            None => i >= len || len + i < 0,
        },
{
    if i >= 0 {
        let p: usize = i as usize;
        if p < len {
            Some(p)
        } else {
            None
        }
    } else {
        let back: usize = (-(i + 1)) as usize;
        if back < len {
            Some(len - back - 1)
        } else {
            None
        }
    }
}

/// The entry for a key stays where it is when its value changes.
pub proof fn lemma_entry_stays<V>(s: Seq<(Seq<char>, V)>, key: Seq<char>, v: V)
    requires
        value_of(s, key) is Some,
    ensures
        value_of(with_entry(s, key, v), key) == Some(v),
        without_entry(with_entry(s, key, v), key) == without_entry(s, key),
        with_entry(s, key, value_of(s, key)->0) == s,
{
    lemma_slot_of(s, key);
    let p = slot_of(s, key);
    let t = with_entry(s, key, v);
    lemma_slot_of_is(t, key, p);
    assert(t.remove(p) =~= s.remove(p));
    assert(with_entry(s, key, value_of(s, key)->0) =~= s);
}

/// The value that has `new` at a path from it and nothing else.
fn build(path: &OwnedValuePath, from: usize, new: Value) -> (r: Value)
    requires
        from <= path.segments@.len(),
    ensures
        r@ == stored(None, path@.skip(from as int), new@),
    decreases path.segments@.len() - from,
{
    if from == path.segments.len() {
        return new;
    }
    assert(path@.skip(from as int).drop_first() =~= path@.skip(from + 1));
    assert(path@.skip(from as int)[0] == path.segments@[from as int]@);
    let inner = build(path, from + 1, new);
    match &path.segments[from] {
        OwnedSegment::Field(f) => {
            let mut m = KeyedMap::<Value>::new();
            m.insert(f.clone(), inner);
            proof {
                lemma_object_view(m);
            }
            Value::Object(m)
        },
        OwnedSegment::Index(i) => {
            let mut a: Vec<Value> = Vec::new();
            set_item(&mut a, *i, inner);
            proof {
                lemma_array_view(a);
            }
            Value::Array(a)
        },
    }
}

/// Sets an item of an array. An index beyond either end extends the array with nulls.
fn set_item(a: &mut Vec<Value>, i: isize, v: Value)
    ensures
        array_view(final(a)@) == with_item(array_view(old(a)@), i as int, v@),
{
    let ghost before = array_view(a@);
    match array_index(a.len(), i) {
        Some(p) => {
            a.set(p, v);
            assert(array_view(a@) =~= with_item(before, i as int, v@));
        },
        None => {
            let ghost n = a@.len();
            if i >= 0 {
                let p: usize = i as usize;
                while a.len() < p
                    invariant
                        n <= a@.len() <= p,
                        array_view(a@) =~= before + nulls(a@.len() - n),
                        before.len() == n,
                    decreases p - a@.len(),
                {
                    let ghost shorter = array_view(a@);
                    a.push(Value::Null);
                    assert(Value::Null@ == ValueView::Null);
                    assert(array_view(a@) =~= shorter.push(ValueView::Null));
                    assert(array_view(a@) =~= before + nulls(a@.len() - n));
                }
                a.push(v);
                assert(array_view(a@) =~= with_item(before, i as int, v@));
            } else {
                let back: usize = (-(i + 1)) as usize;
                while a.len() < back
                    invariant
                        n <= a@.len() <= back,
                        array_view(a@) =~= nulls(a@.len() - n) + before,
                        before.len() == n,
                    decreases back - a@.len(),
                {
                    let ghost shorter = array_view(a@);
                    a.insert(0, Value::Null);
                    assert(Value::Null@ == ValueView::Null);
                    assert(array_view(a@) =~= seq![ValueView::Null] + shorter);
                    assert(array_view(a@) =~= nulls(a@.len() - n) + before);
                }
                let ghost shorter = array_view(a@);
                a.insert(0, v);
                assert(array_view(a@) =~= seq![v@] + shorter);
                assert(array_view(a@) =~= with_item(before, i as int, v@));
            }
        },
    }
}

fn insert_from(target: &mut Value, path: &OwnedValuePath, from: usize, new: Value) -> (r: Option<Value>)
    requires
        from <= path.segments@.len(),
    ensures
        final(target)@ == stored(Some(old(target)@), path@.skip(from as int), new@),
        opt_view(r) == fetched(old(target)@, path@.skip(from as int)),
    decreases path.segments@.len() - from,
{
    if from == path.segments.len() {
        let mut new = new;
        std::mem::swap(target, &mut new);
        return Some(new);
    }
    assert(path@.skip(from as int).drop_first() =~= path@.skip(from + 1));
    assert(path@.skip(from as int)[0] == path.segments@[from as int]@);
    match &path.segments[from] {
        OwnedSegment::Field(f) => {
            if let Value::Object(m) = target {
                proof {
                    lemma_object_view(*m);
                }
                match m.get_mut(f.as_str()) {
                    Some(c) => {
                        let r = insert_from(c, path, from + 1, new);
                        proof {
                            lemma_object_view(*m);
                        }
                        return r;
                    },
                    None => {},
                }
                let inner = build(path, from + 1, new);
                m.insert(f.clone(), inner);
                proof {
                    lemma_object_view(*m);
                }
                return None;
            }
            *target = build(path, from, new);
            None
        },
        OwnedSegment::Index(i) => {
            if let Value::Array(a) = target {
                proof {
                    lemma_array_view(*a);
                }
                let ghost before = array_view(a@);
                match array_index(a.len(), *i) {
                    Some(p) => {
                        let r = insert_from(&mut a[p], path, from + 1, new);
                        proof {
                            lemma_array_view(*a);
                            assert(array_view(a@) =~= before.update(p as int, a@[p as int]@));
                        }
                        return r;
                    },
                    None => {},
                }
                let inner = build(path, from + 1, new);
                set_item(a, *i, inner);
                proof {
                    lemma_array_view(*a);
                }
                return None;
            }
            *target = build(path, from, new);
            None
        },
    }
}

fn remove_from(target: &mut Value, path: &OwnedValuePath, from: usize, prune: bool) -> (r: Option<Value>)
    requires
        from < path.segments@.len(),
    ensures
        final(target)@ == removed(old(target)@, path@.skip(from as int), prune),
        opt_view(r) == fetched(old(target)@, path@.skip(from as int)),
    decreases path.segments@.len() - from,
{
    let ghost here = path@.skip(from as int);
    let ghost before = target@;
    assert(here.drop_first() =~= path@.skip(from + 1));
    assert(here[0] == path.segments@[from as int]@);
    let last = from == path.segments.len() - 1;
    match &path.segments[from] {
        OwnedSegment::Field(f) => {
            if let Value::Object(m) = target {
                proof {
                    lemma_object_view(*m);
                }
                if last {
                    let r = m.remove(f.as_str());
                    proof {
                        lemma_object_view(*m);
                        if r is Some {
                            assert(fetched(r->0@, here.drop_first()) == Some(r->0@));
                        }
                    }
                    return r;
                }
                let ghost fields = m@;
                let (r, empty) = match m.get_mut(f.as_str()) {
                    Some(c) => {
                        let r = remove_from(c, path, from + 1, prune);
                        let empty = c.is_empty_collection();
                        (r, empty)
                    },
                    None => {
                        proof {
                            lemma_object_view(*m);
                        }
                        return None;
                    },
                };
                proof {
                    let c = value_of(fields, f@)->0;
                    lemma_entry_stays(fields, f@, removed(c, here.drop_first(), prune));
                }
                if r.is_some() && prune && empty {
                    m.remove(f.as_str());
                }
                proof {
                    lemma_object_view(*m);
                }
                return r;
            }
            None
        },
        OwnedSegment::Index(i) => {
            if let Value::Array(a) = target {
                proof {
                    lemma_array_view(*a);
                }
                let ghost items = array_view(a@);
                match array_index(a.len(), *i) {
                    Some(p) => {
                        if last {
                            let r = a.remove(p);
                            proof {
                                lemma_array_view(*a);
                                assert(array_view(a@) =~= items.remove(p as int));
                                assert(fetched(r@, here.drop_first()) == Some(r@));
                            }
                            return Some(r);
                        }
                        let r = remove_from(&mut a[p], path, from + 1, prune);
                        let empty = a[p].is_empty_collection();
                        let ghost c = a@[p as int]@;
                        assert(array_view(a@) =~= items.update(p as int, c));
                        if r.is_some() && prune && empty {
                            let _gone = a.remove(p);
                            assert(array_view(a@) =~= items.remove(p as int));
                        }
                        proof {
                            lemma_array_view(*a);
                            assert(items.update(p as int, items[p as int]) =~= items);
                        }
                        return r;
                    },
                    None => {
                        return None;
                    },
                }
            }
            None
        },
    }
}

/// What a path from some step on leads to, for change.
fn get_mut_from<'a>(target: &'a mut Value, path: &OwnedValuePath, from: usize) -> (r: Option<
    &'a mut Value,
>)
    requires
        from <= path.segments.len(),
    ensures
        match r {
            Some(v) => fetched(old(target)@, path@.skip(from as int)) == Some((*v)@)
                && final(target)@ == stored(
                Some(old(target)@),
                path@.skip(from as int),
                (*final(v))@,
            ),
            None => fetched(old(target)@, path@.skip(from as int)) is None && final(target)@ == old(
                target,
            )@,
        },
    decreases path.segments@.len() - from,
{
    if from == path.segments.len() {
        return Some(target);
    }
    assert(path@.skip(from as int).drop_first() =~= path@.skip(from + 1));
    assert(path@.skip(from as int)[0] == path.segments@[from as int]@);
    match &path.segments[from] {
        OwnedSegment::Field(f) => match target {
            Value::Object(m) => {
                proof {
                    lemma_object_view(*m);
                    lemma_object_view(*final(m));
                    if let Some(c) = value_of(m@, f@) {
                        lemma_entry_stays(m@, f@, c);
                    }
                }
                match m.get_mut(f.as_str()) {
                    Some(v) => get_mut_from(v, path, from + 1),
                    None => None,
                }
            },
            _ => None,
        },
        OwnedSegment::Index(k) => match target {
            Value::Array(a) => {
                let ghost before = a@;
                proof {
                    lemma_array_view(*a);
                    lemma_array_view(*final(a));
                }
                match array_index(a.len(), *k) {
                    Some(p) => {
                        let v = &mut a[p];
                        assert(array_view(before.update(p as int, *final(v))) =~= array_view(
                            before,
                        ).update(p as int, (*final(v))@));
                        assert(array_view(before).update(p as int, before[p as int]@) =~= array_view(
                            before,
                        ));
                        get_mut_from(v, path, from + 1)
                    },
                    None => None,
                }
            },
            _ => None,
        },
    }
}

impl Value {
    /// Writes `new` at a path and returns what the path led to before. Whatever is not the kind of
    /// collection that a step needs gives way to an empty one.
    pub fn insert(&mut self, path: &OwnedValuePath, new: Value) -> (r: Option<Value>)
        ensures
            final(self)@ == stored(Some(old(self)@), path@, new@),
            opt_view(r) == fetched(old(self)@, path@),
    {
        assert(path@.skip(0) =~= path@);
        insert_from(self, path, 0, new)
    }

    /// What a path leads to, for change.
    pub fn get_mut(&mut self, path: &OwnedValuePath) -> (r: Option<&mut Value>)
        ensures
            match r {
                Some(v) => fetched(old(self)@, path@) == Some((*v)@) && final(self)@ == stored(
                    Some(old(self)@),
                    path@,
                    (*final(v))@,
                ),
                None => fetched(old(self)@, path@) is None && final(self)@ == old(self)@,
            },
    {
        assert(path@.skip(0) =~= path@);
        get_mut_from(self, path, 0)
    }

    /// Removes what a path leads to and returns it. With `prune`, the collections on the way that
    /// this leaves empty go too.
    pub fn remove(&mut self, path: &OwnedValuePath, prune: bool) -> (r: Option<Value>)
        ensures
            final(self)@ == removed(old(self)@, path@, prune),
            opt_view(r) == fetched(old(self)@, path@),
    {
        if path.is_root() {
            let mut rest = match self {
                Value::Object(_) => Value::new_object(),
                Value::Array(_) => {
                    let a: Vec<Value> = Vec::new();
                    proof {
                        lemma_array_view(a);
                        assert(array_view(a@) =~= Seq::empty());
                    }
                    Value::Array(a)
                },
                _ => Value::Null,
            };
            std::mem::swap(self, &mut rest);
            return Some(rest);
        }
        assert(path@.skip(0) =~= path@);
        remove_from(self, path, 0, prune)
    }
}

} // verus!
