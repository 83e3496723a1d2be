//! Schema definitions: what kinds of values an event holds, and where the fields with a known
//! meaning stand.
use vstd::prelude::*;
use vrl::value::kind::{Collection, Index};
use vrl::value::Kind;

use crate::keyed::{value_of, with_entry, KeyedMap};
use crate::path::{OwnedTargetPath, TargetPathView};

verus! {

/// `vrl::value::Kind`, the set of the types that a value may have.
#[verifier::external_type_specification]
#[verifier::external_body]
pub struct ExKind(Kind);

/// `vrl::value::kind::Collection`, the kinds of what stands in an array or an object.
#[verifier::external_type_specification]
#[verifier::external_body]
#[verifier::reject_recursive_types(T)]
pub struct ExCollection<T: Ord>(Collection<T>);

/// `vrl::value::kind::Index`, a place in an array.
#[verifier::external_type_specification]
#[verifier::external_body]
pub struct ExIndex(Index);

/// `<Kind as Clone>::clone`: an equal kind.
#[verifier::external_body]
fn clone_kind(kind: &Kind) -> (r: Kind)
    ensures
        r == *kind,
{
    kind.clone()
}

/// The types that a value may have.
pub enum ValueType {
    Bytes,
    Integer,
    Float,
    Boolean,
    Timestamp,
    Regex,
    Null,
    Undefined,
    Array,
    Object,
}

/// The types that are set in a kind. A kind with none of them, `Kind::never`, is the kind of no value.
pub uninterp spec fn kind_types(kind: Kind) -> Set<ValueType>;

/// Whether `Collection::is_any` holds of the arrays and of the objects of a kind, of each where it has
/// them: their items and fields may be anything.
pub uninterp spec fn holds_anything(kind: Kind) -> bool;

/// Whether a kind is that of every value.
pub open spec fn is_any_kind(kind: Kind) -> bool {
    (forall|t: ValueType| #[trigger] kind_types(kind).contains(t)) && holds_anything(kind)
}

/// Whether a kind is that of every object, and of nothing else.
pub open spec fn is_any_object(kind: Kind) -> bool {
    kind_types(kind) == set![ValueType::Object] && holds_anything(kind)
}

/// `Kind::any`: every type is set, and the collections hold anything.
#[verifier::external_body]
fn any_kind() -> (r: Kind)
    ensures
        forall|t: ValueType| #[trigger] kind_types(r).contains(t),
        holds_anything(r),
{
    Kind::any()
}

/// `Kind::any_object`: only the type of objects is set, and they hold anything.
#[verifier::external_body]
fn any_object_kind() -> (r: Kind)
    ensures
        kind_types(r) == set![ValueType::Object],
        holds_anything(r),
{
    Kind::any_object()
}

/// What the arrays of a kind hold, where it has arrays.
pub uninterp spec fn kind_arrays(kind: Kind) -> Option<Collection<Index>>;

/// `Kind::as_array`: what the arrays of a kind hold, or nothing where the type of arrays is not set.
#[verifier::external_body]
fn array_items(kind: &Kind) -> (r: Option<&Collection<Index>>)
    ensures
        match r {
            Some(items) => kind_arrays(*kind) == Some(*items),
            None => kind_arrays(*kind) is None,
        },
        r is Some == kind_types(*kind).contains(ValueType::Array),
{
    kind.as_array()
}

/// The kind of what stands in an array.
pub uninterp spec fn items_kind(items: Collection<Index>) -> Kind;

/// `Collection::reduced_kind`: the union of the kinds of what stands in an array. What that is for
/// given kinds is not said.
#[verifier::external_body]
fn reduced_kind(items: &Collection<Index>) -> (r: Kind)
    ensures
        r == items_kind(*items),
{
    items.reduced_kind()
}

/// A kind with its arrays taken out.
pub uninterp spec fn kind_without_array(kind: Kind) -> Kind;

/// `Kind::remove_array`: takes the arrays out of a kind, and leaves the other types.
#[verifier::external_body]
fn remove_array(kind: &mut Kind)
    ensures
        *final(kind) == kind_without_array(*old(kind)),
        kind_types(*final(kind)) == kind_types(*old(kind)).remove(ValueType::Array),
{
    kind.remove_array();
}

/// The kind of the values that are of one of two kinds.
pub uninterp spec fn kind_union(a: Kind, b: Kind) -> Kind;

/// `Kind::union`: a kind with the types of both. How it joins what their collections hold is not
/// said.
#[verifier::external_body]
fn union_kind(a: &Kind, b: Kind) -> (r: Kind)
    ensures
        r == kind_union(*a, b),
        kind_types(r) == kind_types(*a).union(kind_types(b)),
{
    a.union(b)
}

/// The kinds of an event and of its metadata, and where the fields with a known meaning stand.
#[derive(Debug, PartialEq)]
pub struct Definition {
    pub event_kind: Kind,
    pub metadata_kind: Kind,
    pub meanings: KeyedMap<OwnedTargetPath>,
}

#[verifier::ext_equal]
pub struct DefinitionView {
    pub event_kind: Kind,
    pub metadata_kind: Kind,
    pub meanings: Seq<(Seq<char>, TargetPathView)>,
}

impl View for Definition {
    type V = DefinitionView;

    open spec fn view(&self) -> DefinitionView {
        DefinitionView {
            event_kind: self.event_kind,
            metadata_kind: self.metadata_kind,
            meanings: self.meanings@,
        }
    }
}

/// The meanings after others were added.
pub open spec fn meanings_added(
    to: Seq<(Seq<char>, TargetPathView)>,
    added: Seq<(Seq<char>, TargetPathView)>,
) -> Seq<(Seq<char>, TargetPathView)>
    decreases added.len(),
{
    if added.len() == 0 {
        to
    } else {
        with_entry(meanings_added(to, added.drop_last()), added.last().0, added.last().1)
    }
}

impl DefinitionView {
    /// Whether this is the definition that every event with the given meanings meets, provided that
    /// it is an object.
    pub open spec fn is_default_with(self, meanings: Seq<(Seq<char>, TargetPathView)>) -> bool {
        &&& is_any_object(self.event_kind)
        &&& is_any_object(self.metadata_kind)
        &&& self.meanings == meanings_added(Seq::empty(), meanings)
    }

    /// The definition of the events that one event of this definition is split into, where an
    /// array is split into its items.
    pub open spec fn arrays_split(self) -> DefinitionView {
        match kind_arrays(self.event_kind) {
            Some(items) => DefinitionView {
                event_kind: kind_union(kind_without_array(self.event_kind), items_kind(items)),
                ..self
            },
            None => self,
        }
    }
}

impl Clone for Definition {
    fn clone(&self) -> (r: Self)
        ensures
            r@ == self@,
    {
        let mut meanings: Vec<(String, OwnedTargetPath)> = Vec::new();
        let mut i: usize = 0;
        while i < self.meanings.entries.len()
            invariant
                i <= self.meanings.entries@.len(),
                meanings@.len() == i,
                forall|j: int|
                    0 <= j < i ==> (#[trigger] meanings@[j]).0@ == self.meanings.entries@[j].0@
                        && meanings@[j].1@ == self.meanings.entries@[j].1@,
            decreases self.meanings.entries@.len() - i,
        {
            meanings.push((self.meanings.entries[i].0.clone(), self.meanings.entries[i].1.clone()));
            i = i + 1;
        }
        let r = Definition {
            event_kind: clone_kind(&self.event_kind),
            metadata_kind: clone_kind(&self.metadata_kind),
            meanings: KeyedMap { entries: meanings },
        };
        assert(r@ =~= self@);
        r
    }
}

impl Definition {
    /// The definition that every event meets.
    pub fn any() -> (r: Self)
        ensures
            is_any_kind(r@.event_kind),
            is_any_kind(r@.metadata_kind),
            r@.meanings == Seq::<(Seq<char>, TargetPathView)>::empty(),
    {
        Definition { event_kind: any_kind(), metadata_kind: any_kind(), meanings: KeyedMap::new() }
    }

    /// A definition of events of a kind, with any object as metadata.
    pub fn new_with_default_metadata(event_kind: Kind) -> (r: Self)
        ensures
            r@.event_kind == event_kind,
            is_any_object(r@.metadata_kind),
            r@.meanings == Seq::<(Seq<char>, TargetPathView)>::empty(),
    {
        Definition { event_kind, metadata_kind: any_object_kind(), meanings: KeyedMap::new() }
    }

    /// The definition that every event meets that is an object.
    pub fn default_definition() -> (r: Self)
        ensures
            r@.is_default_with(Seq::empty()),
    {
        Definition::new_with_default_metadata(any_object_kind())
    }

    pub fn meanings(&self) -> (r: &KeyedMap<OwnedTargetPath>)
        ensures
            r@ == self@.meanings,
    {
        &self.meanings
    }

    /// Adds meanings.
    pub fn add_meanings(&mut self, meanings: &KeyedMap<OwnedTargetPath>)
        ensures
            final(self)@ == (DefinitionView {
                meanings: meanings_added(old(self)@.meanings, meanings@),
                ..old(self)@
            }),
    {
        let mut i: usize = 0;
        let ghost before = self@.meanings;
        let ghost all = meanings@;
        assert(all.take(0) =~= Seq::empty());
        while i < meanings.entries.len()
            invariant
                i <= meanings.entries@.len(),
                all == meanings@,
                self@.meanings == meanings_added(before, all.take(i as int)),
                self.event_kind == old(self).event_kind,
                self.metadata_kind == old(self).metadata_kind,
            decreases meanings.entries@.len() - i,
        {
            assert(all.take(i + 1).drop_last() =~= all.take(i as int));
            self.meanings.insert(meanings.entries[i].0.clone(), meanings.entries[i].1.clone());
            i = i + 1;
        }
        assert(all.take(i as int) =~= all);
    }

    /// Where the field with a meaning stands.
    pub fn meaning_path(&self, meaning: &str) -> (r: Option<&OwnedTargetPath>)
        ensures
            match r {
                Some(p) => value_of(self@.meanings, meaning@) == Some(p@),
                None => value_of(self@.meanings, meaning@) is None,
            },
    {
        self.meanings.get(meaning)
    }
}

/// The definition of the events that one event is split into, where an array is split into its
/// items.
pub fn merge_array_definitions(definition: Definition) -> (r: Definition)
    ensures
        r@ == definition@.arrays_split(),
        kind_types(r@.event_kind) == match kind_arrays(definition@.event_kind) {
            Some(items) => kind_types(definition@.event_kind).remove(ValueType::Array).union(
                kind_types(items_kind(items)),
            ),
            None => kind_types(definition@.event_kind),
        },
{
    let mut definition = definition;
    match array_items(&definition.event_kind) {
        Some(items) => {
            let items = reduced_kind(items);
            remove_array(&mut definition.event_kind);
            definition.event_kind = union_kind(&definition.event_kind, items);
        },
        None => {},
    }
    definition
}

} // verus!
