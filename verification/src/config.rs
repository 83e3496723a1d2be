//! What components of a topology take in and give out, and how acknowledgements are configured.
use vstd::prelude::*;
use vrl::value::Kind;
use vstd::std_specs::convert::FromSpecImpl;

use crate::any_value::{any_from_value, string_value, AnyView};
use crate::keyed::{opt_view, ordered, value_of, KeyedMap};
use crate::log::{OtelLog, OtelLogView};
use crate::log_ops::with_vector_source;
use crate::metadata::{EventMetadata, MetadataView, OutputId, OutputIdView};
use crate::path::{
    fetched, stored, OwnedSegment, OwnedTargetPath, OwnedValuePath, PathPrefix, SegmentView,
    TargetPathView,
};
use crate::path_laws::{law_path_read_after_write, law_path_write_is_local};
use crate::path_text::two_field_path;
use crate::schema::{Definition, DefinitionView};
use crate::text::{joined_text, str_eq};
use crate::time::Timestamp;
use crate::value::{Value, ValueView};

verus! {

/// A set of kinds of events. The kinds are kept in the order of their names.
#[derive(Clone, Copy, Debug, PartialEq, Eq, Structural)]
pub enum DataType {
    Empty,
    Log,
    Metric,
    LogAndMetric,
    Trace,
    LogAndTrace,
    MetricAndTrace,
    All,
}

impl DataType {
    /// Whether logs are in the set.
    pub open spec fn log(&self) -> bool {
        match self {
            DataType::Log | DataType::LogAndMetric | DataType::LogAndTrace | DataType::All => true,
            _ => false,
        }
    }

    /// Whether metrics are in the set.
    pub open spec fn metric(&self) -> bool {
        match self {
            DataType::Metric | DataType::LogAndMetric | DataType::MetricAndTrace | DataType::All =>
                true,
            _ => false,
        }
    }

    /// Whether traces are in the set.
    pub open spec fn trace(&self) -> bool {
        match self {
            DataType::Trace | DataType::LogAndTrace | DataType::MetricAndTrace | DataType::All =>
                true,
            _ => false,
        }
    }

    /// The set with these kinds.
    pub fn of(log: bool, metric: bool, trace: bool) -> (r: Self)
        ensures
            r.log() == log,
            r.metric() == metric,
            r.trace() == trace,
    {
        match (log, metric, trace) {
            (false, false, false) => DataType::Empty,
            (true, false, false) => DataType::Log,
            (false, true, false) => DataType::Metric,
            (true, true, false) => DataType::LogAndMetric,
            (false, false, true) => DataType::Trace,
            (true, false, true) => DataType::LogAndTrace,
            (false, true, true) => DataType::MetricAndTrace,
            (true, true, true) => DataType::All,
        }
    }

    pub fn has_log(&self) -> (r: bool)
        ensures
            r == self.log(),
    {
        matches!(self, DataType::Log | DataType::LogAndMetric | DataType::LogAndTrace | DataType::All)
    }

    pub fn has_metric(&self) -> (r: bool)
        ensures
            r == self.metric(),
    {
        matches!(
            self,
            DataType::Metric | DataType::LogAndMetric | DataType::MetricAndTrace | DataType::All
        )
    }

    pub fn has_trace(&self) -> (r: bool)
        ensures
            r == self.trace(),
    {
        matches!(
            self,
            DataType::Trace | DataType::LogAndTrace | DataType::MetricAndTrace | DataType::All
        )
    }

    /// The set of all kinds.
    pub fn all_bits() -> (r: Self)
        ensures
            r == DataType::All,
    {
        DataType::All
    }

    /// Whether all kinds of another set are in this one.
    pub fn contains(&self, other: DataType) -> (r: bool)
        ensures
            r == ((other.log() ==> self.log()) && (other.metric() ==> self.metric()) && (
            other.trace() ==> self.trace())),
    {
        (!other.has_log() || self.has_log()) && (!other.has_metric() || self.has_metric()) && (
        !other.has_trace() || self.has_trace())
    }

    /// The kinds of both sets.
    pub fn or(self, other: DataType) -> (r: Self)
        ensures
            r.log() == (self.log() || other.log()),
            r.metric() == (self.metric() || other.metric()),
            r.trace() == (self.trace() || other.trace()),
    {
        DataType::of(
            self.has_log() || other.has_log(),
            self.has_metric() || other.has_metric(),
            self.has_trace() || other.has_trace(),
        )
    }

    /// The set as a number: each kind is a bit, logs the lowest.
    pub fn bits(self) -> (r: u8)
        ensures
            r == (if self.log() {
                1int
            } else {
                0
            }) + (if self.metric() {
                2int
            } else {
                0
            }) + (if self.trace() {
                4int
            } else {
                0
            }),
    {
        match self {
            DataType::Empty => 0,
            DataType::Log => 1,
            DataType::Metric => 2,
            DataType::LogAndMetric => 3,
            DataType::Trace => 4,
            DataType::LogAndTrace => 5,
            DataType::MetricAndTrace => 6,
            DataType::All => 7,
        }
    }

    /// The names of the kinds, in a list.
    pub open spec fn written(self) -> Seq<char> {
        match self {
            DataType::Empty => "[]"@,
            DataType::Log => "[\"Log\"]"@,
            DataType::Metric => "[\"Metric\"]"@,
            DataType::LogAndMetric => "[\"Log\", \"Metric\"]"@,
            DataType::Trace => "[\"Trace\"]"@,
            DataType::LogAndTrace => "[\"Log\", \"Trace\"]"@,
            DataType::MetricAndTrace => "[\"Metric\", \"Trace\"]"@,
            DataType::All => "[\"Log\", \"Metric\", \"Trace\"]"@,
        }
    }

    /// The names of the kinds, in a list.
    pub fn text(&self) -> (r: &'static str)
        ensures
            r@ == self.written(),
    {
        match self {
            DataType::Empty => "[]",
            DataType::Log => "[\"Log\"]",
            DataType::Metric => "[\"Metric\"]",
            DataType::LogAndMetric => "[\"Log\", \"Metric\"]",
            DataType::Trace => "[\"Trace\"]",
            DataType::LogAndTrace => "[\"Log\", \"Trace\"]",
            DataType::MetricAndTrace => "[\"Metric\", \"Trace\"]",
            DataType::All => "[\"Log\", \"Metric\", \"Trace\"]",
        }
    }
}

/// What a component asks of a field with a meaning.
#[derive(Debug, PartialEq)]
pub struct MeaningRequirement {
    pub optional: bool,
    pub kind: Kind,
}

impl View for MeaningRequirement {
    type V = MeaningRequirement;

    open spec fn view(&self) -> MeaningRequirement {
        *self
    }
}

/// What a component asks of the fields of logs, by their meaning.
#[derive(Debug, PartialEq)]
pub struct Requirement {
    pub meanings: KeyedMap<MeaningRequirement>,
}

impl View for Requirement {
    type V = Seq<(Seq<char>, MeaningRequirement)>;

    open spec fn view(&self) -> Seq<(Seq<char>, MeaningRequirement)> {
        self.meanings@
    }
}

impl Requirement {
    /// The requirement that asks nothing.
    pub fn empty() -> (r: Self)
        ensures
            r@ == Seq::<(Seq<char>, MeaningRequirement)>::empty(),
    {
        let r = Requirement { meanings: KeyedMap::new() };
        assert(r@ =~= Seq::empty());
        r
    }
}

/// What a component takes in.
#[derive(Debug, PartialEq)]
pub struct Input {
    pub ty: DataType,
    pub log_schema_requirement: Requirement,
}

impl Input {
    /// Whether this takes in events of the given kinds and asks nothing of them.
    pub open spec fn is_plain(&self, ty: DataType) -> bool {
        self.ty == ty && self.log_schema_requirement@.len() == 0
    }

    pub fn data_type(&self) -> (r: DataType)
        ensures
            r == self.ty,
    {
        self.ty
    }

    pub fn schema_requirement(&self) -> (r: &Requirement)
        ensures
            *r == self.log_schema_requirement,
    {
        &self.log_schema_requirement
    }

    pub fn new(ty: DataType) -> (r: Self)
        ensures
            r.is_plain(ty),
    {
        Input { ty, log_schema_requirement: Requirement::empty() }
    }

    pub fn log() -> (r: Self)
        ensures
            r.is_plain(DataType::Log),
    {
        Input::new(DataType::Log)
    }

    pub fn metric() -> (r: Self)
        ensures
            r.is_plain(DataType::Metric),
    {
        Input::new(DataType::Metric)
    }

    pub fn trace() -> (r: Self)
        ensures
            r.is_plain(DataType::Trace),
    {
        Input::new(DataType::Trace)
    }

    pub fn all() -> (r: Self)
        ensures
            r.is_plain(DataType::All),
    {
        Input::new(DataType::all_bits())
    }

    /// Set the schema requirement for this output.
    pub fn with_schema_requirement(self, schema_requirement: Requirement) -> (r: Self)
        ensures
            r.ty == self.ty,
            r.log_schema_requirement == schema_requirement,
    {
        Input { ty: self.ty, log_schema_requirement: schema_requirement }
    }
}

/// The text about an output.
pub open spec fn output_text(port: Option<Seq<char>>, ty: DataType) -> Seq<char> {
    match port {
        Some(p) => "port: \""@ + p + "\","@ + " types: "@ + ty.written(),
        None => "port: None,"@ + " types: "@ + ty.written(),
    }
}

fn describe_output(port: &Option<String>, ty: DataType) -> (r: String)
    ensures
        r@ == output_text(opt_view(*port), ty),
{
    let start = match port {
        Some(p) => {
            let open = joined_text("port: \"", p.as_str());
            joined_text(open.as_str(), "\",")
        },
        None => "port: None,".to_string(),
    };
    let types = joined_text(start.as_str(), " types: ");
    joined_text(types.as_str(), ty.text())
}

/// What a source gives out.
#[derive(Debug, PartialEq)]
pub struct SourceOutput {
    pub port: Option<String>,
    pub ty: DataType,
    /// Schema definitions are only supported for logs.
    pub schema_definition: Option<Definition>,
}

/// A definition that says no more than where the fields with a meaning of another one stand.
pub open spec fn is_simplified(simple: DefinitionView, full: DefinitionView) -> bool {
    simple.is_default_with(full.meanings)
}

fn simplified(full: &Definition) -> (r: Definition)
    ensures
        is_simplified(r@, full@),
{
    let mut simple = Definition::default_definition();
    simple.add_meanings(full.meanings());
    simple
}

impl SourceOutput {
    /// Create a `SourceOutput` of the given data type that contains a single output `Definition`.
    /// If the data type does not contain logs, the schema definition will be ignored.
    /// Designed for use in log sources.
    pub fn new_maybe_logs(ty: DataType, schema_definition: Definition) -> (r: Self)
        ensures
            r.port is None,
            r.ty == ty,
            r.schema_definition == if ty.log() {
                Some(schema_definition)
            } else {
                None
            },
    {
        let schema_definition = if ty.contains(DataType::Log) {
            Some(schema_definition)
        } else {
            None
        };
        SourceOutput { port: None, ty, schema_definition }
    }

    /// Create a `SourceOutput` of the given data type that contains no output `Definition`s.
    /// Designed for use in metrics sources.
    pub fn new_metrics() -> (r: Self)
        ensures
            r == (SourceOutput { port: None, ty: DataType::Metric, schema_definition: None }),
    {
        SourceOutput { port: None, ty: DataType::Metric, schema_definition: None }
    }

    /// Create a `SourceOutput` of the given data type that contains no output `Definition`s.
    /// Designed for use in trace sources.
    pub fn new_traces() -> (r: Self)
        ensures
            r == (SourceOutput { port: None, ty: DataType::Trace, schema_definition: None }),
    {
        SourceOutput { port: None, ty: DataType::Trace, schema_definition: None }
    }

    /// Return the schema definition from this output.
    ///
    /// Takes a `schema_enabled` flag to determine if the full definition including the fields
    /// and associated types should be returned, or if a simple definition should be returned.
    /// A simple definition is just the default one, with the meanings.
    pub fn schema_definition(&self, schema_enabled: bool) -> (r: Option<Definition>)
        ensures
            match (self.schema_definition, r) {
                (Some(full), Some(d)) => if schema_enabled {
                    d@ == full@
                } else {
                    is_simplified(d@, full@)
                },
                (None, None) => true,
                _ => false,
            },
    {
        match &self.schema_definition {
            Some(full) => Some(
                if schema_enabled {
                    full.clone()
                } else {
                    simplified(full)
                },
            ),
            None => None,
        }
    }

    /// Set the port name for this `SourceOutput`.
    pub fn with_port(self, name: String) -> (r: Self)
        ensures
            r == (SourceOutput { port: Some(name), ..self }),
    {
        SourceOutput { port: Some(name), ty: self.ty, schema_definition: self.schema_definition }
    }

    /// The output in words.
    pub fn text(&self) -> (r: String)
        ensures
            r@ == output_text(opt_view(self.port), self.ty),
    {
        describe_output(&self.port, self.ty)
    }
}

/// Definitions by the output that they belong to.
#[derive(Debug, PartialEq)]
pub struct OutputDefinitions {
    pub entries: Vec<(OutputId, Definition)>,
}

impl View for OutputDefinitions {
    type V = Map<OutputIdView, DefinitionView>;

    open spec fn view(&self) -> Map<OutputIdView, DefinitionView> {
        Map::new(
            |k: OutputIdView| exists|i: int| 0 <= i < self.entries@.len() && #[trigger] self.key(i) == k,
            |k: OutputIdView|
                self.entries@[choose|i: int|
                    0 <= i < self.entries@.len() && #[trigger] self.key(i) == k].1@,
        )
    }
}

fn same_text(a: &Option<String>, b: &Option<String>) -> (r: bool)
    ensures
        r == (opt_view(*a) == opt_view(*b)),
{
    match (a, b) {
        (Some(a), Some(b)) => str_eq(a.as_str(), b.as_str()),
        (None, None) => true,
        _ => false,
    }
}

fn same_output(a: &OutputId, b: &OutputId) -> (r: bool)
    ensures
        r == (a@ == b@),
{
    str_eq(a.component.as_str(), b.component.as_str()) && same_text(&a.port, &b.port)
}

impl OutputDefinitions {
    /// The output of an entry.
    pub open spec fn key(&self, i: int) -> OutputIdView {
        self.entries@[i].0@
    }

    /// No output occurs twice.
    pub open spec fn wf(&self) -> bool {
        forall|i: int, j: int|
            #![trigger self.key(i), self.key(j)]
            0 <= i < j < self.entries@.len() ==> self.key(i) != self.key(j)
    }

    proof fn lemma_entry(&self, i: int)
        requires
            self.wf(),
            0 <= i < self.entries@.len(),
        ensures
            self@.dom().contains(self.key(i)),
            self@[self.key(i)] == self.entries@[i].1@,
    {
        let k = self.key(i);
        let c = choose|j: int| 0 <= j < self.entries@.len() && #[trigger] self.key(j) == k;
        assert(self.key(c) == self.key(i));
        assert(c == i);
    }

    pub fn new() -> (r: Self)
        ensures
            r.wf(),
            r@ == Map::<OutputIdView, DefinitionView>::empty(),
    {
        let r = OutputDefinitions { entries: Vec::new() };
        assert(r@ =~= Map::empty());
        r
    }

    /// The definition of an output.
    pub fn get(&self, output: &OutputId) -> (r: Option<&Definition>)
        requires
            self.wf(),
        ensures
            match r {
                Some(d) => self@.dom().contains(output@) && self@[output@] == d@,
                None => !self@.dom().contains(output@),
            },
    {
        let mut i: usize = 0;
        while i < self.entries.len()
            invariant
                i <= self.entries@.len(),
                self.wf(),
                forall|j: int| 0 <= j < i ==> #[trigger] self.key(j) != output@,
            decreases self.entries@.len() - i,
        {
            if same_output(&self.entries[i].0, output) {
                proof {
                    self.lemma_entry(i as int);
                    assert(self.key(i as int) == output@);
                }
                return Some(&self.entries[i].1);
            }
            assert(self.key(i as int) != output@);
            i = i + 1;
        }
        None
    }

    /// Sets the definition of an output.
    pub fn insert(&mut self, output: OutputId, definition: Definition)
        requires
            old(self).wf(),
        ensures
            final(self).wf(),
            final(self)@ == old(self)@.insert(output@, definition@),
    {
        let ghost before = *self;
        let mut i: usize = 0;
        while i < self.entries.len()
            invariant
                i <= self.entries@.len(),
                *self == before,
                before.wf(),
                before == *old(self),
                forall|j: int| 0 <= j < i ==> #[trigger] before.key(j) != output@,
            decreases self.entries@.len() - i,
        {
            if same_output(&self.entries[i].0, &output) {
                self.entries[i].1 = definition;
                proof {
                    assert forall|j: int| 0 <= j < before.entries@.len() implies self.key(j)
                        == #[trigger] before.key(j) by {}
                    assert(before.key(i as int) == output@);
                    assert forall|a: int, b: int| 0 <= a < b < self.entries@.len() implies
                        #[trigger] self.key(a) != #[trigger] self.key(b) by {
                        assert(before.key(a) != before.key(b));
                    }
                    self.lemma_same_keys(before, i as int, output@, definition@);
                }
                return ;
            }
            assert(before.key(i as int) != output@);
            i = i + 1;
        }
        let ghost n = self.entries@.len() as int;
        self.entries.push((output, definition));
        proof {
            assert forall|j: int| 0 <= j < n implies self.key(j) == #[trigger] before.key(j) by {}
            assert(self.key(n) == output@);
            assert forall|a: int, b: int| 0 <= a < b < self.entries@.len() implies
                #[trigger] self.key(a) != #[trigger] self.key(b) by {
                assert(self.key(a) == before.key(a));
                if b < n {
                    assert(self.key(b) == before.key(b));
                }
            }
            let after = before@.insert(output@, definition@);
            assert forall|k: OutputIdView| self@.dom().contains(k) <==> after.dom().contains(k) by {
                if self@.dom().contains(k) {
                    let j = choose|j: int| 0 <= j < self.entries@.len() && #[trigger] self.key(j) == k;
                    if j < n {
                        assert(before.key(j) == k);
                    }
                }
                if before@.dom().contains(k) {
                    let j = choose|j: int|
                        0 <= j < before.entries@.len() && #[trigger] before.key(j) == k;
                    assert(self.key(j) == k);
                }
            }
            assert forall|k: OutputIdView| self@.dom().contains(k) implies self@[k] == after[k] by {
                let j = choose|j: int| 0 <= j < self.entries@.len() && #[trigger] self.key(j) == k;
                self.lemma_entry(j);
                if j < n {
                    assert(before.key(j) == k);
                    before.lemma_entry(j);
                }
            }
            assert(self@ =~= after);
        }
    }

    proof fn lemma_same_keys(self, before: Self, i: int, k: OutputIdView, d: DefinitionView)
        requires
            self.wf(),
            before.wf(),
            self.entries@.len() == before.entries@.len(),
            0 <= i < self.entries@.len(),
            before.key(i) == k,
            forall|j: int|
                0 <= j < before.entries@.len() ==> self.key(j) == #[trigger] before.key(j),
            self.entries@[i].1@ == d,
            forall|j: int|
                0 <= j < before.entries@.len() && j != i ==> (#[trigger] self.entries@[j]).1@
                    == before.entries@[j].1@,
        ensures
            self@ == before@.insert(k, d),
    {
        let after = before@.insert(k, d);
        assert forall|q: OutputIdView| self@.dom().contains(q) <==> after.dom().contains(q) by {
            if self@.dom().contains(q) {
                let j = choose|j: int| 0 <= j < self.entries@.len() && #[trigger] self.key(j) == q;
                assert(before.key(j) == q);
            }
            if before@.dom().contains(q) {
                let j = choose|j: int|
                    0 <= j < before.entries@.len() && #[trigger] before.key(j) == q;
                assert(self.key(j) == q);
            }
            assert(self.key(i) == before.key(i));
        }
        assert forall|q: OutputIdView| self@.dom().contains(q) implies self@[q] == after[q] by {
            let j = choose|j: int| 0 <= j < self.entries@.len() && #[trigger] self.key(j) == q;
            self.lemma_entry(j);
            assert(before.key(j) == q);
            before.lemma_entry(j);
        }
        assert(self@ =~= after);
    }

    /// The number of outputs.
    pub fn len(&self) -> (r: usize)
        ensures
            r == self.entries@.len(),
    {
        self.entries.len()
    }
}

/// The definitions that a list gives, of which a later one replaces an earlier one of its output.
pub open spec fn definitions_listed(list: Seq<(OutputId, Definition)>) -> Map<
    OutputIdView,
    DefinitionView,
>
    decreases list.len(),
{
    if list.len() == 0 {
        Map::empty()
    } else {
        definitions_listed(list.drop_last()).insert(list.last().0@, list.last().1@)
    }
}

/// Simple utility function that can be used by transforms that make no changes to
/// the schema definitions of events.
/// Takes a list of definitions with their outputs and returns them by output.
pub fn clone_input_definitions(input_definitions: &Vec<(OutputId, Definition)>) -> (r:
    OutputDefinitions)
    ensures
        r.wf(),
        r@ == definitions_listed(input_definitions@),
{
    let mut r = OutputDefinitions::new();
    let ghost all = input_definitions@;
    assert(all.take(0) =~= Seq::empty());
    let mut i: usize = 0;
    while i < input_definitions.len()
        invariant
            i <= input_definitions@.len(),
            all == input_definitions@,
            r.wf(),
            r@ == definitions_listed(all.take(i as int)),
        decreases input_definitions@.len() - i,
    {
        assert(all.take(i + 1).drop_last() =~= all.take(i as int));
        r.insert(input_definitions[i].0.clone(), input_definitions[i].1.clone());
        i = i + 1;
    }
    assert(all.take(i as int) =~= all);
    r
}

/// What a transform gives out.
#[derive(Debug, PartialEq)]
pub struct TransformOutput {
    pub port: Option<String>,
    pub ty: DataType,
    /// For *transforms*, if the data type has logs and schemas are enabled, at least one definition
    /// should be output. If the transform has multiple connected sources, it is possible to have
    /// multiple output definitions - one for each input.
    pub log_schema_definitions: OutputDefinitions,
}

impl TransformOutput {
    /// Create a `TransformOutput` of the given data type that contains multiple definitions.
    /// Designed for use in transforms.
    pub fn new(ty: DataType, schema_definitions: OutputDefinitions) -> (r: Self)
        ensures
            r == (TransformOutput { port: None, ty, log_schema_definitions: schema_definitions }),
    {
        TransformOutput { port: None, ty, log_schema_definitions: schema_definitions }
    }

    /// Set the port name for this `Output`.
    pub fn with_port(self, name: String) -> (r: Self)
        ensures
            r == (TransformOutput { port: Some(name), ..self }),
    {
        TransformOutput {
            port: Some(name),
            ty: self.ty,
            log_schema_definitions: self.log_schema_definitions,
        }
    }

    /// Return the schema definitions from this output.
    ///
    /// Takes a `schema_enabled` flag to determine if the full definition including the fields
    /// and associated types should be returned, or if a simple definition should be returned.
    /// A simple definition is just the default one, with the meanings.
    pub fn schema_definitions(&self, schema_enabled: bool) -> (r: OutputDefinitions)
        requires
            self.log_schema_definitions.wf(),
        ensures
            r.wf(),
            r@.dom() == self.log_schema_definitions@.dom(),
            schema_enabled ==> r@ == self.log_schema_definitions@,
            !schema_enabled ==> forall|k: OutputIdView|
                self.log_schema_definitions@.dom().contains(k) ==> is_simplified(
                    #[trigger] r@[k],
                    self.log_schema_definitions@[k],
                ),
    {
        let full = &self.log_schema_definitions;
        let mut entries: Vec<(OutputId, Definition)> = Vec::new();
        let mut i: usize = 0;
        while i < full.entries.len()
            invariant
                i <= full.entries@.len(),
                entries@.len() == i,
                forall|j: int| 0 <= j < i ==> (#[trigger] entries@[j]).0@ == full.key(j),
                schema_enabled ==> forall|j: int|
                    0 <= j < i ==> (#[trigger] entries@[j]).1@ == full.entries@[j].1@,
                !schema_enabled ==> forall|j: int|
                    0 <= j < i ==> is_simplified(
                        (#[trigger] entries@[j]).1@,
                        full.entries@[j].1@,
                    ),
            decreases full.entries@.len() - i,
        {
            let definition = if schema_enabled {
                full.entries[i].1.clone()
            } else {
                simplified(&full.entries[i].1)
            };
            entries.push((full.entries[i].0.clone(), definition));
            i = i + 1;
        }
        let r = OutputDefinitions { entries };
        proof {
            assert forall|j: int| 0 <= j < full.entries@.len() implies #[trigger] r.key(j)
                == full.key(j) by {
                assert(r.entries@[j].0@ == full.key(j));
            }
            assert forall|a: int, b: int| 0 <= a < b < r.entries@.len() implies #[trigger] r.key(a)
                != #[trigger] r.key(b) by {
                assert(full.key(a) != full.key(b));
            }
            assert forall|k: OutputIdView| r@.dom().contains(k) <==> full@.dom().contains(k) by {
                if r@.dom().contains(k) {
                    let j = choose|j: int| 0 <= j < r.entries@.len() && #[trigger] r.key(j) == k;
                    assert(full.key(j) == k);
                }
                if full@.dom().contains(k) {
                    let j = choose|j: int|
                        0 <= j < full.entries@.len() && #[trigger] full.key(j) == k;
                    assert(r.key(j) == k);
                }
            }
            assert(r@.dom() =~= full@.dom());
            assert forall|k: OutputIdView| full@.dom().contains(k) implies (schema_enabled ==> r@[k]
                == full@[k]) && (!schema_enabled ==> is_simplified(r@[k], full@[k])) by {
                let j = choose|j: int|
                    0 <= j < full.entries@.len() && #[trigger] full.key(j) == k;
                assert(r.key(j) == k);
                full.lemma_entry(j);
                r.lemma_entry(j);
            }
            if schema_enabled {
                assert(r@ =~= full@);
            }
        }
        r
    }

    /// The output in words.
    pub fn text(&self) -> (r: String)
        ensures
            r@ == output_text(opt_view(self.port), self.ty),
    {
        describe_output(&self.port, self.ty)
    }
}

/// A setting, or where it is not made another one.
pub open spec fn setting_or(setting: Option<bool>, other: Option<bool>) -> Option<bool> {
    match setting {
        Some(b) => Some(b),
        None => other,
    }
}

/// Source-specific end-to-end acknowledgements configuration.
#[derive(Clone, Copy, Debug, PartialEq, Eq, Structural)]
pub struct SourceAcknowledgementsConfig {
    /// Whether or not end-to-end acknowledgements are enabled for this source.
    pub enabled: Option<bool>,
}

impl Default for SourceAcknowledgementsConfig {
    fn default() -> (r: Self)
        ensures
            r.enabled is None,
    {
        SourceAcknowledgementsConfig { enabled: None }
    }
}

impl SourceAcknowledgementsConfig {
    /// This configuration, where it says something, or else another one.
    pub fn merge_default(&self, other: &Self) -> (r: Self)
        ensures
            r.enabled == setting_or(self.enabled, other.enabled),
    {
        let enabled = match self.enabled {
            Some(b) => Some(b),
            None => other.enabled,
        };
        SourceAcknowledgementsConfig { enabled }
    }

    /// Whether acknowledgements are enabled. They are not, unless the configuration says so.
    pub fn enabled(&self) -> (r: bool)
        ensures
            r == (self.enabled == Some(true)),
    {
        self.enabled.unwrap_or(false)
    }
}

impl From<Option<bool>> for SourceAcknowledgementsConfig {
    fn from(enabled: Option<bool>) -> (r: Self) {
        SourceAcknowledgementsConfig { enabled }
    }
}

impl FromSpecImpl<Option<bool>> for SourceAcknowledgementsConfig {
    open spec fn obeys_from_spec() -> bool {
        true
    }

    open spec fn from_spec(enabled: Option<bool>) -> Self {
        SourceAcknowledgementsConfig { enabled }
    }
}

impl From<bool> for SourceAcknowledgementsConfig {
    fn from(enabled: bool) -> (r: Self) {
        SourceAcknowledgementsConfig { enabled: Some(enabled) }
    }
}

impl FromSpecImpl<bool> for SourceAcknowledgementsConfig {
    open spec fn obeys_from_spec() -> bool {
        true
    }

    open spec fn from_spec(enabled: bool) -> Self {
        SourceAcknowledgementsConfig { enabled: Some(enabled) }
    }
}

/// End-to-end acknowledgements configuration.
#[derive(Clone, Copy, Debug, PartialEq, Eq, Structural)]
pub struct AcknowledgementsConfig {
    /// Controls whether or not end-to-end acknowledgements are enabled.
    ///
    /// When enabled for a sink, any source that supports end-to-end
    /// acknowledgements that is connected to that sink waits for events
    /// to be acknowledged by **all connected sinks** before acknowledging them at the source.
    pub enabled: Option<bool>,
}

impl Default for AcknowledgementsConfig {
    fn default() -> (r: Self)
        ensures
            r.enabled is None,
    {
        AcknowledgementsConfig { enabled: None }
    }
}

impl AcknowledgementsConfig {
    /// This configuration, where it says something, or else another one.
    pub fn merge_default(&self, other: &Self) -> (r: Self)
        ensures
            r.enabled == setting_or(self.enabled, other.enabled),
    {
        let enabled = match self.enabled {
            Some(b) => Some(b),
            None => other.enabled,
        };
        AcknowledgementsConfig { enabled }
    }

    /// Whether acknowledgements are enabled. They are not, unless the configuration says so.
    pub fn enabled(&self) -> (r: bool)
        ensures
            r == (self.enabled == Some(true)),
    {
        self.enabled.unwrap_or(false)
    }
}

impl From<Option<bool>> for AcknowledgementsConfig {
    fn from(enabled: Option<bool>) -> (r: Self) {
        AcknowledgementsConfig { enabled }
    }
}

impl FromSpecImpl<Option<bool>> for AcknowledgementsConfig {
    open spec fn obeys_from_spec() -> bool {
        true
    }

    open spec fn from_spec(enabled: Option<bool>) -> Self {
        AcknowledgementsConfig { enabled }
    }
}

impl From<bool> for AcknowledgementsConfig {
    fn from(enabled: bool) -> (r: Self) {
        AcknowledgementsConfig { enabled: Some(enabled) }
    }
}

impl FromSpecImpl<bool> for AcknowledgementsConfig {
    open spec fn obeys_from_spec() -> bool {
        true
    }

    open spec fn from_spec(enabled: bool) -> Self {
        AcknowledgementsConfig { enabled: Some(enabled) }
    }
}

impl From<SourceAcknowledgementsConfig> for AcknowledgementsConfig {
    fn from(config: SourceAcknowledgementsConfig) -> (r: Self) {
        AcknowledgementsConfig { enabled: config.enabled }
    }
}

impl FromSpecImpl<SourceAcknowledgementsConfig> for AcknowledgementsConfig {
    open spec fn obeys_from_spec() -> bool {
        true
    }

    open spec fn from_spec(config: SourceAcknowledgementsConfig) -> Self {
        AcknowledgementsConfig { enabled: config.enabled }
    }
}

/// The path through a field and on.
pub open spec fn path_below(name: Seq<char>, path: Seq<SegmentView>) -> Seq<SegmentView> {
    seq![SegmentView::Field(name)] + path
}

fn nested_path(name: &str, path: &OwnedValuePath) -> (r: OwnedValuePath)
    ensures
        r@ == path_below(name@, path@),
{
    let mut segments: Vec<OwnedSegment> = Vec::new();
    segments.push(OwnedSegment::Field(name.to_owned()));
    let mut rest = path.clone();
    let ghost tail = rest.segments@;
    segments.append(&mut rest.segments);
    let r = OwnedValuePath { segments };
    assert forall|i: int| 0 <= i < tail.len() implies path@[i] == (#[trigger] tail[i])@ by {}
    assert(r@ =~= path_below(name@, path@));
    r
}

/// The event with a value in its metadata.
pub open spec fn with_metadata_at(log: OtelLogView, path: Seq<SegmentView>, value: ValueView) -> OtelLogView {
    OtelLogView {
        metadata: MetadataView {
            value: stored(Some(log.metadata.value), path, value),
            ..log.metadata
        },
        ..log
    }
}

/// Adds metadata to "event metadata", nested under the source name.
pub fn insert_source_metadata(
    source_name: &str,
    log: &mut OtelLog,
    metadata_key: &OwnedValuePath,
    value: Value,
)
    ensures
        final(log)@ == with_metadata_at(
            old(log)@,
            path_below(source_name@, metadata_key@),
            value@,
        ),
{
    log.metadata.value.insert(&nested_path(source_name, metadata_key), value);
}

/// Retrieves metadata from "event metadata", nested under the source name.
pub fn get_source_metadata(source_name: &str, log: &OtelLog, metadata_key: &OwnedValuePath) -> (r:
    Option<Value>)
    ensures
        opt_view(r) == fetched(log@.metadata.value, path_below(source_name@, metadata_key@)),
{
    match log.metadata.value.get(&nested_path(source_name, metadata_key)) {
        Some(v) => Some(v.clone()),
        None => None,
    }
}

/// Adds `source_type` and `ingest_timestamp` to "event metadata" under "vector", and notes the source
/// type in the resource.
pub fn insert_standard_vector_source_metadata(log: &mut OtelLog, source_name: &str, now: Timestamp)
    ensures
        final(log)@ == (OtelLogView {
            metadata: MetadataView {
                value: with_vector_source(old(log)@.metadata.value, source_name@, now),
                ..old(log)@.metadata
            },
            ..old(log)@.with_resource_attribute("source_type"@, AnyView::Str(source_name@))
        }),
{
    log.set_resource_attribute("source_type".to_string(), string_value(source_name));
    log.metadata.value.insert(
        &two_field_path("vector", "source_type"),
        Value::from_text(source_name),
    );
    log.metadata.value.insert(&two_field_path("vector", "ingest_timestamp"), Value::Timestamp(now));
}

/// Adds metadata to "event metadata" under "vector".
pub fn insert_vector_metadata(log: &mut OtelLog, metadata_key: &OwnedValuePath, value: Value)
    ensures
        final(log)@ == with_metadata_at(old(log)@, path_below("vector"@, metadata_key@), value@),
{
    insert_source_metadata("vector", log, metadata_key, value);
}

/// Retrieves metadata from "event metadata" under "vector".
pub fn get_vector_metadata(log: &OtelLog, metadata_key: &OwnedValuePath) -> (r: Option<Value>)
    ensures
        opt_view(r) == fetched(log@.metadata.value, path_below("vector"@, metadata_key@)),
{
    get_source_metadata("vector", log, metadata_key)
}

/// Event types that support the metadata insertion patterns used by `insert_source_metadata` and
/// `insert_vector_metadata`. Where a text is needed, `rendered` is the text that the value is shown
/// as.
pub trait MetadataInsertable {
    fn insert_by_path(&mut self, path: &OwnedValuePath, value: Value, rendered: &str);

    fn try_insert_by_path(&mut self, path: &OwnedValuePath, value: Value, rendered: &str);

    fn maybe_insert_by_path(&mut self, path: Option<&OwnedValuePath>, value: Value, rendered: &str);

    fn event_metadata_mut(&mut self) -> &mut EventMetadata;

    fn set_source_type(&mut self, value: Value);

    fn try_set_source_type(&mut self, value: Value);

    fn set_host(&mut self, value: Value);

    fn try_set_host(&mut self, value: Value);
}

/// A path within the event itself.
pub open spec fn event_path(path: Seq<SegmentView>) -> TargetPathView {
    TargetPathView { prefix: PathPrefix::Event, path }
}

fn path_in_event(path: &OwnedValuePath) -> (r: OwnedTargetPath)
    ensures
        r@ == event_path(path@),
{
    OwnedTargetPath { prefix: PathPrefix::Event, path: path.clone() }
}

impl MetadataInsertable for OtelLog {
    fn insert_by_path(&mut self, path: &OwnedValuePath, value: Value, rendered: &str)
        ensures
            final(self)@ == old(self)@.with(event_path(path@), value@, rendered@),
    {
        self.insert(&path_in_event(path), value, rendered);
    }

    fn try_insert_by_path(&mut self, path: &OwnedValuePath, value: Value, rendered: &str)
        ensures
            final(self)@ == if old(self)@.at(event_path(path@)) is None {
                old(self)@.with(event_path(path@), value@, rendered@)
            } else {
                old(self)@
            },
    {
        self.try_insert(&path_in_event(path), value, rendered);
    }

    fn maybe_insert_by_path(&mut self, path: Option<&OwnedValuePath>, value: Value, rendered: &str)
        ensures
            final(self)@ == match path {
                Some(p) => old(self)@.with(event_path(p@), value@, rendered@),
                None => old(self)@,
            },
    {
        if let Some(path) = path {
            self.insert(&path_in_event(path), value, rendered);
        }
    }

    fn event_metadata_mut(&mut self) -> (r: &mut EventMetadata)
        ensures
            (*r)@ == old(self)@.metadata,
            final(self)@ == (OtelLogView { metadata: (*final(r))@, ..old(self)@ }),
    {
        self.metadata_mut()
    }

    fn set_source_type(&mut self, value: Value)
        ensures
            final(self)@ == old(self)@.with_resource_attribute(
                "source_type"@,
                any_from_value(value@),
            ),
    {
        OtelLog::set_source_type(self, value);
    }

    fn try_set_source_type(&mut self, value: Value)
        ensures
            final(self)@ == if value_of(old(self)@.resource_attrs, "source_type"@) is None {
                old(self)@.with_resource_attribute("source_type"@, any_from_value(value@))
            } else {
                old(self)@
            },
    {
        OtelLog::try_set_source_type(self, value);
    }

    fn set_host(&mut self, value: Value)
        ensures
            final(self)@ == old(self)@.with_resource_attribute("host.name"@, any_from_value(value@)),
    {
        OtelLog::set_host(self, value);
    }

    fn try_set_host(&mut self, value: Value)
        ensures
            final(self)@ == if value_of(old(self)@.resource_attrs, "host.name"@) is None {
                old(self)@.with_resource_attribute("host.name"@, any_from_value(value@))
            } else {
                old(self)@
            },
    {
        OtelLog::try_set_host(self, value);
    }
}

/// Metadata that was added under a name is retrieved under it, and what stands under other names
/// stays as it is.
pub proof fn law_metadata_is_retrieved(
    log: OtelLogView,
    name: Seq<char>,
    key: Seq<SegmentView>,
    value: ValueView,
)
    ensures
        fetched(
            with_metadata_at(log, path_below(name, key), value).metadata.value,
            path_below(name, key),
        ) == Some(value),
        forall|other: Seq<char>, place: Seq<SegmentView>|
            (log.metadata.value matches ValueView::Object(m) && ordered(m)) && other != name
                ==> fetched(
                with_metadata_at(log, path_below(name, key), value).metadata.value,
                #[trigger] path_below(other, place),
            ) == fetched(log.metadata.value, path_below(other, place)),
{
    law_path_read_after_write(Some(log.metadata.value), path_below(name, key), value);
    assert forall|other: Seq<char>, place: Seq<SegmentView>|
        (log.metadata.value matches ValueView::Object(m) && ordered(m)) && other
            != name implies fetched(
        with_metadata_at(log, path_below(name, key), value).metadata.value,
        #[trigger] path_below(other, place),
    ) == fetched(log.metadata.value, path_below(other, place)) by {
        law_path_write_is_local(
            log.metadata.value->Object_0,
            path_below(name, key),
            path_below(other, place),
            value,
        );
    }
}

/// A setting goes before the ones that it falls back to, in whatever order they are put together.
pub proof fn law_settings_fall_back(a: Option<bool>, b: Option<bool>, c: Option<bool>)
    ensures
        setting_or(setting_or(a, b), c) == setting_or(a, setting_or(b, c)),
        setting_or(a, None) == a,
        setting_or(None, a) == a,
        setting_or(a, a) == a,
{
}

/// Two sets of kinds with the same kinds are the same, and each name stands for the kinds that it lists.
pub proof fn law_data_types(a: DataType, b: DataType)
    ensures
        a.log() == b.log() && a.metric() == b.metric() && a.trace() == b.trace() ==> a == b,
        DataType::Log.log() && !DataType::Log.metric() && !DataType::Log.trace(),
        !DataType::Metric.log() && DataType::Metric.metric() && !DataType::Metric.trace(),
        !DataType::Trace.log() && !DataType::Trace.metric() && DataType::Trace.trace(),
        DataType::LogAndMetric.log() && DataType::LogAndMetric.metric()
            && !DataType::LogAndMetric.trace(),
        DataType::All.log() && DataType::All.metric() && DataType::All.trace(),
        !DataType::Empty.log() && !DataType::Empty.metric() && !DataType::Empty.trace(),
{
}

} // verus!
