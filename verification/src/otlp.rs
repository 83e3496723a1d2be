//! Messages of the OpenTelemetry protocol that events are made of.
use vstd::prelude::*;

use crate::any_value::{clone_key_values, kvs_view, AnyValue, AnyView, KeyValue};
use crate::keyed::opt_view;
use crate::text::copy_bytes;

verus! {

/// What produced an event.
#[derive(Debug, PartialEq)]
pub struct Resource {
    pub attributes: Vec<KeyValue>,
    pub dropped_attributes_count: u32,
}

#[verifier::ext_equal]
pub struct ResourceView {
    pub attributes: Seq<(Seq<char>, Option<AnyView>)>,
    pub dropped_attributes_count: u32,
}

impl View for Resource {
    type V = ResourceView;

    open spec fn view(&self) -> ResourceView {
        ResourceView {
            attributes: kvs_view(self.attributes@),
            dropped_attributes_count: self.dropped_attributes_count,
        }
    }
}

impl ResourceView {
    /// The resource without attributes, none of them dropped.
    pub open spec fn default_view() -> ResourceView {
        ResourceView { attributes: Seq::empty(), dropped_attributes_count: 0 }
    }
}

impl Clone for Resource {
    fn clone(&self) -> (r: Self)
        ensures
            r@ == self@,
    {
        Resource {
            attributes: clone_key_values(&self.attributes),
            dropped_attributes_count: self.dropped_attributes_count,
        }
    }
}

impl Default for Resource {
    fn default() -> (r: Self)
        ensures
            r@ == ResourceView::default_view(),
    {
        let r = Resource { attributes: Vec::new(), dropped_attributes_count: 0 };
        assert(r@ =~= ResourceView::default_view());
        r
    }
}

/// The instrumentation that recorded an event.
#[derive(Debug, PartialEq)]
pub struct InstrumentationScope {
    pub name: String,
    pub version: String,
    pub attributes: Vec<KeyValue>,
    pub dropped_attributes_count: u32,
}

#[verifier::ext_equal]
pub struct ScopeView {
    pub name: Seq<char>,
    pub version: Seq<char>,
    pub attributes: Seq<(Seq<char>, Option<AnyView>)>,
    pub dropped_attributes_count: u32,
}

impl View for InstrumentationScope {
    type V = ScopeView;

    open spec fn view(&self) -> ScopeView {
        ScopeView {
            name: self.name@,
            version: self.version@,
            attributes: kvs_view(self.attributes@),
            dropped_attributes_count: self.dropped_attributes_count,
        }
    }
}

impl ScopeView {
    /// The scope without a name, a version or attributes.
    pub open spec fn default_view() -> ScopeView {
        ScopeView {
            name: Seq::empty(),
            version: Seq::empty(),
            attributes: Seq::empty(),
            dropped_attributes_count: 0,
        }
    }
}

impl Clone for InstrumentationScope {
    fn clone(&self) -> (r: Self)
        ensures
            r@ == self@,
    {
        InstrumentationScope {
            name: self.name.clone(),
            version: self.version.clone(),
            attributes: clone_key_values(&self.attributes),
            dropped_attributes_count: self.dropped_attributes_count,
        }
    }
}

impl Default for InstrumentationScope {
    fn default() -> (r: Self)
        ensures
            r@ == ScopeView::default_view(),
    {
        let r = InstrumentationScope {
            name: String::new(),
            version: String::new(),
            attributes: Vec::new(),
            dropped_attributes_count: 0,
        };
        assert(r@ =~= ScopeView::default_view());
        r
    }
}

/// A copy of an optional value.
pub fn clone_any(v: &Option<AnyValue>) -> (r: Option<AnyValue>)
    ensures
        opt_view(r) == opt_view(*v),
{
    match v {
        Some(a) => Some(a.clone()),
        None => None,
    }
}

/// A log record.
#[derive(Debug, PartialEq)]
pub struct LogRecord {
    pub time_unix_nano: u64,
    pub observed_time_unix_nano: u64,
    pub severity_number: i32,
    pub severity_text: String,
    pub body: Option<AnyValue>,
    pub attributes: Vec<KeyValue>,
    pub dropped_attributes_count: u32,
    pub flags: u32,
    pub trace_id: Vec<u8>,
    pub span_id: Vec<u8>,
}

#[verifier::ext_equal]
pub struct LogRecordView {
    pub time_unix_nano: u64,
    pub observed_time_unix_nano: u64,
    pub severity_number: i32,
    pub severity_text: Seq<char>,
    pub body: Option<AnyView>,
    pub attributes: Seq<(Seq<char>, Option<AnyView>)>,
    pub dropped_attributes_count: u32,
    pub flags: u32,
    pub trace_id: Seq<u8>,
    pub span_id: Seq<u8>,
}

impl View for LogRecord {
    type V = LogRecordView;

    open spec fn view(&self) -> LogRecordView {
        LogRecordView {
            time_unix_nano: self.time_unix_nano,
            observed_time_unix_nano: self.observed_time_unix_nano,
            severity_number: self.severity_number,
            severity_text: self.severity_text@,
            body: opt_view(self.body),
            attributes: kvs_view(self.attributes@),
            dropped_attributes_count: self.dropped_attributes_count,
            flags: self.flags,
            trace_id: self.trace_id@,
            span_id: self.span_id@,
        }
    }
}

impl LogRecordView {
    /// The record in which nothing is set.
    pub open spec fn default_view() -> LogRecordView {
        LogRecordView {
            time_unix_nano: 0,
            observed_time_unix_nano: 0,
            severity_number: 0,
            severity_text: Seq::empty(),
            body: None,
            attributes: Seq::empty(),
            dropped_attributes_count: 0,
            flags: 0,
            trace_id: Seq::empty(),
            span_id: Seq::empty(),
        }
    }
}

impl Clone for LogRecord {
    fn clone(&self) -> (r: Self)
        ensures
            r@ == self@,
    {
        LogRecord {
            time_unix_nano: self.time_unix_nano,
            observed_time_unix_nano: self.observed_time_unix_nano,
            severity_number: self.severity_number,
            severity_text: self.severity_text.clone(),
            body: clone_any(&self.body),
            attributes: clone_key_values(&self.attributes),
            dropped_attributes_count: self.dropped_attributes_count,
            flags: self.flags,
            trace_id: copy_bytes(&self.trace_id),
            span_id: copy_bytes(&self.span_id),
        }
    }
}

impl Default for LogRecord {
    fn default() -> (r: Self)
        ensures
            r@ == LogRecordView::default_view(),
    {
        let r = LogRecord {
            time_unix_nano: 0,
            observed_time_unix_nano: 0,
            severity_number: 0,
            severity_text: String::new(),
            body: None,
            attributes: Vec::new(),
            dropped_attributes_count: 0,
            flags: 0,
            trace_id: Vec::new(),
            span_id: Vec::new(),
        };
        assert(r@ =~= LogRecordView::default_view());
        r
    }
}

} // verus!
