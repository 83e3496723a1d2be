//! The messages in which spans are exchanged.
use vstd::prelude::*;

use crate::any_value::{clone_key_values, kvs_view, AnyView, KeyValue};
use crate::keyed::{opt_view, views};
use crate::text::copy_bytes;

verus! {

/// How a span ended.
#[derive(Debug, PartialEq)]
pub struct Status {
    pub message: String,
    pub code: i32,
}

#[verifier::ext_equal]
pub struct StatusView {
    pub message: Seq<char>,
    pub code: i32,
}

impl View for Status {
    type V = StatusView;

    open spec fn view(&self) -> StatusView {
        StatusView {
            message: self.message@,
            code: self.code,
        }
    }
}

impl StatusView {
    /// The one in which nothing is set.
    pub open spec fn default_view() -> StatusView {
        StatusView {
            message: Seq::empty(),
            code: 0,
        }
    }
}

impl Clone for Status {
    fn clone(&self) -> (r: Self)
        ensures
            r@ == self@,
    {
        let r = Status {
            message: self.message.clone(),
            code: self.code,
        };
        r
    }
}

impl Default for Status {
    fn default() -> (r: Self)
        ensures
            r@ == StatusView::default_view(),
    {
        let r = Status {
            message: String::new(),
            code: 0,
        };
        assert(r@ =~= StatusView::default_view());
        r
    }
}

/// An event in the course of a span.
#[derive(Debug, PartialEq)]
pub struct SpanEvent {
    pub time_unix_nano: u64,
    pub name: String,
    pub attributes: Vec<KeyValue>,
    pub dropped_attributes_count: u32,
}

#[verifier::ext_equal]
pub struct SpanEventView {
    pub time_unix_nano: u64,
    pub name: Seq<char>,
    pub attributes: Seq<(Seq<char>, Option<AnyView>)>,
    pub dropped_attributes_count: u32,
}

impl View for SpanEvent {
    type V = SpanEventView;

    open spec fn view(&self) -> SpanEventView {
        SpanEventView {
            time_unix_nano: self.time_unix_nano,
            name: self.name@,
            attributes: kvs_view(self.attributes@),
            dropped_attributes_count: self.dropped_attributes_count,
        }
    }
}

impl SpanEventView {
    /// The one in which nothing is set.
    pub open spec fn default_view() -> SpanEventView {
        SpanEventView {
            time_unix_nano: 0,
            name: Seq::empty(),
            attributes: Seq::empty(),
            dropped_attributes_count: 0,
        }
    }
}

impl Clone for SpanEvent {
    fn clone(&self) -> (r: Self)
        ensures
            r@ == self@,
    {
        let r = SpanEvent {
            time_unix_nano: self.time_unix_nano,
            name: self.name.clone(),
            attributes: clone_key_values(&self.attributes),
            dropped_attributes_count: self.dropped_attributes_count,
        };
        r
    }
}

impl Default for SpanEvent {
    fn default() -> (r: Self)
        ensures
            r@ == SpanEventView::default_view(),
    {
        let r = SpanEvent {
            time_unix_nano: 0,
            name: String::new(),
            attributes: Vec::new(),
            dropped_attributes_count: 0,
        };
        assert(r@ =~= SpanEventView::default_view());
        r
    }
}

/// A link from a span to another one.
#[derive(Debug, PartialEq)]
pub struct SpanLink {
    pub trace_id: Vec<u8>,
    pub span_id: Vec<u8>,
    pub trace_state: String,
    pub attributes: Vec<KeyValue>,
    pub dropped_attributes_count: u32,
    pub flags: u32,
}

#[verifier::ext_equal]
pub struct SpanLinkView {
    pub trace_id: Seq<u8>,
    pub span_id: Seq<u8>,
    pub trace_state: Seq<char>,
    pub attributes: Seq<(Seq<char>, Option<AnyView>)>,
    pub dropped_attributes_count: u32,
    pub flags: u32,
}

impl View for SpanLink {
    type V = SpanLinkView;

    open spec fn view(&self) -> SpanLinkView {
        SpanLinkView {
            trace_id: self.trace_id@,
            span_id: self.span_id@,
            trace_state: self.trace_state@,
            attributes: kvs_view(self.attributes@),
            dropped_attributes_count: self.dropped_attributes_count,
            flags: self.flags,
        }
    }
}

impl SpanLinkView {
    /// The one in which nothing is set.
    pub open spec fn default_view() -> SpanLinkView {
        SpanLinkView {
            trace_id: Seq::empty(),
            span_id: Seq::empty(),
            trace_state: Seq::empty(),
            attributes: Seq::empty(),
            dropped_attributes_count: 0,
            flags: 0,
        }
    }
}

impl Clone for SpanLink {
    fn clone(&self) -> (r: Self)
        ensures
            r@ == self@,
    {
        let r = SpanLink {
            trace_id: copy_bytes(&self.trace_id),
            span_id: copy_bytes(&self.span_id),
            trace_state: self.trace_state.clone(),
            attributes: clone_key_values(&self.attributes),
            dropped_attributes_count: self.dropped_attributes_count,
            flags: self.flags,
        };
        r
    }
}

impl Default for SpanLink {
    fn default() -> (r: Self)
        ensures
            r@ == SpanLinkView::default_view(),
    {
        let r = SpanLink {
            trace_id: Vec::new(),
            span_id: Vec::new(),
            trace_state: String::new(),
            attributes: Vec::new(),
            dropped_attributes_count: 0,
            flags: 0,
        };
        assert(r@ =~= SpanLinkView::default_view());
        r
    }
}

/// A span.
#[derive(Debug, PartialEq)]
pub struct Span {
    pub trace_id: Vec<u8>,
    pub span_id: Vec<u8>,
    pub trace_state: String,
    pub parent_span_id: Vec<u8>,
    pub flags: u32,
    pub name: String,
    pub kind: i32,
    pub start_time_unix_nano: u64,
    pub end_time_unix_nano: u64,
    pub attributes: Vec<KeyValue>,
    pub dropped_attributes_count: u32,
    pub events: Vec<SpanEvent>,
    pub dropped_events_count: u32,
    pub links: Vec<SpanLink>,
    pub dropped_links_count: u32,
    pub status: Option<Status>,
}

#[verifier::ext_equal]
pub struct SpanView {
    pub trace_id: Seq<u8>,
    pub span_id: Seq<u8>,
    pub trace_state: Seq<char>,
    pub parent_span_id: Seq<u8>,
    pub flags: u32,
    pub name: Seq<char>,
    pub kind: i32,
    pub start_time_unix_nano: u64,
    pub end_time_unix_nano: u64,
    pub attributes: Seq<(Seq<char>, Option<AnyView>)>,
    pub dropped_attributes_count: u32,
    pub events: Seq<SpanEventView>,
    pub dropped_events_count: u32,
    pub links: Seq<SpanLinkView>,
    pub dropped_links_count: u32,
    pub status: Option<StatusView>,
}

impl View for Span {
    type V = SpanView;

    open spec fn view(&self) -> SpanView {
        SpanView {
            trace_id: self.trace_id@,
            span_id: self.span_id@,
            trace_state: self.trace_state@,
            parent_span_id: self.parent_span_id@,
            flags: self.flags,
            name: self.name@,
            kind: self.kind,
            start_time_unix_nano: self.start_time_unix_nano,
            end_time_unix_nano: self.end_time_unix_nano,
            attributes: kvs_view(self.attributes@),
            dropped_attributes_count: self.dropped_attributes_count,
            events: views(self.events@),
            dropped_events_count: self.dropped_events_count,
            links: views(self.links@),
            dropped_links_count: self.dropped_links_count,
            status: opt_view(self.status),
        }
    }
}

impl SpanView {
    /// The one in which nothing is set.
    pub open spec fn default_view() -> SpanView {
        SpanView {
            trace_id: Seq::empty(),
            span_id: Seq::empty(),
            trace_state: Seq::empty(),
            parent_span_id: Seq::empty(),
            flags: 0,
            name: Seq::empty(),
            kind: 0,
            start_time_unix_nano: 0,
            end_time_unix_nano: 0,
            attributes: Seq::empty(),
            dropped_attributes_count: 0,
            events: Seq::empty(),
            dropped_events_count: 0,
            links: Seq::empty(),
            dropped_links_count: 0,
            status: None,
        }
    }
}

impl Clone for Span {
    fn clone(&self) -> (r: Self)
        ensures
            r@ == self@,
    {
        let r = Span {
            trace_id: copy_bytes(&self.trace_id),
            span_id: copy_bytes(&self.span_id),
            trace_state: self.trace_state.clone(),
            parent_span_id: copy_bytes(&self.parent_span_id),
            flags: self.flags,
            name: self.name.clone(),
            kind: self.kind,
            start_time_unix_nano: self.start_time_unix_nano,
            end_time_unix_nano: self.end_time_unix_nano,
            attributes: clone_key_values(&self.attributes),
            dropped_attributes_count: self.dropped_attributes_count,
            events: self.events.clone(),
            dropped_events_count: self.dropped_events_count,
            links: self.links.clone(),
            dropped_links_count: self.dropped_links_count,
            status: match &self.status {
                Some(x) => Some(x.clone()),
                None => None,
            },
        };
        assert(views(r.events@) =~= views(self.events@));
        assert(views(r.links@) =~= views(self.links@));
        r
    }
}

impl Default for Span {
    fn default() -> (r: Self)
        ensures
            r@ == SpanView::default_view(),
    {
        let r = Span {
            trace_id: Vec::new(),
            span_id: Vec::new(),
            trace_state: String::new(),
            parent_span_id: Vec::new(),
            flags: 0,
            name: String::new(),
            kind: 0,
            start_time_unix_nano: 0,
            end_time_unix_nano: 0,
            attributes: Vec::new(),
            dropped_attributes_count: 0,
            events: Vec::new(),
            dropped_events_count: 0,
            links: Vec::new(),
            dropped_links_count: 0,
            status: None,
        };
        assert(r@ =~= SpanView::default_view());
        r
    }
}

} // verus!
