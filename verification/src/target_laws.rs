//! What holds of events as programs see them: what is read at a path after something was written or
//! removed there, and that an event which a program leaves alone comes back as it was.
use vstd::prelude::*;
use vstd::utf8::{
    encode_utf8, encode_utf8_decode_utf8, encode_utf8_valid_utf8, is_ascii_chars,
    is_ascii_chars_encode_utf8,
};

use crate::any_value::{
    kvs_from_object, lemma_any_from_object, object_from_kvs, value_from_any, AnyView,
};
use crate::attributes::{attrs_from_kvs, filled, kvs_from_attrs, object_from_attrs};
use crate::canonical::{full_resource, full_scope, with_text};
use crate::canonical_laws::{all_kept, lemma_same_names};
use crate::event::EventView;
use crate::hex::{char_codes, digit_value, hex_bytes, hex_digits, hex_or_raw};
use crate::keyed::{ordered, value_of, with_entry, without_entry};
use crate::log::{
    opt_resource_stripped, opt_scope_stripped, resource_attrs_of, scope_attrs_carried, OtelLogView,
};
use crate::log_laws::{count_set, id_set, lemma_nanos_set, text_set};
use crate::log_path::is_field_path;
use crate::log_value::{with_count, with_id};
use crate::map_laws::{law_read_after_remove, law_read_after_write, law_same_entries};
use crate::otlp::{LogRecordView, ResourceView, ScopeView};
use crate::parts_laws::{resource_stands_apart, scope_stands_apart};
use crate::path::{fetched, PathPrefix, TargetPathView};
use crate::path_laws::{in_order, law_path_read_after_remove, law_path_read_after_write};
use crate::place_laws::{lemma_with_count, lemma_with_id, lemma_with_text};
use crate::target::{
    first_steps, point_attribute_named, FaultView, TargetEventsView, TargetView,
    MAX_OTEL_METRIC_PATH_DEPTH,
};
use crate::target_value::{
    beside_log_fields, lossy_or_empty, record_seen, resource_object, resource_seen, scope_object,
    scope_seen, with_fields, with_kvs, with_origin, with_str,
};
use crate::text::lossy;
use crate::time::wrap_i64;
use crate::value::ValueView;
use crate::value_laws::{
    fields_of, is_kept, law_attribute_value_round_trip, lemma_gathered, lemma_keys_ordered,
    lemma_object_of_ordered, lemma_prefix_ordered, lemma_with_last,
};

verus! {

/// Whether a path goes through the data points of a metric, where nothing can be read.
pub open spec fn goes_through_points(t: TargetView, path: TargetPathView) -> bool {
    t is OtelMetric && path.prefix == PathPrefix::Event && point_attribute_named(path.path) is Some
}

/// What a program wrote at a path it reads there, unless the path goes through the data points of a
/// metric, or the write is refused, which only happens in a metric. Either way it stands there in what
/// the program sees.
pub proof fn law_target_read_after_write(t: TargetView, path: TargetPathView, v: ValueView)
    ensures
        match t.inserted(path, v) {
            Ok(after) => {
                &&& fetched(after.root(path.prefix), path.path) == Some(v)
                &&& after.read(path, false) == Ok::<Option<ValueView>, FaultView>(
                    if goes_through_points(t, path) {
                        None
                    } else {
                        Some(v)
                    },
                )
            },
            Err(_) => t is OtelMetric && path.prefix == PathPrefix::Event,
        },
{
    law_path_read_after_write(Some(t.root(path.prefix)), path.path, v);
    if goes_through_points(t, path) {
        assert(first_steps(path.path, MAX_OTEL_METRIC_PATH_DEPTH as nat)[3] is Index);
    }
}

/// What a program removed at a path through fields it does not read there any more.
pub proof fn law_target_read_after_remove(t: TargetView, path: TargetPathView, compact: bool)
    requires
        in_order(t.root(path.prefix)),
        is_field_path(path.path),
    ensures
        t.cleared(path, compact) matches Ok(after) && !(after.read(path, false) matches Ok(Some(_))),
{
    law_path_read_after_remove(t.root(path.prefix), path.path, compact);
    law_path_read_after_remove(t.root(path.prefix), path.path, false);
}

/// A secret that was set is read under its key, one that was removed is not, and the others stay as
/// they are.
pub proof fn law_secrets(secrets: Seq<(Seq<char>, Seq<char>)>, key: Seq<char>, secret: Seq<char>)
    requires
        ordered(secrets),
    ensures
        value_of(with_entry(secrets, key, secret), key) == Some(secret),
        value_of(without_entry(secrets, key), key) is None,
        forall|k: Seq<char>|
            k != key ==> #[trigger] value_of(with_entry(secrets, key, secret), k) == value_of(
                secrets,
                k,
            ),
        forall|k: Seq<char>|
            k != key ==> #[trigger] value_of(without_entry(secrets, key), k) == value_of(
                secrets,
                k,
            ),
{
    law_read_after_write(secrets, key, secret);
    law_read_after_remove(secrets, key);
}

/// An event that a program leaves alone stays one event, of the same type.
pub proof fn law_event_stays_one(e: EventView)
    ensures
        match (e, TargetView::of_event(e).events()) {
            (EventView::Log(_), TargetEventsView::One(EventView::Log(_))) => true,
            (EventView::Trace(_), TargetEventsView::One(EventView::Trace(_))) => true,
            (EventView::Metric(m), TargetEventsView::One(EventView::Metric(n))) => m == n,
            _ => false,
        },
{
}

/// An identifier in hexadecimal notation gives its bytes back, also where it is empty.
pub proof fn law_id_round_trip(id: Seq<u8>)
    ensures
        hex_or_raw(ValueView::Bytes(hex_digits(id))) == id,
{
    let digits = hex_digits(id);
    let chars = Seq::new(digits.len(), |i: int| digits[i] as char);
    assert forall|i: int| 0 <= i < chars.len() implies '\0' <= #[trigger] chars[i] <= '\u{7f}'
        && chars[i] as u8 == digits[i] && chars[i] as int == digits[i] by {
        assert(digits[i] < 128);
    }
    assert(is_ascii_chars(chars));
    is_ascii_chars_encode_utf8(chars);
    assert(encode_utf8(chars) =~= digits);
    encode_utf8_valid_utf8(chars);
    encode_utf8_decode_utf8(chars);
    assert(lossy(digits) == chars);
    assert(2 * (chars.len() as int / 2) == chars.len());
    let pairs = chars.take(2 * (chars.len() as int / 2));
    assert(pairs =~= chars);
    let codes = char_codes(chars);
    assert forall|i: int| 0 <= i < codes.len() implies digit_value(#[trigger] codes[i]) is Some by {
        assert(codes[i] == digits[i] as int);
    }
    assert forall|i: int| 0 <= i < id.len() implies hex_bytes(codes)[i] == id[i] by {
        assert(codes[2 * i] == digits[2 * i] as int);
        assert(codes[2 * i + 1] == digits[2 * i + 1] as int);
        assert((2 * i + 1) / 2 == i);
        assert(2 * i / 2 == i);
    }
    assert(hex_bytes(codes) =~= id);
}

/// Attributes that are seen as an object come back.
pub proof fn lemma_attrs_seen(attrs: Seq<(Seq<char>, AnyView)>)
    requires
        ordered(attrs),
        all_kept(attrs),
    ensures
        object_from_kvs(kvs_from_attrs(attrs)) == object_from_attrs(attrs),
        attrs_from_kvs(kvs_from_object(object_from_attrs(attrs))) == attrs,
{
    let kvs = kvs_from_attrs(attrs);
    assert(filled(kvs) =~= attrs);
    lemma_object_of_ordered(kvs);
    assert(fields_of(kvs) =~= object_from_attrs(attrs));
    let seen = kvs_from_object(object_from_attrs(attrs));
    assert forall|i: int| 0 <= i < attrs.len() implies filled(seen)[i] == attrs[i] by {
        law_attribute_value_round_trip(attrs[i].1);
    }
    assert(filled(seen) =~= attrs);
    lemma_gathered(seen);
}

/// Named attributes that are seen as an object come back.
pub proof fn lemma_kvs_seen(kvs: Seq<(Seq<char>, Option<AnyView>)>)
    requires
        is_kept(AnyView::Kvlist(kvs)),
    ensures
        kvs_from_object(object_from_kvs(kvs)) == kvs,
{
    law_attribute_value_round_trip(AnyView::Kvlist(kvs));
    lemma_any_from_object(object_from_kvs(kvs));
    assert(value_from_any(AnyView::Kvlist(kvs)) == ValueView::Object(object_from_kvs(kvs)));
}

/// A text that is seen comes back.
pub proof fn lemma_text_seen(text: Seq<char>)
    ensures
        lossy_or_empty(Some(ValueView::text(text))) == text,
{
    encode_utf8_valid_utf8(text);
    encode_utf8_decode_utf8(text);
}

proof fn lemma_origin_names()
    ensures
        "name"@.len() == 4,
        "scope"@.len() == 5,
        "version"@.len() == 7,
        "resource"@.len() == 8,
        "attributes"@.len() == 10,
        "dropped_attributes_count"@.len() == 24,
{
    reveal_strlit("name");
    reveal_strlit("scope");
    reveal_strlit("version");
    reveal_strlit("resource");
    reveal_strlit("attributes");
    reveal_strlit("dropped_attributes_count");
}

proof fn lemma_resource_seen(r: ResourceView)
    ensures
        resource_seen(Some(resource_object(r))) == Some(
            ResourceView { attributes: kvs_from_object(object_from_kvs(r.attributes)), ..r },
        ),
{
    lemma_origin_names();
    let none = Seq::<(Seq<char>, ValueView)>::empty();
    let attrs = ValueView::Object(object_from_kvs(r.attributes));
    law_read_after_write(none, "attributes"@, attrs);
    let m = with_kvs(none, "attributes"@, r.attributes);
    let count = ValueView::Integer(r.dropped_attributes_count as i64);
    law_read_after_write(m, "dropped_attributes_count"@, count);
    assert(value_of(with_entry(m, "dropped_attributes_count"@, count), "attributes"@) == value_of(
        m,
        "attributes"@,
    ));
}

proof fn lemma_scope_seen(s: ScopeView)
    ensures
        scope_seen(Some(scope_object(s))) == Some(
            ScopeView { attributes: kvs_from_object(object_from_kvs(s.attributes)), ..s },
        ),
{
    lemma_origin_names();
    lemma_text_seen(s.name);
    lemma_text_seen(s.version);
    let none = Seq::<(Seq<char>, ValueView)>::empty();
    law_read_after_write(none, "name"@, ValueView::text(s.name));
    let m1 = with_str(none, "name"@, s.name);
    law_read_after_write(m1, "version"@, ValueView::text(s.version));
    let m2 = with_str(m1, "version"@, s.version);
    let attrs = ValueView::Object(object_from_kvs(s.attributes));
    law_read_after_write(m2, "attributes"@, attrs);
    let m3 = with_kvs(m2, "attributes"@, s.attributes);
    let count = ValueView::Integer(s.dropped_attributes_count as i64);
    law_read_after_write(m3, "dropped_attributes_count"@, count);
    let m4 = with_entry(m3, "dropped_attributes_count"@, count);
    assert(value_of(m4, "attributes"@) == value_of(m3, "attributes"@));
    assert(value_of(m4, "version"@) == value_of(m3, "version"@));
    assert(value_of(m3, "version"@) == value_of(m2, "version"@));
    assert(value_of(m4, "name"@) == value_of(m3, "name"@));
    assert(value_of(m3, "name"@) == value_of(m2, "name"@));
    assert(value_of(m2, "name"@) == value_of(m1, "name"@));
}

/// The resource and the scope that an object shows come back, and what is beside them is there as it
/// was.
pub proof fn lemma_origin_seen(
    m: Seq<(Seq<char>, ValueView)>,
    resource: Option<ResourceView>,
    resource_attrs: Seq<(Seq<char>, AnyView)>,
    scope: Option<ScopeView>,
    scope_attrs: Seq<(Seq<char>, AnyView)>,
)
    requires
        ordered(m),
        value_of(m, "resource"@) is None,
        value_of(m, "scope"@) is None,
        resource_stands_apart(resource, resource_attrs),
        scope_stands_apart(scope, scope_attrs),
        all_kept(resource_attrs),
        all_kept(scope_attrs),
    ensures
        ({
            let t = with_origin(
                m,
                full_resource(resource, resource_attrs),
                full_scope(scope, scope_attrs),
            );
            let r = resource_seen(value_of(t, "resource"@));
            let s = scope_seen(value_of(t, "scope"@));
            &&& ordered(t)
            &&& opt_resource_stripped(r) == resource
            &&& resource_attrs_of(r) == resource_attrs
            &&& opt_scope_stripped(s) == scope
            &&& scope_attrs_carried(s) == scope_attrs
            &&& forall|k: Seq<char>|
                k != "resource"@ && k != "scope"@ ==> #[trigger] value_of(t, k) == value_of(m, k)
        }),
{
    lemma_origin_names();
    let full_r = full_resource(resource, resource_attrs);
    let full_s = full_scope(scope, scope_attrs);
    if resource is None {
        assert(resource_attrs =~= Seq::empty());
    }
    if scope is None {
        assert(scope_attrs =~= Seq::empty());
    }
    let m1 = match full_r {
        Some(r) => {
            law_read_after_write(m, "resource"@, resource_object(r));
            lemma_resource_seen(r);
            lemma_attrs_seen(resource_attrs);
            assert(resource->0.attributes =~= Seq::empty());
            with_entry(m, "resource"@, resource_object(r))
        },
        None => m,
    };
    let t = match full_s {
        Some(s) => {
            law_read_after_write(m1, "scope"@, scope_object(s));
            lemma_scope_seen(s);
            lemma_attrs_seen(scope_attrs);
            assert(scope->0.attributes =~= Seq::empty());
            with_entry(m1, "scope"@, scope_object(s))
        },
        None => m1,
    };
    assert(value_of(t, "resource"@) == value_of(m1, "resource"@));
    assert(value_of(m1, "scope"@) == value_of(m, "scope"@));
    assert forall|k: Seq<char>| k != "resource"@ && k != "scope"@ implies #[trigger] value_of(t, k)
        == value_of(m, k) by {
        assert(value_of(m1, k) == value_of(m, k));
    }
}

/// What an object holds after attributes were put over it.
pub proof fn lemma_with_fields(m: Seq<(Seq<char>, ValueView)>, attrs: Seq<(Seq<char>, AnyView)>)
    requires
        ordered(m),
        ordered(attrs),
    ensures
        ordered(with_fields(m, attrs)),
        ordered(object_from_attrs(attrs)),
        forall|k: Seq<char>|
            #![trigger value_of(with_fields(m, attrs), k)]
            value_of(with_fields(m, attrs), k) == match value_of(object_from_attrs(attrs), k) {
                Some(v) => Some(v),
                None => value_of(m, k),
            },
    decreases attrs.len(),
{
    let obj = object_from_attrs(attrs);
    lemma_keys_ordered(attrs, obj);
    if attrs.len() == 0 {
        assert(forall|k: Seq<char>| value_of(obj, k) is None);
    } else {
        let before = attrs.drop_last();
        let (key, a) = attrs.last();
        let v = value_from_any(a);
        lemma_prefix_ordered(attrs);
        lemma_with_fields(m, before);
        let mm = with_fields(m, before);
        let ob = object_from_attrs(before);
        assert(obj =~= ob.push((key, v)));
        lemma_with_last(ob, key, v);
        law_read_after_write(ob, key, v);
        law_read_after_write(mm, key, v);
        assert forall|k: Seq<char>|
            #![trigger value_of(with_fields(m, attrs), k)]
            value_of(with_fields(m, attrs), k) == match value_of(obj, k) {
                Some(v) => Some(v),
                None => value_of(m, k),
            } by {
            assert(value_of(mm, k) == match value_of(ob, k) {
                Some(v) => Some(v),
                None => value_of(m, k),
            });
            assert(value_of(with_entry(ob, key, v), k) == if k == key {
                Some(v)
            } else {
                value_of(ob, k)
            });
        }
    }
}

/// Whether a program sees a field of that name in its own place, so that an attribute of the same
/// name could not be told from it.
pub open spec fn is_log_place(k: Seq<char>) -> bool {
    ||| k == "body"@
    ||| k == "severity_number"@
    ||| k == "severity_text"@
    ||| k == "time_unix_nano"@
    ||| k == "observed_time_unix_nano"@
    ||| k == "trace_id"@
    ||| k == "span_id"@
    ||| k == "flags"@
    ||| k == "dropped_attributes_count"@
    ||| k == "attributes"@
    ||| k == "resource"@
    ||| k == "scope"@
}

impl OtelLogView {
    /// Whether a program sees all of the event: no attribute has the name of a field, each value can
    /// be told from what it is read as, and it was not counted how many attributes were dropped.
    pub open spec fn is_all_seen(&self) -> bool {
        &&& self.record.attributes.len() == 0
        &&& self.record.dropped_attributes_count == 0
        &&& self.record.body matches Some(b) ==> is_kept(b)
        &&& all_kept(self.record_attrs)
        &&& all_kept(self.resource_attrs)
        &&& all_kept(self.scope_attrs)
        &&& resource_stands_apart(self.resource, self.resource_attrs)
        &&& scope_stands_apart(self.scope, self.scope_attrs)
        &&& forall|k: Seq<char>| #[trigger]
            is_log_place(k) ==> value_of(self.record_attrs, k) is None
    }
}

proof fn lemma_seen_names()
    ensures
        "body"@.len() == 4,
        "flags"@.len() == 5,
        "flags"@[0] == 'f',
        "scope"@.len() == 5,
        "scope"@[0] == 's',
        "span_id"@.len() == 7,
        "trace_id"@.len() == 8,
        "trace_id"@[0] == 't',
        "resource"@.len() == 8,
        "resource"@[0] == 'r',
        "attributes"@.len() == 10,
        "severity_text"@.len() == 13,
        "time_unix_nano"@.len() == 14,
        "severity_number"@.len() == 15,
        "observed_time_unix_nano"@.len() == 23,
        "dropped_attributes_count"@.len() == 24,
{
    reveal_strlit("body");
    reveal_strlit("flags");
    reveal_strlit("scope");
    reveal_strlit("span_id");
    reveal_strlit("trace_id");
    reveal_strlit("resource");
    reveal_strlit("attributes");
    reveal_strlit("severity_text");
    reveal_strlit("time_unix_nano");
    reveal_strlit("severity_number");
    reveal_strlit("observed_time_unix_nano");
    reveal_strlit("dropped_attributes_count");
}

/// The fields of a record as a program sees them.
pub open spec fn record_shown(r: LogRecordView) -> Seq<(Seq<char>, ValueView)> {
    let m = match r.body {
        Some(body) => with_entry(Seq::empty(), "body"@, value_from_any(body)),
        None => Seq::empty(),
    };
    let m = with_count(m, "severity_number"@, r.severity_number as i64);
    let m = with_text(m, "severity_text"@, r.severity_text);
    let m = with_count(m, "time_unix_nano"@, wrap_i64(r.time_unix_nano as int));
    let m = with_count(m, "observed_time_unix_nano"@, wrap_i64(r.observed_time_unix_nano as int));
    let m = with_id(m, "trace_id"@, r.trace_id);
    let m = with_id(m, "span_id"@, r.span_id);
    with_count(m, "flags"@, r.flags as i64)
}

pub proof fn lemma_record_shown(r: LogRecordView)
    ensures
        ({
            let m = record_shown(r);
            &&& ordered(m)
            &&& value_of(m, "body"@) == match r.body {
                Some(b) => Some(value_from_any(b)),
                None => None,
            }
            &&& value_of(m, "severity_text"@) == text_set(r.severity_text)
            &&& value_of(m, "severity_number"@) == count_set(r.severity_number as i64)
            &&& value_of(m, "time_unix_nano"@) == count_set(wrap_i64(r.time_unix_nano as int))
            &&& value_of(m, "observed_time_unix_nano"@) == count_set(
                wrap_i64(r.observed_time_unix_nano as int),
            )
            &&& value_of(m, "trace_id"@) == id_set(r.trace_id)
            &&& value_of(m, "span_id"@) == id_set(r.span_id)
            &&& value_of(m, "flags"@) == count_set(r.flags as i64)
            &&& value_of(m, "dropped_attributes_count"@) is None
            &&& value_of(m, "attributes"@) is None
            &&& value_of(m, "resource"@) is None
            &&& value_of(m, "scope"@) is None
            &&& forall|k: Seq<char>| !is_log_place(k) ==> #[trigger] value_of(m, k) is None
        }),
{
    lemma_seen_names();
    let none = Seq::<(Seq<char>, ValueView)>::empty();
    assert(forall|k: Seq<char>| #[trigger] value_of(none, k) is None);
    let m0 = match r.body {
        Some(body) => with_entry(none, "body"@, value_from_any(body)),
        None => none,
    };
    if let Some(body) = r.body {
        law_read_after_write(none, "body"@, value_from_any(body));
    }
    lemma_with_count(m0, "severity_number"@, r.severity_number as i64);
    let m1 = with_count(m0, "severity_number"@, r.severity_number as i64);
    lemma_with_text(m1, "severity_text"@, r.severity_text);
    let m2 = with_text(m1, "severity_text"@, r.severity_text);
    lemma_with_count(m2, "time_unix_nano"@, wrap_i64(r.time_unix_nano as int));
    let m3 = with_count(m2, "time_unix_nano"@, wrap_i64(r.time_unix_nano as int));
    let o = wrap_i64(r.observed_time_unix_nano as int);
    lemma_with_count(m3, "observed_time_unix_nano"@, o);
    let m4 = with_count(m3, "observed_time_unix_nano"@, o);
    lemma_with_id(m4, "trace_id"@, r.trace_id);
    let m5 = with_id(m4, "trace_id"@, r.trace_id);
    lemma_with_id(m5, "span_id"@, r.span_id);
    let m6 = with_id(m5, "span_id"@, r.span_id);
    lemma_with_count(m6, "flags"@, r.flags as i64);
    let m = record_shown(r);
    assert forall|k: Seq<char>| !is_log_place(k) implies #[trigger] value_of(m, k) is None by {
        assert(value_of(m6, k) == value_of(m5, k));
        assert(value_of(m4, k) == value_of(m3, k));
        assert(value_of(m2, k) == value_of(m1, k));
        assert(value_of(m0, k) == value_of(none, k));
    }
}

/// What is left of an object when the fields with a place of their own were taken out.
pub proof fn lemma_beside_log_fields(m: Seq<(Seq<char>, ValueView)>)
    requires
        ordered(m),
    ensures
        ordered(beside_log_fields(m)),
        forall|k: Seq<char>|
            #![trigger value_of(beside_log_fields(m), k)]
            value_of(beside_log_fields(m), k) == if is_log_place(k) {
                None
            } else {
                value_of(m, k)
            },
{
    law_read_after_remove(m, "body"@);
    let m1 = without_entry(m, "body"@);
    law_read_after_remove(m1, "severity_number"@);
    let m2 = without_entry(m1, "severity_number"@);
    law_read_after_remove(m2, "severity_text"@);
    let m3 = without_entry(m2, "severity_text"@);
    law_read_after_remove(m3, "time_unix_nano"@);
    let m4 = without_entry(m3, "time_unix_nano"@);
    law_read_after_remove(m4, "observed_time_unix_nano"@);
    let m5 = without_entry(m4, "observed_time_unix_nano"@);
    law_read_after_remove(m5, "trace_id"@);
    let m6 = without_entry(m5, "trace_id"@);
    law_read_after_remove(m6, "span_id"@);
    let m7 = without_entry(m6, "span_id"@);
    law_read_after_remove(m7, "flags"@);
    let m8 = without_entry(m7, "flags"@);
    law_read_after_remove(m8, "dropped_attributes_count"@);
    let m9 = without_entry(m8, "dropped_attributes_count"@);
    law_read_after_remove(m9, "attributes"@);
    let m10 = without_entry(m9, "attributes"@);
    law_read_after_remove(m10, "resource"@);
    let m11 = without_entry(m10, "resource"@);
    law_read_after_remove(m11, "scope"@);
    let m12 = beside_log_fields(m);
    assert(m12 == without_entry(m11, "scope"@));
    assert forall|k: Seq<char>|
        #![trigger value_of(m12, k)]
        value_of(m12, k) == if is_log_place(k) {
            None
        } else {
            value_of(m, k)
        } by {
        assert(k != "scope"@ ==> value_of(m12, k) == value_of(m11, k));
        assert(k != "resource"@ ==> value_of(m11, k) == value_of(m10, k));
        assert(k != "attributes"@ ==> value_of(m10, k) == value_of(m9, k));
        assert(k != "dropped_attributes_count"@ ==> value_of(m9, k) == value_of(m8, k));
        assert(k != "flags"@ ==> value_of(m8, k) == value_of(m7, k));
        assert(k != "span_id"@ ==> value_of(m7, k) == value_of(m6, k));
        assert(k != "trace_id"@ ==> value_of(m6, k) == value_of(m5, k));
        assert(k != "observed_time_unix_nano"@ ==> value_of(m5, k) == value_of(m4, k));
        assert(k != "time_unix_nano"@ ==> value_of(m4, k) == value_of(m3, k));
        assert(k != "severity_text"@ ==> value_of(m3, k) == value_of(m2, k));
        assert(k != "severity_number"@ ==> value_of(m2, k) == value_of(m1, k));
        assert(k != "body"@ ==> value_of(m1, k) == value_of(m, k));
    }
}

/// The names of the fields with a place of their own.
proof fn lemma_log_places()
    ensures
        is_log_place("body"@),
        is_log_place("severity_number"@),
        is_log_place("severity_text"@),
        is_log_place("time_unix_nano"@),
        is_log_place("observed_time_unix_nano"@),
        is_log_place("trace_id"@),
        is_log_place("span_id"@),
        is_log_place("flags"@),
        is_log_place("dropped_attributes_count"@),
        is_log_place("attributes"@),
        is_log_place("resource"@),
        is_log_place("scope"@),
{
}

/// The object as which a program sees the record and its attributes.
spec fn log_shown(log: OtelLogView) -> Seq<(Seq<char>, ValueView)> {
    let m = with_fields(record_shown(log.record), log.record_attrs);
    if log.record_attrs.len() == 0 {
        m
    } else {
        with_entry(m, "attributes"@, ValueView::Object(object_from_attrs(log.record_attrs)))
    }
}

/// What that object holds.
proof fn lemma_log_shown(log: OtelLogView)
    requires
        log.wf(),
        log.is_all_seen(),
    ensures
        ordered(log_shown(log)),
        ordered(object_from_attrs(log.record_attrs)),
        forall|k: Seq<char>|
            k != "attributes"@ ==> #[trigger] value_of(log_shown(log), k) == if is_log_place(k) {
                value_of(record_shown(log.record), k)
            } else {
                value_of(object_from_attrs(log.record_attrs), k)
            },
        forall|k: Seq<char>| #[trigger]
            is_log_place(k) ==> value_of(object_from_attrs(log.record_attrs), k) is None,
{
    let attrs = object_from_attrs(log.record_attrs);
    let shown = record_shown(log.record);
    lemma_record_shown(log.record);
    lemma_with_fields(shown, log.record_attrs);
    let a = with_fields(shown, log.record_attrs);
    law_read_after_write(a, "attributes"@, ValueView::Object(attrs));
    assert forall|k: Seq<char>| #[trigger] is_log_place(k) implies value_of(attrs, k) is None by {
        lemma_same_names(log.record_attrs, k);
    }
    assert forall|k: Seq<char>| k != "attributes"@ implies #[trigger] value_of(log_shown(log), k)
        == if is_log_place(k) {
        value_of(shown, k)
    } else {
        value_of(attrs, k)
    } by {
        assert(value_of(log_shown(log), k) == value_of(a, k));
        if !is_log_place(k) {
            assert(value_of(shown, k) is None);
        }
    }
}

/// The record that a program sees comes back.
proof fn lemma_record_comes_back(log: OtelLogView, m: Seq<(Seq<char>, ValueView)>)
    requires
        log.wf(),
        log.is_all_seen(),
        ordered(m),
        forall|k: Seq<char>|
            k != "resource"@ && k != "scope"@ ==> #[trigger] value_of(m, k) == value_of(
                log_shown(log),
                k,
            ),
    ensures
        (LogRecordView { attributes: Seq::empty(), ..record_seen(m) }) == log.record,
        attrs_from_kvs(record_seen(m).attributes) == log.record_attrs,
{
    lemma_seen_names();
    lemma_log_places();
    lemma_log_shown(log);
    lemma_record_shown(log.record);
    let r = log.record;
    let attrs = object_from_attrs(log.record_attrs);
    let b = log_shown(log);
    lemma_beside_log_fields(m);
    let beside = beside_log_fields(m);
    assert forall|k: Seq<char>| #[trigger] value_of(beside, k) == value_of(attrs, k) by {
        if !is_log_place(k) {
            assert(value_of(m, k) == value_of(b, k));
        }
    }
    law_same_entries(beside, attrs);
    lemma_attrs_seen(log.record_attrs);
    lemma_nanos_set(r.time_unix_nano);
    lemma_nanos_set(r.observed_time_unix_nano);
    lemma_text_seen(r.severity_text);
    law_id_round_trip(r.trace_id);
    law_id_round_trip(r.span_id);
    let back = record_seen(m);
    assert(value_of(m, "time_unix_nano"@) == value_of(b, "time_unix_nano"@));
    assert(back.time_unix_nano == r.time_unix_nano);
    assert(value_of(m, "observed_time_unix_nano"@) == value_of(b, "observed_time_unix_nano"@));
    assert(back.observed_time_unix_nano == r.observed_time_unix_nano);
    assert(value_of(m, "severity_number"@) == value_of(b, "severity_number"@));
    assert(back.severity_number == r.severity_number);
    assert(value_of(m, "severity_text"@) == value_of(b, "severity_text"@));
    assert(back.severity_text =~= r.severity_text);
    assert(value_of(m, "body"@) == value_of(b, "body"@));
    assert(back.body == r.body) by {
        if let Some(body) = r.body {
            law_attribute_value_round_trip(body);
        }
    }
    assert(value_of(m, "flags"@) == value_of(b, "flags"@));
    assert(back.flags == r.flags);
    assert(value_of(m, "trace_id"@) == value_of(b, "trace_id"@));
    assert(back.trace_id =~= r.trace_id);
    assert(value_of(m, "span_id"@) == value_of(b, "span_id"@));
    assert(back.span_id =~= r.span_id);
    assert(value_of(m, "dropped_attributes_count"@) == value_of(b, "dropped_attributes_count"@));
    assert(r.attributes =~= Seq::empty());
}

/// A log event that a program leaves alone comes back as it was, if the program sees all of it.
#[verifier::spinoff_prover]
#[verifier::rlimit(40)]
pub proof fn law_log_comes_back(log: OtelLogView)
    requires
        log.wf(),
        log.is_all_seen(),
    ensures
        TargetView::of_event(EventView::Log(log)).events() == TargetEventsView::One(
            EventView::Log(log),
        ),
{
    lemma_log_places();
    lemma_log_shown(log);
    lemma_record_shown(log.record);
    let b = log_shown(log);
    assert("resource"@ != "attributes"@ && "scope"@ != "attributes"@) by {
        lemma_seen_names();
    }
    assert(value_of(b, "resource"@) is None);
    assert(value_of(b, "scope"@) is None);
    lemma_origin_seen(b, log.resource, log.resource_attrs, log.scope, log.scope_attrs);
    let m = log.seen();
    lemma_record_comes_back(log, m);
}

} // verus!
