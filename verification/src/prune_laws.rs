//! What holds of removals that prune: no object on the way is left empty.
use vstd::prelude::*;

use crate::any_value::{any_from_value, value_from_any, AnyView};
use crate::attributes::object_from_attrs;
use crate::canonical::{attr_at, attrs_pruned, attrs_without};
use crate::fields::{dropped, field_path};
use crate::keyed::{ordered, slot_of, value_of};
use crate::log::OtelLogView;
use crate::log_path::{is_field_path, path_names};
use crate::map_laws::{law_read_after_remove, law_read_after_write, lemma_found_entry};
use crate::path::{fetched, PathPrefix, SegmentView, TargetPathView};
use crate::path_laws::{
    in_order, lemma_dropped_is_stored, lemma_read_is_stored, lemma_stored_in_order,
};
use crate::span::OtelSpanView;
use crate::value::ValueView;
use crate::value_laws::law_value_round_trip;

verus! {

/// After a nested field was removed and the objects on the way were pruned, none of them is empty.
proof fn lemma_no_empty_parent(v: ValueView, fields: Seq<Seq<char>>, n: int)
    requires
        in_order(v),
        fetched(v, field_path(fields)) is Some,
        0 < n < fields.len(),
    ensures
        fetched(dropped(v, fields, true), field_path(fields.take(n))) != Some(
            ValueView::empty_object(),
        ),
    decreases fields.len(),
{
    reveal_with_fuel(fetched, 2);
    reveal_with_fuel(in_order, 2);
    let f = fields[0];
    let tail = fields.drop_first();
    assert(field_path(fields)[0] == SegmentView::Field(f));
    assert(field_path(fields).drop_first() =~= field_path(tail));
    let part = field_path(fields.take(n));
    assert(part[0] == SegmentView::Field(f));
    assert(part.drop_first() =~= field_path(tail.take(n - 1)));
    if let ValueView::Object(m) = v {
        if let Some(c) = value_of(m, f) {
            lemma_found_entry(m, f);
            assert(in_order(m[slot_of(m, f)].1));
            let rest = dropped(c, tail, true);
            law_read_after_remove(m, f);
            law_read_after_write(m, f, rest);
            if n > 1 {
                lemma_no_empty_parent(c, tail, n - 1);
            } else {
                assert(field_path(tail.take(0)).len() == 0);
            }
        }
    }
}

/// After what stands below an attribute was removed and what it stood in was pruned, neither the
/// attribute nor anything on the way is left an empty object.
pub proof fn law_attribute_is_pruned(attrs: Seq<(Seq<char>, AnyView)>, path: Seq<Seq<char>>, n: int)
    requires
        ordered(attrs),
        attr_at(attrs, path) is Some,
        0 < n < path.len(),
    ensures
        attr_at(attrs_without(attrs, path, true), path.take(n)) != Some(ValueView::empty_object()),
        attr_at(attrs_pruned(attrs, path, true), path.take(n)) != Some(ValueView::empty_object()),
{
    let f = path[0];
    let tail = path.drop_first();
    assert(path.take(n)[0] == f);
    assert(path.take(n).drop_first() =~= tail.take(n - 1));
    let a = value_of(attrs, f)->0;
    let v = value_from_any(a);
    lemma_read_is_stored(a);
    lemma_stored_in_order(v);
    lemma_dropped_is_stored(v, tail, true);
    let rest = dropped(v, tail, true);
    law_value_round_trip(rest);
    law_read_after_remove(attrs, f);
    law_read_after_write(attrs, f, any_from_value(rest));
    if n > 1 {
        lemma_no_empty_parent(v, tail, n - 1);
    } else {
        reveal_with_fuel(fetched, 2);
        assert(field_path(tail.take(0)).len() == 0);
    }
}

/// The first steps of a path.
pub open spec fn way_to(path: TargetPathView, n: int) -> TargetPathView {
    TargetPathView { path: path.path.take(n), ..path }
}

/// After what a path through fields of a log event leads to was removed and what it stood in was
/// pruned, nothing on the way is left an empty object: no nested field, and no attribute of the
/// record.
pub proof fn law_log_is_pruned(log: OtelLogView, path: TargetPathView, n: int)
    requires
        log.wf(),
        path.prefix == PathPrefix::Event,
        is_field_path(path.path),
        log.removed_at(path) is Some,
        0 < n < path.path.len(),
        n == 1 ==> {
            let f = path_names(path.path)[0];
            f != "resource"@ && f != "scope"@ && !OtelLogView::is_record_field(f)
        },
    ensures
        log.without(path, true).at(way_to(path, n)) != Some(ValueView::empty_object()),
{
    let fields = path_names(path.path);
    let some = path_names(way_to(path, n).path);
    assert(some =~= fields.take(n));
    assert(some.drop_first() =~= fields.drop_first().take(n - 1));
    reveal_strlit("name");
    reveal_strlit("version");
    reveal_strlit("attributes");
    if fields[0] == "resource"@ {
        law_attribute_is_pruned(log.resource_attrs, fields.drop_first(), n - 1);
    } else if fields[0] == "scope"@ {
        let rest = fields.drop_first();
        assert(rest[0] == "attributes"@);
        if n > 2 {
            assert(rest.take(n - 1).drop_first() =~= rest.drop_first().take(n - 2));
            law_attribute_is_pruned(log.scope_attrs, rest.drop_first(), n - 2);
        } else {
            let left = log.without(path, true).scope_attrs;
            if left.len() > 0 {
                assert(object_from_attrs(left).len() > 0);
            }
        }
    } else {
        law_attribute_is_pruned(log.record_attrs, fields, n);
        if n == 1 {
            reveal_with_fuel(fetched, 2);
            assert(field_path(some.drop_first()).len() == 0);
        }
    }
}

/// After what a path through fields of a span event leads to was removed and what it stood in was
/// pruned, no nested field on the way is left an empty object.
pub proof fn law_span_is_pruned(span: OtelSpanView, path: TargetPathView, n: int)
    requires
        span.wf(),
        path.prefix == PathPrefix::Event,
        is_field_path(path.path),
        span.removed_at(path) is Some,
        1 < n < path.path.len(),
    ensures
        span.without(path, true).at(way_to(path, n)) != Some(ValueView::empty_object()),
{
    let fields = path_names(path.path);
    let some = path_names(way_to(path, n).path);
    assert(some =~= fields.take(n));
    assert(some.drop_first() =~= fields.drop_first().take(n - 1));
    reveal_strlit("name");
    reveal_strlit("version");
    reveal_strlit("attributes");
    if fields[0] == "resource"@ {
        law_attribute_is_pruned(span.resource_attrs, fields.drop_first(), n - 1);
    } else if fields[0] == "scope"@ {
        let rest = fields.drop_first();
        assert(rest[0] == "attributes"@);
        if n > 2 {
            assert(rest.take(n - 1).drop_first() =~= rest.drop_first().take(n - 2));
            law_attribute_is_pruned(span.scope_attrs, rest.drop_first(), n - 2);
        } else {
            let left = span.without(path, true).scope_attrs;
            if left.len() > 0 {
                assert(object_from_attrs(left).len() > 0);
            }
        }
    } else if fields[0] == "status"@ {
    } else {
        law_attribute_is_pruned(span.span_attrs, fields, n);
    }
}

} // verus!
