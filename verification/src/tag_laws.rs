//! What holds of the tags of a metric: which attributes become tags, under which names, and with which
//! values.
use vstd::prelude::*;

use crate::any_value::AnyView;
use crate::attributes::attrs_overlaid;
use crate::keyed::{ordered, value_of, with_entry};
use crate::map_laws::{law_read_after_write, lemma_entry_found, lemma_found_entry};
use crate::metric::OtelMetricView;
use crate::metric_extra::{prefixed, with_scope};
use crate::metric_ops::{listed_tags, point_tags, resource_tags, scope_tags};
use crate::metric_tags::{
    tag_text, tags_with, values_collected, values_with, values_without,
};
use crate::otlp::ScopeView;
use crate::text::{begins_with, lossy, signed_decimal};
use crate::value_laws::{lemma_prefix_ordered, lemma_with_last};

verus! {

/// An attribute value has the text as a tag that it is, an integer in decimal notation, a truth value
/// in words, a double as it is shown.
pub proof fn law_tag_text(v: AnyView, text: spec_fn(u64) -> Seq<char>)
    ensures
        v matches AnyView::Str(s) ==> tag_text(v, text) == s,
        v matches AnyView::Int(i) ==> tag_text(v, text) == signed_decimal(i as int),
        v matches AnyView::Double(d) ==> tag_text(v, text) == text(d),
        v matches AnyView::Bytes(b) ==> tag_text(v, text) == lossy(b),
        v == AnyView::Bool(true) ==> tag_text(v, text) == "true"@,
        v == AnyView::Bool(false) ==> tag_text(v, text) == "false"@,
        v is Array ==> tag_text(v, text) == "<array>"@,
        v is Kvlist ==> tag_text(v, text) == "<kvlist>"@,
{
}

proof fn lemma_without(s: Seq<Option<Seq<char>>>, v: Option<Seq<char>>, w: Option<Seq<char>>)
    ensures
        values_without(s, v).contains(w) <==> s.contains(w) && w != v,
        s.no_duplicates() ==> values_without(s, v).no_duplicates(),
    decreases s.len(),
{
    if s.len() > 0 {
        let before = s.drop_last();
        lemma_without(before, v, w);
        assert(s =~= before.push(s.last()));
        assert(s.contains(w) <==> before.contains(w) || w == s.last()) by {
            if before.contains(w) {
                let i = choose|i: int| 0 <= i < before.len() && before[i] == w;
                assert(s[i] == w);
            }
            if w == s.last() {
                assert(s[s.len() - 1] == w);
            }
            if s.contains(w) && w != s.last() {
                let i = choose|i: int| 0 <= i < s.len() && s[i] == w;
                assert(before[i] == w);
            }
        }
        if s.last() != v {
            let kept = values_without(before, v);
            let all = kept.push(s.last());
            assert(all.contains(w) <==> kept.contains(w) || w == s.last()) by {
                if kept.contains(w) {
                    let i = choose|i: int| 0 <= i < kept.len() && kept[i] == w;
                    assert(all[i] == w);
                }
                if w == s.last() {
                    assert(all[all.len() - 1] == w);
                }
                if all.contains(w) && w != s.last() {
                    let i = choose|i: int| 0 <= i < all.len() && all[i] == w;
                    assert(kept[i] == w);
                }
            }
            if s.no_duplicates() {
                lemma_without(before, v, s.last());
                assert(before.no_duplicates()) by {
                    assert forall|i: int, j: int|
                        0 <= i < before.len() && 0 <= j < before.len() && i != j implies before[i]
                        != before[j] by {
                        assert(s[i] != s[j]);
                    }
                }
                assert(!before.contains(s.last())) by {
                    if before.contains(s.last()) {
                        let i = choose|i: int| 0 <= i < before.len() && before[i] == s.last();
                        assert(s[i] == s[s.len() - 1]);
                    }
                }
                assert forall|i: int, j: int|
                    0 <= i < all.len() && 0 <= j < all.len() && i != j implies all[i] != all[j] by {
                    if i == all.len() - 1 {
                        assert(kept[j] == all[j]);
                        assert(kept.contains(kept[j]));
                    } else if j == all.len() - 1 {
                        assert(kept[i] == all[i]);
                        assert(kept.contains(kept[i]));
                    } else {
                        assert(kept[i] != kept[j]);
                    }
                }
            }
        } else if s.no_duplicates() {
            assert forall|i: int, j: int|
                0 <= i < before.len() && 0 <= j < before.len() && i != j implies before[i]
                != before[j] by {
                assert(s[i] != s[j]);
            }
        }
    }
}

/// A value that is added to a tag is its last one, all others stay, and none is there twice.
pub proof fn law_tag_value_is_added(
    s: Seq<Option<Seq<char>>>,
    v: Option<Seq<char>>,
    w: Option<Seq<char>>,
)
    ensures
        values_with(s, v).len() > 0,
        values_with(s, v).last() == v,
        values_with(s, v).contains(w) <==> w == v || s.contains(w),
        s.no_duplicates() ==> values_with(s, v).no_duplicates(),
{
    lemma_without(s, v, w);
    lemma_without(s, v, v);
    let kept = values_without(s, v);
    let all = values_with(s, v);
    if all.contains(w) && w != v {
        let i = choose|i: int| 0 <= i < all.len() && all[i] == w;
        assert(kept[i] == w);
    }
    if kept.contains(w) {
        let i = choose|i: int| 0 <= i < kept.len() && kept[i] == w;
        assert(all[i] == w);
    }
    assert(all[all.len() - 1] == v);
    if s.no_duplicates() {
        assert forall|i: int, j: int| 0 <= i < all.len() && 0 <= j < all.len() && i != j implies all[i]
            != all[j] by {
            if i == all.len() - 1 {
                assert(kept[j] == all[j]);
                assert(kept.contains(kept[j]));
            } else if j == all.len() - 1 {
                assert(kept[i] == all[i]);
                assert(kept.contains(kept[i]));
            } else {
                assert(kept[i] != kept[j]);
            }
        }
    }
}

/// A list of values gives a tag exactly those values, none of them twice, the last one last.
pub proof fn law_tag_values_are_collected(list: Seq<Option<Seq<char>>>, w: Option<Seq<char>>)
    ensures
        values_collected(list).contains(w) <==> list.contains(w),
        values_collected(list).no_duplicates(),
        list.len() > 0 ==> values_collected(list).len() > 0 && values_collected(list).last()
            == list.last(),
    decreases list.len(),
{
    if list.len() > 0 {
        let before = list.drop_last();
        law_tag_values_are_collected(before, w);
        law_tag_value_is_added(values_collected(before), list.last(), w);
        if before.contains(w) {
            let i = choose|i: int| 0 <= i < before.len() && before[i] == w;
            assert(list[i] == w);
        }
        if w == list.last() {
            assert(list[list.len() - 1] == w);
        }
        if list.contains(w) && w != list.last() {
            let i = choose|i: int| 0 <= i < list.len() && list[i] == w;
            assert(before[i] == w);
        }
    }
}

proof fn lemma_only_value(v: Option<Seq<char>>)
    ensures
        values_with(Seq::empty(), v) == seq![v],
{
    assert(values_with(Seq::empty(), v) =~= seq![v]);
}

/// The last of ordered attributes is not among those before it, and all others are.
proof fn lemma_last_apart(attrs: Seq<(Seq<char>, AnyView)>, k: Seq<char>)
    requires
        ordered(attrs),
        attrs.len() > 0,
    ensures
        ordered(attrs.drop_last()),
        value_of(attrs.drop_last(), attrs.last().0) is None,
        value_of(attrs, k) == if k == attrs.last().0 {
            Some(attrs.last().1)
        } else {
            value_of(attrs.drop_last(), k)
        },
{
    let before = attrs.drop_last();
    let (key, v) = attrs.last();
    lemma_prefix_ordered(attrs);
    assert(attrs =~= before.push((key, v)));
    lemma_with_last(before, key, v);
    law_read_after_write(before, key, v);
    if value_of(before, key) is Some {
        lemma_found_entry(before, key);
        let i = choose|i: int| 0 <= i < before.len() && before[i].0 == key;
        assert(attrs[i].0 == key);
        lemma_entry_found(attrs, i);
        lemma_entry_found(attrs, attrs.len() - 1);
    }
}

/// The values of a tag, none where there is no such tag.
spec fn values_at(
    tags: Seq<(Seq<char>, Seq<Option<Seq<char>>>)>,
    name: Seq<char>,
) -> Seq<Option<Seq<char>>> {
    match value_of(tags, name) {
        Some(s) => s,
        None => Seq::empty(),
    }
}

/// The attribute of a resource that becomes the tag of a name.
pub open spec fn resource_tagged(attrs: Seq<(Seq<char>, AnyView)>, name: Seq<char>) -> Option<AnyView> {
    if begins_with(name, "resource."@) && name != "resource.metric.namespace"@ {
        match value_of(attrs, name.skip(9)) {
            Some(v) => if v is Empty {
                None
            } else {
                Some(v)
            },
            None => None,
        }
    } else {
        None
    }
}

proof fn lemma_prefixed(key: Seq<char>, name: Seq<char>)
    ensures
        "resource."@.len() == 9,
        "resource."@ + key == name <==> begins_with(name, "resource."@) && name.skip(9) == key,
        "resource."@ + "metric.namespace"@ == "resource.metric.namespace"@,
        "resource."@ + key == "resource.metric.namespace"@ <==> key == "metric.namespace"@,
{
    reveal_strlit("resource.");
    reveal_strlit("metric.namespace");
    reveal_strlit("resource.metric.namespace");
    let joined = "resource."@ + key;
    assert(joined.take(9) =~= "resource."@);
    assert(joined.skip(9) =~= key);
    if begins_with(name, "resource."@) && name.skip(9) == key {
        assert(name =~= name.take(9) + name.skip(9));
    }
    assert("resource."@ + "metric.namespace"@ =~= "resource.metric.namespace"@);
    assert("resource.metric.namespace"@.skip(9) =~= "metric.namespace"@);
}

proof fn lemma_resource_tags(
    tags: Seq<(Seq<char>, Seq<Option<Seq<char>>>)>,
    attrs: Seq<(Seq<char>, AnyView)>,
    text: spec_fn(u64) -> Seq<char>,
    name: Seq<char>,
)
    requires
        ordered(tags),
        ordered(attrs),
    ensures
        ordered(resource_tags(tags, attrs, text)),
        value_of(resource_tags(tags, attrs, text), name) == match resource_tagged(attrs, name) {
            Some(v) => Some(values_with(values_at(tags, name), Some(tag_text(v, text)))),
            None => value_of(tags, name),
        },
    decreases attrs.len(),
{
    if attrs.len() > 0 {
        let before = attrs.drop_last();
        let (key, v) = attrs.last();
        lemma_last_apart(attrs, name.skip(9));
        lemma_prefixed(key, name);
        lemma_prefixed(name.skip(9), name);
        lemma_resource_tags(tags, before, text, name);
        let t = resource_tags(tags, before, text);
        if !(key == "metric.namespace"@ || v is Empty) {
            let full = "resource."@ + key;
            lemma_resource_tags(tags, before, text, full);
            law_read_after_write(t, full, values_with(values_at(t, full), Some(tag_text(v, text))));
        }
    }
}

/// The text that a scope gives as the tag of a name.
pub open spec fn scope_tagged(scope: Option<ScopeView>, name: Seq<char>) -> Option<Seq<char>> {
    match scope {
        Some(s) => if name == "scope.name"@ && s.name.len() > 0 {
            Some(s.name)
        } else if name == "scope.version"@ && s.version.len() > 0 {
            Some(s.version)
        } else {
            None
        },
        None => None,
    }
}

proof fn lemma_scope_tags(
    tags: Seq<(Seq<char>, Seq<Option<Seq<char>>>)>,
    scope: Option<ScopeView>,
    name: Seq<char>,
)
    requires
        ordered(tags),
    ensures
        ordered(scope_tags(tags, scope)),
        value_of(scope_tags(tags, scope), name) == match scope_tagged(scope, name) {
            Some(t) => Some(values_with(values_at(tags, name), Some(t))),
            None => value_of(tags, name),
        },
{
    reveal_strlit("scope.name");
    reveal_strlit("scope.version");
    if let Some(s) = scope {
        let named = if s.name.len() == 0 {
            tags
        } else {
            tags_with(tags, "scope.name"@, Some(s.name))
        };
        law_read_after_write(
            tags,
            "scope.name"@,
            values_with(values_at(tags, "scope.name"@), Some(s.name)),
        );
        law_read_after_write(
            named,
            "scope.version"@,
            values_with(values_at(named, "scope.version"@), Some(s.version)),
        );
    }
}

/// The attribute of a data point that becomes the tag of a name.
pub open spec fn point_tagged(attrs: Seq<(Seq<char>, AnyView)>, name: Seq<char>) -> Option<AnyView> {
    if begins_with(name, "vector."@) {
        None
    } else {
        value_of(attrs, name)
    }
}

proof fn lemma_point_tags(
    tags: Seq<(Seq<char>, Seq<Option<Seq<char>>>)>,
    attrs: Seq<(Seq<char>, AnyView)>,
    text: spec_fn(u64) -> Seq<char>,
    name: Seq<char>,
)
    requires
        ordered(tags),
        ordered(attrs),
    ensures
        ordered(point_tags(tags, attrs, text)),
        value_of(point_tags(tags, attrs, text), name) == match point_tagged(attrs, name) {
            Some(AnyView::Empty) => Some(seq![None]),
            Some(AnyView::Array(a)) => Some(values_collected(listed_tags(a, text))),
            Some(v) => Some(values_with(values_at(tags, name), Some(tag_text(v, text)))),
            None => value_of(tags, name),
        },
    decreases attrs.len(),
{
    if attrs.len() > 0 {
        let before = attrs.drop_last();
        let (key, v) = attrs.last();
        lemma_last_apart(attrs, name);
        lemma_point_tags(tags, before, text, name);
        lemma_point_tags(tags, before, text, key);
        let t = point_tags(tags, before, text);
        match v {
            AnyView::Empty => {
                law_read_after_write(t, key, seq![None]);
            },
            AnyView::Array(a) => {
                law_read_after_write(t, key, values_collected(listed_tags(a, text)));
            },
            _ => {
                law_read_after_write(t, key, values_with(values_at(t, key), Some(tag_text(v, text))));
            },
        }
    }
}

/// Whether the attributes that become tags have their names in order, none of them twice.
pub open spec fn names_in_order(m: OtelMetricView) -> bool {
    ordered(m.resource_attrs) && ordered(m.first_point())
}

proof fn lemma_all_tags(m: OtelMetricView, text: spec_fn(u64) -> Seq<char>, name: Seq<char>)
    requires
        names_in_order(m),
    ensures
        ordered(m.all_tags(text)),
        ({
            let base = match resource_tagged(m.resource_attrs, name) {
                Some(v) => Some(seq![Some(tag_text(v, text))]),
                None => match scope_tagged(m.scope, name) {
                    Some(t) => Some(seq![Some(t)]),
                    None => None,
                },
            };
            value_of(m.all_tags(text), name) == match point_tagged(m.first_point(), name) {
                Some(AnyView::Empty) => Some(seq![None]),
                Some(AnyView::Array(a)) => Some(values_collected(listed_tags(a, text))),
                Some(v) => Some(
                    values_with(
                        match base {
                            Some(s) => s,
                            None => Seq::empty(),
                        },
                        Some(tag_text(v, text)),
                    ),
                ),
                None => base,
            }
        }),
        m.tags(text) is Some <==> m.all_tags(text).len() > 0,
{
    reveal_strlit("resource.");
    reveal_strlit("scope.name");
    reveal_strlit("scope.version");
    let none = Seq::<(Seq<char>, Seq<Option<Seq<char>>>)>::empty();
    lemma_resource_tags(none, m.resource_attrs, text, name);
    let of_resource = resource_tags(none, m.resource_attrs, text);
    lemma_scope_tags(of_resource, m.scope, name);
    let of_scope = scope_tags(of_resource, m.scope);
    lemma_point_tags(of_scope, m.first_point(), text, name);
    assert(point_tags(of_scope, Seq::empty(), text) == of_scope);
    if begins_with(name, "resource."@) {
        assert(name[0] == name.take(9)[0]);
        assert(name[0] == 'r');
        assert("scope.name"@[0] == 's');
        assert("scope.version"@[0] == 's');
    }
    if let Some(v) = resource_tagged(m.resource_attrs, name) {
        lemma_only_value(Some(tag_text(v, text)));
    }
    if let Some(t) = scope_tagged(m.scope, name) {
        lemma_only_value(Some(t));
    }
}

/// The values that a metric has for a tag.
pub open spec fn tag_read(
    m: OtelMetricView,
    text: spec_fn(u64) -> Seq<char>,
    name: Seq<char>,
) -> Option<Seq<Option<Seq<char>>>> {
    match m.tags(text) {
        Some(tags) => value_of(tags, name),
        None => None,
    }
}

/// Each attribute of the resource, but for the one that names the namespace and those without a value,
/// is a tag: under its name after `resource.`, with its text as the only value, unless an attribute of
/// the first data point has that name.
pub proof fn law_resource_attributes_are_tags(
    m: OtelMetricView,
    key: Seq<char>,
    v: AnyView,
    text: spec_fn(u64) -> Seq<char>,
)
    requires
        names_in_order(m),
        value_of(m.resource_attrs, key) == Some(v),
        key != "metric.namespace"@,
        !(v is Empty),
        value_of(m.first_point(), "resource."@ + key) is None,
    ensures
        tag_read(m, text, "resource."@ + key) == Some(seq![Some(tag_text(v, text))]),
        m.tag_value("resource."@ + key, text) == Some(tag_text(v, text)),
{
    let name = "resource."@ + key;
    lemma_all_tags(m, text, name);
    lemma_prefixed(key, name);
}

/// The attribute of the resource that names the namespace, and one without a value, are no tags.
pub proof fn law_namespace_is_no_tag(
    m: OtelMetricView,
    key: Seq<char>,
    text: spec_fn(u64) -> Seq<char>,
)
    requires
        names_in_order(m),
        key == "metric.namespace"@ || value_of(m.resource_attrs, key) is None || value_of(
            m.resource_attrs,
            key,
        ) == Some(AnyView::Empty),
        value_of(m.first_point(), "resource."@ + key) is None,
    ensures
        tag_read(m, text, "resource."@ + key) is None,
{
    let name = "resource."@ + key;
    lemma_all_tags(m, text, name);
    lemma_prefixed(key, name);
    reveal_strlit("resource.");
    reveal_strlit("scope.name");
    reveal_strlit("scope.version");
    assert(name[0] == 'r');
    assert("scope.name"@[0] == 's');
    assert("scope.version"@[0] == 's');
}

/// The name and the version of the scope, unless they are empty, are the tags `scope.name` and
/// `scope.version`, unless an attribute of the first data point has that name.
pub proof fn law_scope_is_a_tag(m: OtelMetricView, text: spec_fn(u64) -> Seq<char>)
    requires
        names_in_order(m),
    ensures
        value_of(m.first_point(), "scope.name"@) is None ==> tag_read(m, text, "scope.name"@) == if m.scope is Some
            && m.scope->0.name.len() > 0 {
            Some(seq![Some(m.scope->0.name)])
        } else {
            None
        },
        value_of(m.first_point(), "scope.version"@) is None ==> tag_read(m, text, "scope.version"@)
            == if m.scope is Some && m.scope->0.version.len() > 0 {
            Some(seq![Some(m.scope->0.version)])
        } else {
            None
        },
{
    reveal_strlit("resource.");
    reveal_strlit("vector.");
    reveal_strlit("scope.name");
    reveal_strlit("scope.version");
    lemma_all_tags(m, text, "scope.name"@);
    lemma_all_tags(m, text, "scope.version"@);
    assert("scope.name"@.take(9)[0] == 's');
    assert("scope.version"@.take(9)[0] == 's');
}

/// Each attribute of the first data point is a tag under its own name, unless the name begins with
/// `vector.`: one without a value as a bare tag, a list with each of its values, any other with its text
/// as the last value, and as the only one where neither the resource nor the scope has the tag too.
pub proof fn law_point_attributes_are_tags(
    m: OtelMetricView,
    key: Seq<char>,
    v: AnyView,
    text: spec_fn(u64) -> Seq<char>,
)
    requires
        names_in_order(m),
        value_of(m.first_point(), key) == Some(v),
        !begins_with(key, "vector."@),
    ensures
        tag_read(m, text, key) matches Some(values) && match v {
            AnyView::Empty => values == seq![None::<Seq<char>>],
            AnyView::Array(items) => {
                &&& values.no_duplicates()
                &&& forall|t: Option<Seq<char>>|
                    #[trigger] values.contains(t) <==> exists|i: int|
                        0 <= i < items.len() && t == if (#[trigger] items[i]) is Empty {
                            None
                        } else {
                            Some(tag_text(items[i], text))
                        }
            },
            _ => {
                &&& values.len() > 0
                &&& values.last() == Some(tag_text(v, text))
                &&& m.tag_value(key, text) == Some(tag_text(v, text))
                &&& resource_tagged(m.resource_attrs, key) is None && scope_tagged(m.scope, key) is None
                    ==> values == seq![Some(tag_text(v, text))]
            },
        },
{
    lemma_all_tags(m, text, key);
    lemma_only_value(Some(tag_text(v, text)));
    if let AnyView::Array(items) = v {
        let listed = listed_tags(items, text);
        let values = values_collected(listed);
        law_tag_values_are_collected(listed, None);
        assert forall|t: Option<Seq<char>>| #[trigger] values.contains(t) <==> exists|i: int|
            0 <= i < items.len() && t == if (#[trigger] items[i]) is Empty {
                None
            } else {
                Some(tag_text(items[i], text))
            } by {
            law_tag_values_are_collected(listed, t);
            if listed.contains(t) {
                let i = choose|i: int| 0 <= i < listed.len() && listed[i] == t;
                assert(items[i] is Empty || !(items[i] is Empty));
            }
            if exists|i: int|
                0 <= i < items.len() && t == if (#[trigger] items[i]) is Empty {
                    None
                } else {
                    Some(tag_text(items[i], text))
                } {
                let i = choose|i: int|
                    0 <= i < items.len() && t == if (#[trigger] items[i]) is Empty {
                        None
                    } else {
                        Some(tag_text(items[i], text))
                    };
                assert(listed[i] == t);
            }
        }
    }
}

/// An attribute of the first data point whose name begins with `vector.` is no tag.
pub proof fn law_markers_are_no_tags(
    m: OtelMetricView,
    key: Seq<char>,
    text: spec_fn(u64) -> Seq<char>,
)
    requires
        names_in_order(m),
        begins_with(key, "vector."@),
    ensures
        tag_read(m, text, key) is None,
{
    lemma_all_tags(m, text, key);
    reveal_strlit("resource.");
    reveal_strlit("vector.");
    reveal_strlit("scope.name");
    reveal_strlit("scope.version");
    assert(key[0] == key.take(7)[0]);
    if begins_with(key, "resource."@) {
        assert(key[0] == key.take(9)[0]);
    }
    assert("scope.name"@[0] == 's');
    assert("scope.version"@[0] == 's');
}

/// The value that is read of a tag by its name is the last of its values among all tags: a tag is found
/// in both ways or in neither, unless the first data point holds it without a value, as a list or as a
/// marker, or it is the one that would name the namespace.
pub proof fn law_tag_value_is_a_tag(
    m: OtelMetricView,
    key: Seq<char>,
    text: spec_fn(u64) -> Seq<char>,
)
    requires
        names_in_order(m),
        key != "resource.metric.namespace"@,
        !begins_with(key, "vector."@),
        !(value_of(m.first_point(), key) matches Some(AnyView::Empty)),
        !(value_of(m.first_point(), key) matches Some(AnyView::Array(_))),
    ensures
        match m.tag_value(key, text) {
            Some(t) => tag_read(m, text, key) matches Some(values) && values.len() > 0
                && values.last() == Some(t),
            None => tag_read(m, text, key) is None,
        },
{
    lemma_all_tags(m, text, key);
    reveal_strlit("resource.");
}

proof fn lemma_prefixed_attrs(attrs: Seq<(Seq<char>, AnyView)>, name: Seq<char>)
    requires
        ordered(attrs),
    ensures
        ordered(prefixed(attrs)),
        value_of(prefixed(attrs), name) == resource_tagged(attrs, name),
    decreases attrs.len(),
{
    if attrs.len() > 0 {
        let before = attrs.drop_last();
        let (key, v) = attrs.last();
        lemma_last_apart(attrs, name.skip(9));
        lemma_prefixed(key, name);
        lemma_prefixed(name.skip(9), name);
        lemma_prefixed_attrs(before, name);
        law_read_after_write(prefixed(before), "resource."@ + key, v);
    }
}

/// Among the attributes that stand for the resource and the scope of a metric, each attribute of the
/// resource, but for the one that names the namespace and those without a value, stands under its name
/// after `resource.`, as it is; the name and the version of the scope stand there unless they are empty.
pub proof fn law_origin_attributes(
    attrs: Seq<(Seq<char>, AnyView)>,
    scope: Option<ScopeView>,
    key: Seq<char>,
)
    requires
        ordered(attrs),
    ensures
        ({
            let all = with_scope(prefixed(attrs), scope);
            &&& value_of(all, "resource."@ + key) == if key == "metric.namespace"@ || value_of(
                attrs,
                key,
            ) == Some(AnyView::Empty) {
                None
            } else {
                value_of(attrs, key)
            }
            &&& value_of(all, "scope.name"@) == if scope is Some && scope->0.name.len() > 0 {
                Some(AnyView::Str(scope->0.name))
            } else {
                None
            }
            &&& value_of(all, "scope.version"@) == if scope is Some && scope->0.version.len() > 0 {
                Some(AnyView::Str(scope->0.version))
            } else {
                None
            }
        }),
{
    reveal_strlit("resource.");
    reveal_strlit("scope.name");
    reveal_strlit("scope.version");
    let name = "resource."@ + key;
    lemma_prefixed(key, name);
    lemma_prefixed_attrs(attrs, name);
    lemma_prefixed_attrs(attrs, "scope.name"@);
    lemma_prefixed_attrs(attrs, "scope.version"@);
    assert("scope.name"@.take(9)[0] == 's');
    assert("scope.version"@.take(9)[0] == 's');
    assert(name[0] == 'r');
    assert("scope.name"@.len() == 10 && "scope.version"@.len() == 13);
    let base = prefixed(attrs);
    if let Some(s) = scope {
        law_read_after_write(base, "scope.name"@, AnyView::Str(s.name));
        let named = if s.name.len() == 0 {
            base
        } else {
            with_entry(base, "scope.name"@, AnyView::Str(s.name))
        };
        law_read_after_write(named, "scope.version"@, AnyView::Str(s.version));
    }
}

/// Attributes that are laid over others are found as they are, and of the others those whose names they
/// do not have.
pub proof fn law_attributes_are_overlaid(
    attrs: Seq<(Seq<char>, AnyView)>,
    over: Seq<(Seq<char>, AnyView)>,
    key: Seq<char>,
)
    requires
        ordered(attrs),
        ordered(over),
    ensures
        ordered(attrs_overlaid(attrs, over)),
        value_of(attrs_overlaid(attrs, over), key) == match value_of(over, key) {
            Some(v) => Some(v),
            None => value_of(attrs, key),
        },
    decreases over.len(),
{
    if over.len() > 0 {
        let before = over.drop_last();
        lemma_last_apart(over, key);
        law_attributes_are_overlaid(attrs, before, key);
        law_read_after_write(attrs_overlaid(attrs, before), over.last().0, over.last().1);
    }
}

} // verus!
