//! What tells metrics apart.
use vstd::prelude::*;

use crate::any_value::{AnyValue, AnyView, OtelValueKind};
use crate::attributes::OtelAttributes;
use crate::keyed::{opt_view, value_of, with_entry, without_entry};

verus! {

/// Metric identity — the grouping key for metric aggregation.
#[derive(Debug, PartialEq)]
pub struct MetricIdentity {
    pub name: String,
    pub namespace: Option<String>,
    pub tags: Option<OtelAttributes>,
}

#[verifier::ext_equal]
pub struct IdentityView {
    pub name: Seq<char>,
    pub namespace: Option<Seq<char>>,
    pub tags: Option<Seq<(Seq<char>, AnyView)>>,
}

impl View for MetricIdentity {
    type V = IdentityView;

    open spec fn view(&self) -> IdentityView {
        IdentityView {
            name: self.name@,
            namespace: opt_view(self.namespace),
            tags: opt_view(self.tags),
        }
    }
}

/// The text that an attribute value is, where it is one.
pub open spec fn text_of(v: Option<AnyView>) -> Option<Seq<char>> {
    match v {
        Some(AnyView::Str(s)) => Some(s),
        _ => None,
    }
}

fn into_text(v: Option<AnyValue>) -> (r: Option<String>)
    ensures
        opt_view(r) == text_of(opt_view(v)),
{
    match v {
        Some(v) => match v.value {
            Some(OtelValueKind::StringValue(s)) => Some(s),
            _ => None,
        },
        None => None,
    }
}

/// The tags of an identity; none where they are missing.
pub open spec fn tags_or_none(tags: Option<Seq<(Seq<char>, AnyView)>>) -> Seq<(Seq<char>, AnyView)> {
    match tags {
        Some(t) => t,
        None => Seq::empty(),
    }
}

impl MetricIdentity {
    pub fn name(&self) -> (r: &str)
        ensures
            r@ == self@.name,
    {
        self.name.as_str()
    }

    pub fn name_mut(&mut self) -> (r: &mut String)
        ensures
            (*r)@ == old(self)@.name,
            final(self)@ == (IdentityView { name: (*final(r))@, ..old(self)@ }),
    {
        &mut self.name
    }

    pub fn namespace(&self) -> (r: Option<&String>)
        ensures
            match r {
                Some(s) => self@.namespace == Some(s@),
                None => self@.namespace is None,
            },
    {
        self.namespace.as_ref()
    }

    pub fn namespace_mut(&mut self) -> (r: &mut Option<String>)
        ensures
            opt_view(*r) == old(self)@.namespace,
            final(self)@ == (IdentityView { namespace: opt_view(*final(r)), ..old(self)@ }),
    {
        &mut self.namespace
    }

    pub fn tags(&self) -> (r: Option<&OtelAttributes>)
        ensures
            opt_view(r) == self@.tags,
    {
        self.tags.as_ref()
    }

    pub fn tags_mut(&mut self) -> (r: &mut Option<OtelAttributes>)
        ensures
            opt_view(*r) == old(self)@.tags,
            final(self)@ == (IdentityView { tags: opt_view(*final(r)), ..old(self)@ }),
    {
        &mut self.tags
    }

    /// Sets a tag to a text, and gives the text that it was before.
    pub fn replace_tag(&mut self, key: String, value: String) -> (r: Option<String>)
        ensures
            final(self)@ == (IdentityView {
                tags: Some(with_entry(tags_or_none(old(self)@.tags), key@, AnyView::Str(value@))),
                ..old(self)@
            }),
            opt_view(r) == text_of(value_of(tags_or_none(old(self)@.tags), key@)),
    {
        let mut attrs = match self.tags.take() {
            Some(t) => t,
            None => OtelAttributes::new(),
        };
        let old = attrs.insert(
            key,
            AnyValue { value: Some(OtelValueKind::StringValue(value)) },
        );
        self.tags = Some(attrs);
        into_text(old)
    }

    pub fn remove_tags(&mut self)
        ensures
            final(self)@ == (IdentityView { tags: None, ..old(self)@ }),
    {
        self.tags = None;
    }

    /// Removes a tag, and gives the text that it was. Where no tag is left, the tags are missing.
    pub fn remove_tag(&mut self, key: &str) -> (r: Option<String>)
        ensures
            final(self)@ == (IdentityView {
                tags: match old(self)@.tags {
                    Some(t) => if without_entry(t, key@).len() == 0 {
                        None
                    } else {
                        Some(without_entry(t, key@))
                    },
                    None => None,
                },
                ..old(self)@
            }),
            opt_view(r) == text_of(value_of(tags_or_none(old(self)@.tags), key@)),
    {
        match self.tags.take() {
            None => None,
            Some(mut attrs) => {
                let old = attrs.remove(key);
                if !attrs.is_empty() {
                    self.tags = Some(attrs);
                }
                into_text(old)
            },
        }
    }
}

} // verus!
