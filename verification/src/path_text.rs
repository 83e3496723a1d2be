//! Paths as they are written.
use vstd::prelude::*;
use vstd::string::StrSliceExecFns;

use crate::path::{
    OwnedSegment, OwnedTargetPath, OwnedValuePath, PathPrefix, SegmentView, TargetPathView,
};
use crate::text::{begins_with, digits_value, strip_text};

verus! {

/// How many digits a text begins with.
pub open spec fn digit_run(s: Seq<char>) -> nat
    decreases s.len(),
{
    if s.len() > 0 && '0' <= s[0] <= '9' {
        1 + digit_run(s.skip(1))
    } else {
        0
    }
}

/// The number that the digits at the start of a text denote.
pub open spec fn leading_number(s: Seq<char>) -> nat {
    digits_value(s.take(digit_run(s) as int))
}

/// Whether the number that a text begins with, after a minus sign or without one, is an `isize`.
pub open spec fn index_fits(s: Seq<char>) -> bool {
    if s.len() > 0 && s[0] == '-' {
        leading_number(s.skip(1)) <= isize::MAX + 1
    } else {
        leading_number(s) <= isize::MAX
    }
}

/// Whether each bracket of a text that opens outside of quotes is followed by a number that is an
/// `isize`. Within quotes a backslash goes with the character behind it.
pub open spec fn indices_fit(s: Seq<char>, quoted: bool) -> bool
    decreases s.len(),
{
    if s.len() == 0 {
        true
    } else if quoted && s[0] == '\\' {
        s.len() == 1 || indices_fit(s.skip(2), true)
    } else if quoted {
        indices_fit(s.skip(1), s[0] != '"')
    } else {
        (s[0] == '[' ==> index_fits(s.skip(1))) && indices_fit(s.skip(1), s[0] == '"')
    }
}

/// A text without the sign in front of it that makes it a path into the metadata.
pub open spec fn unprefixed(text: Seq<char>) -> Seq<char> {
    if begins_with(text, seq!['%']) {
        text.skip(1)
    } else {
        text
    }
}

/// The path that a text is read as, or, where it is none, the part of the text that is no path.
pub uninterp spec fn read_path(text: Seq<char>) -> Result<TargetPathView, Seq<char>>;

/// The path that a text is read as, by `vrl::path::parse_target_path`: the prefix and the segments
/// that it finds, or the text that its error carries. Both depend on the text alone. The prefix is
/// that of the metadata where the text begins with a percent sign, and an error carries the text
/// without that sign; what the segments are for a given text is not said. An index is added up in
/// an `isize`, so a text with a larger one is left out.
#[verifier::external_body]
fn parse_text(text: &str) -> (r: Result<OwnedTargetPath, String>)
    requires
        indices_fit(text@, false),
    ensures
        match r {
            Ok(p) => read_path(text@) == Ok::<TargetPathView, Seq<char>>(p@) && p@.prefix
                is Metadata == begins_with(text@, seq!['%']),
            Err(e) => read_path(text@) == Err::<TargetPathView, Seq<char>>(e@) && e@ == unprefixed(
                text@,
            ),
        },
{
    vrl::path::parse_target_path(text).map(|p| OwnedTargetPath {
        prefix: match p.prefix {
            vrl::path::PathPrefix::Event => PathPrefix::Event,
            vrl::path::PathPrefix::Metadata => PathPrefix::Metadata,
        },
        path: OwnedValuePath {
            segments: p.path.segments.into_iter().map(|s| match s {
                vrl::path::OwnedSegment::Field(f) => OwnedSegment::Field(f.to_string()),
                vrl::path::OwnedSegment::Index(i) => OwnedSegment::Index(i),
            }).collect(),
        },
    }).map_err(|e| match e { vrl::path::PathParseError::InvalidPathSyntax { path } => path })
}

/// That a text is no path.
#[derive(Debug)]
pub enum PathParseError {
    InvalidPathSyntax { path: String },
}

proof fn lemma_digits_grow(s: Seq<char>, k: int, n: int)
    requires
        0 <= k <= n <= s.len(),
    ensures
        digits_value(s.take(k)) <= digits_value(s.take(n)),
    decreases n - k,
{
    if k < n {
        lemma_digits_grow(s, k, n - 1);
        assert(s.take(n).drop_last() =~= s.take(n - 1));
    }
}

proof fn lemma_digit_run(s: Seq<char>, k: nat)
    requires
        k <= s.len(),
        forall|j: int| 0 <= j < k ==> '0' <= #[trigger] s[j] <= '9',
    ensures
        k <= digit_run(s) <= s.len(),
        k == s.len() || !('0' <= s[k as int] <= '9') ==> digit_run(s) == k,
    decreases s.len(),
{
    if s.len() > 0 {
        let rest = s.skip(1);
        if k > 0 {
            assert('0' <= s[0] <= '9');
            assert forall|j: int| 0 <= j < k - 1 implies '0' <= #[trigger] rest[j] <= '9' by {
                assert(rest[j] == s[j + 1]);
            }
            lemma_digit_run(rest, (k - 1) as nat);
        } else {
            lemma_digit_run(rest, 0);
        }
    }
}

/// Whether the number at a place of a text is at most `limit`.
fn number_fits(text: &str, at: usize, limit: u64) -> (r: bool)
    requires
        at <= text@.len(),
        text@.len() <= usize::MAX,
        limit <= i64::MAX as u64 + 1,
    ensures
        r == (leading_number(text@.skip(at as int)) <= limit),
{
    let len: usize = text.unicode_len();
    let ghost s = text@.skip(at as int);
    let mut value: u64 = 0;
    let mut i: usize = at;
    assert(s.take(0) =~= Seq::empty());
    while i < len
        invariant
            len == text@.len(),
            s == text@.skip(at as int),
            at <= i <= len,
            limit <= i64::MAX as u64 + 1,
            value == digits_value(s.take(i - at)),
            value <= limit,
            forall|j: int| 0 <= j < i - at ==> '0' <= #[trigger] s[j] <= '9',
        decreases len - i,
    {
        let c = text.get_char(i);
        assert(c == s[i - at]);
        if !('0' <= c && c <= '9') {
            proof {
                lemma_digit_run(s, (i - at) as nat);
            }
            return true;
        }
        let grown: u128 = value as u128 * 10 + (c as u32 - '0' as u32) as u128;
        assert(s.take(i + 1 - at).drop_last() =~= s.take(i - at));
        assert(grown == digits_value(s.take(i + 1 - at)));
        if grown > limit as u128 {
            proof {
                lemma_digit_run(s, (i + 1 - at) as nat);
                lemma_digits_grow(s, i + 1 - at, digit_run(s) as int);
            }
            return false;
        }
        value = grown as u64;
        i = i + 1;
    }
    proof {
        lemma_digit_run(s, (i - at) as nat);
    }
    true
}

/// Whether each index of a text is one that a path can have.
fn has_fitting_indices(text: &str) -> (r: bool)
    ensures
        r == indices_fit(text@, false),
{
    let len: usize = text.unicode_len();
    let most: u64 = isize::MAX as u64;
    let mut quoted = false;
    let mut i: usize = 0;
    assert(text@.skip(0) =~= text@);
    while i < len
        invariant
            len == text@.len(),
            i <= len,
            most == isize::MAX,
            indices_fit(text@, false) == indices_fit(text@.skip(i as int), quoted),
        decreases len - i,
    {
        let c = text.get_char(i);
        let ghost rest = text@.skip(i as int);
        assert(rest.skip(1) =~= text@.skip(i + 1));
        if quoted && c == '\\' {
            if i + 1 == len {
                return true;
            }
            assert(rest.skip(2) =~= text@.skip(i + 2));
            i = i + 2;
        } else if quoted {
            quoted = c != '"';
            i = i + 1;
        } else {
            if c == '[' {
                let fits = if i + 1 < len && text.get_char(i + 1) == '-' {
                    assert(rest.skip(1).skip(1) =~= text@.skip(i + 2));
                    number_fits(text, i + 2, most + 1)
                } else {
                    number_fits(text, i + 1, most)
                };
                if !fits {
                    return false;
                }
            }
            quoted = c == '"';
            i = i + 1;
        }
    }
    true
}

/// The path that a text is read as, or, where it is none, the part of the text that is no path. A
/// text with an index that is no `isize` is none.
pub open spec fn path_read(text: Seq<char>) -> Result<TargetPathView, Seq<char>> {
    if indices_fit(text, false) {
        read_path(text)
    } else {
        Err(unprefixed(text))
    }
}

/// The path that a text is read as.
pub fn parse_target_path(text: &str) -> (r: Result<OwnedTargetPath, PathParseError>)
    ensures
        match r {
            Ok(p) => path_read(text@) == Ok::<TargetPathView, Seq<char>>(p@) && p@.prefix
                is Metadata == begins_with(text@, seq!['%']),
            Err(PathParseError::InvalidPathSyntax { path }) => path_read(text@) == Err::<
                TargetPathView,
                Seq<char>,
            >(path@) && path@ == unprefixed(text@),
        },
{
    if has_fitting_indices(text) {
        match parse_text(text) {
            Ok(p) => Ok(p),
            Err(path) => Err(PathParseError::InvalidPathSyntax { path }),
        }
    } else {
        proof {
            reveal_strlit("%");
            assert("%"@ =~= seq!['%']);
        }
        let path = match strip_text(text, "%") {
            Some(rest) => rest.to_string(),
            None => text.to_string(),
        };
        Err(PathParseError::InvalidPathSyntax { path })
    }
}

/// A path into the event that goes through one field.
pub open spec fn one_field(name: Seq<char>) -> TargetPathView {
    TargetPathView { prefix: PathPrefix::Event, path: seq![SegmentView::Field(name)] }
}

/// A path into the event that goes through two fields.
pub open spec fn two_fields(first: Seq<char>, second: Seq<char>) -> TargetPathView {
    TargetPathView {
        prefix: PathPrefix::Event,
        path: seq![SegmentView::Field(first), SegmentView::Field(second)],
    }
}

/// A path through two fields.
pub fn two_field_path(first: &str, second: &str) -> (r: OwnedValuePath)
    ensures
        r@ == two_fields(first@, second@).path,
{
    let r = OwnedValuePath {
        segments: vec![
            OwnedSegment::Field(first.to_string()),
            OwnedSegment::Field(second.to_string()),
        ],
    };
    assert(r@ =~= two_fields(first@, second@).path);
    r
}

impl OwnedTargetPath {
    /// A path into the event that goes through one field.
    pub fn event_field(name: &str) -> (r: Self)
        ensures
            r@ == one_field(name@),
    {
        let r = OwnedTargetPath {
            prefix: PathPrefix::Event,
            path: OwnedValuePath { segments: vec![OwnedSegment::Field(name.to_string())] },
        };
        assert(r@.path =~= one_field(name@).path);
        r
    }

    /// A path into the event that goes through two fields.
    pub fn event_fields(first: &str, second: &str) -> (r: Self)
        ensures
            r@ == two_fields(first@, second@),
    {
        OwnedTargetPath { prefix: PathPrefix::Event, path: two_field_path(first, second) }
    }
}

} // verus!
