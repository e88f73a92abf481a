//! The route pattern language: `/`-separated segments, each a literal, `*`
//! (one path segment) or `**` (one or more path segments).

use crate::matcher::{escaped, regex_compiles, regex_is_match, regex_matches, regex_new};
use vstd::prelude::*;

verus! {

/// Position of the first `/` in `s`, or the length of `s` where it has none.
pub open spec fn first_slash(s: Seq<char>) -> int
    decreases s.len(),
{
    if s.len() == 0 || s[0] == '/' {
        0
    } else {
        1 + first_slash(s.skip(1))
    }
}

/// The non-empty pieces between the `/` separators of `s`, in order.
pub open spec fn segments(s: Seq<char>) -> Seq<Seq<char>>
    decreases s.len(),
{
    if s.len() == 0 {
        Seq::empty()
    } else {
        let k = first_slash(s);
        let rest = if 0 <= k < s.len() {
            segments(s.skip(k + 1))
        } else {
            Seq::empty()
        };
        if k > 0 {
            seq![s.take(k)] + rest
        } else {
            rest
        }
    }
}

/// The views of a list of string slices.
pub open spec fn views(v: Seq<&str>) -> Seq<Seq<char>> {
    Seq::new(v.len(), |i: int| v[i]@)
}

proof fn lemma_first_slash_bounds(s: Seq<char>)
    ensures
        0 <= first_slash(s) <= s.len(),
        forall|k: int| 0 <= k < first_slash(s) ==> s[k] != '/',
        first_slash(s) < s.len() ==> s[first_slash(s)] == '/',
    decreases s.len(),
{
    if s.len() == 0 || s[0] == '/' {
    } else {
        lemma_first_slash_bounds(s.skip(1));
        assert forall|k: int| 0 <= k < first_slash(s) implies s[k] != '/' by {
            if k > 0 {
                assert(s[k] == s.skip(1)[k - 1]);
            }
        }
    }
}

proof fn lemma_first_slash_is(s: Seq<char>, k: int)
    requires
        0 <= k <= s.len(),
        forall|j: int| 0 <= j < k ==> s[j] != '/',
        k < s.len() ==> s[k] == '/',
    ensures
        first_slash(s) == k,
{
    lemma_first_slash_bounds(s);
    let f = first_slash(s);
    if f < k {
        assert(s[f] == '/');
    } else if f > k {
        assert(s[k] != '/');
    }
}

/// No segment of a path is empty, and none holds a `/`.
pub proof fn lemma_segments_are_pieces(s: Seq<char>)
    ensures
        forall|i: int|
            0 <= i < segments(s).len() ==> (#[trigger] segments(s)[i]).len() > 0 && forall|j: int|
                0 <= j < segments(s)[i].len() ==> segments(s)[i][j] != '/',
    decreases s.len(),
{
    if s.len() > 0 {
        lemma_first_slash_bounds(s);
        let k = first_slash(s);
        let rest = if 0 <= k < s.len() {
            segments(s.skip(k + 1))
        } else {
            Seq::empty()
        };
        if k < s.len() {
            lemma_segments_are_pieces(s.skip(k + 1));
        }
        assert forall|i: int| 0 <= i < segments(s).len() implies (#[trigger] segments(s)[i]).len()
            > 0 && forall|j: int| 0 <= j < segments(s)[i].len() ==> segments(s)[i][j] != '/' by {
            if k > 0 {
                if i == 0 {
                    assert(segments(s)[0] == s.take(k));
                } else {
                    assert(segments(s)[i] == rest[i - 1]);
                }
            } else {
                assert(segments(s)[i] == rest[i]);
            }
        }
    }
}

/// A path has at most as many segments as characters.
pub proof fn lemma_segments_len(s: Seq<char>)
    ensures
        segments(s).len() <= s.len(),
    decreases s.len(),
{
    if s.len() > 0 {
        lemma_first_slash_bounds(s);
        let k = first_slash(s);
        if k < s.len() {
            lemma_segments_len(s.skip(k + 1));
        }
    }
}

/// Splits a path at its `/` separators and drops the empty pieces.
pub fn split_segments<'a>(path: &'a str) -> (v: Vec<&'a str>)
    ensures
        views(v@) == segments(path@),
{
    let n = path.unicode_len();
    let mut v: Vec<&'a str> = Vec::new();
    let mut start: usize = 0;
    let mut i: usize = 0;
    proof {
        assert(path@.skip(0) == path@);
        assert(views(v@) + segments(path@) == segments(path@));
    }
    for c in it: path.chars()
        invariant
            n == path@.len(),
            i == it.index(),
            it.seq() == path@,
            start <= i <= n,
            forall|k: int| start <= k < i ==> path@[k] != '/',
            segments(path@) == views(v@) + segments(path@.skip(start as int)),
    {
        if c == '/' {
            proof {
                let rest = path@.skip(start as int);
                assert forall|j: int| 0 <= j < i - start implies rest[j] != '/' by {
                    assert(rest[j] == path@[start + j]);
                }
                assert(rest[i - start] == '/');
                lemma_first_slash_is(rest, i - start);
                assert(rest.skip(i - start + 1) == path@.skip(i + 1));
                assert(rest.take(i - start) == path@.subrange(start as int, i as int));
            }
            if start < i {
                let ghost before = views(v@);
                let segment = path.substring_char(start, i);
                v.push(segment);
                proof {
                    assert(views(v@) == before + seq![segment@]);
                    assert(before + (seq![segment@] + segments(path@.skip(i + 1))) == (before
                        + seq![segment@]) + segments(path@.skip(i + 1)));
                }
            }
            start = i + 1;
        }
        i = i + 1;
    }
    proof {
        let rest = path@.skip(start as int);
        if start < n {
            assert forall|j: int| 0 <= j < n - start implies rest[j] != '/' by {
                assert(rest[j] == path@[start + j]);
            }
            lemma_first_slash_is(rest, n - start);
            assert(rest.take(n - start) == path@.subrange(start as int, n as int));
        }
    }
    if start < n {
        let ghost before = views(v@);
        let segment = path.substring_char(start, n);
        v.push(segment);
        proof {
            assert(views(v@) == before + seq![segment@]);
        }
    }
    v
}

/// The expression that matches exactly the texts of allowed characters:
/// word characters and ``- . ~ % ! $ & ' ( ) * + , ; = : @``. What a word
/// character is, the engine says.
pub const SEGMENT_CLASS: &'static str = r"^[\w\-\.~%!$&'()*+,;=:@]*$";

/// Whether every character of a segment is allowed: the engine takes the
/// expression of the allowed characters, and that expression matches the
/// segment.
pub open spec fn segment_allowed(segment: Seq<char>) -> bool {
    regex_compiles(SEGMENT_CLASS@) && regex_matches(SEGMENT_CLASS@, segment)
}

/// Whether every segment of a pattern is allowed.
pub open spec fn pattern_valid(pattern: Seq<char>) -> bool {
    forall|i: int|
        0 <= i < segments(pattern).len() ==> segment_allowed(#[trigger] segments(pattern)[i])
}

/// The segment `*`, which stands for exactly one path segment.
pub open spec fn wildcard() -> Seq<char> {
    seq!['*']
}

/// The segment `**`, which stands for one or more path segments.
pub open spec fn multi_wildcard() -> Seq<char> {
    seq!['*', '*']
}

/// How often `segment` occurs among `list`.
pub open spec fn occurrences(list: Seq<Seq<char>>, segment: Seq<char>) -> nat
    decreases list.len(),
{
    if list.len() == 0 {
        0
    } else {
        occurrences(list.drop_last(), segment) + if list.last() == segment {
            1nat
        } else {
            0nat
        }
    }
}

/// A segment occurs at most as often as the list is long; it occurs not at
/// all exactly when no place of the list holds it.
pub proof fn lemma_occurrences(list: Seq<Seq<char>>, segment: Seq<char>)
    ensures
        occurrences(list, segment) <= list.len(),
        occurrences(list, segment) == 0 <==> forall|i: int|
            0 <= i < list.len() ==> #[trigger] list[i] != segment,
    decreases list.len(),
{
    if list.len() > 0 {
        let front = list.drop_last();
        lemma_occurrences(front, segment);
        if occurrences(list, segment) == 0 {
            assert forall|i: int| 0 <= i < list.len() implies #[trigger] list[i] != segment by {
                if i < list.len() - 1 {
                    assert(front[i] == list[i]);
                }
            }
        }
        if forall|i: int| 0 <= i < list.len() ==> #[trigger] list[i] != segment {
            assert forall|i: int| 0 <= i < front.len() implies #[trigger] front[i] != segment by {
                assert(front[i] == list[i]);
            }
            assert(list[list.len() - 1] != segment);
        }
    }
}

/// Whether no segment of a pattern is a wildcard.
pub open spec fn is_literal(pattern: Seq<char>) -> bool {
    forall|i: int|
        0 <= i < segments(pattern).len() ==> #[trigger] segments(pattern)[i] != wildcard()
            && segments(pattern)[i] != multi_wildcard()
}

/// A pattern of literal segments has no wildcards to count; a pattern
/// without `**` has none of them to count, whatever its `*` segments; and a
/// pattern with a `**` segment counts at least one.
pub proof fn lemma_wildcard_counts(pattern: Seq<char>)
    ensures
        is_literal(pattern) <==> wildcard_count(pattern) == 0 && multi_wildcard_count(pattern)
            == 0,
        multi_wildcard_count(pattern) >= 1 <==> exists|i: int|
            0 <= i < segments(pattern).len() && #[trigger] segments(pattern)[i]
                == multi_wildcard(),
        wildcard_count(pattern) + multi_wildcard_count(pattern) <= pattern.len(),
{
    let list = segments(pattern);
    lemma_occurrences(list, wildcard());
    lemma_occurrences(list, multi_wildcard());
    lemma_segments_len(pattern);
    lemma_disjoint_occurrences(list);
}

proof fn lemma_disjoint_occurrences(list: Seq<Seq<char>>)
    ensures
        occurrences(list, wildcard()) + occurrences(list, multi_wildcard()) <= list.len(),
    decreases list.len(),
{
    if list.len() > 0 {
        lemma_disjoint_occurrences(list.drop_last());
        assert(wildcard().len() != multi_wildcard().len());
    }
}

/// Number of `*` segments of a pattern.
pub open spec fn wildcard_count(pattern: Seq<char>) -> nat {
    occurrences(segments(pattern), wildcard())
}

/// Number of `**` segments of a pattern.
pub open spec fn multi_wildcard_count(pattern: Seq<char>) -> nat {
    occurrences(segments(pattern), multi_wildcard())
}

/// Whether every character of `segment` is allowed in a pattern.
pub fn is_allowed_segment(segment: &str) -> (r: bool)
    ensures
        r == segment_allowed(segment@),
{
    match regex_new(SEGMENT_CLASS) {
        Some(class) => regex_is_match(&class, segment),
        None => false,
    }
}

/// One path segment's worth of allowed characters, captured.
pub const SEGMENT_PATTERN: &'static str = r"/([\w\-\.~%!$&'()*+,;=:@]*)";

/// One or more `/`-joined path segments of allowed characters, captured.
pub const MULTI_SEGMENT_PATTERN: &'static str =
    r"/([\w\-\.~%!$&'()*+,;=:@]*(?:/[\w\-\.~%!$&'()*+,;=:@]*)*)";

/// The regular expression that one pattern segment compiles to: a capture
/// group for a wildcard, the escaped text behind a `/` for a literal.
pub open spec fn segment_regex(segment: Seq<char>) -> Seq<char> {
    if segment == wildcard() {
        SEGMENT_PATTERN@
    } else if segment == multi_wildcard() {
        MULTI_SEGMENT_PATTERN@
    } else {
        seq!['/'] + escaped(segment)
    }
}

/// The regular expressions of a list of segments, one after the other.
pub open spec fn segments_regex(list: Seq<Seq<char>>) -> Seq<char>
    decreases list.len(),
{
    if list.len() == 0 {
        Seq::empty()
    } else {
        segments_regex(list.drop_last()) + segment_regex(list.last())
    }
}

/// The regular expression of a pattern: anchored at both ends, and with an
/// optional trailing slash.
pub open spec fn pattern_regex(pattern: Seq<char>) -> Seq<char> {
    seq!['^'] + segments_regex(segments(pattern)) + seq!['/', '?', '$']
}

} // verus!
