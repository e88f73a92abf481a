//! The regular-expression engine that route patterns compile to.

use regex::{Regex, RegexSet};
use vstd::prelude::*;

verus! {

/// The characters that have a meaning of their own in a regular expression.
pub open spec fn is_meta_character(c: char) -> bool {
    ||| c == '\\'
    ||| c == '.'
    ||| c == '+'
    ||| c == '*'
    ||| c == '?'
    ||| c == '('
    ||| c == ')'
    ||| c == '|'
    ||| c == '['
    ||| c == ']'
    ||| c == '{'
    ||| c == '}'
    ||| c == '^'
    ||| c == '$'
    ||| c == '#'
    ||| c == '&'
    ||| c == '-'
    ||| c == '~'
}

/// `text` with a backslash in front of each meta character.
pub open spec fn escaped(text: Seq<char>) -> Seq<char>
    decreases text.len(),
{
    if text.len() == 0 {
        Seq::empty()
    } else if is_meta_character(text.last()) {
        escaped(text.drop_last()).push('\\').push(text.last())
    } else {
        escaped(text.drop_last()).push(text.last())
    }
}

/// `regex_syntax::escape_into` appends `text` to `buf`, writing a backslash
/// before each of the meta characters listed in [`is_meta_character`] and
/// every other character as it is.
pub assume_specification[ regex_syntax::escape_into ](text: &str, buf: &mut String)
    ensures
        final(buf)@ == old(buf)@ + escaped(text@),
;

/// `regex::Regex`, a compiled expression. Nothing of its inside is read.
#[verifier::external_type_specification]
#[verifier::external_body]
pub struct ExRegex(Regex);

/// The pattern text that a compiled expression was built from.
pub uninterp spec fn regex_pattern(re: Regex) -> Seq<char>;

/// Whether the engine accepts `pattern`: it is well formed and what it
/// compiles to stays within the engine's default size limit.
pub uninterp spec fn regex_compiles(pattern: Seq<char>) -> bool;

/// Whether the expression compiled from `pattern` matches anywhere in `text`.
pub uninterp spec fn regex_matches(pattern: Seq<char>, text: Seq<char>) -> bool;

/// `text` with the leftmost match of `pattern` replaced by `replacement`, in
/// which `$N` and `$name` stand for capture groups of the match; `text` itself
/// where nothing matches.
pub uninterp spec fn regex_replaced(
    pattern: Seq<char>,
    text: Seq<char>,
    replacement: Seq<char>,
) -> Seq<char>;

/// `Regex::new`: the compiled expression, or `None` where the engine refuses
/// the pattern. Whether it does depends on the pattern alone.
#[verifier::external_body]
pub(crate) fn regex_new(pattern: &str) -> (r: Option<Regex>)
    ensures
        r is Some <==> regex_compiles(pattern@),
        r matches Some(re) ==> regex_pattern(re) == pattern@,
{
    Regex::new(pattern).ok()
}

/// `Regex::is_match`: whether the expression matches anywhere in `text`.
#[verifier::external_body]
pub(crate) fn regex_is_match(re: &Regex, text: &str) -> (r: bool)
    ensures
        r == regex_matches(regex_pattern(*re), text@),
{
    re.is_match(text)
}

/// `Regex::replace` with a replacement string: replaces the leftmost match.
#[verifier::external_body]
pub(crate) fn regex_replace(re: &Regex, text: &str, replacement: &str) -> (r: String)
    ensures
        r@ == regex_replaced(regex_pattern(*re), text@, replacement@),
{
    re.replace(text, replacement).into_owned()
}

/// `regex::RegexSet`, several expressions compiled into one matcher. Nothing
/// of its inside is read.
#[verifier::external_type_specification]
#[verifier::external_body]
pub struct ExRegexSet(RegexSet);

/// The pattern texts that a set was built from, in their order.
pub uninterp spec fn regex_set_patterns(set: RegexSet) -> Seq<Seq<char>>;

/// Whether the engine accepts the patterns as one set: each is well formed
/// and what they compile to together stays within the default size limit.
pub uninterp spec fn regex_set_compiles(patterns: Seq<Seq<char>>) -> bool;

/// The positions, in ascending order, of the patterns among `patterns` that
/// match somewhere in `text`.
pub uninterp spec fn regex_set_matches(patterns: Seq<Seq<char>>, text: Seq<char>) -> Seq<usize>;

/// Whether `list` ascends strictly and stays below `bound`.
pub open spec fn ascending_below(list: Seq<usize>, bound: nat) -> bool {
    &&& forall|i: int| 0 <= i < list.len() ==> #[trigger] list[i] < bound
    &&& forall|i: int, j: int| 0 <= i < j < list.len() ==> #[trigger] list[i] < #[trigger] list[j]
}

/// `RegexSet::new`: the set of the patterns, or `None` where the engine
/// refuses them. Whether it does depends on the patterns alone.
#[verifier::external_body]
pub(crate) fn regex_set_new(patterns: &Vec<String>) -> (r: Option<RegexSet>)
    ensures
        r is Some <==> regex_set_compiles(patterns.deep_view()),
        r matches Some(set) ==> regex_set_patterns(set) == patterns.deep_view(),
{
    RegexSet::new(patterns).ok()
}

/// `RegexSet::matches`, walked from the front: the position of each pattern
/// of the set that matches in `text`, in ascending order.
#[verifier::external_body]
pub(crate) fn regex_set_match(set: &RegexSet, text: &str) -> (r: Vec<usize>)
    ensures
        r@ == regex_set_matches(regex_set_patterns(*set), text@),
        ascending_below(r@, regex_set_patterns(*set).len()),
{
    set.matches(text).into_iter().collect()
}

} // verus!
