//! Paths on their way to a handler: rewriting the matched path, and reading
//! its percent-encoding.

use crate::matcher::{regex_pattern, regex_replace, regex_replaced};
use regex::Regex;
use vstd::prelude::*;

verus! {

/// The bytes that `text` stands for once each `%xx` is read as the byte `xx`,
/// taken as UTF-8; `None` where those bytes are not UTF-8.
pub uninterp spec fn percent_decoded(text: Seq<char>) -> Option<Seq<char>>;

/// `urlencoding::decode`: percent-decodes the text. A `%` that no two
/// hexadecimal digits follow stays as it is; the call fails only where the
/// decoded bytes are not UTF-8.
#[verifier::external_body]
pub(crate) fn decode(text: &str) -> (r: Option<String>)
    ensures
        match r {
            Some(decoded) => percent_decoded(text@) == Some(decoded@),
            None => percent_decoded(text@) is None,
        },
{
    match urlencoding::decode(text) {
        Ok(decoded) => Some(decoded),
        Err(_) => None,
    }
}

/// A compiled pattern and the template that its first match is replaced by.
#[derive(Debug)]
pub struct PathRewriter {
    pub regex: Regex,
    pub replace: String,
}

impl PathRewriter {
    /// A rewriter that replaces the match of `regex` by `replace`.
    pub fn new(regex: Regex, replace: String) -> (r: PathRewriter)
        ensures
            r.regex == regex,
            r.replace == replace,
    {
        PathRewriter { regex, replace }
    }

    /// What `rewrite` makes of `path`.
    pub open spec fn rewritten(&self, path: Seq<char>) -> Seq<char> {
        regex_replaced(regex_pattern(self.regex), path, self.replace@)
    }

    /// `path` with the leftmost match of the pattern replaced by the
    /// template, in which `$N` stands for the N-th capture group.
    pub fn rewrite(&self, path: &str) -> (r: String)
        ensures
            r@ == self.rewritten(path@),
    {
        regex_replace(&self.regex, path, self.replace.as_str())
    }
}

} // verus!
