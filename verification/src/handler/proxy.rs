//! Forwarding requests to an upstream server.

use crate::config::{Invalid, ProxyRoute};
use crate::handler::{Outcome, OutcomeView, Target};
use crate::method::{any, MethodFilter};
use crate::response;
use crate::response::{status_only, Response, INTERNAL_SERVER_ERROR, NOT_FOUND};
use crate::uri::PathAndQuery;
use vstd::prelude::*;

verus! {

/// A text that is no path with query.
#[derive(Debug, PartialEq, Eq, Structural)]
pub struct InvalidUri;

/// The path with query that `text` spells, without the fragment that may
/// follow it; `None` where `text` holds a character that neither a path nor a
/// query may hold.
pub uninterp spec fn path_and_query_parsed(text: Seq<char>) -> Option<Seq<char>>;

/// `http::uri::PathAndQuery::from_str`, and `as_str` on what it returns.
#[verifier::external_body]
fn parse_path_and_query(text: &str) -> (r: Result<String, InvalidUri>)
    ensures
        match r {
            Ok(parsed) => path_and_query_parsed(text@) == Some(parsed@),
            Err(_) => path_and_query_parsed(text@) is None,
        },
{
    match text.parse::<http::uri::PathAndQuery>() {
        Ok(parsed) => Ok(parsed.as_str().to_owned()),
        Err(_) => Err(InvalidUri),
    }
}

/// Forwards requests to an upstream address that has scheme and authority.
#[derive(Debug)]
pub struct ProxyHandler {
    config: ProxyRoute,
}

/// A proxy route takes every method.
pub fn default_method_filter() -> (r: MethodFilter)
    ensures
        r == MethodFilter::MatchAny,
{
    any()
}

/// Whether `text` ends in a slash.
pub open spec fn ends_with_slash(text: Seq<char>) -> bool {
    text.len() > 0 && text.last() == '/'
}

/// Whether `text` starts with a slash.
pub open spec fn starts_with_slash(text: Seq<char>) -> bool {
    text.len() > 0 && text[0] == '/'
}

/// `base` and `path` put together with one slash at the seam: a doubled
/// slash is dropped and a missing one is put in.
pub open spec fn joined(base: Seq<char>, path: Seq<char>) -> Seq<char> {
    if ends_with_slash(base) && starts_with_slash(path) {
        base.drop_last() + path
    } else if !ends_with_slash(base) && !starts_with_slash(path) {
        base.push('/') + path
    } else {
        base + path
    }
}

/// The text that `append_path` hands to the parser: the path as it is where
/// there is no base, and else the base path and the path put together,
/// followed by the base's query where it has one.
pub open spec fn appended(base: Option<PathAndQuery>, path: Seq<char>) -> Seq<char> {
    match base {
        Some(base) => joined(base.path@, path) + match base.query {
            Some(query) => seq!['?'] + query@,
            None => Seq::empty(),
        },
        None => path,
    }
}

/// The base that a borrowed base stands for.
pub open spec fn owned(base: Option<&PathAndQuery>) -> Option<PathAndQuery> {
    match base {
        Some(base) => Some(*base),
        None => None,
    }
}

/// `text` without the slash at its end, if it has one.
pub open spec fn without_trailing_slash(text: Seq<char>) -> Seq<char> {
    if ends_with_slash(text) {
        text.drop_last()
    } else {
        text
    }
}

/// `text` without the slash at its start, if it has one.
pub open spec fn without_leading_slash(text: Seq<char>) -> Seq<char> {
    if starts_with_slash(text) {
        text.skip(1)
    } else {
        text
    }
}

/// Putting a base and a path together leaves exactly one slash between what
/// the base holds before its last slash and what the path holds after its
/// first.
pub proof fn lemma_joined_single_slash(base: Seq<char>, path: Seq<char>)
    ensures
        joined(base, path) == without_trailing_slash(base).push('/') + without_leading_slash(path),
{
    if starts_with_slash(path) {
        assert(path == seq!['/'] + path.skip(1));
    }
    if ends_with_slash(base) {
        assert(base == base.drop_last().push('/'));
    }
    assert(joined(base, path) =~= without_trailing_slash(base).push('/') + without_leading_slash(
        path,
    ));
}

/// Puts the forwarded path behind the base path of the upstream address and
/// keeps the base's query. The query of the forwarded path is not merged. It
/// fails where what comes out is no path with query.
pub fn append_path(base: Option<&PathAndQuery>, path: &str) -> (r: Result<String, InvalidUri>)
    ensures
        match r {
            Ok(text) => path_and_query_parsed(appended(owned(base), path@)) == Some(text@),
            Err(_) => path_and_query_parsed(appended(owned(base), path@)) is None,
        },
{
    let text = join_path(base, path);
    parse_path_and_query(text.as_str())
}

/// The forwarded path behind the base path, with one slash at the seam, and
/// the base's query behind both.
pub fn join_path(base: Option<&PathAndQuery>, path: &str) -> (r: String)
    ensures
        r@ == appended(owned(base), path@),
{
    match base {
        Some(base) => {
            let base_len = base.path.as_str().unicode_len();
            let path_len = path.unicode_len();
            let base_slash = base_len > 0 && base.path.as_str().get_char(base_len - 1) == '/';
            let path_slash = path_len > 0 && path.get_char(0) == '/';
            let mut result;
            if base_slash && path_slash {
                result = String::from_str(base.path.as_str().substring_char(0, base_len - 1));
                assert(result@ == base.path@.drop_last());
            } else if !base_slash && !path_slash {
                result = base.path.clone();
                result.append("/");
                proof {
                    reveal_strlit("/");
                }
                assert(result@ == base.path@.push('/'));
            } else {
                result = base.path.clone();
            }
            result.append(path);
            assert(result@ == joined(base.path@, path@));
            match &base.query {
                Some(query) => {
                    result.append("?");
                    proof {
                        reveal_strlit("?");
                    }
                    result.append(query.as_str());
                    assert(result@ == joined(base.path@, path@) + (seq!['?'] + query@));
                },
                None => {
                    assert(result@ == joined(base.path@, path@) + Seq::<char>::empty());
                },
            }
            result
        },
        None => String::from_str(path),
    }
}

impl ProxyHandler {
    #[verifier::type_invariant]
    spec fn addressed(&self) -> bool {
        self.config.uri.scheme is Some && self.config.uri.authority is Some
    }

    /// The configuration.
    pub closed spec fn config(&self) -> ProxyRoute {
        self.config
    }

    /// A handler for an upstream address that has scheme and authority.
    pub fn new(config: ProxyRoute) -> (r: Result<ProxyHandler, Invalid>)
        ensures
            match r {
                Ok(handler) => config.fault() is None && handler.config() == config,
                Err(reason) => config.fault() == Some(reason),
            },
    {
        match config.validate() {
            Ok(()) => Ok(ProxyHandler { config }),
            Err(reason) => Err(reason),
        }
    }

    /// The address that a request for `path` is forwarded to, where there is
    /// one.
    pub open spec fn target(&self, path: Seq<char>) -> Option<OutcomeView> {
        match path_and_query_parsed(appended(self.config().uri.path_and_query, path)) {
            Some(path_and_query) => Some(
                OutcomeView::Forward {
                    scheme: self.config().uri.scheme->0@,
                    authority: self.config().uri.authority->0@,
                    path_and_query,
                },
            ),
            None => None,
        }
    }

    /// The upstream address for `path`: scheme and authority as configured,
    /// and `path` behind the base path. It fails where `path` makes no valid
    /// address.
    pub fn get_uri(&self, path: &str) -> (r: Result<Target, InvalidUri>)
        ensures
            match r {
                Ok(target) => self.target(path@) == Some((Outcome::Forward { target })@),
                Err(_) => self.target(path@) is None,
            },
    {
        proof {
            use_type_invariant(self);
        }
        let path_and_query = match append_path(self.config.uri.path_and_query.as_ref(), path) {
            Ok(text) => text,
            Err(e) => {
                return Err(e);
            },
        };
        let scheme = match &self.config.uri.scheme {
            Some(scheme) => scheme.clone(),
            None => String::new(),
        };
        let authority = match &self.config.uri.authority {
            Some(authority) => authority.clone(),
            None => String::new(),
        };
        Ok(Target { scheme, authority, path_and_query })
    }

    /// What the handler makes of a request for `path`.
    pub open spec fn outcome(&self, path: Seq<char>) -> OutcomeView {
        match self.target(path) {
            Some(forward) => forward,
            None => OutcomeView::Respond(status_only(NOT_FOUND)),
        }
    }

    /// Forwards the request to the upstream address for `path`, or answers
    /// 404 where `path` makes no valid address.
    pub fn handle(&self, path: &str) -> (r: Outcome)
        ensures
            r@ == self.outcome(path@),
    {
        match self.get_uri(path) {
            Ok(target) => Outcome::Forward { target },
            Err(_) => Outcome::Respond(response::from_status(NOT_FOUND)),
        }
    }
}

impl Target {
    /// The address as one text: scheme, `://`, authority, path and query.
    pub fn uri(&self) -> (r: String)
        ensures
            r@ == self.scheme@ + "://"@ + self.authority@ + self.path_and_query@,
    {
        let mut text = self.scheme.clone();
        text.append("://");
        text.append(self.authority.as_str());
        text.append(self.path_and_query.as_str());
        text
    }
}

/// The response where the upstream server could not be reached.
pub fn transport_failure() -> (r: Response)
    ensures
        r@ == status_only(INTERNAL_SERVER_ERROR),
{
    response::from_status(INTERNAL_SERVER_ERROR)
}

} // verus!
