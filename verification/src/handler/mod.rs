//! Handlers: what a route does with a request that matched its pattern.

pub mod fs;
pub mod json;
pub mod mock;
pub mod proxy;

use crate::config;
use crate::config::Invalid;
use crate::handler::fs::{file_answer, file_response, DirHandler, FileHandler, FileRead};
use crate::handler::json::{body_failure, patch_effect, JsonHandler, Persistence, State};
use crate::handler::mock::MockHandler;
use crate::handler::proxy::{transport_failure, ProxyHandler};
use crate::matcher::{regex_compiles, regex_pattern};
use crate::method::MethodFilter;
use crate::path::{percent_decoded, PathRewriter};
use crate::request::{Request, RequestView};
use crate::response;
use crate::response::{
    json_response, status_only, Response, ResponseView, INTERNAL_SERVER_ERROR,
    METHOD_NOT_ALLOWED,
};
use crate::route::Route;
use vstd::prelude::*;

verus! {

/// Scheme, authority, and path with query of the address that a request is
/// forwarded to.
#[derive(Debug)]
pub struct Target {
    pub scheme: String,
    pub authority: String,
    pub path_and_query: String,
}

/// What a handler makes of a request.
#[derive(Debug)]
pub enum Outcome {
    /// The final response.
    Respond(Response),
    /// The request is not for this handler, and this is the response to give
    /// where no other handler takes it.
    Decline(Response),
    /// The response is the file at `components` below `base`.
    ReadFile { base: String, components: Vec<String> },
    /// The response is what the upstream server answers at `target`.
    Forward { target: Target },
    /// The response is the part of the stored document at `pointer`.
    JsonGet { pointer: String },
    /// The request's body is a patch for the part of the stored document at
    /// `pointer`.
    JsonPatch { pointer: String },
}

/// What an outcome holds.
pub enum OutcomeView {
    Respond(ResponseView),
    Decline(ResponseView),
    ReadFile { base: Seq<char>, components: Seq<Seq<char>> },
    Forward { scheme: Seq<char>, authority: Seq<char>, path_and_query: Seq<char> },
    JsonGet { pointer: Seq<char> },
    JsonPatch { pointer: Seq<char> },
}

impl View for Outcome {
    type V = OutcomeView;

    open spec fn view(&self) -> OutcomeView {
        match self {
            Outcome::Respond(response) => OutcomeView::Respond(response@),
            Outcome::Decline(response) => OutcomeView::Decline(response@),
            Outcome::ReadFile { base, components } => OutcomeView::ReadFile {
                base: base@,
                components: components.deep_view(),
            },
            Outcome::Forward { target } => OutcomeView::Forward {
                scheme: target.scheme@,
                authority: target.authority@,
                path_and_query: target.path_and_query@,
            },
            Outcome::JsonGet { pointer } => OutcomeView::JsonGet { pointer: pointer@ },
            Outcome::JsonPatch { pointer } => OutcomeView::JsonPatch { pointer: pointer@ },
        }
    }
}

/// The logic of a route, by its kind.
#[derive(Debug)]
pub enum HandlerKind {
    File(FileHandler),
    Dir(DirHandler),
    Proxy(ProxyHandler),
    Json(JsonHandler),
    Mock(MockHandler),
}

/// Why a route makes no handler.
#[derive(Debug)]
pub enum HandlerError {
    /// The route rewrites paths, and the engine refuses the expression that
    /// its pattern compiles to.
    Rewrite,
    /// The settings of the route's kind are not acceptable.
    Settings(Invalid),
}

/// A route at work: the logic of its kind, the rewriter of its paths, its
/// method filter and the headers that it adds to its responses.
#[derive(Debug)]
pub struct Handler {
    pub kind: HandlerKind,
    pub path_rewriter: Option<PathRewriter>,
    pub response_headers: Vec<(String, String)>,
    pub method_filter: MethodFilter,
    pub route: Route,
}

/// Whether `list` has a header named `name`.
pub open spec fn has_name(list: Seq<(Seq<char>, Seq<char>)>, name: Seq<char>) -> bool {
    exists|i: int| 0 <= i < list.len() && (#[trigger] list[i]).0 == name
}

/// The headers of `base` whose names `extra` does not hold, in their order.
pub open spec fn without_names(
    base: Seq<(Seq<char>, Seq<char>)>,
    extra: Seq<(Seq<char>, Seq<char>)>,
) -> Seq<(Seq<char>, Seq<char>)>
    decreases base.len(),
{
    if base.len() == 0 {
        Seq::empty()
    } else if has_name(extra, base.last().0) {
        without_names(base.drop_last(), extra)
    } else {
        without_names(base.drop_last(), extra).push(base.last())
    }
}

/// `base` with `extra` merged in: each header of `extra` is there, and of
/// `base` those that `extra` does not name anew.
pub open spec fn merged(
    base: Seq<(Seq<char>, Seq<char>)>,
    extra: Seq<(Seq<char>, Seq<char>)>,
) -> Seq<(Seq<char>, Seq<char>)> {
    without_names(base, extra) + extra
}

/// Every header that goes into a merge by either side is named in what
/// comes out, every header of `extra` is in it as it is, and so is every
/// header of `base` that `extra` does not name.
pub proof fn lemma_merged_holds(
    base: Seq<(Seq<char>, Seq<char>)>,
    extra: Seq<(Seq<char>, Seq<char>)>,
)
    ensures
        forall|i: int| 0 <= i < extra.len() ==> merged(base, extra).contains(#[trigger] extra[i]),
        forall|i: int|
            0 <= i < base.len() && !has_name(extra, (#[trigger] base[i]).0) ==> merged(
                base,
                extra,
            ).contains(base[i]),
        forall|i: int|
            0 <= i < base.len() ==> has_name(merged(base, extra), (#[trigger] base[i]).0),
        forall|i: int|
            0 <= i < merged(base, extra).len() ==> base.contains(#[trigger] merged(base, extra)[i])
                || extra.contains(merged(base, extra)[i]),
    decreases base.len(),
{
    let kept = without_names(base, extra);
    let all = merged(base, extra);
    assert forall|i: int| 0 <= i < extra.len() implies all.contains(#[trigger] extra[i]) by {
        assert(all[kept.len() + i] == extra[i]);
    }
    if base.len() > 0 {
        let front = base.drop_last();
        let front_all = merged(front, extra);
        let front_kept = without_names(front, extra);
        lemma_merged_holds(front, extra);
        let last = base.last();
        assert forall|i: int| 0 <= i < base.len() implies has_name(
            all,
            (#[trigger] base[i]).0,
        ) by {
            if i < base.len() - 1 {
                assert(base[i] == front[i]);
                let k = choose|k: int|
                    0 <= k < front_all.len() && (#[trigger] front_all[k]).0 == front[i].0;
                if k < front_kept.len() {
                    assert(all[k] == front_all[k]);
                } else {
                    assert(all[k - front_kept.len() + kept.len()] == front_all[k]);
                }
            } else if has_name(extra, last.0) {
                let k = choose|k: int| 0 <= k < extra.len() && (#[trigger] extra[k]).0 == last.0;
                assert(all[kept.len() + k] == extra[k]);
            } else {
                assert(all[kept.len() - 1] == last);
            }
        }
        assert forall|i: int|
            0 <= i < base.len() && !has_name(extra, (#[trigger] base[i]).0) implies all.contains(
            base[i],
        ) by {
            if i < base.len() - 1 {
                assert(base[i] == front[i]);
                let k = choose|k: int| 0 <= k < front_all.len() && front_all[k] == front[i];
                if k < front_kept.len() {
                    assert(all[k] == front_all[k]);
                } else {
                    assert(all[k - front_kept.len() + kept.len()] == front_all[k]);
                }
            } else {
                assert(all[kept.len() - 1] == last);
            }
        }
        assert forall|i: int| 0 <= i < all.len() implies base.contains(#[trigger] all[i])
            || extra.contains(all[i]) by {
            if i >= kept.len() {
                assert(extra[i - kept.len()] == all[i]);
            } else if i < front_kept.len() {
                assert(all[i] == front_all[i]);
                if front.contains(front_all[i]) {
                    let k = choose|k: int| 0 <= k < front.len() && front[k] == front_all[i];
                    assert(base[k] == all[i]);
                }
            } else {
                assert(all[i] == last);
                assert(base[base.len() - 1] == last);
            }
        }
    }
}

/// Merges `extra` into `base`: a header of `base` whose name `extra` holds
/// gives way to the headers of `extra`, which follow those that stay. Names
/// are compared as they are written.
pub fn merge_headers(base: Vec<(String, String)>, extra: &Vec<(String, String)>) -> (r: Vec<
    (String, String),
>)
    ensures
        r.deep_view() == merged(base.deep_view(), extra.deep_view()),
{
    let mut result: Vec<(String, String)> = Vec::new();
    let mut i: usize = 0;
    proof {
        assert(base.deep_view().take(0) == Seq::<(Seq<char>, Seq<char>)>::empty());
        assert(result.deep_view() =~= Seq::empty());
    }
    while i < base.len()
        invariant
            i <= base.len(),
            result.deep_view() == without_names(base.deep_view().take(i as int), extra.deep_view()),
        decreases base.len() - i,
    {
        let mut named = false;
        let mut j: usize = 0;
        while j < extra.len()
            invariant
                i < base.len(),
                j <= extra.len(),
                named == exists|k: int| 0 <= k < j && (#[trigger] extra.deep_view()[k]).0 == base[i as int].0@,
            decreases extra.len() - j,
        {
            proof {
                assert(extra.deep_view()[j as int].0 == extra[j as int].0@);
            }
            if extra[j].0 == base[i].0 {
                named = true;
            }
            j = j + 1;
        }
        proof {
            let head = base.deep_view().take(i + 1);
            assert(head.drop_last() == base.deep_view().take(i as int));
            assert(head.last() == base.deep_view()[i as int]);
            assert(base.deep_view()[i as int].0 == base[i as int].0@);
            assert(named == has_name(extra.deep_view(), head.last().0));
        }
        if !named {
            let ghost before = result.deep_view();
            result.push((base[i].0.clone(), base[i].1.clone()));
            assert(result.deep_view() =~= before.push(base.deep_view()[i as int]));
        }
        i = i + 1;
    }
    let ghost kept = result.deep_view();
    let mut j: usize = 0;
    proof {
        assert(base.deep_view().take(i as int) == base.deep_view());
        assert(extra.deep_view().take(0) == Seq::<(Seq<char>, Seq<char>)>::empty());
    }
    while j < extra.len()
        invariant
            j <= extra.len(),
            result.deep_view() == kept + extra.deep_view().take(j as int),
        decreases extra.len() - j,
    {
        let ghost before = result.deep_view();
        result.push((extra[j].0.clone(), extra[j].1.clone()));
        proof {
            assert(result.deep_view() =~= before.push(extra.deep_view()[j as int]));
            assert(extra.deep_view().take(j + 1) == extra.deep_view().take(j as int).push(
                extra.deep_view()[j as int],
            ));
        }
        j = j + 1;
    }
    proof {
        assert(extra.deep_view().take(j as int) == extra.deep_view());
    }
    result
}

impl HandlerKind {
    /// The filter of a route that names no methods: `GET` for files and
    /// directories, `GET` and `PATCH` for JSON stores, every method for
    /// proxies and mocks.
    pub open spec fn default_methods(&self) -> Set<Seq<char>> {
        match self {
            HandlerKind::File(_) | HandlerKind::Dir(_) => set!["GET"@],
            HandlerKind::Json(_) => set!["GET"@, "PATCH"@],
            HandlerKind::Proxy(_) | HandlerKind::Mock(_) => Set::full(),
        }
    }

    /// The filter of a route of this kind that names no methods.
    pub fn default_method_filter(&self) -> (r: MethodFilter)
        ensures
            forall|method: Seq<char>| r.matches(method) == self.default_methods().contains(method),
    {
        match self {
            HandlerKind::File(_) | HandlerKind::Dir(_) => fs::default_method_filter(),
            HandlerKind::Proxy(_) => proxy::default_method_filter(),
            HandlerKind::Json(_) => json::default_method_filter(),
            HandlerKind::Mock(_) => mock::default_method_filter(),
        }
    }

    /// Whether this is the handler that `kind` configures.
    pub open spec fn built_from(&self, kind: config::RouteKind) -> bool {
        match (self, kind) {
            (HandlerKind::File(file), config::RouteKind::File(route)) => file.config == route,
            (HandlerKind::Dir(dir), config::RouteKind::Dir(route)) => dir.config == route,
            (HandlerKind::Proxy(proxy), config::RouteKind::Proxy(route)) => proxy.config()
                == route,
            (HandlerKind::Json(json), config::RouteKind::Json(route)) => json.config == route,
            (HandlerKind::Mock(mock), config::RouteKind::Mock(route)) => mock.config == route,
            _ => false,
        }
    }
}

/// The fault that keeps a route from making a handler, if any: of a proxy
/// route an address without scheme or authority, and of a route that
/// rewrites paths an expression that the engine refuses.
pub open spec fn handler_fault(route: config::Route) -> Option<HandlerError> {
    let settings = match route.kind {
        config::RouteKind::Proxy(upstream) => upstream.fault(),
        _ => None,
    };
    match settings {
        Some(reason) => Some(HandlerError::Settings(reason)),
        None => if route.rewrite_path is Some && !regex_compiles(route.route.expression()) {
            Some(HandlerError::Rewrite)
        } else {
            None
        },
    }
}

impl Handler {
    /// Whether this is the handler that `route` configures.
    pub open spec fn built_from(&self, route: config::Route) -> bool {
        &&& self.route == route.route
        &&& self.route.compiled()
        &&& self.response_headers == route.response_headers
        &&& self.kind.built_from(route.kind)
        &&& match route.methods {
            Some(methods) => self.method_filter == MethodFilter::MatchSet(methods),
            None => forall|method: Seq<char>|
                self.method_filter.matches(method) == self.kind.default_methods().contains(
                    method,
                ),
        }
        &&& match route.rewrite_path {
            Some(replace) => self.path_rewriter matches Some(rewriter) && rewriter.replace
                == replace && regex_pattern(rewriter.regex) == route.route.expression(),
            None => self.path_rewriter is None,
        }
    }

    /// The handler of a route. The methods that the route names take the
    /// place of the default filter of its kind.
    pub fn new(route: config::Route) -> (r: Result<Handler, HandlerError>)
        ensures
            match r {
                Ok(handler) => handler_fault(route) is None && handler.built_from(route),
                Err(e) => handler_fault(route) == Some(e),
            },
    {
        let config::Route { rewrite_path, route: pattern, kind, response_headers, methods } = route;
        let kind = match kind {
            config::RouteKind::File(file) => HandlerKind::File(FileHandler::new(file)),
            config::RouteKind::Dir(dir) => HandlerKind::Dir(DirHandler::new(dir)),
            config::RouteKind::Proxy(proxy) => match ProxyHandler::new(proxy) {
                Ok(handler) => HandlerKind::Proxy(handler),
                Err(reason) => {
                    return Err(HandlerError::Settings(reason));
                },
            },
            config::RouteKind::Json(json) => HandlerKind::Json(JsonHandler::new(json)),
            config::RouteKind::Mock(mock) => HandlerKind::Mock(MockHandler::new(mock)),
        };
        let path_rewriter = match rewrite_path {
            Some(replace) => match pattern.to_regex() {
                Some(regex) => Some(PathRewriter::new(regex, replace)),
                None => {
                    return Err(HandlerError::Rewrite);
                },
            },
            None => None,
        };
        let method_filter = match methods {
            Some(methods) => MethodFilter::MatchSet(methods),
            None => kind.default_method_filter(),
        };
        proof {
            use_type_invariant(&pattern);
        }
        Ok(Handler { path_rewriter, kind, response_headers, method_filter, route: pattern })
    }

    /// The path that the logic of the kind sees: the request's path, put
    /// through the rewriter where the route has one.
    pub open spec fn path_for(&self, path: Seq<char>) -> Seq<char> {
        match self.path_rewriter {
            Some(rewriter) => rewriter.rewritten(path),
            None => path,
        }
    }

    /// Whether `outcome` is what the logic of the kind may make of the
    /// request.
    pub open spec fn kind_handled(&self, request: RequestView, outcome: OutcomeView) -> bool {
        let path = self.path_for(request.path);
        match self.kind {
            HandlerKind::File(file) => outcome == file.outcome(request.method),
            HandlerKind::Dir(dir) => dir.handled(request.method, path, outcome),
            HandlerKind::Proxy(proxy) => outcome == proxy.outcome(path),
            HandlerKind::Json(_) => outcome == JsonHandler::outcome(
                request.method,
                request.content_type,
                path,
            ),
            HandlerKind::Mock(mock) => outcome == OutcomeView::Respond(mock.response()),
        }
    }

    /// `response` with the headers of the route merged in.
    pub open spec fn finished(&self, response: ResponseView) -> ResponseView {
        ResponseView {
            headers: merged(response.headers, self.response_headers.deep_view()),
            ..response
        }
    }

    /// `outcome` with the headers of the route merged into the response, where
    /// it is a final response.
    pub open spec fn completed(&self, outcome: OutcomeView) -> OutcomeView {
        match outcome {
            OutcomeView::Respond(response) => OutcomeView::Respond(self.finished(response)),
            other => other,
        }
    }

    /// Whether the handler leaves the request to the next one: its method
    /// does not pass the filter, or the logic of the kind does not take it.
    pub open spec fn declines(&self, request: RequestView) -> bool {
        ||| !self.method_filter.matches(request.method)
        ||| match self.kind {
            HandlerKind::File(_) | HandlerKind::Dir(_) => request.method != "GET"@,
            HandlerKind::Json(_) => percent_decoded(self.path_for(request.path)) is Some
                && request.method != "GET"@ && request.method != "PATCH"@,
            HandlerKind::Proxy(_) | HandlerKind::Mock(_) => false,
        }
    }

    /// Whether `outcome` is what the handler may make of the request: 405 and
    /// no more where the method does not pass the filter, and else what the
    /// logic of the kind makes of it, with the headers of the route merged
    /// into a final response.
    pub open spec fn handled(&self, request: RequestView, outcome: OutcomeView) -> bool {
        if !self.method_filter.matches(request.method) {
            outcome == OutcomeView::Decline(status_only(METHOD_NOT_ALLOWED))
        } else {
            exists|inner: OutcomeView|
                #[trigger] self.kind_handled(request, inner) && outcome == self.completed(inner)
        }
    }

    /// A handler declines exactly the requests that `declines` tells, and
    /// always with 405 and no more.
    pub proof fn lemma_declines(&self, request: RequestView, outcome: OutcomeView)
        requires
            self.handled(request, outcome),
        ensures
            outcome is Decline <==> self.declines(request),
            outcome is Decline ==> outcome == OutcomeView::Decline(
                status_only(METHOD_NOT_ALLOWED),
            ),
    {
    }

    /// A handler with the default filter of a JSON store declines every
    /// method but `GET` and `PATCH` with 405 and no more, and so does a
    /// handler with the methods `GET` and `POST` whatever is not one of them.
    pub proof fn lemma_method_not_allowed(
        &self,
        route: config::Route,
        request: RequestView,
        outcome: OutcomeView,
    )
        requires
            self.built_from(route),
            self.handled(request, outcome),
            ({
                ||| route.methods is None && route.kind is Json && request.method != "GET"@
                    && request.method != "PATCH"@
                ||| route.methods matches Some(methods) && !methods@.contains(request.method)
            }),
        ensures
            outcome == OutcomeView::Decline(status_only(METHOD_NOT_ALLOWED)),
    {
        if route.methods is None {
            assert(self.kind is Json);
            assert(!set!["GET"@, "PATCH"@].contains(request.method));
            assert(!self.kind.default_methods().contains(request.method));
        }
    }

    /// Merges the headers of the route into a response.
    pub fn finish(&self, response: Response) -> (r: Response)
        ensures
            r@ == self.finished(response@),
    {
        let Response { status, headers, body } = response;
        Response { status, headers: merge_headers(headers, &self.response_headers), body }
    }

    /// The response to a request for which the handler asked for a file,
    /// given the last name of the file's path and how reading it ended, with
    /// the headers of the route merged in; `None` where the handler serves
    /// no files.
    pub fn respond_file(&self, name: &str, read: FileRead) -> (r: Option<Response>)
        ensures
            match self.kind {
                HandlerKind::File(_) | HandlerKind::Dir(_) => r matches Some(response)
                    && response@ == self.finished(file_answer(name@, read)),
                _ => r is None,
            },
    {
        match &self.kind {
            HandlerKind::File(_) | HandlerKind::Dir(_) => Some(
                self.finish(file_response(name, read)),
            ),
            _ => None,
        }
    }

    /// The response to a `GET` for the part of the stored document at
    /// `pointer`, with the headers of the route merged in; `None` where the
    /// handler has no stored document.
    pub fn respond_get(&self, state: &State, pointer: &str) -> (r: Option<Response>)
        ensures
            match self.kind {
                HandlerKind::Json(_) => r matches Some(response) && response@ == self.finished(
                    JsonHandler::got(state@.document, pointer@),
                ),
                _ => r is None,
            },
    {
        match &self.kind {
            HandlerKind::Json(json) => Some(self.finish(json.handle_get(state, pointer))),
            _ => None,
        }
    }

    /// The response to a `PATCH` of the part of the stored document at
    /// `pointer` with the patch that `body` spells, with the headers of the
    /// route merged in; the store changes as `JsonHandler::handle_patch`
    /// says. `None`, and no change, where the handler has no stored
    /// document.
    pub fn respond_patch(&self, state: &mut State, body: &[u8], pointer: &str) -> (r: Option<
        Response,
    >)
        ensures
            match self.kind {
                HandlerKind::Json(_) => r matches Some(response) && match patch_effect(
                    old(state)@.document,
                    pointer@,
                    body@,
                ) {
                    Ok((document, part)) => {
                        &&& response@ == self.finished(json_response(part))
                        &&& final(state)@.document == document
                        &&& response@ == self.finished(
                            JsonHandler::got(final(state)@.document, pointer@),
                        )
                        &&& final(state)@.persistence == Persistence::Signalled
                    },
                    Err(status) => response@ == self.finished(status_only(status))
                        && *final(state) == *old(state),
                },
                _ => r is None && *final(state) == *old(state),
            },
    {
        match &self.kind {
            HandlerKind::Json(json) => Some(self.finish(json.handle_patch(state, body, pointer))),
            _ => None,
        }
    }

    /// The response where the upstream server of the route could not be
    /// reached: 500, with the headers of the route merged in.
    pub fn respond_unreachable(&self) -> (r: Response)
        ensures
            r@ == self.finished(status_only(INTERNAL_SERVER_ERROR)),
    {
        self.finish(transport_failure())
    }

    /// The response where the body of the request could not be read: 500,
    /// with the headers of the route merged in.
    pub fn respond_unread(&self) -> (r: Response)
        ensures
            r@ == self.finished(status_only(INTERNAL_SERVER_ERROR)),
    {
        self.finish(body_failure())
    }

    /// Turns away a request whose method does not pass the filter. Else
    /// rewrites the path where the route says so, lets the logic of the kind
    /// look at the request, and merges the headers of the route into a final
    /// response.
    pub fn handle(&self, request: &Request) -> (r: Outcome)
        ensures
            self.handled(request@, r@),
    {
        if !self.method_filter.is_match(&request.method) {
            return Outcome::Decline(response::from_status(METHOD_NOT_ALLOWED));
        }
        let path = match &self.path_rewriter {
            Some(path_rewriter) => path_rewriter.rewrite(request.path.as_str()),
            None => request.path.clone(),
        };
        let result = match &self.kind {
            HandlerKind::File(file) => file.handle(request),
            HandlerKind::Dir(dir) => dir.handle(request, path.as_str()),
            HandlerKind::Proxy(proxy) => proxy.handle(path.as_str()),
            HandlerKind::Json(json) => json.handle(request, path.as_str()),
            HandlerKind::Mock(mock) => Outcome::Respond(mock.handle()),
        };
        let ghost inner = result@;
        assert(self.kind_handled(request@, inner));
        let r = match result {
            Outcome::Respond(response) => Outcome::Respond(self.finish(response)),
            other => other,
        };
        assert(r@ == self.completed(inner));
        r
    }
}

} // verus!
