//! Compiled routes.

use crate::config;
use crate::config::Config;
use crate::error;
use crate::handler::{handler_fault, Handler, HandlerError, Outcome, OutcomeView};
use crate::matcher::{
    ascending_below, regex_compiles, regex_new, regex_pattern, regex_set_compiles,
    regex_is_match, regex_set_match, regex_set_matches, regex_set_new, regex_set_patterns,
};
use crate::pattern::{
    is_literal, lemma_wildcard_counts, lemma_segments_len, multi_wildcard, multi_wildcard_count, occurrences,
    pattern_regex, pattern_valid, segment_allowed, segments, segments_regex, split_segments,
    views, wildcard, wildcard_count, MULTI_SEGMENT_PATTERN, SEGMENT_CLASS, SEGMENT_PATTERN,
};
use crate::precedence::{insert_at, lemma_ordered, ordered, tried_before, Precedence};
use crate::request::{Request, RequestView};
use crate::response::{status_only, METHOD_NOT_ALLOWED, NOT_FOUND};
use regex::{Regex, RegexSet};
use vstd::prelude::*;

verus! {

/// Why a pattern does not compile.
#[derive(Debug)]
pub enum RouteError {
    /// A segment of the pattern holds a character outside the allowed set.
    InvalidCharacter { pattern: String },
}

impl RouteError {
    /// A description that names the offending pattern.
    pub fn message(&self) -> (r: String)
        ensures
            self matches RouteError::InvalidCharacter { pattern } && r@
                == "invalid character in path `"@ + pattern@ + "`"@,
    {
        match self {
            RouteError::InvalidCharacter { pattern } => {
                let mut text = String::from_str("invalid character in path `");
                text.append(pattern.as_str());
                text.append("`");
                text
            },
        }
    }
}

/// A path pattern together with what it compiles to.
#[derive(Debug)]
pub struct Route {
    precedence: Precedence,
    path: String,
    regex: String,
}

impl View for Route {
    type V = Seq<char>;

    /// The pattern text.
    closed spec fn view(&self) -> Seq<char> {
        self.path@
    }
}

impl Route {
    #[verifier::type_invariant]
    pub(crate) open spec fn well_formed(&self) -> bool {
        self.compiled()
    }

    /// Compiles a pattern. It fails exactly when some segment holds a
    /// character that is not allowed; the engine says which characters are
    /// word characters.
    pub fn new(path: String) -> (r: Result<Route, RouteError>)
        ensures
            match r {
                Ok(route) => route@ == path@ && route.compiled(),
                Err(e) => !pattern_valid(path@) && e == (RouteError::InvalidCharacter {
                    pattern: path,
                }),
            },
    {
        let segs = split_segments(path.as_str());
        let total = path.as_str().unicode_len();
        let class = regex_new(SEGMENT_CLASS);
        let mut regex = String::from_str("^");
        let mut wildcards: usize = 0;
        let mut multi_wildcards: usize = 0;
        let ghost list = segments(path@);
        proof {
            reveal_strlit("^");
            lemma_segments_len(path@);
            assert(list.take(0) == Seq::<Seq<char>>::empty());
            assert(regex@ == seq!['^'] + segments_regex(list.take(0)));
        }
        let mut idx: usize = 0;
        while idx < segs.len()
            invariant
                list == segments(path@),
                views(segs@) == list,
                class is Some <==> regex_compiles(SEGMENT_CLASS@),
                class matches Some(re) ==> regex_pattern(re) == SEGMENT_CLASS@,
                list.len() <= total,
                idx <= segs.len(),
                regex@ == seq!['^'] + segments_regex(list.take(idx as int)),
                wildcards == occurrences(list.take(idx as int), wildcard()),
                multi_wildcards == occurrences(list.take(idx as int), multi_wildcard()),
                wildcards <= idx,
                multi_wildcards <= idx,
                forall|j: int| 0 <= j < idx ==> segment_allowed(#[trigger] list[j]),
            decreases segs.len() - idx,
        {
            let segment = segs[idx];
            proof {
                assert(segment@ == list[idx as int]);
                assert(list.take(idx + 1).drop_last() == list.take(idx as int));
                assert(list.take(idx + 1).last() == segment@);
            }
            let allowed = match &class {
                Some(class) => regex_is_match(class, segment),
                None => false,
            };
            if !allowed {
                return Err(RouteError::InvalidCharacter { pattern: path });
            }
            let len = segment.unicode_len();
            if len == 1 && segment.get_char(0) == '*' {
                assert(segment@ == wildcard());
                wildcards = wildcards + 1;
                regex.append(SEGMENT_PATTERN);
            } else if len == 2 && segment.get_char(0) == '*' && segment.get_char(1) == '*' {
                assert(segment@ == multi_wildcard());
                multi_wildcards = multi_wildcards + 1;
                regex.append(MULTI_SEGMENT_PATTERN);
            } else {
                assert(segment@ != wildcard());
                assert(segment@ != multi_wildcard());
                regex.append("/");
                proof {
                    reveal_strlit("/");
                }
                regex_syntax::escape_into(segment, &mut regex);
            }
            idx = idx + 1;
        }
        regex.append("/?$");
        proof {
            reveal_strlit("/?$");
            assert(list.take(idx as int) == list);
            assert("/?$"@ == seq!['/', '?', '$']);
            assert(regex@ == pattern_regex(path@));
            assert(pattern_valid(path@));
        }
        Ok(Route { precedence: Precedence { multi_wildcards, wildcards }, path, regex })
    }

    /// The pattern text.
    pub fn path(&self) -> (r: &str)
        ensures
            r@ == self@,
    {
        self.path.as_str()
    }

    /// The regular expression that the pattern compiles to.
    pub fn regex(&self) -> (r: &str)
        ensures
            r@ == self.expression(),
            self.compiled(),
    {
        proof {
            use_type_invariant(self);
        }
        self.regex.as_str()
    }

    /// The pattern as a compiled expression of its own, or `None` where the
    /// engine refuses the expression.
    pub fn to_regex(&self) -> (r: Option<Regex>)
        ensures
            r is Some <==> regex_compiles(self.expression()),
            r matches Some(re) ==> regex_pattern(re) == self.expression(),
            self.compiled(),
    {
        proof {
            use_type_invariant(self);
        }
        regex_new(self.regex.as_str())
    }

    /// The specificity score that the route holds.
    pub closed spec fn score(&self) -> Precedence {
        self.precedence
    }

    /// The regular expression that the route holds.
    pub closed spec fn expression(&self) -> Seq<char> {
        self.regex@
    }

    /// Whether the route holds what its pattern compiles to.
    pub open spec fn compiled(&self) -> bool {
        &&& pattern_valid(self@)
        &&& self.expression() == pattern_regex(self@)
        &&& self.score().multi_wildcards == multi_wildcard_count(self@)
        &&& self.score().wildcards == wildcard_count(self@)
    }

    /// The specificity score: the numbers of `**` and of `*` segments.
    pub fn precedence(&self) -> (r: Precedence)
        ensures
            r == self.score(),
            self.compiled(),
    {
        proof {
            use_type_invariant(self);
        }
        self.precedence
    }
}

/// Why a configuration makes no router.
#[derive(Debug)]
pub enum RouterError {
    /// The route at position `index` of the configuration makes no handler.
    Handler { index: usize, error: HandlerError },
    /// The engine refuses the expressions of the routes as one set.
    Matcher,
}

/// The handlers of the configured routes in the order in which they are
/// tried, and one matcher over all their patterns.
#[derive(Debug)]
pub struct Router {
    regex_set: RegexSet,
    handlers: Vec<Handler>,
    order: Vec<usize>,
}

/// Which handler took a request, by its position in the order of the router,
/// and what it made of it; or the response that stands where none took it.
#[derive(Debug)]
pub struct Dispatch {
    pub handler: Option<usize>,
    pub outcome: Outcome,
}

/// The scores of the routes of a configuration.
pub open spec fn scores_of(routes: Seq<config::Route>) -> Seq<Precedence> {
    Seq::new(routes.len(), |i: int| routes[i].route.score())
}

/// Whether the route at position `index` is the first of a configuration
/// that makes no handler.
pub open spec fn first_fault(routes: Seq<config::Route>, index: int) -> bool {
    &&& 0 <= index < routes.len()
    &&& handler_fault(routes[index]) is Some
    &&& forall|j: int| 0 <= j < index ==> handler_fault(#[trigger] routes[j]) is None
}

/// The expressions of the routes of a configuration, in the order in which
/// the routes are tried.
pub open spec fn expressions_of(routes: Seq<config::Route>) -> Seq<Seq<char>> {
    Seq::new(
        routes.len(),
        |k: int| routes[ordered(scores_of(routes))[k]].route.expression(),
    )
}

impl Router {
    /// The handlers, in the order in which they are tried.
    pub closed spec fn handlers(&self) -> Seq<Handler> {
        self.handlers@
    }

    /// For each handler, the position of its route in the configuration.
    pub closed spec fn order(&self) -> Seq<int> {
        Seq::new(self.order@.len(), |k: int| self.order@[k] as int)
    }

    /// The expressions that the matcher was built from.
    pub closed spec fn patterns(&self) -> Seq<Seq<char>> {
        regex_set_patterns(self.regex_set)
    }

    /// Whether the matcher holds the expression of each handler's route, in
    /// the order of the handlers.
    pub open spec fn matched(&self) -> bool {
        &&& self.patterns().len() == self.handlers().len()
        &&& forall|k: int|
            0 <= k < self.handlers().len() ==> #[trigger] self.patterns()[k]
                == self.handlers()[k].route.expression()
    }

    /// Whether the handlers stand in the order of their scores, ties in the
    /// order of the configuration.
    pub open spec fn sorted(&self) -> bool {
        &&& self.order().len() == self.handlers().len()
        &&& forall|k: int, l: int|
            0 <= k < l < self.handlers().len() ==> {
                let a = (#[trigger] self.handlers()[k]).route.score();
                let b = (#[trigger] self.handlers()[l]).route.score();
                a.spec_lt(b) || (a == b && self.order()[k] < self.order()[l])
            }
    }

    /// Whether the router is as `new` builds it.
    pub open spec fn wf(&self) -> bool {
        &&& self.matched()
        &&& self.sorted()
        &&& forall|k: int|
            0 <= k < self.handlers().len() ==> (#[trigger] self.handlers()[k]).route.compiled()
    }

    #[verifier::type_invariant]
    spec fn inv(&self) -> bool {
        self.wf()
    }

    /// Whether the router is the one of the routes `routes`: each handler is
    /// built from the route at its place in the order of the scores.
    pub open spec fn built_from(&self, routes: Seq<config::Route>) -> bool {
        &&& self.wf()
        &&& self.handlers().len() == routes.len()
        &&& self.order() == ordered(scores_of(routes))
        &&& forall|k: int|
            0 <= k < routes.len() ==> (#[trigger] self.handlers()[k]).built_from(
                routes[self.order()[k]],
            )
    }

    /// Builds the handlers of the routes, puts them in the order of their
    /// scores, and builds one matcher over their patterns. It fails on the
    /// first route that makes no handler, and where the engine refuses the
    /// patterns as one set.
    pub fn new(config: Config) -> (r: Result<Router, RouterError>)
        ensures
            match r {
                Ok(router) => {
                    &&& router.built_from(config.routes@)
                    &&& forall|j: int|
                        0 <= j < config.routes.len() ==> handler_fault(
                            #[trigger] config.routes[j],
                        ) is None
                    &&& regex_set_compiles(expressions_of(config.routes@))
                },
                Err(RouterError::Handler { index, error }) => first_fault(
                    config.routes@,
                    index as int,
                ) && handler_fault(config.routes[index as int]) == Some(error),
                Err(RouterError::Matcher) => {
                    &&& forall|j: int|
                        0 <= j < config.routes.len() ==> handler_fault(
                            #[trigger] config.routes[j],
                        ) is None
                    &&& !regex_set_compiles(expressions_of(config.routes@))
                },
            },
    {
        let ghost routes = config.routes@;
        let ghost scores = scores_of(routes);
        let mut handlers: Vec<Handler> = Vec::new();
        let mut order: Vec<usize> = Vec::new();
        let mut index: usize = 0;
        let total = config.routes.len();
        proof {
            assert(scores.take(0) == Seq::<Precedence>::empty());
        }
        for route in it: config.routes
            invariant
                it.seq() == routes,
                routes.len() == total,
                scores == scores_of(routes),
                index == it.index(),
                handlers.len() == index,
                order.len() == index,
                Seq::new(order@.len(), |k: int| order@[k] as int) == ordered(
                    scores.take(index as int),
                ),
                forall|k: int|
                    0 <= k < index ==> 0 <= #[trigger] order@[k] < index && handlers@[k].built_from(
                        routes[order@[k] as int],
                    ),
                forall|j: int| 0 <= j < index ==> handler_fault(#[trigger] routes[j]) is None,
        {
            let ghost front = Seq::new(order@.len(), |k: int| order@[k] as int);
            let ghost head = scores.take(index + 1);
            let handler = match Handler::new(route) {
                Ok(handler) => handler,
                Err(error) => {
                    return Err(RouterError::Handler { index, error });
                },
            };
            let score = handler.route.precedence();
            proof {
                assert(head.drop_last() == scores.take(index as int));
                assert(head.last() == score);
                lemma_ordered(scores.take(index as int));
            }
            let mut at: usize = handlers.len();
            proof {
                assert(front.take(at as int) == front);
            }
            while at > 0 && !handlers[at - 1].route.precedence().le(&score)
                invariant
                    at <= handlers.len(),
                    handlers.len() == index,
                    order.len() == index,
                    front == Seq::new(order@.len(), |k: int| order@[k] as int),
                    head == scores.take(index + 1),
                    index < scores.len(),
                    scores == scores_of(routes),
                    forall|k: int|
                        0 <= k < index ==> 0 <= #[trigger] order@[k] < index
                            && handlers@[k].built_from(routes[order@[k] as int]),
                    insert_at(head, front, score) == insert_at(head, front.take(at as int), score),
                decreases at,
            {
                proof {
                    let shorter = front.take(at as int);
                    assert(shorter.last() == front[at - 1]);
                    assert(head[front[at - 1]] == scores[front[at - 1]]);
                    assert(shorter.drop_last() == front.take(at - 1));
                }
                at = at - 1;
            }
            proof {
                let shorter = front.take(at as int);
                if at > 0 {
                    assert(shorter.last() == front[at - 1]);
                    assert(head[front[at - 1]] == scores[front[at - 1]]);
                }
                assert(insert_at(head, front, score) == at);
                assert(ordered(head) == front.insert(at as int, index as int));
            }
            handlers.insert(at, handler);
            order.insert(at, index);
            proof {
                assert(Seq::new(order@.len(), |k: int| order@[k] as int) == front.insert(
                    at as int,
                    index as int,
                ));
            }
            index = index + 1;
        }
        proof {
            assert(scores.take(index as int) == scores);
        }
        let mut patterns: Vec<String> = Vec::new();
        let mut k: usize = 0;
        while k < handlers.len()
            invariant
                k <= handlers.len(),
                patterns.len() == k,
                forall|j: int|
                    0 <= j < k ==> (#[trigger] patterns@[j])@
                        == handlers@[j].route.expression(),
            decreases handlers.len() - k,
        {
            patterns.push(String::from_str(handlers[k].route.regex()));
            k = k + 1;
        }
        proof {
            assert(patterns.deep_view() =~= expressions_of(routes)) by {
                assert(patterns.deep_view().len() == routes.len());
                assert forall|j: int| 0 <= j < routes.len() implies patterns.deep_view()[j]
                    == expressions_of(routes)[j] by {
                    assert(patterns.deep_view()[j] == patterns@[j]@);
                    assert(handlers@[j].built_from(routes[order@[j] as int]));
                    assert(ordered(scores)[j] == order@[j] as int);
                }
            }
        }
        let regex_set = match regex_set_new(&patterns) {
            Some(regex_set) => regex_set,
            None => {
                return Err(RouterError::Matcher);
            },
        };
        proof {
            lemma_ordered(scores);
            assert forall|a: int, b: int| 0 <= a < b < handlers.len() implies {
                let x = (#[trigger] handlers@[a]).route.score();
                let y = (#[trigger] handlers@[b]).route.score();
                x.spec_lt(y) || (x == y && order@[a] < order@[b])
            } by {
                assert(tried_before(scores, ordered(scores)[a], ordered(scores)[b]));
                assert(handlers@[a].built_from(routes[order@[a] as int]));
                assert(handlers@[b].built_from(routes[order@[b] as int]));
            }
        }
        proof {
            assert forall|j: int| 0 <= j < handlers.len() implies #[trigger] regex_set_patterns(
                regex_set,
            )[j] == handlers@[j].route.expression() by {
                assert(patterns.deep_view()[j] == patterns@[j]@);
            }
            assert forall|j: int| 0 <= j < handlers.len() implies (
            #[trigger] handlers@[j]).route.compiled() by {
                assert(handlers@[j].built_from(routes[order@[j] as int]));
            }
        }
        let router = Router { regex_set, handlers, order };
        proof {
            assert(router.order() == ordered(scores));
        }
        Ok(router)
    }

    /// The number of handlers.
    pub fn len(&self) -> (r: usize)
        ensures
            r == self.handlers().len(),
    {
        self.handlers.len()
    }

    /// The handler at position `index` of the order, where there is one.
    pub fn handler(&self, index: usize) -> (r: Option<&Handler>)
        ensures
            match r {
                Some(handler) => index < self.handlers().len() && *handler
                    == self.handlers()[index as int],
                None => index >= self.handlers().len(),
            },
    {
        if index < self.handlers.len() {
            Some(&self.handlers[index])
        } else {
            None
        }
    }

    /// The position in the configuration of the route whose handler stands
    /// at position `index` of the order, where there is one.
    pub fn configured_at(&self, index: usize) -> (r: Option<usize>)
        ensures
            self.wf(),
            match r {
                Some(position) => index < self.handlers().len() && position
                    == self.order()[index as int],
                None => index >= self.handlers().len(),
            },
    {
        proof {
            use_type_invariant(self);
        }
        if index < self.order.len() {
            Some(self.order[index])
        } else {
            None
        }
    }

    /// The positions of the handlers whose patterns match `path`, in the
    /// order in which they are tried.
    pub open spec fn candidates(&self, path: Seq<char>) -> Seq<usize> {
        regex_set_matches(self.patterns(), path)
    }

    /// Whether the handler at position `candidate` leaves the request to the
    /// next one: it declines it, or there is no such handler.
    pub open spec fn passes(&self, request: RequestView, candidate: usize) -> bool {
        candidate >= self.handlers().len() || self.handlers()[candidate as int].declines(request)
    }

    /// The status of the response where every candidate has passed: 405
    /// where a handler has declined, 404 where there was none to ask.
    pub open spec fn fallback(&self, candidates: Seq<usize>) -> u16 {
        if exists|j: int| 0 <= j < candidates.len() && #[trigger] candidates[j] < self.handlers().len() {
            METHOD_NOT_ALLOWED
        } else {
            NOT_FOUND
        }
    }

    /// Whether `handler` and `outcome` are what the router may make of
    /// `request` where `candidates` are the handlers to ask, in this order:
    /// the first candidate that does not pass takes the request, and where
    /// every candidate passes the response is the fallback.
    pub open spec fn dispatched_among(
        &self,
        request: RequestView,
        candidates: Seq<usize>,
        handler: Option<usize>,
        outcome: OutcomeView,
    ) -> bool {
        match handler {
            Some(taker) => exists|k: int|
                {
                    &&& 0 <= k < candidates.len()
                    &&& #[trigger] candidates[k] == taker
                    &&& !self.passes(request, taker)
                    &&& self.handlers()[taker as int].handled(request, outcome)
                    &&& forall|j: int| 0 <= j < k ==> self.passes(request, #[trigger] candidates[j])
                },
            None => {
                &&& forall|j: int|
                    0 <= j < candidates.len() ==> self.passes(request, #[trigger] candidates[j])
                &&& outcome == OutcomeView::Respond(status_only(self.fallback(candidates)))
            },
        }
    }

    /// Whether `handler` and `outcome` are what the router may make of
    /// `request`: the handlers whose patterns match the path are asked in
    /// the order of the router.
    pub open spec fn dispatched(
        &self,
        request: RequestView,
        handler: Option<usize>,
        outcome: OutcomeView,
    ) -> bool {
        &&& ascending_below(self.candidates(request.path), self.handlers().len())
        &&& self.dispatched_among(request, self.candidates(request.path), handler, outcome)
    }

    /// Hands the request to the handlers at the positions `candidates`, in
    /// this order, until one does not decline. A position without a handler
    /// is passed over.
    pub fn try_candidates(&self, request: &Request, candidates: &Vec<usize>) -> (r: Dispatch)
        ensures
            self.dispatched_among(request@, candidates@, r.handler, r.outcome@),
            !(r.outcome@ is Decline),
    {
        let mut response = error::from_status(NOT_FOUND);
        let mut k: usize = 0;
        while k < candidates.len()
            invariant
                k <= candidates.len(),
                self.handlers() == self.handlers@,
                forall|j: int| 0 <= j < k ==> self.passes(request@, #[trigger] candidates@[j]),
                response@ == status_only(self.fallback(candidates@.take(k as int))),
            decreases candidates.len() - k,
        {
            let taker = candidates[k];
            let ghost seen = candidates@.take(k as int);
            let ghost next = candidates@.take(k + 1);
            proof {
                assert(next[k as int] == taker);
                assert forall|j: int| 0 <= j < k implies seen[j] == next[j] by {}
            }
            if taker < self.handlers.len() {
                let outcome = self.handlers[taker].handle(request);
                proof {
                    self.handlers@[taker as int].lemma_declines(request@, outcome@);
                }
                match outcome {
                    Outcome::Decline(fallback) => {
                        response = fallback;
                    },
                    outcome => {
                        return Dispatch { handler: Some(taker), outcome };
                    },
                }
            } else {
                proof {
                    if self.fallback(next) == METHOD_NOT_ALLOWED {
                        let j = choose|j: int|
                            0 <= j < next.len() && #[trigger] next[j] < self.handlers().len();
                        assert(seen[j] == next[j]);
                    }
                }
            }
            k = k + 1;
        }
        proof {
            assert(candidates@.take(k as int) == candidates@);
        }
        Dispatch { handler: None, outcome: Outcome::Respond(response) }
    }

    /// Hands the request to the handlers whose patterns match its path, in
    /// the order of their scores, until one does not decline. Where all of
    /// them decline the response is 405, and 404 where no pattern matches.
    pub fn try_handle(&self, request: &Request) -> (r: Dispatch)
        ensures
            self.wf(),
            self.dispatched(request@, r.handler, r.outcome@),
            !(r.outcome@ is Decline),
    {
        proof {
            use_type_invariant(self);
        }
        let matches = regex_set_match(&self.regex_set, request.path.as_str());
        self.try_candidates(request, &matches)
    }
}

/// Where the patterns of handlers match, the fallback is 404 exactly where
/// none of them matches.
pub proof fn lemma_fallback(router: Router, candidates: Seq<usize>)
    requires
        ascending_below(candidates, router.handlers().len()),
    ensures
        router.fallback(candidates) == if candidates.len() == 0 {
            NOT_FOUND
        } else {
            METHOD_NOT_ALLOWED
        },
{
    if candidates.len() > 0 {
        assert(candidates[0] < router.handlers().len());
    }
}

/// A request whose method passes the filter of none of the handlers that
/// match its path is taken by no handler, and answered with 405 where a
/// pattern matches.
pub proof fn lemma_filtered_out(
    router: Router,
    request: RequestView,
    handler: Option<usize>,
    outcome: OutcomeView,
)
    requires
        router.dispatched(request, handler, outcome),
        router.candidates(request.path).len() > 0,
        forall|j: int|
            0 <= j < router.candidates(request.path).len() ==> !router.handlers()[#[trigger] router.candidates(
                request.path,
            )[j] as int].method_filter.matches(request.method),
    ensures
        handler is None,
        outcome == OutcomeView::Respond(status_only(METHOD_NOT_ALLOWED)),
{
    let candidates = router.candidates(request.path);
    lemma_fallback(router, candidates);
    if handler is Some {
        let taker = handler->0;
        let k = choose|k: int|
            {
                &&& 0 <= k < candidates.len()
                &&& #[trigger] candidates[k] == taker
                &&& !router.passes(request, taker)
                &&& router.handlers()[taker as int].handled(request, outcome)
                &&& forall|j: int| 0 <= j < k ==> router.passes(request, #[trigger] candidates[j])
            };
        assert(!router.handlers()[candidates[k] as int].method_filter.matches(request.method));
    }
}

/// In the order of a router, the handler of a route without wildcards stands
/// before the handler of any route with a wildcard, and the handler of a
/// route without `**` before the handler of any route with one.
pub proof fn lemma_literal_routes_first(router: Router, k: int, l: int)
    requires
        router.wf(),
        0 <= k < router.handlers().len(),
        0 <= l < router.handlers().len(),
        ({
            let a = router.handlers()[k].route;
            let b = router.handlers()[l].route;
            ||| is_literal(a@) && !is_literal(b@)
            ||| multi_wildcard_count(a@) == 0 && multi_wildcard_count(b@) >= 1
        }),
    ensures
        k < l,
{
    let a = router.handlers()[k].route;
    let b = router.handlers()[l].route;
    lemma_wildcard_counts(a@);
    lemma_wildcard_counts(b@);
    assert(a.compiled() && b.compiled());
    assert(a.score().spec_lt(b.score()));
    if l < k {
        assert(router.handlers()[l].route.score().spec_lt(router.handlers()[k].route.score())
            || router.handlers()[l].route.score() == router.handlers()[k].route.score());
    }
}

/// The text that stands for a fault in the middle of handling a request:
/// the message of the fault where it carries one.
pub fn fmt_panic_payload(message: Option<String>) -> (r: String)
    ensures
        match message {
            Some(text) => r == text,
            None => r@ == "Box<Any>"@,
        },
{
    match message {
        Some(text) => text,
        None => String::from_str("Box<Any>"),
    }
}

/// The handler that takes a request is the one that is tried first among
/// the handlers that match its path and do not decline: every other such
/// handler has a higher score, or the same score and a later place in the
/// configuration.
pub proof fn lemma_most_specific_taker(
    router: Router,
    request: RequestView,
    taker: usize,
    outcome: OutcomeView,
    other: usize,
)
    requires
        router.wf(),
        router.dispatched(request, Some(taker), outcome),
        router.candidates(request.path).contains(other),
        !router.handlers()[other as int].declines(request),
        other != taker,
    ensures
        ({
            let a = router.handlers()[taker as int].route.score();
            let b = router.handlers()[other as int].route.score();
            a.spec_lt(b) || (a == b && router.order()[taker as int] < router.order()[other as int])
        }),
{
    let candidates = router.candidates(request.path);
    let k = choose|k: int|
        {
            &&& 0 <= k < candidates.len()
            &&& #[trigger] candidates[k] == taker
            &&& !router.passes(request, taker)
            &&& router.handlers()[taker as int].handled(request, outcome)
            &&& forall|j: int| 0 <= j < k ==> router.passes(request, #[trigger] candidates[j])
        };
    let l = choose|l: int| 0 <= l < candidates.len() && candidates[l] == other;
    if l < k {
        assert(router.passes(request, candidates[l]));
    }
    assert(k < l);
    assert(candidates[k] < candidates[l]);
}

} // verus!
