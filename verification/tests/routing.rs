use proxy_server::config::{
    Config, DirRoute, FileRoute, Invalid, JsonRoute, MockRoute, ProxyRoute, Route as Configured,
    RouteKind,
};
use proxy_server::handler::fs::FileRead;
use proxy_server::handler::json::{Persistence, State};
use proxy_server::handler::{merge_headers, Handler, HandlerError, HandlerKind, Outcome};
use proxy_server::method::{Method, MethodSet};
use proxy_server::request::Request;
use proxy_server::response::from_status;
use proxy_server::route::{fmt_panic_payload, Dispatch, Route, Router, RouterError};
use proxy_server::uri::{PathAndQuery, Uri};

fn request(method: &str, path: &str) -> Request {
    Request {
        method: Method::new(method).unwrap(),
        path: path.to_string(),
        content_type: None,
    }
}

fn route(pattern: &str, kind: RouteKind) -> Configured {
    Configured {
        route: Route::new(pattern.to_string()).unwrap(),
        rewrite_path: None,
        response_headers: Vec::new(),
        kind,
        methods: None,
    }
}

fn mock(pattern: &str, status: u16) -> Configured {
    route(pattern, RouteKind::Mock(MockRoute { status, body: None }))
}

fn methods(names: &[&str]) -> Option<MethodSet> {
    Some(MethodSet::parse(names.iter().map(|name| name.to_string()).collect()).unwrap())
}

fn header(name: &str, value: &str) -> (String, String) {
    (name.to_string(), value.to_string())
}

fn router(routes: Vec<Configured>) -> Router {
    Router::new(Config { routes }).unwrap()
}

fn status(dispatch: &Dispatch) -> u16 {
    match &dispatch.outcome {
        Outcome::Respond(response) => response.status,
        other => panic!("{:?}", other),
    }
}

fn served(router: &Router, method: &str, path: &str) -> u16 {
    status(&router.try_handle(&request(method, path)))
}

#[test]
fn most_specific_route_serves_in_any_order_of_registration() {
    let orders = [[0, 1, 2], [0, 2, 1], [1, 0, 2], [1, 2, 0], [2, 0, 1], [2, 1, 0]];
    let patterns = [("/a", 201), ("/*", 202), ("/**", 203)];
    for order in orders {
        let routes = order.iter().map(|&i| mock(patterns[i].0, patterns[i].1)).collect();
        let router = router(routes);
        assert_eq!(served(&router, "GET", "/a"), 201);
        assert_eq!(served(&router, "GET", "/a/"), 201);
        assert_eq!(served(&router, "GET", "/b"), 202);
        assert_eq!(served(&router, "GET", "/b/c"), 203);
        let dispatch = router.try_handle(&request("GET", "/a"));
        assert_eq!(dispatch.handler, Some(0));
        assert_eq!(router.handler(0).unwrap().route.path(), "/a");
        assert_eq!(router.handler(1).unwrap().route.path(), "/*");
        assert_eq!(router.handler(2).unwrap().route.path(), "/**");
        for k in 0..3 {
            assert_eq!(router.configured_at(k), order.iter().position(|&i| i == k));
        }
        assert_eq!(router.len(), 3);
        assert!(router.handler(3).is_none());
        assert_eq!(router.configured_at(3), None);
    }
}

#[test]
fn single_wildcard_matches_one_segment() {
    let router = router(vec![mock("/a/*/c", 201)]);
    assert_eq!(served(&router, "GET", "/a/x/c"), 201);
    assert_eq!(served(&router, "GET", "/a/x/c/"), 201);
    assert_eq!(served(&router, "GET", "/a/x/y/c"), 404);
    assert_eq!(served(&router, "GET", "/a/c"), 404);
    assert_eq!(served(&router, "GET", "/a/x/c/d"), 404);
}

#[test]
fn multi_wildcard_matches_one_or_more_segments() {
    let router = router(vec![mock("/a/**", 201)]);
    assert_eq!(served(&router, "GET", "/a/x/y/z"), 201);
    assert_eq!(served(&router, "GET", "/a/x"), 201);
    assert_eq!(served(&router, "GET", "/a"), 404);
    assert_eq!(served(&router, "GET", "/b/x"), 404);
}

#[test]
fn unmatched_path_is_not_found() {
    let router = router(vec![mock("/a", 201)]);
    let dispatch = router.try_handle(&request("GET", "/nothing"));
    assert_eq!(dispatch.handler, None);
    match dispatch.outcome {
        Outcome::Respond(response) => {
            assert_eq!(response.status, 404);
            assert!(response.headers.is_empty());
            assert!(response.body.is_empty());
        }
        other => panic!("{:?}", other),
    }
    let empty = Router::new(Config { routes: Vec::new() }).unwrap();
    assert_eq!(served(&empty, "GET", "/"), 404);
    assert_eq!(empty.len(), 0);
}

#[test]
fn ties_are_tried_in_the_order_of_the_configuration() {
    let router = router(vec![mock("/*/b", 201), mock("/a/*", 202), mock("/a/b", 203)]);
    assert_eq!(served(&router, "GET", "/a/b"), 203);
    assert_eq!(served(&router, "GET", "/x/b"), 201);
    assert_eq!(served(&router, "GET", "/a/x"), 202);
    assert_eq!(router.configured_at(0), Some(2));
    assert_eq!(router.configured_at(1), Some(0));
    assert_eq!(router.configured_at(2), Some(1));
    let same = self::router(vec![mock("/a", 201), mock("/a", 202)]);
    assert_eq!(served(&same, "GET", "/a"), 201);
    assert_eq!(same.try_handle(&request("GET", "/a")).handler, Some(0));
}

#[test]
fn request_falls_through_routes_that_decline() {
    let mut posts = mock("/site/index.html", 201);
    posts.methods = methods(&["POST"]);
    let files = route("/site/**", RouteKind::Dir(DirRoute { path: "/srv/www".to_string() }));
    let router = router(vec![files, posts]);
    let dispatch = router.try_handle(&request("GET", "/site/index.html"));
    assert_eq!(dispatch.handler, Some(1));
    match dispatch.outcome {
        Outcome::ReadFile { base, components } => {
            assert_eq!(base, "/srv/www");
            assert_eq!(components, vec!["site".to_string(), "index.html".to_string()]);
        }
        other => panic!("{:?}", other),
    }
    let dispatch = router.try_handle(&request("POST", "/site/index.html"));
    assert_eq!(dispatch.handler, Some(0));
    assert_eq!(status(&dispatch), 201);
    let dispatch = router.try_handle(&request("PUT", "/site/index.html"));
    assert_eq!(dispatch.handler, None);
    assert_eq!(status(&dispatch), 405);
}

#[test]
fn json_route_declines_delete() {
    let store = route(
        "/data/**",
        RouteKind::Json(JsonRoute { path: "/srv/data.json".to_string(), pretty: false }),
    );
    let router = router(vec![store]);
    let dispatch = router.try_handle(&request("DELETE", "/data/users"));
    assert_eq!(dispatch.handler, None);
    match dispatch.outcome {
        Outcome::Respond(response) => {
            assert_eq!(response.status, 405);
            assert!(response.headers.is_empty());
            assert!(response.body.is_empty());
        }
        other => panic!("{:?}", other),
    }
    let handler = router.handler(0).unwrap();
    match handler.handle(&request("DELETE", "/data/users")) {
        Outcome::Decline(response) => assert_eq!(response.status, 405),
        other => panic!("{:?}", other),
    }
}

#[test]
fn explicit_methods_reject_others() {
    let mut configured = mock("/a", 201);
    configured.methods = methods(&["GET", "post"]);
    let router = router(vec![configured]);
    assert_eq!(served(&router, "GET", "/a"), 201);
    assert_eq!(served(&router, "POST", "/a"), 201);
    assert_eq!(served(&router, "PUT", "/a"), 405);
    assert_eq!(router.try_handle(&request("PUT", "/a")).handler, None);
}

#[test]
fn explicit_methods_take_the_place_of_the_default() {
    let mut files = route("/f", RouteKind::File(FileRoute { path: "/srv/f".to_string() }));
    files.methods = methods(&["POST"]);
    let handler = Handler::new(files).unwrap();
    assert!(matches!(handler.handle(&request("GET", "/f")), Outcome::Decline(_)));
    assert!(matches!(handler.handle(&request("POST", "/f")), Outcome::Decline(_)));
    let files = route("/f", RouteKind::File(FileRoute { path: "/srv/f".to_string() }));
    let handler = Handler::new(files).unwrap();
    assert!(matches!(handler.handle(&request("GET", "/f")), Outcome::ReadFile { .. }));
    assert!(matches!(handler.handle(&request("POST", "/f")), Outcome::Decline(_)));
    assert!(matches!(handler.kind, HandlerKind::File(_)));
}

#[test]
fn json_route_asks_for_the_stored_document() {
    let mut store = route(
        "/data/**",
        RouteKind::Json(JsonRoute { path: "/srv/data.json".to_string(), pretty: true }),
    );
    store.rewrite_path = Some("/$1".to_string());
    store.response_headers = vec![header("cache-control", "no-store")];
    let router = router(vec![store]);
    let dispatch = router.try_handle(&request("GET", "/data/users/ann"));
    assert_eq!(dispatch.handler, Some(0));
    let pointer = match dispatch.outcome {
        Outcome::JsonGet { pointer } => pointer,
        other => panic!("{:?}", other),
    };
    assert_eq!(pointer, "/users/ann");
    let handler = router.handler(0).unwrap();
    let json = match &handler.kind {
        HandlerKind::Json(json) => json,
        other => panic!("{:?}", other),
    };
    assert!(json.config.pretty);
    let state = State::new(br#"{"users":{"ann":1}}"#).unwrap();
    let response = handler.finish(json.handle_get(&state, &pointer));
    assert_eq!(response.status, 200);
    assert_eq!(
        response.headers,
        vec![header("content-type", "application/json"), header("cache-control", "no-store")]
    );
    assert_eq!(response.body, b"1");

    let mut patch = request("PATCH", "/data/users");
    patch.content_type = Some("application/json".to_string());
    match router.try_handle(&patch).outcome {
        Outcome::JsonPatch { pointer } => assert_eq!(pointer, "/users"),
        other => panic!("{:?}", other),
    }
    patch.content_type = Some("text/plain".to_string());
    let dispatch = router.try_handle(&patch);
    assert_eq!(dispatch.handler, Some(0));
    match dispatch.outcome {
        Outcome::Respond(response) => {
            assert_eq!(response.status, 415);
            assert_eq!(response.headers, vec![header("cache-control", "no-store")]);
        }
        other => panic!("{:?}", other),
    }
}

#[test]
fn path_is_rewritten_with_the_groups_of_the_pattern() {
    let mut files = route("/static/*/**", RouteKind::Dir(DirRoute { path: "/srv".to_string() }));
    files.rewrite_path = Some("/$2/v$1".to_string());
    let handler = Handler::new(files).unwrap();
    match handler.handle(&request("GET", "/static/3/css/site.css")) {
        Outcome::ReadFile { base, components } => {
            assert_eq!(base, "/srv");
            assert_eq!(
                components,
                vec!["css".to_string(), "site.css".to_string(), "v3".to_string()]
            );
        }
        other => panic!("{:?}", other),
    }
    let rewriter = handler.path_rewriter.as_ref().unwrap();
    assert_eq!(rewriter.rewrite("/static/3/a"), "/a/v3");
    assert_eq!(rewriter.rewrite("/other"), "/other");
    assert_eq!(rewriter.replace, "/$2/v$1");
}

#[test]
fn proxy_route_forwards_the_rewritten_path() {
    let upstream = Uri {
        scheme: Some("http".to_string()),
        authority: Some("up:8080".to_string()),
        path_and_query: Some(PathAndQuery { path: "/api".to_string(), query: Some("v=1".to_string()) }),
    };
    let mut proxy = route("/svc/**", RouteKind::Proxy(ProxyRoute { uri: upstream }));
    proxy.rewrite_path = Some("/$1".to_string());
    let router = router(vec![proxy]);
    for method in ["GET", "DELETE", "POST"] {
        let dispatch = router.try_handle(&request(method, "/svc/users/7"));
        assert_eq!(dispatch.handler, Some(0));
        match dispatch.outcome {
            Outcome::Forward { target } => assert_eq!(target.uri(), "http://up:8080/api/users/7?v=1"),
            other => panic!("{:?}", other),
        }
    }
}

#[test]
fn mock_route_answers_with_status_body_and_headers() {
    let body: serde_json::Value = serde_json::from_str(r#"{ "ok": true }"#).unwrap();
    let mut configured =
        route("/health", RouteKind::Mock(MockRoute { status: 503, body: Some(body) }));
    configured.response_headers =
        vec![header("content-type", "application/problem+json"), header("x-a", "1")];
    let router = router(vec![configured]);
    let dispatch = router.try_handle(&request("TRACE", "/health"));
    assert_eq!(dispatch.handler, Some(0));
    match dispatch.outcome {
        Outcome::Respond(response) => {
            assert_eq!(response.status, 503);
            assert_eq!(
                response.headers,
                vec![header("content-type", "application/problem+json"), header("x-a", "1")]
            );
            assert_eq!(response.body, br#"{"ok":true}"#);
        }
        other => panic!("{:?}", other),
    }
}

#[test]
fn declined_request_gets_no_extra_headers() {
    let mut configured = mock("/a", 201);
    configured.methods = methods(&["GET"]);
    configured.response_headers = vec![header("x-a", "1")];
    let handler = Handler::new(configured).unwrap();
    match handler.handle(&request("POST", "/a")) {
        Outcome::Decline(response) => {
            assert_eq!(response.status, 405);
            assert!(response.headers.is_empty());
        }
        other => panic!("{:?}", other),
    }
    match handler.handle(&request("GET", "/a")) {
        Outcome::Respond(response) => {
            assert_eq!(response.status, 201);
            assert_eq!(response.headers, vec![header("x-a", "1")]);
        }
        other => panic!("{:?}", other),
    }
}

#[test]
fn responses_after_outside_work_carry_the_headers_of_the_route() {
    let extra = vec![header("content-type", "text/plain"), header("x-a", "1")];
    let mut files = route("/f/**", RouteKind::Dir(DirRoute { path: "/srv".to_string() }));
    files.response_headers = extra.clone();
    let files = Handler::new(files).unwrap();
    let response = files.respond_file("a.html", FileRead::Contents(b"hi".to_vec())).unwrap();
    assert_eq!(response.status, 200);
    assert_eq!(
        response.headers,
        vec![header("content-length", "2"), header("content-type", "text/plain"), header("x-a", "1")]
    );
    assert_eq!(response.body, b"hi");
    let response = files.respond_file("a.html", FileRead::NotFound).unwrap();
    assert_eq!(response.status, 404);
    assert_eq!(response.headers, extra);
    assert_eq!(files.respond_file("a.html", FileRead::Failed).unwrap().status, 500);
    let mut state = State::new(br#"{"a":{}}"#).unwrap();
    assert!(files.respond_get(&state, "/a").is_none());
    assert!(files.respond_patch(&mut state, b"[]", "/a").is_none());

    let mut store = route(
        "/d/**",
        RouteKind::Json(JsonRoute { path: "/srv/d.json".to_string(), pretty: false }),
    );
    store.response_headers = vec![header("x-a", "1")];
    let store = Handler::new(store).unwrap();
    let json_headers = vec![header("content-type", "application/json"), header("x-a", "1")];
    let patch = br#"[{"op":"add","path":"/b","value":1}]"#;
    let response = store.respond_patch(&mut state, patch, "/a").unwrap();
    assert_eq!(response.status, 200);
    assert_eq!(response.headers, json_headers);
    assert_eq!(response.body, br#"{"b":1}"#);
    assert_eq!(state.persistence(), Persistence::Signalled);
    let got = store.respond_get(&state, "/a").unwrap();
    assert_eq!(got.status, 200);
    assert_eq!(got.headers, json_headers);
    assert_eq!(got.body, response.body);
    let response = store.respond_patch(&mut state, patch, "/nothing").unwrap();
    assert_eq!(response.status, 404);
    assert_eq!(response.headers, vec![header("x-a", "1")]);
    assert_eq!(store.respond_get(&state, "/nothing").unwrap().status, 404);
    assert!(store.respond_file("a.html", FileRead::NotFound).is_none());
    for response in [store.respond_unread(), store.respond_unreachable()] {
        assert_eq!(response.status, 500);
        assert_eq!(response.headers, vec![header("x-a", "1")]);
        assert!(response.body.is_empty());
    }
}

#[test]
fn merged_headers() {
    let base = vec![header("a", "1"), header("b", "2"), header("a", "3"), header("c", "4")];
    let extra = vec![header("a", "5"), header("d", "6"), header("a", "7")];
    assert_eq!(
        merge_headers(base, &extra),
        vec![header("b", "2"), header("c", "4"), header("a", "5"), header("d", "6"), header("a", "7")]
    );
    assert_eq!(merge_headers(Vec::new(), &extra), extra);
    assert_eq!(merge_headers(vec![header("a", "1")], &Vec::new()), vec![header("a", "1")]);
    assert_eq!(
        merge_headers(vec![header("A", "1")], &vec![header("a", "2")]),
        vec![header("A", "1"), header("a", "2")]
    );
    let mut response = from_status(204);
    response.headers = vec![header("a", "1")];
    let mut configured = mock("/a", 201);
    configured.response_headers = vec![header("a", "2")];
    let finished = Handler::new(configured).unwrap().finish(response);
    assert_eq!(finished.status, 204);
    assert_eq!(finished.headers, vec![header("a", "2")]);
}

#[test]
fn router_reports_the_first_route_that_makes_no_handler() {
    let broken = |authority: Option<&str>| {
        route(
            "/p",
            RouteKind::Proxy(ProxyRoute {
                uri: Uri {
                    scheme: authority.map(|_| "http".to_string()),
                    authority: None,
                    path_and_query: None,
                },
            }),
        )
    };
    match Router::new(Config { routes: vec![mock("/a", 201), broken(Some("")), broken(None)] }) {
        Err(RouterError::Handler { index, error }) => {
            assert_eq!(index, 1);
            assert!(matches!(error, HandlerError::Settings(Invalid::MissingAuthority)));
        }
        other => panic!("{:?}", other),
    }
    match Router::new(Config { routes: vec![broken(None), mock("/a", 201)] }) {
        Err(RouterError::Handler { index, error }) => {
            assert_eq!(index, 0);
            assert!(matches!(error, HandlerError::Settings(Invalid::MissingScheme)));
        }
        other => panic!("{:?}", other),
    }
}

#[test]
fn pattern_that_the_engine_refuses_makes_no_rewriting_handler() {
    let pattern = "/**".repeat(400);
    assert!(Route::new(pattern.clone()).unwrap().to_regex().is_none());
    let mut configured = mock(&pattern, 200);
    configured.rewrite_path = Some("/$1".to_string());
    assert!(matches!(Handler::new(configured), Err(HandlerError::Rewrite)));
    assert!(Handler::new(mock(&pattern, 200)).is_ok());
    let mut configured = mock(&pattern, 200);
    configured.rewrite_path = Some("/$1".to_string());
    match Router::new(Config { routes: vec![mock("/a", 201), configured] }) {
        Err(RouterError::Handler { index, error }) => {
            assert_eq!(index, 1);
            assert!(matches!(error, HandlerError::Rewrite));
        }
        other => panic!("{:?}", other),
    }
}

#[test]
fn patterns_that_the_engine_refuses_make_no_router() {
    let routes = vec![mock("/a", 201), mock(&"/**".repeat(400), 202)];
    assert!(matches!(Router::new(Config { routes }), Err(RouterError::Matcher)));
}

#[test]
fn candidates_are_asked_in_the_order_given() {
    let mut posts = mock("/a", 201);
    posts.methods = methods(&["POST"]);
    let router = router(vec![posts, mock("/*", 202), mock("/**", 203)]);
    let ask = |method: &str, candidates: Vec<usize>| {
        let dispatch = router.try_candidates(&request(method, "/a"), &candidates);
        (dispatch.handler, status(&dispatch))
    };
    assert_eq!(ask("GET", vec![0, 1, 2]), (Some(1), 202));
    assert_eq!(ask("POST", vec![0, 1, 2]), (Some(0), 201));
    assert_eq!(ask("GET", vec![2, 1, 0]), (Some(2), 203));
    assert_eq!(ask("GET", vec![0]), (None, 405));
    assert_eq!(ask("GET", vec![0, 0]), (None, 405));
    assert_eq!(ask("GET", Vec::new()), (None, 404));
    assert_eq!(ask("GET", vec![3, 7]), (None, 404));
    assert_eq!(ask("GET", vec![7, 0, 9]), (None, 405));
    assert_eq!(ask("GET", vec![7, 0, 9, 2]), (Some(2), 203));
}

#[test]
fn panic_payload_text() {
    assert_eq!(fmt_panic_payload(Some("index out of bounds".to_string())), "index out of bounds");
    assert_eq!(fmt_panic_payload(None), "Box<Any>");
}
