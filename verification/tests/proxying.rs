use proxy_server::config::{Invalid, ProxyRoute};
use proxy_server::handler::proxy::{
    append_path, join_path, transport_failure, InvalidUri, ProxyHandler,
};
use proxy_server::handler::{Outcome, Target};
use proxy_server::uri::{PathAndQuery, Uri};

fn parts(address: &str) -> Uri {
    let parsed: http::Uri = address.parse().unwrap();
    Uri {
        scheme: parsed.scheme_str().map(|text| text.to_string()),
        authority: parsed.authority().map(|authority| authority.as_str().to_string()),
        path_and_query: parsed.path_and_query().map(|path_and_query| PathAndQuery {
            path: path_and_query.path().to_string(),
            query: path_and_query.query().map(|text| text.to_string()),
        }),
    }
}

fn upstream(address: &str) -> ProxyHandler {
    ProxyHandler::new(ProxyRoute { uri: parts(address) }).unwrap()
}

fn base(path: &str, query: Option<&str>) -> PathAndQuery {
    PathAndQuery { path: path.to_string(), query: query.map(|text| text.to_string()) }
}

#[test]
fn base_with_trailing_slash() {
    let target = upstream("http://up/api/").get_uri("/x").unwrap();
    assert_eq!(target.uri(), "http://up/api/x");
}

#[test]
fn base_without_trailing_slash() {
    let target = upstream("http://up/api").get_uri("/x").unwrap();
    assert_eq!(target.uri(), "http://up/api/x");
}

#[test]
fn base_with_query() {
    let target = upstream("http://up/api?v=1").get_uri("/x").unwrap();
    assert_eq!(target.uri(), "http://up/api/x?v=1");
    assert_eq!(target.scheme, "http");
    assert_eq!(target.authority, "up");
    assert_eq!(target.path_and_query, "/api/x?v=1");
}

#[test]
fn address_without_path() {
    let handler = upstream("https://up.example:8443");
    assert_eq!(handler.get_uri("/x/y").unwrap().uri(), "https://up.example:8443/x/y");
    assert_eq!(handler.get_uri("x").unwrap().uri(), "https://up.example:8443/x");
    assert_eq!(handler.get_uri("").unwrap().uri(), "https://up.example:8443/");
}

#[test]
fn query_of_the_forwarded_path_is_not_merged() {
    let target = upstream("http://up/api?v=1").get_uri("/x?w=2").unwrap();
    assert_eq!(target.path_and_query, "/api/x?w=2?v=1");
}

#[test]
fn seam_has_one_slash() {
    assert_eq!(append_path(Some(&base("/api/", None)), "/x").unwrap(), "/api/x");
    assert_eq!(append_path(Some(&base("/api/", None)), "x").unwrap(), "/api/x");
    assert_eq!(append_path(Some(&base("/api", None)), "/x").unwrap(), "/api/x");
    assert_eq!(append_path(Some(&base("/api", None)), "x").unwrap(), "/api/x");
    assert_eq!(append_path(Some(&base("/", None)), "/").unwrap(), "/");
    assert_eq!(append_path(Some(&base("/", None)), "").unwrap(), "/");
    assert_eq!(append_path(Some(&base("/api", None)), "").unwrap(), "/api/");
    assert_eq!(append_path(Some(&base("/api/", None)), "//x").unwrap(), "/api//x");
    assert_eq!(append_path(Some(&base("/a", Some("k=v&l"))), "/b").unwrap(), "/a/b?k=v&l");
    assert_eq!(append_path(Some(&base("/a", Some(""))), "/b").unwrap(), "/a/b?");
}

#[test]
fn joined_text_before_it_is_parsed() {
    assert_eq!(join_path(Some(&base("/api/", None)), "/x"), "/api/x");
    assert_eq!(join_path(Some(&base("/api", Some("v=1"))), "x y#z"), "/api/x y#z?v=1");
    assert_eq!(join_path(Some(&base("", None)), ""), "/");
    assert_eq!(join_path(Some(&base("", Some("q"))), "/"), "/?q");
    assert_eq!(join_path(Some(&base("/é/", None)), "/ü"), "/é/ü");
    assert_eq!(join_path(None, "a b"), "a b");
}

#[test]
fn path_without_base_is_used_as_it_is() {
    assert_eq!(append_path(None, "/x/y?z=1").unwrap(), "/x/y?z=1");
    assert_eq!(append_path(None, "x").unwrap(), "x");
}

#[test]
fn fragment_is_dropped() {
    assert_eq!(append_path(None, "/x#part").unwrap(), "/x");
    assert_eq!(append_path(Some(&base("/api", None)), "/x#part").unwrap(), "/api/x");
}

#[test]
fn invalid_path_makes_no_address() {
    assert_eq!(append_path(None, "/a b").unwrap_err(), InvalidUri);
    assert_eq!(append_path(Some(&base("/api", None)), "/a b").unwrap_err(), InvalidUri);
    assert_eq!(append_path(Some(&base("/api", None)), "/\u{e9}").unwrap_err(), InvalidUri);
    let handler = upstream("http://up/api");
    assert!(handler.get_uri("/a b").is_err());
    match handler.handle("/a b") {
        Outcome::Respond(response) => {
            assert_eq!(response.status, 404);
            assert!(response.headers.is_empty());
            assert!(response.body.is_empty());
        }
        other => panic!("{:?}", other),
    }
}

#[test]
fn handler_forwards_to_the_address() {
    match upstream("http://up/api/").handle("/x") {
        Outcome::Forward { target } => {
            assert_eq!(target.scheme, "http");
            assert_eq!(target.authority, "up");
            assert_eq!(target.path_and_query, "/api/x");
        }
        other => panic!("{:?}", other),
    }
}

#[test]
fn address_needs_scheme_and_authority() {
    let no_scheme = Uri { scheme: None, authority: Some("up".to_string()), path_and_query: None };
    assert!(matches!(
        ProxyHandler::new(ProxyRoute { uri: no_scheme }),
        Err(Invalid::MissingScheme)
    ));
    let no_authority =
        Uri { scheme: Some("http".to_string()), authority: None, path_and_query: None };
    assert!(matches!(
        ProxyHandler::new(ProxyRoute { uri: no_authority }),
        Err(Invalid::MissingAuthority)
    ));
    let neither = Uri { scheme: None, authority: None, path_and_query: Some(base("/x", None)) };
    assert!(matches!(ProxyHandler::new(ProxyRoute { uri: neither }), Err(Invalid::MissingScheme)));
}

#[test]
fn target_as_text() {
    let target = Target {
        scheme: "https".to_string(),
        authority: "user@host:1".to_string(),
        path_and_query: "/p?q".to_string(),
    };
    assert_eq!(target.uri(), "https://user@host:1/p?q");
}

#[test]
fn unreachable_upstream_is_a_server_fault() {
    let response = transport_failure();
    assert_eq!(response.status, 500);
    assert!(response.headers.is_empty());
    assert!(response.body.is_empty());
}
