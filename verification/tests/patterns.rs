use proxy_server::pattern::{is_allowed_segment, split_segments};
use proxy_server::precedence::Precedence;
use proxy_server::route::{Route, RouteError};

const ONE: &str = r"/([\w\-\.~%!$&'()*+,;=:@]*)";
const MANY: &str = r"/([\w\-\.~%!$&'()*+,;=:@]*(?:/[\w\-\.~%!$&'()*+,;=:@]*)*)";

fn compile(pattern: &str) -> Route {
    Route::new(pattern.to_string()).unwrap()
}

#[test]
fn segments_are_the_non_empty_pieces() {
    assert_eq!(split_segments("/a/b"), vec!["a", "b"]);
    assert_eq!(split_segments("a//b/"), vec!["a", "b"]);
    assert_eq!(split_segments("///"), Vec::<&str>::new());
    assert_eq!(split_segments(""), Vec::<&str>::new());
    assert_eq!(split_segments("/*/**"), vec!["*", "**"]);
    assert_eq!(split_segments("/é/ü"), vec!["é", "ü"]);
}

#[test]
fn allowed_segment_characters() {
    assert!(is_allowed_segment("abc_XYZ-019.~%!$&'()*+,;=:@"));
    assert!(is_allowed_segment(""));
    assert!(!is_allowed_segment("a b"));
    assert!(!is_allowed_segment("a?b"));
    assert!(!is_allowed_segment("a#b"));
    assert!(!is_allowed_segment("a\\b"));
    assert!(!is_allowed_segment("a[b]"));
    assert!(!is_allowed_segment("a/b"));
    assert!(!is_allowed_segment("a\nb"));
    assert!(!is_allowed_segment("ab\n"));
    assert!(!is_allowed_segment("\"a\""));
    assert!(is_allowed_segment("é"));
    assert!(is_allowed_segment("日本語_٣"));
    assert!(!is_allowed_segment("é è"));
    assert!(!is_allowed_segment("→"));
}

#[test]
fn literal_pattern_compiles_to_anchored_expression() {
    let route = compile("/a/b");
    assert_eq!(route.regex(), "^/a/b/?$");
    assert_eq!(route.path(), "/a/b");
    assert_eq!(route.precedence(), Precedence { multi_wildcards: 0, wildcards: 0 });
}

#[test]
fn empty_pattern_compiles_to_root() {
    assert_eq!(compile("").regex(), "^/?$");
    assert_eq!(compile("/").regex(), "^/?$");
    assert_eq!(compile("//").regex(), "^/?$");
}

#[test]
fn literal_segments_are_escaped() {
    assert_eq!(compile("/a.b").regex(), r"^/a\.b/?$");
    assert_eq!(compile("/a+b/(c)").regex(), r"^/a\+b/\(c\)/?$");
    assert_eq!(compile("/x-y~z&w$").regex(), r"^/x\-y\~z\&w\$/?$");
    assert_eq!(compile("/a*").regex(), r"^/a\*/?$");
    assert_eq!(compile("/***").regex(), r"^/\*\*\*/?$");
    assert_eq!(compile("/a%20b").regex(), "^/a%20b/?$");
}

#[test]
fn wildcards_compile_to_capture_groups() {
    assert_eq!(compile("/a/*/c").regex(), format!("^/a{}/c/?$", ONE));
    assert_eq!(compile("/a/**").regex(), format!("^/a{}/?$", MANY));
    assert_eq!(compile("*/**/*").regex(), format!("^{}{}{}/?$", ONE, MANY, ONE));
}

#[test]
fn precedence_counts_wildcards() {
    assert_eq!(
        compile("/a/*/b/*").precedence(),
        Precedence { multi_wildcards: 0, wildcards: 2 }
    );
    assert_eq!(
        compile("/**/a/*/**").precedence(),
        Precedence { multi_wildcards: 2, wildcards: 1 }
    );
    assert_eq!(
        compile("/a*/b**").precedence(),
        Precedence { multi_wildcards: 0, wildcards: 0 }
    );
    for k in 0..5 {
        let pattern = "/*".repeat(k);
        assert_eq!(
            compile(&pattern).precedence(),
            Precedence { multi_wildcards: 0, wildcards: k }
        );
    }
}

#[test]
fn word_characters_are_those_of_the_engine() {
    let route = compile("/é");
    assert_eq!(route.regex(), "^/é/?$");
    assert_eq!(route.precedence(), Precedence { multi_wildcards: 0, wildcards: 0 });
    let route = compile("/é/*");
    assert_eq!(route.regex(), format!("^/é{}/?$", ONE));
    assert_eq!(route.precedence(), Precedence { multi_wildcards: 0, wildcards: 1 });
    let route = compile("/é/**");
    assert_eq!(route.regex(), format!("^/é{}/?$", MANY));
    assert_eq!(route.precedence(), Precedence { multi_wildcards: 1, wildcards: 0 });
    let re = compile("/é/*").to_regex().unwrap();
    assert!(re.is_match("/é/ü"));
    assert!(!re.is_match("/e/ü"));
}

#[test]
fn precedence_orders_by_multi_wildcards_first() {
    let literal = compile("/a/b").precedence();
    let single = compile("/a/*").precedence();
    let many_single = compile("/*/*/*").precedence();
    let multi = compile("/**").precedence();
    let both = compile("/**/*").precedence();
    assert!(literal < single);
    assert!(single < many_single);
    assert!(many_single < multi);
    assert!(multi < both);
    assert!(literal.le(&literal));
    assert!(literal.le(&single));
    assert!(!single.le(&literal));
    assert!(!(literal < literal));
    assert_eq!(Precedence::default(), literal);
}

#[test]
fn invalid_character_is_rejected_with_the_pattern() {
    for pattern in ["/a b", "/a/b?c", "/ok/#", "/[x]", "/a/→", "/\\", "/é/{id}"] {
        match Route::new(pattern.to_string()) {
            Err(RouteError::InvalidCharacter { pattern: named }) => assert_eq!(named, pattern),
            Ok(route) => panic!("`{}` compiled to `{}`", pattern, route.regex()),
        }
    }
    let error = Route::new("/a b".to_string()).unwrap_err();
    assert_eq!(error.message(), "invalid character in path `/a b`");
}

#[test]
fn compiled_expression_matches_as_the_pattern_says() {
    let re = compile("/a/*/c").to_regex().unwrap();
    assert!(re.is_match("/a/x/c"));
    assert!(re.is_match("/a/x/c/"));
    assert!(!re.is_match("/a/x/y/c"));
    assert!(!re.is_match("/a/x"));
    let re = compile("/a/**").to_regex().unwrap();
    assert!(re.is_match("/a/x/y/z"));
    assert!(re.is_match("/a/x"));
    assert!(!re.is_match("/a"));
    assert!(!re.is_match("/b/x"));
    let re = compile("/a.b").to_regex().unwrap();
    assert!(re.is_match("/a.b"));
    assert!(!re.is_match("/aXb"));
    assert_eq!(re.as_str(), r"^/a\.b/?$");
}
