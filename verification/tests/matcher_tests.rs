use dev_null::errors::HttpPluginError;
use dev_null::matcher::{HttpRequest, RequestMatcher};

fn req(method: &str, path: &str, query: Option<&str>) -> HttpRequest {
    HttpRequest {
        method: method.to_string(),
        path: path.to_string(),
        query: query.map(|q| q.to_string()),
        headers: Vec::new(),
        body: None,
    }
}

fn req_with_headers(method: &str, path: &str, headers: Vec<(&str, &str)>) -> HttpRequest {
    HttpRequest {
        method: method.to_string(),
        path: path.to_string(),
        query: None,
        headers: headers
            .into_iter()
            .map(|(n, v)| (n.to_string(), v.to_string()))
            .collect(),
        body: None,
    }
}

fn req_with_body(method: &str, path: &str, body: &[u8]) -> HttpRequest {
    HttpRequest {
        method: method.to_string(),
        path: path.to_string(),
        query: None,
        headers: Vec::new(),
        body: Some(body.to_vec()),
    }
}

#[test]
fn test_request_matcher_empty() {
    let matcher = RequestMatcher::new(
        &Vec::new(),
        &".*".to_string(),
        &Vec::new(),
        &Vec::new(),
        &None,
    )
    .unwrap();
    assert!(matcher.request_matches(&req("OPTIONS", "/", None)));
    assert!(matcher.request_matches(&req("GET", "/", None)));
    assert!(matcher.request_matches(&req("PUT", "/", None)));
    assert!(matcher.request_matches(&req("DELETE", "/", None)));
    assert!(matcher.request_matches(&req("HEAD", "/", None)));
    assert!(matcher.request_matches(&req("TRACE", "/", None)));

    assert!(matcher.request_matches(&req("POST", "/", None)));
    assert!(matcher.request_matches(&req("CONNECT", "/", None)));
    assert!(matcher.request_matches(&req("PATCH", "/", None)));

    assert!(matcher.request_matches(&req("GET", "/foo/bar", None)));
}

#[test]
fn test_request_matcher_method() {
    let matcher = RequestMatcher::new(
        &vec!["GET".to_owned()],
        &".*".to_string(),
        &Vec::new(),
        &Vec::new(),
        &None,
    )
    .unwrap();
    assert!(matcher.request_matches(&req("GET", "/", None)));
    assert!(!matcher.request_matches(&req("PUT", "/", None)));
}

#[test]
fn test_request_matcher_path() {
    let matcher = RequestMatcher::new(
        &Vec::new(),
        &"/foo/bar".to_owned(),
        &Vec::new(),
        &Vec::new(),
        &None,
    )
    .unwrap();
    assert!(matcher.request_matches(&req("GET", "/foo/bar", None)));
    assert!(!matcher.request_matches(&req("GET", "/foo/barasdfa", None)));
    assert!(!matcher.request_matches(&req("GET", "/foo/bar/", None)));
}

#[test]
fn test_request_matcher_query() {
    let matcher = RequestMatcher::new(
        &Vec::new(),
        &".*".to_string(),
        &vec![("foo".to_string(), "bar".to_string())],
        &Vec::new(),
        &None,
    )
    .unwrap();
    assert!(!matcher.request_matches(&req("GET", "/foo/bar", None)));
    assert!(matcher.request_matches(&req("GET", "/test", Some("foo=bar"))));
    assert!(!matcher.request_matches(&req("GET", "/test", Some("foo=bar&foo=baz"))));
    assert!(!matcher.request_matches(&req("GET", "/test", Some("foo=baz"))));
}

#[test]
fn query_values_are_percent_decoded() {
    let matcher = RequestMatcher::new(
        &Vec::new(),
        &".*".to_string(),
        &vec![("a".to_string(), "b c".to_string())],
        &Vec::new(),
        &None,
    )
    .unwrap();
    assert!(matcher.request_matches(&req("GET", "/x", Some("a=b%20c"))));
    assert!(matcher.request_matches(&req("GET", "/x", Some("a=b+c"))));
    assert!(!matcher.request_matches(&req("GET", "/x", Some("a=b%20d"))));
}

#[test]
fn empty_path_matches_any_path() {
    let matcher = RequestMatcher::new(
        &Vec::new(),
        &String::new(),
        &Vec::new(),
        &Vec::new(),
        &None,
    )
    .unwrap();
    assert!(matcher.request_matches(&req("GET", "/", None)));
    assert!(matcher.request_matches(&req("GET", "/deeply/nested/path", None)));
}

#[test]
fn header_names_match_case_insensitively() {
    let matcher = RequestMatcher::new(
        &Vec::new(),
        &".*".to_string(),
        &Vec::new(),
        &vec![("X-Token".to_string(), "^abc$".to_string())],
        &None,
    )
    .unwrap();
    assert!(matcher.request_matches(&req_with_headers("GET", "/", vec![("x-token", "abc")])));
    assert!(matcher.request_matches(&req_with_headers("GET", "/", vec![("X-TOKEN", "abc")])));
    assert!(!matcher.request_matches(&req_with_headers("GET", "/", vec![("x-token", "abd")])));
    assert!(!matcher.request_matches(&req_with_headers("GET", "/", vec![("y-token", "abc")])));
    // one matching value among several under the same name is enough
    assert!(matcher.request_matches(&req_with_headers(
        "GET",
        "/",
        vec![("x-token", "zzz"), ("x-token", "abc")],
    )));
}

#[test]
fn graphql_operation_name_is_matched() {
    let matcher = RequestMatcher::new(
        &vec!["POST".to_string()],
        &".*".to_string(),
        &Vec::new(),
        &Vec::new(),
        &Some("^GetUser$".to_string()),
    )
    .unwrap();
    let ok = br#"{"operationName":"GetUser","query":"q"}"#;
    let other = br#"{"operationName":"GetOther","query":"q"}"#;
    assert!(matcher.request_matches(&req_with_body("POST", "/", ok)));
    assert!(!matcher.request_matches(&req_with_body("POST", "/", other)));
    assert!(!matcher.request_matches(&req("POST", "/", None)));
    assert!(!matcher.request_matches(&req_with_body("POST", "/", b"not json")));
    assert!(!matcher.request_matches(&req_with_body("POST", "/", b"\xff\xfe")));
    assert!(!matcher.request_matches(&req_with_body(
        "POST",
        "/",
        br#"{"operationName":42}"#
    )));
}

#[test]
fn invalid_pieces_fail_compilation() {
    let bad_regex = RequestMatcher::new(
        &Vec::new(),
        &"(".to_string(),
        &Vec::new(),
        &Vec::new(),
        &None,
    );
    assert!(matches!(bad_regex, Err(HttpPluginError::RegexError(_))));

    let bad_method = RequestMatcher::new(
        &vec!["GE T".to_string()],
        &".*".to_string(),
        &Vec::new(),
        &Vec::new(),
        &None,
    );
    assert!(matches!(bad_method, Err(HttpPluginError::InvalidMethod(_))));

    let bad_header = RequestMatcher::new(
        &Vec::new(),
        &".*".to_string(),
        &Vec::new(),
        &vec![("bad name".to_string(), ".*".to_string())],
        &None,
    );
    assert!(matches!(
        bad_header,
        Err(HttpPluginError::InvalidHeaderName(_))
    ));

    let bad_gql = RequestMatcher::new(
        &Vec::new(),
        &".*".to_string(),
        &Vec::new(),
        &Vec::new(),
        &Some("(".to_string()),
    );
    assert!(matches!(bad_gql, Err(HttpPluginError::RegexError(_))));
}
