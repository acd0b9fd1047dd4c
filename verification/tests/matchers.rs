use mock_api::matcher::{
    AnyMatcher, CompositeMatcher, HeaderMatcher, Matcher, MatcherResult, MethodMatcher,
    PathMatcher, QueryMatcher,
};
use mock_api::request::RequestData;
use mock_api::strmap::StrMap;

fn pairs(items: Vec<(&str, &str)>) -> Vec<(String, String)> {
    items
        .into_iter()
        .map(|(k, v)| (k.to_string(), v.to_string()))
        .collect()
}

fn method_request(method: &str) -> RequestData {
    RequestData::new(method, "/")
}

fn header_request(headers: Vec<(&str, &str)>) -> RequestData {
    RequestData::new("GET", "/").with_headers(
        headers
            .into_iter()
            .map(|(k, v)| (k.to_lowercase(), v.to_string()))
            .collect(),
    )
}

fn query_request(query: Vec<(&str, &str)>) -> RequestData {
    RequestData::new("GET", "/").with_query(pairs(query))
}

fn path_request(path: &str) -> RequestData {
    RequestData::new("GET", path)
}

fn full_request(
    method: &str,
    path: &str,
    headers: Vec<(&str, &str)>,
    query: Vec<(&str, &str)>,
) -> RequestData {
    RequestData::new(method, path)
        .with_headers(
            headers
                .into_iter()
                .map(|(k, v)| (k.to_lowercase(), v.to_string()))
                .collect(),
        )
        .with_query(pairs(query))
}

// --- MatcherResult ---

#[test]
fn test_matcher_result_no_match() {
    let result = MatcherResult::no_match();
    assert!(!result.matches);
    assert!(result.path_params.is_empty());
    assert_eq!(result.score, 0);
}

#[test]
fn test_matcher_result_match_with() {
    let mut params = StrMap::new();
    params.insert("id".to_string(), "42".to_string());
    let result = MatcherResult::match_with(params, 100);
    assert!(result.matches);
    assert_eq!(result.path_params.get("id"), Some(&"42".to_string()));
    assert_eq!(result.score, 100);
}

// --- MethodMatcher ---

#[test]
fn test_exact_method_match() {
    let matcher = MethodMatcher::new("GET");
    let result = matcher.match_request(&method_request("GET"));
    assert!(result.matches);
    assert_eq!(result.score, 10);
    assert!(result.path_params.is_empty());
}

#[test]
fn test_exact_method_match_lowercase() {
    let matcher = MethodMatcher::new("get");
    let result = matcher.match_request(&method_request("GET"));
    assert!(result.matches);
    assert_eq!(result.score, 10);
}

#[test]
fn test_exact_method_match_uppercase() {
    let matcher = MethodMatcher::new("POST");
    let result = matcher.match_request(&method_request("post"));
    assert!(result.matches);
    assert_eq!(result.score, 10);
}

#[test]
fn test_method_mismatch() {
    let matcher = MethodMatcher::new("GET");
    let result = matcher.match_request(&method_request("POST"));
    assert!(!result.matches);
    assert_eq!(result.score, 0);
}

#[test]
fn test_wildcard_match_any() {
    let matcher = MethodMatcher::new("*");
    let cases = ["GET", "POST", "PUT", "DELETE", "PATCH", "OPTIONS", "HEAD"];
    for method in cases {
        let result = matcher.match_request(&method_request(method));
        assert!(result.matches, "wildcard should match {method}");
        assert_eq!(result.score, 5);
    }
}

#[test]
fn test_wildcard_has_lower_score_than_exact() {
    let wildcard = MethodMatcher::new("*");
    let exact = MethodMatcher::new("GET");
    let req = method_request("GET");
    assert!(wildcard.match_request(&req).score < exact.match_request(&req).score);
}

#[test]
fn method_test_name() {
    let matcher = MethodMatcher::new("GET");
    assert_eq!(matcher.name(), "MethodMatcher");
}

// --- HeaderMatcher ---

#[test]
fn header_test_exact_match() {
    let matcher = HeaderMatcher::from_iter(pairs(vec![("content-type", "application/json")]));
    let result = matcher.match_request(&header_request(vec![("content-type", "application/json")]));
    assert!(result.matches);
    assert_eq!(result.score, 10);
}

#[test]
fn test_exact_match_case_insensitive_value() {
    let matcher = HeaderMatcher::from_iter(pairs(vec![("content-type", "APPLICATION/JSON")]));
    let result = matcher.match_request(&header_request(vec![("content-type", "application/json")]));
    assert!(result.matches);
}

#[test]
fn test_exact_match_case_insensitive_key() {
    let matcher = HeaderMatcher::from_iter(pairs(vec![("Content-Type", "application/json")]));
    let result = matcher.match_request(&header_request(vec![("content-type", "application/json")]));
    assert!(result.matches);
}

#[test]
fn header_test_value_mismatch() {
    let matcher = HeaderMatcher::from_iter(pairs(vec![("content-type", "text/plain")]));
    let result = matcher.match_request(&header_request(vec![("content-type", "application/json")]));
    assert!(!result.matches);
}

#[test]
fn test_header_not_found() {
    let matcher = HeaderMatcher::from_iter(pairs(vec![("x-custom", "value")]));
    let result = matcher.match_request(&header_request(vec![]));
    assert!(!result.matches);
}

#[test]
fn header_test_existence_check() {
    let matcher = HeaderMatcher::from_iter(pairs(vec![("authorization", "")]));
    let result = matcher.match_request(&header_request(vec![("authorization", "Bearer token123")]));
    assert!(result.matches);
    assert_eq!(result.score, 10);
}

#[test]
fn header_test_existence_check_missing() {
    let matcher = HeaderMatcher::from_iter(pairs(vec![("x-required", "")]));
    let result = matcher.match_request(&header_request(vec![]));
    assert!(!result.matches);
}

#[test]
fn test_multiple_headers_all_match() {
    let matcher = HeaderMatcher::from_iter(pairs(vec![
        ("content-type", "application/json"),
        ("accept", "application/json"),
    ]));
    let result = matcher.match_request(&header_request(vec![
        ("content-type", "application/json"),
        ("accept", "application/json"),
    ]));
    assert!(result.matches);
    assert_eq!(result.score, 20);
}

#[test]
fn test_multiple_headers_one_fails() {
    let matcher = HeaderMatcher::from_iter(pairs(vec![
        ("content-type", "application/json"),
        ("accept", "application/json"),
    ]));
    let result = matcher.match_request(&header_request(vec![
        ("content-type", "application/json"),
        ("accept", "text/html"),
    ]));
    assert!(!result.matches);
}

#[test]
fn test_partial_headers_in_request() {
    let matcher = HeaderMatcher::from_iter(pairs(vec![("content-type", "application/json")]));
    let result = matcher.match_request(&header_request(vec![
        ("content-type", "application/json"),
        ("x-extra", "should-be-ignored"),
    ]));
    assert!(result.matches);
}

#[test]
fn test_empty_headers_match_anything() {
    let matcher = HeaderMatcher::new(StrMap::new());
    let result = matcher.match_request(&header_request(vec![("anything", "anything")]));
    assert!(result.matches);
    assert_eq!(result.score, 0);
}

#[test]
fn test_score_per_header() {
    let matcher = HeaderMatcher::from_iter(pairs(vec![("a", "1"), ("b", "2"), ("c", "3")]));
    let result = matcher.match_request(&header_request(vec![("a", "1"), ("b", "2"), ("c", "3")]));
    assert_eq!(result.score, 30);
}

#[test]
fn header_test_name() {
    let matcher = HeaderMatcher::new(StrMap::new());
    assert_eq!(matcher.name(), "HeaderMatcher");
}

// --- QueryMatcher ---

#[test]
fn query_test_exact_match() {
    let matcher = QueryMatcher::from_iter(pairs(vec![("status", "active")]));
    let result = matcher.match_request(&query_request(vec![("status", "active")]));
    assert!(result.matches);
    assert_eq!(result.score, 10);
}

#[test]
fn test_exact_match_multiple() {
    let matcher = QueryMatcher::from_iter(pairs(vec![("status", "active"), ("sort", "name")]));
    let result = matcher.match_request(&query_request(vec![("status", "active"), ("sort", "name")]));
    assert!(result.matches);
    assert_eq!(result.score, 20);
}

#[test]
fn query_test_value_mismatch() {
    let matcher = QueryMatcher::from_iter(pairs(vec![("status", "active")]));
    let result = matcher.match_request(&query_request(vec![("status", "inactive")]));
    assert!(!result.matches);
}

#[test]
fn test_key_not_found() {
    let matcher = QueryMatcher::from_iter(pairs(vec![("page", "1")]));
    let result = matcher.match_request(&query_request(vec![]));
    assert!(!result.matches);
}

#[test]
fn query_test_existence_check() {
    let matcher = QueryMatcher::from_iter(pairs(vec![("token", "")]));
    let result = matcher.match_request(&query_request(vec![("token", "abc123")]));
    assert!(result.matches);
    assert_eq!(result.score, 10);
}

#[test]
fn query_test_existence_check_missing() {
    let matcher = QueryMatcher::from_iter(pairs(vec![("required", "")]));
    let result = matcher.match_request(&query_request(vec![]));
    assert!(!result.matches);
}

#[test]
fn test_extra_params_in_request_ignored() {
    let matcher = QueryMatcher::from_iter(pairs(vec![("page", "1")]));
    let result = matcher.match_request(&query_request(vec![("page", "1"), ("extra", "ignored")]));
    assert!(result.matches);
}

#[test]
fn test_empty_query_matches_anything() {
    let matcher = QueryMatcher::new(StrMap::new());
    let result = matcher.match_request(&query_request(vec![("any", "value")]));
    assert!(result.matches);
    assert_eq!(result.score, 0);
}

#[test]
fn test_empty_query_on_request_with_no_params() {
    let matcher = QueryMatcher::new(StrMap::new());
    let result = matcher.match_request(&query_request(vec![]));
    assert!(result.matches);
}

#[test]
fn test_score_per_param() {
    let matcher = QueryMatcher::from_iter(pairs(vec![("a", "1"), ("b", "2"), ("c", "3")]));
    let result = matcher.match_request(&query_request(vec![("a", "1"), ("b", "2"), ("c", "3")]));
    assert_eq!(result.score, 30);
}

#[test]
fn query_test_name() {
    let matcher = QueryMatcher::new(StrMap::new());
    assert_eq!(matcher.name(), "QueryMatcher");
}

// --- PathMatcher ---

#[test]
fn path_test_exact_match() {
    let matcher = PathMatcher::new("/users");
    let result = matcher.match_request(&path_request("/users"));
    assert!(result.matches);
    assert_eq!(result.score, 10);
    assert!(result.path_params.is_empty());
}

#[test]
fn test_exact_match_deep() {
    let matcher = PathMatcher::new("/api/v1/users");
    let result = matcher.match_request(&path_request("/api/v1/users"));
    assert!(result.matches);
    assert_eq!(result.score, 30);
    assert!(result.path_params.is_empty());
}

#[test]
fn test_exact_match_no_leading_slash() {
    let matcher = PathMatcher::new("users");
    let result = matcher.match_request(&path_request("users"));
    assert!(result.matches);
}

#[test]
fn test_exact_mismatch() {
    let matcher = PathMatcher::new("/users");
    let result = matcher.match_request(&path_request("/products"));
    assert!(!result.matches);
}

#[test]
fn test_single_param() {
    let matcher = PathMatcher::new("/users/:id");
    let result = matcher.match_request(&path_request("/users/42"));
    assert!(result.matches);
    assert_eq!(result.path_params.get("id"), Some(&"42".to_string()));
    assert_eq!(result.score, 45);
}

#[test]
fn test_multiple_params() {
    let matcher = PathMatcher::new("/users/:user_id/posts/:post_id");
    let result = matcher.match_request(&path_request("/users/10/posts/20"));
    assert!(result.matches);
    assert_eq!(result.path_params.get("user_id"), Some(&"10".to_string()));
    assert_eq!(result.path_params.get("post_id"), Some(&"20".to_string()));
    assert_eq!(result.score, 70);
}

#[test]
fn test_param_with_exact_segments() {
    let matcher = PathMatcher::new("/api/users/:id/comments");
    let result = matcher.match_request(&path_request("/api/users/99/comments"));
    assert!(result.matches);
    assert_eq!(result.path_params.get("id"), Some(&"99".to_string()));
}

#[test]
fn test_mixed_params_mismatch() {
    let matcher = PathMatcher::new("/users/:id/posts");
    let result = matcher.match_request(&path_request("/users/42/comments"));
    assert!(!result.matches);
}

#[test]
fn test_path_param_not_found_when_expected() {
    let matcher = PathMatcher::new("/users/:id");
    let result = matcher.match_request(&path_request("/users"));
    assert!(!result.matches);
}

#[test]
fn test_wildcard_suffix() {
    let matcher = PathMatcher::new("/static/*");
    let result = matcher.match_request(&path_request("/static/js/app.js"));
    assert!(result.matches);
    assert!(result.path_params.is_empty());
}

#[test]
fn test_wildcard_exact_suffix() {
    let matcher = PathMatcher::new("/static/*");
    let result = matcher.match_request(&path_request("/static"));
    assert!(result.matches);
}

#[test]
fn test_wildcard_at_root() {
    let matcher = PathMatcher::new("/*");
    let result = matcher.match_request(&path_request("/anything/goes/here"));
    assert!(result.matches);
}

#[test]
fn test_wildcard_mismatch() {
    let matcher = PathMatcher::new("/api/*");
    let result = matcher.match_request(&path_request("/other/path"));
    assert!(!result.matches);
}

#[test]
fn test_more_params_higher_score() {
    let single = PathMatcher::new("/users/:id");
    let multi = PathMatcher::new("/users/:user_id/posts/:post_id");
    let req = path_request("/users/1/posts/2");
    let single_score = single.match_request(&req).score;
    let multi_score = multi.match_request(&req).score;
    assert!(multi_score > single_score, "more params should score higher");
}

#[test]
fn test_exact_segments_higher_than_wildcard() {
    let wildcard = PathMatcher::new("/api/*");
    let exact = PathMatcher::new("/api/users");
    let req = path_request("/api/users");
    let wildcard_score = wildcard.match_request(&req).score;
    let exact_score = exact.match_request(&req).score;
    assert!(exact_score > wildcard_score, "exact should score higher than wildcard");
}

#[test]
fn test_empty_path() {
    let matcher = PathMatcher::new("/");
    let result = matcher.match_request(&path_request("/"));
    assert!(result.matches);
    assert_eq!(result.score, 10);
}

#[test]
fn test_root_literal() {
    let matcher = PathMatcher::new("/");
    let result = matcher.match_request(&path_request("/"));
    assert!(result.matches);
}

#[test]
fn test_double_slash_normalized() {
    let matcher = PathMatcher::new("/users");
    let result = matcher.match_request(&path_request("//users"));
    assert!(result.matches);
}

#[test]
fn test_trailing_slash_in_pattern_and_request() {
    let matcher = PathMatcher::new("/users/");
    let result = matcher.match_request(&path_request("/users/"));
    assert!(result.matches);
}

#[test]
fn path_test_name() {
    let matcher = PathMatcher::new("/users/:id");
    assert_eq!(matcher.name(), "PathMatcher");
}

// --- CompositeMatcher ---

#[test]
fn test_empty_composite_always_matches() {
    let composite = CompositeMatcher::new();
    let req = full_request("GET", "/anything", vec![], vec![]);
    let result = composite.match_request(&req);
    assert!(result.matches);
    assert_eq!(result.score, 0);
}

#[test]
fn test_all_match() {
    let composite = CompositeMatcher::new()
        .add_matcher(MethodMatcher::new("GET"))
        .add_matcher(PathMatcher::new("/users/:id"))
        .add_matcher(HeaderMatcher::from_iter(pairs(vec![("accept", "application/json")])))
        .add_matcher(QueryMatcher::from_iter(pairs(vec![("expand", "")])));
    let req = full_request(
        "GET",
        "/users/42",
        vec![("accept", "application/json")],
        vec![("expand", "true")],
    );
    let result = composite.match_request(&req);
    assert!(result.matches);
    assert_eq!(result.path_params.get("id"), Some(&"42".to_string()));
}

#[test]
fn test_one_fails_causes_no_match() {
    let composite = CompositeMatcher::new()
        .add_matcher(MethodMatcher::new("GET"))
        .add_matcher(PathMatcher::new("/users/:id"));
    let req = full_request("POST", "/users/42", vec![], vec![]);
    let result = composite.match_request(&req);
    assert!(!result.matches);
}

#[test]
fn test_params_merged() {
    let composite = CompositeMatcher::new()
        .add_matcher(PathMatcher::new("/users/:user_id/posts/:post_id"))
        .add_matcher(HeaderMatcher::from_iter(pairs(vec![("x-authenticated", "true")])));
    let req = full_request(
        "GET",
        "/users/10/posts/20",
        vec![("x-authenticated", "true")],
        vec![],
    );
    let result = composite.match_request(&req);
    assert!(result.matches);
    assert_eq!(result.path_params.get("user_id"), Some(&"10".to_string()));
    assert_eq!(result.path_params.get("post_id"), Some(&"20".to_string()));
}

#[test]
fn test_score_summed() {
    let composite = CompositeMatcher::new()
        .add_matcher(MethodMatcher::new("GET"))
        .add_matcher(PathMatcher::new("/users"));
    let req = full_request("GET", "/users", vec![], vec![]);
    let result = composite.match_request(&req);
    assert!(result.matches);
    assert_eq!(result.score, 20);
}

#[test]
fn test_single_matcher_composite() {
    let composite = CompositeMatcher::new().add_matcher(MethodMatcher::new("POST"));
    let req = full_request("POST", "/", vec![], vec![]);
    let result = composite.match_request(&req);
    assert!(result.matches);
}

#[test]
fn composite_test_name() {
    let composite = CompositeMatcher::new();
    assert_eq!(composite.name(), "CompositeMatcher");
}

#[test]
fn test_len_and_is_empty() {
    let empty: CompositeMatcher = CompositeMatcher::new();
    assert!(empty.is_empty());
    assert_eq!(empty.len(), 0);
    let composite = CompositeMatcher::new()
        .add_matcher(MethodMatcher::new("GET"))
        .add_matcher(PathMatcher::new("/"));
    assert!(!composite.is_empty());
    assert_eq!(composite.len(), 2);
}

// --- Further checks of the matchers ---

#[test]
fn composite_later_param_replaces_earlier() {
    let composite = CompositeMatcher::new()
        .add_matcher(PathMatcher::new("/a/:x"))
        .add_matcher(PathMatcher::new("/:x/b"));
    let result = composite.match_request(&path_request("/a/b"));
    assert!(result.matches);
    assert_eq!(result.path_params.get("x"), Some(&"a".to_string()));
    assert_eq!(result.path_params.len(), 1);
    assert_eq!(result.score, 90);
}

#[test]
fn any_matcher_checked_score_bound() {
    let m = AnyMatcher::Path(PathMatcher::new("/users/:id"));
    assert_eq!(m.checked_score_bound(), Some(45));
    let c = AnyMatcher::Composite(
        CompositeMatcher::new()
            .add_matcher(MethodMatcher::new("GET"))
            .add_matcher(PathMatcher::new("/users")),
    );
    assert_eq!(c.checked_score_bound(), Some(20));
}

#[test]
fn path_pattern_wildcard_counts_nothing() {
    let matcher = PathMatcher::new("/api/*");
    let result = matcher.match_request(&path_request("/api/users/1"));
    assert!(result.matches);
    assert_eq!(result.score, 10);
}
