use mock_api::body::BodyData;
use mock_api::decision::Decision;
use mock_api::error::EngineError;
use mock_api::forward::ForwardPlan;
use mock_api::json::parse_json;
use mock_api::metadata::DecisionMetadata;
use mock_api::request::{MatchedRequestContext, RequestData};
use mock_api::response::ResponseData;
use mock_api::strmap::StrMap;

// --- RequestData ---

#[test]
fn test_request_data_new() {
    let req = RequestData::new("GET", "/users/123");
    assert_eq!(req.method, "GET");
    assert_eq!(req.path, "/users/123");
    assert!(req.query.is_empty());
    assert!(req.headers.is_empty());
    assert!(req.body.is_empty());
}

#[test]
fn test_request_data_with_query() {
    let req = RequestData::new("GET", "/search")
        .with_query(vec![("b".to_string(), "2".to_string()), ("a".to_string(), "1".to_string())]);
    assert_eq!(req.query[0].0, "a");
    assert_eq!(req.query[1].0, "b");
}

#[test]
fn test_request_data_with_headers() {
    let req = RequestData::new("POST", "/api")
        .with_headers(vec![("content-type".to_string(), "application/json".to_string())]);
    assert_eq!(req.header("content-type"), Some("application/json"));
}

#[test]
fn test_request_data_header_not_found() {
    let req = RequestData::new("GET", "/");
    assert!(req.header("x-custom").is_none());
}

#[test]
fn test_matched_request_context_new() {
    let ctx = MatchedRequestContext::new("get-user");
    assert_eq!(ctx.route_id, "get-user");
    assert!(ctx.path_params.is_empty());
    assert!(ctx.matched_rules.is_empty());
}

#[test]
fn test_matched_request_context_with_path_param() {
    let ctx = MatchedRequestContext::new("get-user").with_path_param("id", "42");
    assert_eq!(ctx.path_params.get("id"), Some(&"42".to_string()));
}

#[test]
fn test_matched_request_context_with_matched_rule() {
    let ctx = MatchedRequestContext::new("get-user")
        .with_matched_rule("method: GET")
        .with_matched_rule("path: /users/:id");
    assert_eq!(ctx.matched_rules.len(), 2);
}

#[test]
fn request_query_sort_is_stable() {
    let req = RequestData::new("GET", "/")
        .with_query(vec![
            ("b".to_string(), "1".to_string()),
            ("a".to_string(), "2".to_string()),
            ("b".to_string(), "0".to_string()),
        ]);
    assert_eq!(req.query[0], ("a".to_string(), "2".to_string()));
    assert_eq!(req.query[1], ("b".to_string(), "1".to_string()));
    assert_eq!(req.query[2], ("b".to_string(), "0".to_string()));
    assert_eq!(req.query_param("b"), Some("1"));
}

// --- ResponseData ---

#[test]
fn test_response_data_new() {
    let resp = ResponseData::new(200);
    assert_eq!(resp.status, 200);
    assert!(resp.headers.is_empty());
    assert!(resp.body.is_empty());
    assert!(resp.delay_ms.is_none());
}

#[test]
fn test_response_data_with_headers() {
    let resp = ResponseData::new(200)
        .with_headers(vec![("Content-Type".to_string(), "application/json".to_string())]);
    assert_eq!(resp.header("content-type"), Some("application/json"));
}

#[test]
fn test_response_data_with_body() {
    let resp = ResponseData::new(201).with_body(BodyData::Json(parse_json(r#"{"id": 1}"#).unwrap()));
    assert!(!resp.body.is_empty());
}

#[test]
fn test_response_data_with_delay() {
    let resp = ResponseData::new(200).with_delay(500);
    assert_eq!(resp.delay_ms, Some(500));
}

#[test]
fn test_response_data_default() {
    let resp = ResponseData::default();
    assert_eq!(resp.status, 200);
}

// --- Bodies ---

#[test]
fn body_content_types() {
    assert_eq!(BodyData::Empty.content_type(), None);
    assert_eq!(BodyData::Text("x".to_string()).content_type(), Some("text/plain; charset=utf-8"));
    assert_eq!(BodyData::Json(parse_json("1").unwrap()).content_type(), Some("application/json"));
    assert_eq!(BodyData::Binary(vec![1]).content_type(), Some("application/octet-stream"));
    assert!(BodyData::Text(String::new()).is_empty());
    assert!(BodyData::Binary(vec![]).is_empty());
}

// --- DecisionMetadata ---

#[test]
fn test_decision_metadata_new() {
    let meta = DecisionMetadata::new();
    assert!(meta.route_id.is_none());
    assert!(meta.matcher_results.is_empty());
    assert!(meta.transforms_applied.is_empty());
    assert_eq!(meta.elapsed_us, 0);
}

#[test]
fn test_decision_metadata_with_route_id() {
    let meta = DecisionMetadata::new().with_route_id("get-user");
    assert_eq!(meta.route_id, Some("get-user".to_string()));
}

#[test]
fn test_decision_metadata_with_matcher_result() {
    let meta = DecisionMetadata::new()
        .with_matcher_result("method: GET")
        .with_matcher_result("path: /users/:id");
    assert_eq!(meta.matcher_results.len(), 2);
}

#[test]
fn test_decision_metadata_with_transform() {
    let meta = DecisionMetadata::new().with_transform_applied("jq: .user.name");
    assert_eq!(meta.transforms_applied.len(), 1);
}

#[test]
fn test_decision_metadata_with_elapsed() {
    let meta = DecisionMetadata::new().with_elapsed(1500);
    assert_eq!(meta.elapsed_us, 1500);
}

// --- ForwardPlan ---

#[test]
fn test_forward_plan_new() {
    let plan = ForwardPlan::new("https://api.example.com/users", "GET");
    assert_eq!(plan.url, "https://api.example.com/users");
    assert_eq!(plan.method, "GET");
    assert!(plan.headers.is_empty());
    assert!(plan.body.is_empty());
    assert!(plan.timeout_ms.is_none());
}

#[test]
fn test_forward_plan_with_headers() {
    let plan = ForwardPlan::new("https://api.example.com/users", "POST")
        .with_headers(vec![("Authorization".to_string(), "Bearer token".to_string())]);
    assert_eq!(plan.headers.len(), 1);
}

#[test]
fn test_forward_plan_with_body() {
    let plan = ForwardPlan::new("https://api.example.com/users", "POST")
        .with_body(BodyData::Text("request body".to_string()));
    assert!(!plan.body.is_empty());
}

#[test]
fn test_forward_plan_with_timeout() {
    let plan = ForwardPlan::new("https://api.example.com/users", "GET").with_timeout(5000);
    assert_eq!(plan.timeout_ms, Some(5000));
}

#[test]
fn test_forward_plan_with_context() {
    let ctx = MatchedRequestContext::new("proxy-route").with_path_param("id", "123");
    let plan = ForwardPlan::new("https://api.example.com/users", "GET").with_context(ctx);
    assert_eq!(plan.context.route_id, "proxy-route");
    assert_eq!(plan.context.path_params.get("id"), Some(&"123".to_string()));
}

// --- Decision ---

#[test]
fn test_decision_metadata_accessors() {
    let response = ResponseData::new(200);
    let metadata = DecisionMetadata::new().with_route_id("test-route").with_elapsed(500);
    let decision = Decision::Mock { response, metadata };
    assert_eq!(decision.route_id(), Some("test-route"));
    assert_eq!(decision.metadata().elapsed_us, 500);
}

// --- EngineError ---

#[test]
fn test_engine_error_display() {
    let err = EngineError::CompileError("invalid regex".to_string());
    assert_eq!(err.message(), "compile error: invalid regex");
    let err = EngineError::MatchError("no matching route".to_string());
    assert_eq!(err.message(), "match error: no matching route");
    let err = EngineError::TransformError("JSON pointer not found".to_string());
    assert_eq!(err.message(), "transform error: JSON pointer not found");
    let err = EngineError::UnsupportedBodyType("video/mp4".to_string());
    assert_eq!(err.message(), "unsupported body type: video/mp4");
}

#[test]
fn test_engine_error_debug() {
    let err = EngineError::MatchError("route not found".to_string());
    let debug = format!("{:?}", err);
    assert!(debug.contains("MatchError"));
    assert!(debug.contains("route not found"));
}

// --- StrMap ---

#[test]
fn strmap_insert_replaces_in_place() {
    let mut m = StrMap::new();
    m.insert("a".to_string(), "1".to_string());
    m.insert("b".to_string(), "2".to_string());
    m.insert("a".to_string(), "3".to_string());
    assert_eq!(m.len(), 2);
    assert_eq!(m.get("a"), Some(&"3".to_string()));
    assert_eq!(m.entries()[0].0, "a");
    assert!(m.contains_key("b"));
    assert!(!m.contains_key("c"));
}

// --- JSON values ---

#[test]
fn json_accessors() {
    let v = parse_json(r#"{"a": "x", "n": 5, "neg": -2, "f": 1.5, "z": null, "arr": [1, 2]}"#).unwrap();
    assert_eq!(v.get("a").unwrap().as_str(), Some("x"));
    assert_eq!(v.get("n").unwrap().as_u64(), Some(5));
    assert_eq!(v.get("neg").unwrap().as_i64(), Some(-2));
    assert_eq!(v.get("neg").unwrap().as_u64(), None);
    assert_eq!(v.get("f").unwrap().as_u64(), None);
    assert!(v.get("z").unwrap().is_null());
    assert_eq!(v.get("arr").unwrap().as_array().unwrap().len(), 2);
    assert!(v.get("missing").is_none());
    assert!(parse_json("not json").is_err());
    assert_eq!(mock_api::json::to_json_text(&parse_json(r#"{"b": 1, "a": [true]}"#).unwrap()), r#"{"a":[true],"b":1}"#);
}
