use mock_api::body::BodyData;
use mock_api::decision::Decision;
use mock_api::engine::Engine;
use mock_api::error::EngineError;
use mock_api::json::{parse_json, JsonValue};
use mock_api::request::{MatchedRequestContext, RequestData};
use mock_api::response::ResponseData;

fn json(text: &str) -> JsonValue {
    parse_json(text).unwrap()
}

fn engine_from_json(text: &str) -> Engine {
    Engine::compile(text).unwrap()
}

const GET_USER: &str = r#"{
    "defaults": {"upstream_timeout_ms": 5000, "max_body_bytes": 1048576},
    "routes": [{
        "id": "get-user",
        "priority": 100,
        "match_rule": {"method": "GET", "path": "/users/:id"},
        "action": {"type": "mock", "response": {"status": 200, "json_body": {"id": 1}}}
    }]
}"#;

#[test]
fn test_deterministic_decision() {
    let engine = engine_from_json(GET_USER);
    let decision1 = engine.decide(RequestData::new("GET", "/users/42")).unwrap();
    let decision2 = engine.decide(RequestData::new("GET", "/users/42")).unwrap();
    assert_eq!(decision1, decision2);
}

#[test]
fn test_deterministic_different_requests() {
    let engine = engine_from_json(GET_USER);
    let decision1 = engine.decide(RequestData::new("GET", "/users/1")).unwrap();
    let decision2 = engine.decide(RequestData::new("GET", "/users/2")).unwrap();
    assert!(matches!(decision1, Decision::Mock { .. }));
    assert!(matches!(decision2, Decision::Mock { .. }));
}

#[test]
fn test_higher_priority_wins() {
    let engine = engine_from_json(
        r#"{
        "defaults": {"upstream_timeout_ms": 5000, "max_body_bytes": 1048576},
        "routes": [
            {"id": "low", "priority": 10, "match_rule": {"method": "GET", "path": "/users"},
                "action": {"type": "mock", "response": {"status": 200}}},
            {"id": "high", "priority": 100, "match_rule": {"method": "GET", "path": "/users"},
                "action": {"type": "mock", "response": {"status": 201}}}
        ]
    }"#,
    );
    let decision = engine.decide(RequestData::new("GET", "/users")).unwrap();
    assert!(matches!(decision, Decision::Mock { ref response, .. } if response.status == 201));
    assert_eq!(decision.route_id(), Some("high"));
}

#[test]
fn test_priority_tie_break_by_declaration_order() {
    let engine = engine_from_json(
        r#"{
        "defaults": {"upstream_timeout_ms": 5000, "max_body_bytes": 1048576},
        "routes": [
            {"id": "first", "priority": 50, "match_rule": {"method": "GET", "path": "/users"},
                "action": {"type": "mock", "response": {"status": 200}}},
            {"id": "second", "priority": 50, "match_rule": {"method": "GET", "path": "/users"},
                "action": {"type": "mock", "response": {"status": 404}}}
        ]
    }"#,
    );
    let decision = engine.decide(RequestData::new("GET", "/users")).unwrap();
    assert!(matches!(decision, Decision::Mock { ref response, .. } if response.status == 200));
    assert_eq!(decision.route_id(), Some("first"));
}

#[test]
fn test_negative_priority_still_evaluated() {
    let engine = engine_from_json(
        r#"{
        "defaults": {"upstream_timeout_ms": 5000, "max_body_bytes": 1048576},
        "routes": [
            {"id": "catch-all", "priority": -100, "match_rule": {"method": "GET", "path": "/users"},
                "action": {"type": "mock", "response": {"status": 200}}},
            {"id": "specific", "priority": 100, "match_rule": {"method": "GET", "path": "/users/:id"},
                "action": {"type": "mock", "response": {"status": 201}}}
        ]
    }"#,
    );
    let decision = engine.decide(RequestData::new("GET", "/users/42")).unwrap();
    assert!(matches!(decision, Decision::Mock { ref response, .. } if response.status == 201));
}

#[test]
fn test_path_params_extracted() {
    let engine = engine_from_json(GET_USER);
    let decision = engine.decide(RequestData::new("GET", "/users/42")).unwrap();
    assert_eq!(decision.route_id(), Some("get-user"));
}

#[test]
fn test_forward_action() {
    let engine = engine_from_json(
        r#"{
        "defaults": {"upstream_timeout_ms": 5000, "max_body_bytes": 1048576},
        "routes": [{
            "id": "proxy",
            "priority": 100,
            "match_rule": {"method": "*", "path": "/api/*"},
            "action": {"type": "forward", "upstream": "https://api.example.com"}
        }]
    }"#,
    );
    let request = RequestData::new("POST", "/api/users")
        .with_headers(vec![("content-type".to_string(), "application/json".to_string())])
        .with_body(BodyData::Json(json(r#"{"name": "Alice"}"#)));
    let decision = engine.decide(request).unwrap();
    assert!(matches!(decision, Decision::Forward { .. }));
    if let Decision::Forward { plan, .. } = &decision {
        assert_eq!(plan.url, "https://api.example.com");
        assert_eq!(plan.method, "POST");
    }
}

#[test]
fn test_request_transforms_applied_before_forward() {
    let engine = engine_from_json(
        r#"{
        "defaults": {"upstream_timeout_ms": 5000, "max_body_bytes": 1048576},
        "routes": [{
            "id": "proxy",
            "priority": 100,
            "match_rule": {"method": "POST", "path": "/users"},
            "action": {
                "type": "forward",
                "upstream": "https://api.example.com",
                "request_transforms": [{"type": "SetHeader", "name": "X-Forwarded-User", "value": "from-config"}]
            }
        }]
    }"#,
    );
    let request = RequestData::new("POST", "/users")
        .with_body(BodyData::Json(json(r#"{"name": "test"}"#)));
    let decision = engine.decide(request.duplicate()).unwrap();
    assert!(matches!(&decision, Decision::Forward { .. }));
    if let Decision::Forward { plan, .. } = &decision {
        let transformed = engine.transform_request(request, plan).unwrap();
        assert_eq!(transformed.header("X-Forwarded-User"), Some("from-config"));
    }
}

#[test]
fn test_response_transforms_applied() {
    let engine = engine_from_json(
        r#"{
        "defaults": {"upstream_timeout_ms": 5000, "max_body_bytes": 1048576},
        "routes": [{
            "id": "mock-with-transform",
            "priority": 100,
            "match_rule": {"method": "GET", "path": "/users"},
            "action": {
                "type": "forward",
                "upstream": "https://api.example.com",
                "response_transforms": [{"type": "SetJsonPointer", "path": "/transformed", "value": true}]
            }
        }]
    }"#,
    );
    let context = MatchedRequestContext::new("mock-with-transform").with_path_param("id", "1");
    let upstream_response =
        ResponseData::new(200).with_body(BodyData::Json(json(r#"{"status": "ok"}"#)));
    let transformed = engine.transform_upstream_response(&context, upstream_response).unwrap();
    let expected = json("true");
    assert!(matches!(
        transformed.body,
        BodyData::Json(ref v) if v.get("transformed") == Some(&expected)
    ));
}

#[test]
fn test_unmatched_default_404() {
    let engine = engine_from_json(
        r#"{"defaults": {"upstream_timeout_ms": 5000, "max_body_bytes": 1048576}, "routes": []}"#,
    );
    let decision = engine.decide(RequestData::new("GET", "/nonexistent")).unwrap();
    assert!(matches!(decision, Decision::Reject { response, .. } if response.status == 404));
}

#[test]
fn test_unmatched_custom_mock() {
    let engine = engine_from_json(
        r#"{
        "defaults": {"upstream_timeout_ms": 5000, "max_body_bytes": 1048576},
        "routes": [],
        "unmatched": {
            "action": {"type": "mock", "response": {"status": 418, "text_body": "I'm a teapot"}}
        }
    }"#,
    );
    let decision = engine.decide(RequestData::new("GET", "/nonexistent")).unwrap();
    assert!(matches!(decision, Decision::Mock { ref response, .. } if response.status == 418));
}

#[test]
fn test_unmatched_forward() {
    let engine = engine_from_json(
        r#"{
        "defaults": {"upstream_timeout_ms": 5000, "max_body_bytes": 1048576},
        "routes": [],
        "unmatched": {
            "action": {"type": "forward", "upstream": "https://fallback.example.com"}
        }
    }"#,
    );
    let decision = engine.decide(RequestData::new("GET", "/nonexistent")).unwrap();
    assert!(
        matches!(decision, Decision::Forward { plan, .. } if plan.url == "https://fallback.example.com")
    );
}

#[test]
fn test_empty_config_compiles() {
    let engine = Engine::compile(
        r#"{"defaults": {"upstream_timeout_ms": 5000, "max_body_bytes": 1048576}, "routes": []}"#,
    );
    assert!(engine.is_ok());
}

#[test]
fn test_multiple_matchers_all_must_match() {
    let engine = engine_from_json(
        r#"{
        "defaults": {"upstream_timeout_ms": 5000, "max_body_bytes": 1048576},
        "routes": [{
            "id": "multi-matcher",
            "priority": 100,
            "match_rule": {
                "method": "GET",
                "path": "/users/:id",
                "headers": {"accept": "application/json"},
                "query": {"expand": ""}
            },
            "action": {"type": "mock", "response": {"status": 200, "json_body": {"ok": true}}}
        }]
    }"#,
    );
    let matching = RequestData::new("GET", "/users/42")
        .with_headers(vec![("accept".to_string(), "application/json".to_string())])
        .with_query(vec![("expand".to_string(), "anything".to_string())]);
    let result = engine.decide(matching).unwrap();
    assert!(matches!(result, Decision::Mock { .. }));
    assert_eq!(result.route_id(), Some("multi-matcher"));

    let missing_header = RequestData::new("GET", "/users/42")
        .with_headers(vec![("content-type".to_string(), "text/html".to_string())])
        .with_query(vec![("expand".to_string(), "anything".to_string())]);
    let result2 = engine.decide(missing_header).unwrap();
    assert!(matches!(result2, Decision::Reject { .. }));
}

#[test]
fn test_elapsed_time_recorded() {
    let engine = engine_from_json(
        r#"{
        "defaults": {"upstream_timeout_ms": 5000, "max_body_bytes": 1048576},
        "routes": [{
            "id": "get-user",
            "priority": 100,
            "match_rule": {"method": "GET", "path": "/users/:id"},
            "action": {"type": "mock", "response": {"status": 200}}
        }]
    }"#,
    );
    let decision = engine.decide(RequestData::new("GET", "/users/42")).unwrap();
    assert!(decision.metadata().elapsed_us >= 0);
}

#[test]
fn test_compile_invalid_json() {
    let result = Engine::compile("not valid json");
    assert!(result.is_err());
    assert!(matches!(result.unwrap_err(), EngineError::CompileError(_)));
}

#[test]
fn test_compile_missing_routes() {
    let result = Engine::compile(r#"{"defaults": {"upstream_timeout_ms": 5000}}"#);
    assert!(result.is_err());
}

// --- further cases ---

#[test]
fn engine_rules_sorted_by_priority_then_declaration() {
    let engine = engine_from_json(
        r#"{
        "routes": [
            {"id": "a", "priority": 1, "match_rule": {"path": "/a"}, "action": {"type": "mock", "response": {"status": 200}}},
            {"id": "b", "priority": 5, "match_rule": {"path": "/b"}, "action": {"type": "mock", "response": {"status": 200}}},
            {"id": "c", "priority": 1, "match_rule": {"path": "/c"}, "action": {"type": "mock", "response": {"status": 200}}}
        ]
    }"#,
    );
    let ids: Vec<&str> = engine.rules().iter().map(|r| r.id.as_str()).collect();
    assert_eq!(ids, vec!["b", "a", "c"]);
    assert_eq!(engine.rule_count(), 3);
}

#[test]
fn engine_defaults_applied_when_absent() {
    let engine = engine_from_json(r#"{"routes": []}"#);
    assert_eq!(engine.upstream_timeout_ms(), 10_000);
    assert_eq!(engine.max_body_bytes(), 1_048_576);
}

#[test]
fn engine_compile_rejects_invalid_version() {
    let result = Engine::compile(r#"{"version": 2, "routes": []}"#);
    assert_eq!(
        result,
        Err(EngineError::CompileError(
            "INVALID_VERSION: version must be 1, got Number(2)".to_string()
        ))
    );
    let text = Engine::compile(r#"{"version": "1", "routes": []}"#);
    assert_eq!(
        text,
        Err(EngineError::CompileError(
            "INVALID_VERSION: version must be 1, got String(\"1\")".to_string()
        ))
    );
}

#[test]
fn engine_compile_rejects_duplicate_ids() {
    let result = Engine::compile(
        r#"{"routes": [
            {"id": "x", "match_rule": {"path": "/a"}, "action": {"type": "mock", "response": {"status": 200}}},
            {"id": "x", "match_rule": {"path": "/b"}, "action": {"type": "mock", "response": {"status": 200}}}
        ]}"#,
    );
    assert!(matches!(result, Err(EngineError::CompileError(ref m)) if m.starts_with("DUPLICATE_ROUTE_ID")));
}

#[test]
fn engine_compile_rejects_upstream_without_scheme() {
    let result = Engine::compile(
        r#"{"routes": [
            {"id": "x", "match_rule": {"path": "/a"}, "action": {"type": "forward", "upstream": "example.com"}}
        ]}"#,
    );
    assert!(matches!(result, Err(EngineError::CompileError(ref m)) if m.starts_with("INVALID_UPSTREAM_URL")));
}

#[test]
fn engine_forward_plan_carries_timeout_and_context() {
    let engine = engine_from_json(
        r#"{
        "defaults": {"upstream_timeout_ms": 1234},
        "routes": [{"id": "p", "match_rule": {"method": "GET", "path": "/x/:id"},
            "action": {"type": "forward", "upstream": "http://up"}}]
    }"#,
    );
    let decision = engine.decide(RequestData::new("GET", "/x/7")).unwrap();
    match decision {
        Decision::Forward { plan, metadata } => {
            assert_eq!(plan.timeout_ms, Some(1234));
            assert_eq!(metadata.route_id.as_deref(), Some("p"));
            let ctx = plan.context;
            assert_eq!(ctx.route_id, "p");
            assert_eq!(ctx.path_params.get("id").map(|s| s.as_str()), Some("7"));
        }
        _ => panic!("expected forward"),
    }
}

#[test]
fn engine_transform_upstream_response_unknown_route() {
    let engine = engine_from_json(r#"{"routes": []}"#);
    let context = MatchedRequestContext::new("nope");
    let out = engine.transform_upstream_response(&context, ResponseData::new(201));
    assert_eq!(out, Err(EngineError::MatchError("unknown route_id: nope".to_string())));
}

#[test]
fn engine_unmatched_decision_is_deterministic() {
    let engine = engine_from_json(r#"{"routes": []}"#);
    let d1 = engine.decide(RequestData::new("GET", "/nothing")).unwrap();
    let d2 = engine.decide(RequestData::new("GET", "/nothing")).unwrap();
    assert_eq!(d1.metadata().elapsed_us, 0);
    assert_eq!(d1, d2);
}
