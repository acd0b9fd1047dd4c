use mock_api::body::BodyData;
use mock_api::error::EngineError;
use mock_api::forward::ForwardPlan;
use mock_api::http::handler::{
    add_body_chunk, body_from_bytes, body_payload, convert_request, effective_status,
    end_to_end_headers, internal_error_text, is_hop_by_hop_header, is_success_status,
    mock_headers, request_transform_failure, upstream_response, upstream_timeout_ms, Payload,
};
use mock_api::http::{DecisionType, HttpError, ServerConfig, UpstreamError};
use mock_api::json::parse_json;
use mock_api::response::ResponseData;

fn pair(k: &str, v: &str) -> (String, String) {
    (k.to_string(), v.to_string())
}

#[test]
fn test_hop_by_hop_headers() {
    let hop_by_hop = vec![
        "connection",
        "keep-alive",
        "proxy-authenticate",
        "proxy-authorization",
        "te",
        "trailers",
        "transfer-encoding",
        "upgrade",
        "host",
    ];
    for header in hop_by_hop {
        assert!(is_hop_by_hop_header(header), "should be hop-by-hop: {}", header);
    }
    assert!(!is_hop_by_hop_header("content-type"));
    assert!(!is_hop_by_hop_header("authorization"));
    assert!(!is_hop_by_hop_header("x-custom-header"));
}

#[test]
fn test_decision_type_as_str() {
    assert_eq!(DecisionType::Mock.as_str(), "mock");
    assert_eq!(DecisionType::Forward.as_str(), "forward");
    assert_eq!(DecisionType::Reject.as_str(), "reject");
}

#[test]
fn test_convert_request() {
    let request_data =
        convert_request("GET", "/users/123", Some("expand=true&sort=name"), vec![], BodyData::Empty);
    assert_eq!(request_data.method, "GET");
    assert_eq!(request_data.path, "/users/123");
    assert_eq!(request_data.query.len(), 2);
    assert_eq!(request_data.query[0].0, "expand");
    assert_eq!(request_data.query[1].0, "sort");
}

#[test]
fn http_convert_request_sorts_and_lowercases() {
    let req = convert_request(
        "GET",
        "/users/42",
        Some("b=2&a=1"),
        vec![pair("Accept", "application/json")],
        BodyData::Empty,
    );
    assert_eq!(req.query, vec![pair("a", "1"), pair("b", "2")]);
    assert_eq!(req.header("accept"), Some("application/json"));
    assert_eq!(req.headers[0].0, "accept");
}

#[test]
fn http_convert_request_decodes_query() {
    let req = convert_request("GET", "/s", Some("q=hello%20world&x=a+b"), vec![], BodyData::Empty);
    assert_eq!(req.query_param("q"), Some("hello world"));
    assert_eq!(req.query_param("x"), Some("a b"));
    let none = convert_request("GET", "/s", None, vec![], BodyData::Empty);
    assert!(none.query.is_empty());
}

#[test]
fn test_read_body_empty() {
    assert_eq!(body_from_bytes(vec![]), BodyData::Empty);
}

#[test]
fn test_read_body_json() {
    let body = body_from_bytes(br#"{"key": "value"}"#.to_vec());
    match body {
        BodyData::Json(v) => assert_eq!(v.get("key").and_then(|x| x.as_str()), Some("value")),
        _ => panic!("expected JSON body"),
    }
}

#[test]
fn test_read_body_text() {
    let body = body_from_bytes(b"plain text content".to_vec());
    match body {
        BodyData::Text(s) => assert_eq!(s, "plain text content"),
        _ => panic!("expected text body"),
    }
}

#[test]
fn http_read_body_binary() {
    let body = body_from_bytes(vec![0xff, 0xfe, 0x00]);
    assert_eq!(body, BodyData::Binary(vec![0xff, 0xfe, 0x00]));
}

#[test]
fn test_read_body_size_limit() {
    let result = add_body_chunk(0, b"too much content".len(), 5);
    assert!(matches!(result, Err(HttpError::BodyTooLarge { .. })));
    assert_eq!(add_body_chunk(0, 10, 100), Ok(10));
    assert_eq!(add_body_chunk(90, 10, 100), Ok(100));
    assert_eq!(
        add_body_chunk(95, 10, 100),
        Err(HttpError::BodyTooLarge { size: 105, limit: 100 })
    );
    assert_eq!(
        HttpError::BodyTooLarge { size: 105, limit: 100 }.message(),
        "request body too large: 105 bytes exceeds limit of 100 bytes"
    );
}

#[test]
fn http_effective_status() {
    assert_eq!(effective_status(201), 201);
    assert_eq!(effective_status(999), 999);
    assert_eq!(effective_status(99), 200);
    assert_eq!(effective_status(1000), 200);
}

#[test]
fn http_mock_headers_add_content_type() {
    let json = ResponseData::new(200).with_body(BodyData::Json(parse_json("{}").unwrap()));
    assert_eq!(mock_headers(&json), vec![pair("Content-Type", "application/json")]);
    let own = ResponseData::new(200)
        .with_headers(vec![pair("content-type", "text/csv")])
        .with_body(BodyData::Text("a,b".to_string()));
    assert_eq!(mock_headers(&own), vec![pair("content-type", "text/csv")]);
    let empty = ResponseData::new(204);
    assert!(mock_headers(&empty).is_empty());
}

#[test]
fn http_body_payload() {
    assert_eq!(body_payload(&BodyData::Empty), Payload::Empty);
    assert_eq!(body_payload(&BodyData::Text("hi".to_string())), Payload::Text("hi".to_string()));
    assert_eq!(
        body_payload(&BodyData::Json(parse_json(r#"{"a": 1}"#).unwrap())),
        Payload::Text(r#"{"a":1}"#.to_string())
    );
    assert_eq!(body_payload(&BodyData::Binary(vec![1, 2])), Payload::Bytes(vec![1, 2]));
}

#[test]
fn http_end_to_end_headers() {
    let hs = vec![pair("Connection", "close"), pair("X-Id", "7"), pair("Host", "h"), pair("Accept", "*/*")];
    assert_eq!(end_to_end_headers(&hs), vec![pair("X-Id", "7"), pair("Accept", "*/*")]);
}

#[test]
fn http_upstream_response() {
    let r = upstream_response(201, &vec![pair("Transfer-Encoding", "chunked"), pair("X-A", "1")], b"ok".to_vec());
    assert_eq!(r.status, 201);
    assert_eq!(r.headers, vec![pair("X-A", "1")]);
    assert_eq!(r.body, BodyData::Text("ok".to_string()));
}

#[test]
fn http_upstream_timeout_and_success() {
    assert_eq!(upstream_timeout_ms(&ForwardPlan::new("http://u", "GET")), 30000);
    assert_eq!(upstream_timeout_ms(&ForwardPlan::new("http://u", "GET").with_timeout(5)), 5);
    assert!(is_success_status(200));
    assert!(is_success_status(299));
    assert!(!is_success_status(300));
    assert!(!is_success_status(199));
}

#[test]
fn http_errors_text() {
    let e = request_transform_failure(&EngineError::TransformError("boom".to_string()));
    assert!(matches!(e, UpstreamError::InvalidResponse(ref m) if m.starts_with("request transform failed: ")));
    let resp = UpstreamError::Timeout { timeout_ms: 250 }.to_502_response();
    assert_eq!(resp.status, 502);
    assert_eq!(resp.body, BodyData::Text("upstream request timed out after 250ms".to_string()));
    assert_eq!(
        internal_error_text(&HttpError::BodyReadError),
        "Internal server error: failed to read request body"
    );
    assert_eq!(
        HttpError::BindError { host: "0.0.0.0".to_string(), port: 80, source: "denied".to_string() }.message(),
        "failed to bind to 0.0.0.0:80: denied"
    );
}

#[test]
fn test_server_config_default() {
    let c = ServerConfig::default();
    assert_eq!(c.host, "127.0.0.1");
    assert_eq!(c.port, 8080);
    assert_eq!(c.max_body_bytes, 1_048_576);
    assert_eq!(c.upstream_timeout_ms, 10_000);
}

#[test]
fn test_server_config_builder() {
    let c = ServerConfig::new("0.0.0.0", 3000)
        .with_max_body_bytes(2_097_152)
        .with_upstream_timeout_ms(5_000);
    assert_eq!(c.host, "0.0.0.0");
    assert_eq!(c.port, 3000);
    assert_eq!(c.max_body_bytes, 2_097_152);
    assert_eq!(c.upstream_timeout_ms, 5000);
}
