use mock_api::body::BodyData;
use mock_api::json::{parse_json, JsonValue};
use mock_api::request::RequestData;
use mock_api::response::ResponseData;
use mock_api::strmap::StrMap;
use mock_api::transform::{
    transform_from_spec, RemoveHeader, RemoveJsonPointer, RemoveQuery, ReplaceBody, SetHeader,
    SetJsonPointer, SetQuery, SetStatus, TemplateSubst, Transform, TransformDef, TransformError,
};

fn json(text: &str) -> JsonValue {
    parse_json(text).unwrap()
}

fn params(items: Vec<(&str, &str)>) -> StrMap {
    let mut m = StrMap::new();
    for (k, v) in items {
        m.insert(k.to_string(), v.to_string());
    }
    m
}

// --- Templates ---

#[test]
fn test_template_no_variables() {
    let t = TemplateSubst::new("static-value");
    assert_eq!(t.substitute(&StrMap::new()), "static-value");
    assert!(!t.has_variables());
}

#[test]
fn test_template_single_variable() {
    let t = TemplateSubst::new("user-{{path.id}}");
    assert_eq!(t.substitute(&params(vec![("id", "42")])), "user-42");
}

#[test]
fn test_template_multiple_variables() {
    let t = TemplateSubst::new("/users/{{path.user_id}}/posts/{{path.post_id}}");
    let p = params(vec![("user_id", "abc"), ("post_id", "123")]);
    assert_eq!(t.substitute(&p), "/users/abc/posts/123");
}

#[test]
fn test_template_missing_variable() {
    let t = TemplateSubst::new("user-{{path.id}}");
    assert_eq!(t.substitute(&StrMap::new()), "user-{{path.id}}");
}

#[test]
fn test_template_partial_missing() {
    let t = TemplateSubst::new("/users/{{path.user_id}}/posts/{{path.post_id}}");
    let p = params(vec![("user_id", "abc")]);
    assert_eq!(t.substitute(&p), "/users/abc/posts/{{path.post_id}}");
}

#[test]
fn test_template_multiple_same_variable() {
    let t = TemplateSubst::new("{{path.id}}-{{path.id}}-{{path.id}}");
    assert_eq!(t.substitute(&params(vec![("id", "42")])), "42-42-42");
}

#[test]
fn test_template_no_braces() {
    let t = TemplateSubst::new("no template syntax here");
    assert!(!t.has_variables());
    assert_eq!(t.substitute(&StrMap::new()), "no template syntax here");
}

#[test]
fn test_template_malformed_braces() {
    let t = TemplateSubst::new("{{path.id");
    assert!(!t.has_variables());
    assert_eq!(t.substitute(&StrMap::new()), "{{path.id");
}

#[test]
fn test_template_empty_key() {
    let t = TemplateSubst::new("{{path.}}");
    assert!(!t.has_variables());
    assert_eq!(t.substitute(&StrMap::new()), "{{path.}}");
}

#[test]
fn template_value_may_contain_placeholder_text() {
    let t = TemplateSubst::new("{{path.a}}{{path.b}}");
    let p = params(vec![("a", "{{path.b}}"), ("b", "x")]);
    assert_eq!(t.substitute(&p), "xx");
}

// --- Header transforms ---

fn header_request() -> RequestData {
    RequestData::new("GET", "/users/123")
        .with_headers(vec![
            ("content-type".to_string(), "application/json".to_string()),
            ("x-custom".to_string(), "value".to_string()),
        ])
        .with_body(BodyData::Empty)
}

fn header_response() -> ResponseData {
    ResponseData::new(200)
        .with_headers(vec![
            ("Content-Type".to_string(), "application/json".to_string()),
            ("X-Custom".to_string(), "value".to_string()),
        ])
        .with_body(BodyData::Empty)
}

fn with_path_params(mut req: RequestData) -> RequestData {
    req.path_params.insert("id".to_string(), "42".to_string());
    req
}

#[test]
fn test_set_header_adds_new_header() {
    let t = SetHeader::new("x-new-header", "new-value");
    let result = t.transform_request(header_request()).unwrap();
    assert_eq!(result.header("x-new-header"), Some("new-value"));
    assert_eq!(result.headers.len(), 3);
}

#[test]
fn test_set_header_replaces_existing_header() {
    let t = SetHeader::new("content-type", "text/xml");
    let result = t.transform_request(header_request()).unwrap();
    assert_eq!(result.header("content-type"), Some("text/xml"));
    assert_eq!(result.headers.len(), 2);
}

#[test]
fn test_set_header_response() {
    let t = SetHeader::new("x-request-id", "req-123");
    let result = t.transform_response(header_response()).unwrap();
    assert_eq!(result.header("x-request-id"), Some("req-123"));
}

#[test]
fn test_set_header_with_template() {
    let t = SetHeader::new("x-user-id", "{{path.id}}");
    let result = t.transform_request(with_path_params(header_request())).unwrap();
    assert_eq!(result.header("x-user-id"), Some("42"));
}

#[test]
fn test_set_header_missing_template_var() {
    let t = SetHeader::new("x-user-id", "{{path.nonexistent}}");
    let result = t.transform_request(with_path_params(header_request())).unwrap();
    assert_eq!(result.header("x-user-id"), Some("{{path.nonexistent}}"));
}

#[test]
fn test_remove_header_request() {
    let t = RemoveHeader::new("x-custom");
    let result = t.transform_request(header_request()).unwrap();
    assert!(result.header("x-custom").is_none());
    assert_eq!(result.headers.len(), 1);
}

#[test]
fn test_remove_header_case_insensitive() {
    let t = RemoveHeader::new("X-CUSTOM");
    let result = t.transform_request(header_request()).unwrap();
    assert!(result.header("x-custom").is_none());
}

#[test]
fn test_remove_header_not_found() {
    let t = RemoveHeader::new("x-nonexistent");
    let result = t.transform_request(header_request()).unwrap();
    assert_eq!(result.headers.len(), 2);
}

#[test]
fn test_remove_header_response() {
    let t = RemoveHeader::new("x-custom");
    let result = t.transform_response(header_response()).unwrap();
    assert!(result.header("x-custom").is_none());
}

#[test]
fn remove_header_removes_every_case_variant() {
    let req = RequestData::new("GET", "/").with_headers(vec![
        ("X-A".to_string(), "1".to_string()),
        ("keep".to_string(), "2".to_string()),
        ("x-a".to_string(), "3".to_string()),
    ]);
    let result = RemoveHeader::new("x-A").transform_request(req).unwrap();
    assert_eq!(result.headers, vec![("keep".to_string(), "2".to_string())]);
}

// --- Query transforms ---

fn query_request() -> RequestData {
    RequestData::new("GET", "/search")
        .with_query(vec![("a".to_string(), "1".to_string()), ("b".to_string(), "2".to_string())])
        .with_headers(vec![("host".to_string(), "localhost".to_string())])
        .with_body(BodyData::Empty)
}

#[test]
fn test_set_query_adds_new_param() {
    let t = SetQuery::new("c", "3");
    let result = t.transform_request(query_request()).unwrap();
    assert_eq!(result.query_param("c"), Some("3"));
    assert_eq!(result.query.len(), 3);
}

#[test]
fn test_set_query_updates_existing_param() {
    let t = SetQuery::new("a", "updated");
    let result = t.transform_request(query_request()).unwrap();
    assert_eq!(result.query_param("a"), Some("updated"));
    assert_eq!(result.query.len(), 2);
}

#[test]
fn test_set_query_sorted_after_add() {
    let t = SetQuery::new("z", "new");
    let result = t.transform_request(query_request()).unwrap();
    assert_eq!(result.query.last().unwrap().0, "z");
}

#[test]
fn test_set_query_with_template() {
    let t = SetQuery::new("user_id", "{{path.id}}");
    let result = t.transform_request(with_path_params(query_request())).unwrap();
    assert_eq!(result.query_param("user_id"), Some("42"));
}

#[test]
fn test_set_query_missing_template_var() {
    let t = SetQuery::new("user_id", "{{path.nonexistent}}");
    let result = t.transform_request(with_path_params(query_request())).unwrap();
    assert_eq!(result.query_param("user_id"), Some("{{path.nonexistent}}"));
}

#[test]
fn test_set_query_response_error() {
    let t = SetQuery::new("key", "value");
    let result = t.transform_response(ResponseData::new(200));
    assert!(matches!(result, Err(TransformError::QueryNotFound(_))));
}

#[test]
fn test_remove_query_found() {
    let t = RemoveQuery::new("a");
    let result = t.transform_request(query_request()).unwrap();
    assert!(result.query_param("a").is_none());
    assert_eq!(result.query.len(), 1);
}

#[test]
fn test_remove_query_not_found() {
    let t = RemoveQuery::new("nonexistent");
    let result = t.transform_request(query_request());
    assert!(matches!(result, Err(TransformError::QueryNotFound(_))));
}

#[test]
fn test_remove_query_response_error() {
    let t = RemoveQuery::new("key");
    let result = t.transform_response(ResponseData::new(200));
    assert!(matches!(result, Err(TransformError::QueryNotFound(_))));
}

#[test]
fn set_query_inserted_in_key_order() {
    let result = SetQuery::new("aa", "x").transform_request(query_request()).unwrap();
    let keys: Vec<&str> = result.query.iter().map(|(k, _)| k.as_str()).collect();
    assert_eq!(keys, vec!["a", "aa", "b"]);
}

// --- Body and status transforms ---

fn plain_request() -> RequestData {
    RequestData::new("GET", "/test").with_headers(vec![]).with_body(BodyData::Empty)
}

fn plain_response() -> ResponseData {
    ResponseData::new(200).with_headers(vec![]).with_body(BodyData::Empty)
}

#[test]
fn test_replace_body_text() {
    let t = ReplaceBody::text("Hello, World!");
    let result = t.transform_request(plain_request()).unwrap();
    match result.body {
        BodyData::Text(s) => assert_eq!(s, "Hello, World!"),
        _ => panic!("expected Text body"),
    }
}

#[test]
fn test_replace_body_json() {
    let t = ReplaceBody::json(json(r#"{"message": "hello"}"#));
    let result = t.transform_request(plain_request()).unwrap();
    match result.body {
        BodyData::Json(v) => assert_eq!(v, json(r#"{"message": "hello"}"#)),
        _ => panic!("expected Json body"),
    }
}

#[test]
fn test_replace_body_response() {
    let t = ReplaceBody::text("Custom response body");
    let result = t.transform_response(plain_response()).unwrap();
    match result.body {
        BodyData::Text(s) => assert_eq!(s, "Custom response body"),
        _ => panic!("expected Text body"),
    }
}

#[test]
fn test_replace_body_binary() {
    let t = ReplaceBody::new(BodyData::Binary(vec![0x00, 0x01, 0x02]));
    let result = t.transform_request(plain_request()).unwrap();
    match result.body {
        BodyData::Binary(b) => assert_eq!(b, vec![0x00, 0x01, 0x02]),
        _ => panic!("expected Binary body"),
    }
}

#[test]
fn test_set_status_response() {
    let t = SetStatus::new(201);
    let result = t.transform_response(plain_response()).unwrap();
    assert_eq!(result.status, 201);
}

#[test]
fn test_set_status_request_error() {
    let t = SetStatus::new(200);
    let result = t.transform_request(plain_request());
    assert!(result.is_err());
}

#[test]
fn test_set_status_various_codes() {
    for status in [200, 201, 301, 400, 404, 500, 503] {
        let t = SetStatus::new(status);
        let result = t.transform_response(plain_response()).unwrap();
        assert_eq!(result.status, status);
    }
}

// --- JSON Pointer transforms ---

fn json_request(body: BodyData) -> RequestData {
    RequestData::new("GET", "/test").with_headers(vec![]).with_body(body)
}

fn json_response(body: BodyData) -> ResponseData {
    ResponseData::new(200).with_body(body)
}

#[test]
fn test_set_json_pointer_nested_path() {
    let t = SetJsonPointer::new("/foo/bar", json(r#""new_value""#));
    let req = json_request(BodyData::Json(json(r#"{"foo": {"bar": "old"}}"#)));
    let result = t.transform_request(req).unwrap();
    assert_eq!(result.body, BodyData::Json(json(r#"{"foo": {"bar": "new_value"}}"#)));
}

#[test]
fn test_set_json_pointer_array_index() {
    let t = SetJsonPointer::new("/items/0/name", json(r#""first""#));
    let req = json_request(BodyData::Json(json(r#"{"items": [{"name": "old"}]}"#)));
    let result = t.transform_request(req).unwrap();
    assert_eq!(result.body, BodyData::Json(json(r#"{"items": [{"name": "first"}]}"#)));
}

#[test]
fn test_set_json_pointer_creates_intermediate() {
    let t = SetJsonPointer::new("/a/b/c", json("42"));
    let req = json_request(BodyData::Json(json("{}")));
    let result = t.transform_request(req).unwrap();
    assert_eq!(result.body, BodyData::Json(json(r#"{"a": {"b": {"c": 42}}}"#)));
}

#[test]
fn test_set_json_pointer_root_replace() {
    let t = SetJsonPointer::new("/", json(r#""replaced""#));
    let req = json_request(BodyData::Json(json(r#"{"key": "value"}"#)));
    let result = t.transform_request(req).unwrap();
    assert_eq!(result.body, BodyData::Json(json(r#""replaced""#)));
}

#[test]
fn test_set_json_pointer_non_json_body_error() {
    let t = SetJsonPointer::new("/foo", json(r#""bar""#));
    let req = json_request(BodyData::Text("not json".to_string()));
    let result = t.transform_request(req);
    assert!(matches!(result, Err(TransformError::BodyTypeMismatch)));
}

#[test]
fn test_set_json_pointer_empty_body_error() {
    let t = SetJsonPointer::new("/foo", json(r#""bar""#));
    let result = t.transform_request(json_request(BodyData::Empty));
    assert!(matches!(result, Err(TransformError::BodyTypeMismatch)));
}

#[test]
fn test_set_json_pointer_binary_body_error() {
    let t = SetJsonPointer::new("/foo", json(r#""bar""#));
    let result = t.transform_request(json_request(BodyData::Binary(vec![0x00, 0xFF])));
    assert!(matches!(result, Err(TransformError::BodyTypeMismatch)));
}

#[test]
fn test_set_json_pointer_invalid_path() {
    let t = SetJsonPointer::new("not-a-pointer", json(r#""value""#));
    let req = json_request(BodyData::Json(json(r#"{"key": "value"}"#)));
    let result = t.transform_request(req);
    assert!(matches!(result, Err(TransformError::JsonPointer(_))));
}

#[test]
fn test_set_json_pointer_response() {
    let t = SetJsonPointer::new("/status", json(r#""ok""#));
    let resp = json_response(BodyData::Json(json(r#"{"status": "old"}"#)));
    let result = t.transform_response(resp).unwrap();
    assert_eq!(result.body, BodyData::Json(json(r#"{"status": "ok"}"#)));
}

#[test]
fn test_remove_json_pointer_nested() {
    let t = RemoveJsonPointer::new("/foo/bar");
    let req = json_request(BodyData::Json(json(r#"{"foo": {"bar": "value", "baz": "keep"}}"#)));
    let result = t.transform_request(req).unwrap();
    assert_eq!(result.body, BodyData::Json(json(r#"{"foo": {"baz": "keep"}}"#)));
}

#[test]
fn test_remove_json_pointer_array_element() {
    let t = RemoveJsonPointer::new("/items/0");
    let req = json_request(BodyData::Json(json(r#"{"items": ["a", "b", "c"]}"#)));
    let result = t.transform_request(req).unwrap();
    assert_eq!(result.body, BodyData::Json(json(r#"{"items": ["b", "c"]}"#)));
}

#[test]
fn test_remove_json_pointer_root() {
    let t = RemoveJsonPointer::new("/");
    let req = json_request(BodyData::Json(json(r#"{"key": "value"}"#)));
    let result = t.transform_request(req).unwrap();
    assert_eq!(result.body, BodyData::Json(json("{}")));
}

#[test]
fn test_remove_json_pointer_non_json_body_error() {
    let t = RemoveJsonPointer::new("/foo");
    let result = t.transform_request(json_request(BodyData::Text("not json".to_string())));
    assert!(matches!(result, Err(TransformError::BodyTypeMismatch)));
}

#[test]
fn test_remove_json_pointer_empty_body_error() {
    let t = RemoveJsonPointer::new("/foo");
    let result = t.transform_request(json_request(BodyData::Empty));
    assert!(matches!(result, Err(TransformError::BodyTypeMismatch)));
}

#[test]
fn test_remove_json_pointer_invalid_path() {
    let t = RemoveJsonPointer::new("invalid");
    let req = json_request(BodyData::Json(json(r#"{"key": "value"}"#)));
    let result = t.transform_request(req);
    assert!(matches!(result, Err(TransformError::JsonPointer(_))));
}

#[test]
fn test_remove_json_pointer_nonexistent_path() {
    let t = RemoveJsonPointer::new("/nonexistent/path");
    let req = json_request(BodyData::Json(json(r#"{"key": "value"}"#)));
    let result = t.transform_request(req);
    assert!(matches!(result, Err(TransformError::JsonPointer(_))));
}

#[test]
fn test_remove_json_pointer_response() {
    let t = RemoveJsonPointer::new("/data");
    let resp = json_response(BodyData::Json(json(r#"{"data": "sensitive", "public": "value"}"#)));
    let result = t.transform_response(resp).unwrap();
    assert_eq!(result.body, BodyData::Json(json(r#"{"public": "value"}"#)));
}

#[test]
fn remove_json_pointer_not_found_message() {
    let t = RemoveJsonPointer::new("/missing");
    let req = json_request(BodyData::Json(json(r#"{"key": "value"}"#)));
    let err = t.transform_request(req).unwrap_err();
    assert_eq!(err, TransformError::JsonPointer("path not found: /missing".to_string()));
}

// --- Transform errors ---

#[test]
fn test_transform_error_is_not_applicable() {
    assert!(TransformError::BodyTypeMismatch.is_not_applicable());
    assert!(!TransformError::JsonPointer("test".to_string()).is_not_applicable());
    assert!(!TransformError::HeaderNotFound("h".to_string()).is_not_applicable());
    assert!(!TransformError::QueryNotFound("q".to_string()).is_not_applicable());
    assert!(!TransformError::TemplateError("t".to_string()).is_not_applicable());
}

#[test]
fn test_transform_error_display() {
    assert_eq!(
        TransformError::BodyTypeMismatch.message(),
        "body type mismatch: JSON transform requires JSON body"
    );
    assert_eq!(
        TransformError::JsonPointer("bad path".to_string()).message(),
        "invalid JSON Pointer: bad path"
    );
}

// --- Transforms built from descriptions ---

#[test]
fn test_set_header_from_spec() {
    let spec = TransformDef::SetHeader { name: "X-Foo".to_string(), value: "bar".to_string() };
    let t = transform_from_spec(&spec);
    assert_eq!(t.name(), "SetHeader");
}

#[test]
fn test_set_header_from_spec_applies_to_request() {
    let spec = TransformDef::SetHeader { name: "X-Foo".to_string(), value: "bar".to_string() };
    let t = transform_from_spec(&spec);
    let req = RequestData::new("GET", "/users/123").with_body(BodyData::Empty);
    let result = t.transform_request(req).unwrap();
    assert_eq!(result.header("X-Foo"), Some("bar"));
}

#[test]
fn test_remove_header_from_spec() {
    let spec = TransformDef::RemoveHeader { name: "x-custom".to_string() };
    let t = transform_from_spec(&spec);
    assert_eq!(t.name(), "RemoveHeader");
}

#[test]
fn test_remove_header_from_spec_applies_to_request() {
    let spec = TransformDef::RemoveHeader { name: "x-custom".to_string() };
    let t = transform_from_spec(&spec);
    let req = RequestData::new("GET", "/users/123")
        .with_headers(vec![
            ("content-type".to_string(), "application/json".to_string()),
            ("x-custom".to_string(), "value".to_string()),
        ])
        .with_body(BodyData::Empty);
    let result = t.transform_request(req).unwrap();
    assert!(result.header("x-custom").is_none());
    assert_eq!(result.headers.len(), 1);
}

#[test]
fn test_set_query_from_spec() {
    let spec = TransformDef::SetQuery { name: "limit".to_string(), value: "10".to_string() };
    let t = transform_from_spec(&spec);
    assert_eq!(t.name(), "SetQuery");
}

#[test]
fn test_set_query_from_spec_applies_to_request() {
    let spec = TransformDef::SetQuery { name: "limit".to_string(), value: "10".to_string() };
    let t = transform_from_spec(&spec);
    let req = RequestData::new("GET", "/search").with_body(BodyData::Empty);
    let result = t.transform_request(req).unwrap();
    assert_eq!(result.query_param("limit"), Some("10"));
    assert_eq!(result.query.len(), 1);
}

#[test]
fn test_remove_query_from_spec() {
    let spec = TransformDef::RemoveQuery { name: "limit".to_string() };
    let t = transform_from_spec(&spec);
    assert_eq!(t.name(), "RemoveQuery");
}

#[test]
fn test_remove_query_from_spec_applies_to_request() {
    let spec = TransformDef::RemoveQuery { name: "limit".to_string() };
    let t = transform_from_spec(&spec);
    let req = RequestData::new("GET", "/search")
        .with_query(vec![
            ("limit".to_string(), "10".to_string()),
            ("offset".to_string(), "0".to_string()),
        ])
        .with_body(BodyData::Empty);
    let result = t.transform_request(req).unwrap();
    assert!(result.query_param("limit").is_none());
    assert_eq!(result.query.len(), 1);
}

#[test]
fn test_set_json_pointer_from_spec() {
    let spec = TransformDef::SetJsonPointer { path: "/name".to_string(), value: json(r#""alice""#) };
    let t = transform_from_spec(&spec);
    assert_eq!(t.name(), "SetJsonPointer");
}

#[test]
fn test_set_json_pointer_from_spec_applies_to_request() {
    let spec = TransformDef::SetJsonPointer { path: "/name".to_string(), value: json(r#""alice""#) };
    let t = transform_from_spec(&spec);
    let req = RequestData::new("POST", "/users")
        .with_body(BodyData::Json(json(r#"{"name": "bob", "age": 30}"#)));
    let result = t.transform_request(req).unwrap();
    match result.body {
        BodyData::Json(v) => {
            assert_eq!(v.get("name"), Some(&json(r#""alice""#)));
            assert_eq!(v.get("age"), Some(&json("30")));
        }
        _ => panic!("expected Json body"),
    }
}

#[test]
fn test_remove_json_pointer_from_spec() {
    let spec = TransformDef::RemoveJsonPointer { path: "/secret".to_string() };
    let t = transform_from_spec(&spec);
    assert_eq!(t.name(), "RemoveJsonPointer");
}

#[test]
fn test_remove_json_pointer_from_spec_applies_to_request() {
    let spec = TransformDef::RemoveJsonPointer { path: "/secret".to_string() };
    let t = transform_from_spec(&spec);
    let req = RequestData::new("POST", "/users")
        .with_body(BodyData::Json(json(r#"{"name": "bob", "secret": "hidden"}"#)));
    let result = t.transform_request(req).unwrap();
    match result.body {
        BodyData::Json(v) => {
            assert_eq!(v.get("name"), Some(&json(r#""bob""#)));
            assert!(v.get("secret").is_none());
        }
        _ => panic!("expected Json body"),
    }
}

#[test]
fn test_replace_body_from_spec() {
    let spec = TransformDef::ReplaceBody { body: BodyData::Json(json(r#"{"replaced": true}"#)) };
    let t = transform_from_spec(&spec);
    assert_eq!(t.name(), "ReplaceBody");
}

#[test]
fn test_replace_body_from_spec_applies_to_request() {
    let spec = TransformDef::ReplaceBody { body: BodyData::Text("replacement body".to_string()) };
    let t = transform_from_spec(&spec);
    let req = RequestData::new("POST", "/users").with_body(BodyData::Json(json(r#"{"original": true}"#)));
    let result = t.transform_request(req).unwrap();
    match result.body {
        BodyData::Text(s) => assert_eq!(s, "replacement body"),
        _ => panic!("expected Text body"),
    }
}

#[test]
fn test_replace_body_from_spec_applies_to_response() {
    let spec = TransformDef::ReplaceBody { body: BodyData::Json(json(r#"{"status": "ok"}"#)) };
    let t = transform_from_spec(&spec);
    let resp = ResponseData::new(200).with_body(BodyData::Empty);
    let result = t.transform_response(resp).unwrap();
    match result.body {
        BodyData::Json(v) => assert_eq!(v, json(r#"{"status": "ok"}"#)),
        _ => panic!("expected Json body"),
    }
}

#[test]
fn test_set_status_from_spec() {
    let spec = TransformDef::SetStatus { status: 201 };
    let t = transform_from_spec(&spec);
    assert_eq!(t.name(), "SetStatus");
}

#[test]
fn test_set_status_from_spec_applies_to_response() {
    let spec = TransformDef::SetStatus { status: 201 };
    let t = transform_from_spec(&spec);
    let result = t.transform_response(ResponseData::new(200)).unwrap();
    assert_eq!(result.status, 201);
}

#[test]
fn remove_json_pointer_past_array_end_is_not_found() {
    for path in ["/a/1", "/a/-", "/a/+1"] {
        let t = RemoveJsonPointer::new(path);
        let req = json_request(BodyData::Json(json(r#"{"a": [1]}"#)));
        let result = t.transform_request(req);
        assert_eq!(
            result.map(|r| r.body),
            Err(TransformError::JsonPointer(format!("path not found: {}", path)))
        );
    }
}

#[test]
fn remove_json_pointer_last_array_element() {
    let t = RemoveJsonPointer::new("/a/0");
    let req = json_request(BodyData::Json(json(r#"{"a": [1]}"#)));
    let result = t.transform_request(req).unwrap();
    assert_eq!(result.body, BodyData::Json(json(r#"{"a": []}"#)));
    let t = RemoveJsonPointer::new("/a/01");
    let req = json_request(BodyData::Json(json(r#"{"a": [1, 2]}"#)));
    assert!(matches!(t.transform_request(req), Err(TransformError::JsonPointer(_))));
}
