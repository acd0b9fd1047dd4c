use mock_api::config::{
    parse_and_validate, validate, validation_failure, Action, Config, ConfigError, DefaultsConfig,
    MatchRule, Response, Route, ServerConfig, ValidationSeverity,
};
use mock_api::json::{parse_json, JsonValue};
use mock_api::strmap::StrMap;
use mock_api::transform::TransformDef;

fn json(text: &str) -> JsonValue {
    parse_json(text).unwrap()
}

fn match_rule(method: &str, path: &str) -> MatchRule {
    MatchRule {
        method: Some(method.to_string()),
        path: Some(path.to_string()),
        headers: None,
        query: None,
        body: None,
    }
}

fn forward_route(id: &str, path: &str, upstream: &str, request_transforms: Vec<TransformDef>) -> Route {
    Route {
        id: id.to_string(),
        priority: 50,
        match_rule: match_rule("POST", path),
        action: Action::Forward {
            upstream: upstream.to_string(),
            request_transforms,
            response_transforms: vec![],
        },
    }
}

fn valid_config() -> Config {
    Config {
        version: 1,
        server: ServerConfig {
            host: "127.0.0.1".to_string(),
            port: 8080,
            ..Default::default()
        },
        defaults: DefaultsConfig {
            upstream_timeout_ms: 10_000,
            max_body_bytes: 1_048_576,
        },
        routes: vec![
            Route {
                id: "route-1".to_string(),
                priority: 100,
                match_rule: match_rule("GET", "/api/test"),
                action: Action::Mock {
                    response: Response {
                        status: 200,
                        headers: StrMap::new(),
                        json_body: Some(json(r#"{"ok": true}"#)),
                        text_body: None,
                        delay_ms: None,
                    },
                },
            },
            forward_route("route-2", "/api/users", "https://api.example.com", vec![]),
        ],
        unmatched: None,
    }
}

#[test]
fn validate_test_validate_valid_config() {
    let config = valid_config();
    let issues = validate(&config);
    assert!(issues.is_empty(), "valid config should have no issues: {:?}", issues);
}

#[test]
fn test_validate_invalid_version() {
    let mut config = valid_config();
    config.version = 999;
    let issues = validate(&config);
    assert!(!issues.is_empty());
    assert!(issues.iter().any(|i| i.code == "INVALID_VERSION"));
}

#[test]
fn test_validate_duplicate_route_ids() {
    let mut config = valid_config();
    config.routes.push(Route {
        id: "route-1".to_string(),
        priority: 200,
        match_rule: match_rule("GET", "/api/other"),
        action: Action::Mock {
            response: Response {
                status: 200,
                headers: StrMap::new(),
                json_body: None,
                text_body: None,
                delay_ms: None,
            },
        },
    });
    let issues = validate(&config);
    assert!(issues.iter().any(|i| i.code == "DUPLICATE_ROUTE_ID"));
}

#[test]
fn test_validate_negative_priority() {
    let mut config = valid_config();
    config.routes[0].priority = -1;
    let issues = validate(&config);
    assert!(issues.iter().any(|i| i.code == "NEGATIVE_PRIORITY"));
}

#[test]
fn test_validate_invalid_upstream_url() {
    let mut config = valid_config();
    config.routes[1] = forward_route("bad-forward", "/api/bad", "not-a-valid-url", vec![]);
    let issues = validate(&config);
    assert!(issues.iter().any(|i| i.code == "INVALID_UPSTREAM_URL"));
}

#[test]
fn test_validate_missing_upstream_scheme() {
    let mut config = valid_config();
    config.routes[1] = forward_route("no-scheme", "/api/no-scheme", "api.example.com", vec![]);
    let issues = validate(&config);
    assert!(issues.iter().any(|i| i.code == "INVALID_UPSTREAM_URL"));
}

#[test]
fn test_validate_empty_match_rule() {
    let mut config = valid_config();
    config.routes[0].match_rule = MatchRule {
        method: None,
        path: None,
        headers: None,
        query: None,
        body: None,
    };
    let issues = validate(&config);
    assert!(issues.iter().any(|i| i.code == "EMPTY_MATCH_RULE"));
}

#[test]
fn test_validate_invalid_json_pointer() {
    let mut config = valid_config();
    config.routes[1] = forward_route(
        "bad-pointer",
        "/api/pointer",
        "https://api.example.com",
        vec![TransformDef::SetJsonPointer { path: "invalid".to_string(), value: json(r#""test""#) }],
    );
    let issues = validate(&config);
    assert!(issues.iter().any(|i| i.code == "INVALID_JSON_POINTER"));
}

#[test]
fn test_validate_valid_json_pointer() {
    let mut config = valid_config();
    config.routes[1] = forward_route(
        "good-pointer",
        "/api/pointer",
        "https://api.example.com",
        vec![TransformDef::SetJsonPointer {
            path: "/data/attributes/name".to_string(),
            value: json(r#""test""#),
        }],
    );
    let issues = validate(&config);
    assert!(!issues.iter().any(|i| i.code == "INVALID_JSON_POINTER"));
}

#[test]
fn test_validate_tls_valid_config() {
    let mut config = valid_config();
    config.server.keystore_file = Some("keystore.jks".to_string());
    config.server.keystore_password = Some("changeit".to_string());
    config.server.key_password = Some("keypass".to_string());
    let issues = validate(&config);
    assert!(issues.is_empty(), "valid TLS config should have no issues: {:?}", issues);
}

#[test]
fn test_validate_tls_password_without_keystore() {
    let mut config = valid_config();
    config.server.keystore_password = Some("changeit".to_string());
    let issues = validate(&config);
    assert!(issues.iter().any(|i| i.code == "TLS_PASSWORD_WITHOUT_KEYSTORE"));
}

#[test]
fn test_validate_tls_missing_keystore_password() {
    let mut config = valid_config();
    config.server.keystore_file = Some("keystore.jks".to_string());
    let issues = validate(&config);
    assert!(issues.iter().any(|i| i.code == "MISSING_KEYSTORE_PASSWORD"));
}

fn empty_routes_config(version: u32) -> Config {
    Config {
        version,
        server: ServerConfig { host: "127.0.0.1".to_string(), port: 8080, ..Default::default() },
        defaults: DefaultsConfig { upstream_timeout_ms: 10000, max_body_bytes: 1048576 },
        routes: vec![],
        unmatched: None,
    }
}

#[test]
fn test_parse_and_validate_valid() {
    let parsed = parse_and_validate(Ok(valid_config())).unwrap();
    assert_eq!(parsed.version, 1);
}

#[test]
fn test_parse_and_validate_invalid_version() {
    let result = parse_and_validate(Ok(empty_routes_config(999)));
    assert!(result.is_err());
    let err = result.unwrap_err();
    assert!(matches!(err, ConfigError::Validation(_)));
}

#[test]
fn test_parse_and_validate_empty_routes() {
    let result = parse_and_validate(Ok(empty_routes_config(1)));
    assert!(result.is_ok());
}

// --- further cases ---

#[test]
fn config_parse_failure_is_parse_error() {
    let result = parse_and_validate(Err("expected value at line 1".to_string()));
    assert_eq!(result, Err(ConfigError::Parse("expected value at line 1".to_string())));
    assert_eq!(
        ConfigError::Parse("x".to_string()).message(),
        "failed to parse JSON: x"
    );
    assert_eq!(ConfigError::Io("gone".to_string()).message(), "I/O error: gone");
    assert_eq!(
        ConfigError::validation("bad").message(),
        "validation failed: bad"
    );
}

#[test]
fn config_invalid_version_issue_text() {
    let issues = validate(&empty_routes_config(2));
    assert_eq!(issues.len(), 1);
    assert_eq!(issues[0].code, "INVALID_VERSION");
    assert_eq!(issues[0].path, "/version");
    assert_eq!(issues[0].severity, ValidationSeverity::Error);
    let failure = validation_failure(&empty_routes_config(2)).unwrap();
    assert!(failure.starts_with("/version: "));
    assert!(validation_failure(&empty_routes_config(1)).is_none());
}

#[test]
fn config_negative_priority_is_warning() {
    let mut config = valid_config();
    config.routes[0].priority = -5;
    let issues = validate(&config);
    let issue = issues.iter().find(|i| i.code == "NEGATIVE_PRIORITY").unwrap();
    assert_eq!(issue.severity, ValidationSeverity::Warning);
    assert_eq!(issue.path, "/routes/0/priority");
    assert!(parse_and_validate(Ok(config)).is_err());
}

#[test]
fn config_duplicate_id_points_at_second_route() {
    let mut config = valid_config();
    config.routes[1].id = "route-1".to_string();
    let issues = validate(&config);
    let issue = issues.iter().find(|i| i.code == "DUPLICATE_ROUTE_ID").unwrap();
    assert_eq!(issue.path, "/routes/1/id");
}

#[test]
fn config_upstream_without_host() {
    let mut config = valid_config();
    config.routes[1] = forward_route("no-host", "/api/x", "http://", vec![]);
    let issues = validate(&config);
    assert!(issues.iter().any(|i| i.code == "INVALID_UPSTREAM_URL"));
    config.routes[1] = forward_route("ok", "/api/x", "http://localhost:9000/base", vec![]);
    assert!(validate(&config).is_empty());
}
