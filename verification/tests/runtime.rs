use mock_api::config::{
    Action, Config, DefaultsConfig, MatchRule, Response, Route, ServerConfig as ConfigServer,
};
use mock_api::http::RuntimeEvent;
use mock_api::json::parse_json;
use mock_api::request::RequestData;
use mock_api::runtime::{RuntimeCore, RuntimeError, RuntimeStatus};
use mock_api::strmap::StrMap;

const ONE_ROUTE: &str = r#"{
    "version": 1,
    "server": { "host": "127.0.0.1", "port": 0 },
    "defaults": { "upstream_timeout_ms": 5000, "max_body_bytes": 1048576 },
    "routes": [
        {
            "id": "get-user",
            "priority": 100,
            "match_rule": { "method": "GET", "path": "/users/:id" },
            "action": { "type": "mock", "response": { "status": 200, "json_body": { "id": 1 } } }
        }
    ]
}"#;

const TWO_ROUTES: &str = r#"{
    "version": 1,
    "server": { "host": "127.0.0.1", "port": 0 },
    "defaults": { "upstream_timeout_ms": 5000, "max_body_bytes": 1048576 },
    "routes": [
        {
            "id": "get-user",
            "priority": 100,
            "match_rule": { "method": "GET", "path": "/users/:id" },
            "action": { "type": "mock", "response": { "status": 200, "json_body": { "id": 1 } } }
        },
        {
            "id": "list-users",
            "priority": 50,
            "match_rule": { "method": "GET", "path": "/users" },
            "action": { "type": "mock", "response": { "status": 200, "json_body": [] } }
        }
    ]
}"#;

fn mock_route(id: &str, priority: i32, path: &str, body: &str) -> Route {
    Route {
        id: id.to_string(),
        priority,
        match_rule: MatchRule {
            method: Some("GET".to_string()),
            path: Some(path.to_string()),
            headers: None,
            query: None,
            body: None,
        },
        action: Action::Mock {
            response: Response {
                status: 200,
                headers: StrMap::new(),
                json_body: Some(parse_json(body).unwrap()),
                text_body: None,
                delay_ms: None,
            },
        },
    }
}

fn config_with(routes: Vec<Route>) -> Config {
    Config {
        version: 1,
        server: ConfigServer { host: "127.0.0.1".to_string(), port: 0, ..Default::default() },
        defaults: DefaultsConfig { upstream_timeout_ms: 5000, max_body_bytes: 1048576 },
        routes,
        unmatched: None,
    }
}

fn one_route() -> Config {
    config_with(vec![mock_route("get-user", 100, "/users/:id", r#"{"id": 1}"#)])
}

fn two_routes() -> Config {
    config_with(vec![
        mock_route("get-user", 100, "/users/:id", r#"{"id": 1}"#),
        mock_route("list-users", 50, "/users", "[]"),
    ])
}

fn running() -> RuntimeCore {
    let mut rt = RuntimeCore::new(Ok(one_route()), ONE_ROUTE).unwrap();
    rt.begin_start().unwrap();
    rt.finish_start(Ok(())).unwrap();
    rt
}

#[test]
fn test_new_valid_config() {
    let runtime = RuntimeCore::new(Ok(one_route()), ONE_ROUTE).unwrap();
    assert_eq!(runtime.status(), RuntimeStatus::Stopped);
    assert_eq!(runtime.server_config().port, 0);
    assert_eq!(runtime.server_config().upstream_timeout_ms, 5000);
    assert_eq!(runtime.engine().rule_count(), 1);
}

#[test]
fn test_new_invalid_json() {
    let result = RuntimeCore::new(Err("expected value".to_string()), "this is not json");
    assert!(matches!(result, Err(RuntimeError::InvalidConfig(_))));
}

#[test]
fn runtime_new_validation_error() {
    let mut config = one_route();
    config.version = 3;
    let result = RuntimeCore::new(Ok(config), ONE_ROUTE);
    assert!(matches!(result, Err(RuntimeError::ValidationError(ref m)) if m.starts_with("INVALID_VERSION: ")));
}

#[test]
fn test_start_stop_cycle() {
    let mut runtime = RuntimeCore::new(Ok(one_route()), ONE_ROUTE).unwrap();
    assert!(runtime.begin_start().is_ok());
    assert_eq!(runtime.status(), RuntimeStatus::Starting);
    assert!(runtime.finish_start(Ok(())).is_ok());
    assert_eq!(runtime.status(), RuntimeStatus::Running);
    assert_eq!(runtime.stop(), Ok(RuntimeEvent::ServerStopped));
    assert_eq!(runtime.status(), RuntimeStatus::Stopped);
}

#[test]
fn test_start_idempotent() {
    let mut runtime = running();
    let result = runtime.begin_start();
    assert!(matches!(result, Err(RuntimeError::InvalidState(_))));
    assert_eq!(runtime.status(), RuntimeStatus::Running);
}

#[test]
fn runtime_failed_start() {
    let mut runtime = RuntimeCore::new(Ok(one_route()), ONE_ROUTE).unwrap();
    runtime.begin_start().unwrap();
    let result = runtime.finish_start(Err("address in use".to_string()));
    assert_eq!(result, Err(RuntimeError::ServerError("address in use".to_string())));
    assert_eq!(runtime.status(), RuntimeStatus::Failed);
    assert_eq!(
        RuntimeError::ServerError("address in use".to_string()).message(),
        "server error: address in use"
    );
}

#[test]
fn test_reload_success() {
    let mut runtime = running();
    let (result, event) = runtime.reload(Ok(two_routes()), TWO_ROUTES);
    assert!(result.is_ok());
    assert_eq!(runtime.status(), RuntimeStatus::Running);
    assert_eq!(event, Some(RuntimeEvent::ConfigReloaded { rule_count: 2 }));
    assert_eq!(runtime.engine().rule_count(), 2);
}

#[test]
fn test_reload_failure_preserves_old_engine() {
    let mut runtime = running();
    let (result, event) = runtime.reload(Err("expected value".to_string()), "this is not json");
    assert!(result.is_err());
    assert_eq!(runtime.status(), RuntimeStatus::Running);
    assert!(matches!(event, Some(RuntimeEvent::ConfigReloadFailed { .. })));
    assert_eq!(runtime.engine().rule_count(), 1);
    let still = runtime.engine().decide(RequestData::new("GET", "/users/9")).unwrap();
    assert_eq!(still.route_id(), Some("get-user"));

    let (ok, event) = runtime.reload(Ok(one_route()), ONE_ROUTE);
    assert!(ok.is_ok());
    assert_eq!(event, Some(RuntimeEvent::ConfigReloaded { rule_count: 1 }));
}

#[test]
fn test_reload_bad_engine_preserves_old() {
    let mut runtime = running();
    let dup = config_with(vec![
        mock_route("dup", 100, "/a", "{}"),
        mock_route("dup", 50, "/b", "{}"),
    ]);
    let dup_json = r#"{"version": 1, "routes": [
        {"id": "dup", "priority": 100, "match_rule": {"method": "GET", "path": "/a"}, "action": {"type": "mock", "response": {"status": 200}}},
        {"id": "dup", "priority": 50, "match_rule": {"method": "GET", "path": "/b"}, "action": {"type": "mock", "response": {"status": 200}}}
    ]}"#;
    let (result, event) = runtime.reload(Ok(dup), dup_json);
    assert!(result.is_err());
    assert_eq!(runtime.status(), RuntimeStatus::Running);
    assert!(matches!(event, Some(RuntimeEvent::ConfigReloadFailed { .. })));
    assert_eq!(runtime.engine().rule_count(), 1);
}

#[test]
fn runtime_reload_refused_when_stopped() {
    let mut runtime = RuntimeCore::new(Ok(one_route()), ONE_ROUTE).unwrap();
    let (result, event) = runtime.reload(Ok(two_routes()), TWO_ROUTES);
    assert_eq!(
        result,
        Err(RuntimeError::InvalidState("cannot reload in state Stopped".to_string()))
    );
    assert_eq!(event, None);
    assert_eq!(runtime.engine().rule_count(), 1);
}

#[test]
fn test_status_transitions() {
    let mut runtime = RuntimeCore::new(Ok(one_route()), ONE_ROUTE).unwrap();
    assert_eq!(runtime.status(), RuntimeStatus::Stopped);
    runtime.begin_start().unwrap();
    runtime.finish_start(Ok(())).unwrap();
    assert_eq!(runtime.status(), RuntimeStatus::Running);
    runtime.stop().unwrap();
    assert_eq!(runtime.status(), RuntimeStatus::Stopped);
    assert_eq!(RuntimeStatus::Running.name(), "Running");
}

#[test]
fn test_stop_when_not_running() {
    let mut runtime = RuntimeCore::new(Ok(one_route()), ONE_ROUTE).unwrap();
    let result = runtime.stop();
    assert!(matches!(result, Err(RuntimeError::InvalidState(_))));
}

#[test]
fn runtime_start_refused_after_failure() {
    let mut runtime = RuntimeCore::new(Ok(one_route()), ONE_ROUTE).unwrap();
    runtime.begin_start().unwrap();
    runtime.finish_start(Err("address in use".to_string())).unwrap_err();
    assert_eq!(
        runtime.begin_start(),
        Err(RuntimeError::InvalidState("already failed".to_string()))
    );
    assert_eq!(runtime.status(), RuntimeStatus::Failed);
}
