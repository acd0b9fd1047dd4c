use mock_api::cli::event_handler::{
    is_sensitive_header, mask_header_value, mask_sensitive_headers, truncate_body, MAX_BODY_PREVIEW,
};
use mock_api::cli::keys::{handle_key, KeyAction, KeyInput};
use mock_api::cli::state::{AppState, RequestRecord, MAX_REQUESTS};
use mock_api::cli::widgets::help::HelpBar;
use mock_api::cli::widgets::request_details::{self, RequestDetails};
use mock_api::cli::widgets::request_list::{self, truncate_path, RequestList, PATH_WIDTH};
use mock_api::cli::widgets::status_bar::StatusBar;
use mock_api::cli::widgets::{Color, Panel};
use mock_api::cli::{LogFormat, RunMode, EVENT_POLL_INTERVAL_MS};
use mock_api::http::{DecisionType, RequestResult, RequestSummary, RuntimeEvent};
use mock_api::runtime::RuntimeStatus;

fn record(method: &str, path: &str, status: u16, id: &str) -> RequestRecord {
    RequestRecord {
        timestamp: std::time::Instant::now(),
        method: method.to_string(),
        path: path.to_string(),
        status,
        latency_ms: 10,
        rule_id: None,
        decision_type: DecisionType::Mock,
        request_id: id.to_string(),
    }
}

#[test]
fn test_log_format_parsing() {
    assert!(matches!("pretty".parse::<LogFormat>(), Ok(LogFormat::Pretty)));
    assert!(matches!("json".parse::<LogFormat>(), Ok(LogFormat::Json)));
    assert!("unknown".parse::<LogFormat>().is_err());
}

#[test]
fn test_run_mode_parsing() {
    assert!(matches!("standard".parse::<RunMode>(), Ok(RunMode::Standard)));
    assert!(matches!("tui".parse::<RunMode>(), Ok(RunMode::Tui)));
    assert!("unknown".parse::<RunMode>().is_err());
}

#[test]
fn test_event_poll_interval() {
    assert_eq!(EVENT_POLL_INTERVAL_MS, 100);
}

#[test]
fn test_is_sensitive_header_authorization() {
    assert!(is_sensitive_header("authorization"));
    assert!(is_sensitive_header("Authorization"));
    assert!(is_sensitive_header("AUTHORIZATION"));
}

#[test]
fn test_is_sensitive_header_cookie() {
    assert!(is_sensitive_header("cookie"));
    assert!(is_sensitive_header("Cookie"));
    assert!(is_sensitive_header("COOKIE"));
}

#[test]
fn test_is_sensitive_header_proxy_authorization() {
    assert!(is_sensitive_header("proxy-authorization"));
    assert!(is_sensitive_header("Proxy-Authorization"));
}

#[test]
fn test_is_sensitive_header_non_sensitive() {
    assert!(!is_sensitive_header("content-type"));
    assert!(!is_sensitive_header("accept"));
    assert!(!is_sensitive_header("x-custom-header"));
}

#[test]
fn test_mask_header_value_sensitive() {
    assert_eq!(mask_header_value("authorization", "Bearer token123"), "***MASKED***");
    assert_eq!(mask_header_value("cookie", "session=abc123"), "***MASKED***");
}

#[test]
fn test_mask_header_value_non_sensitive() {
    assert_eq!(mask_header_value("content-type", "application/json"), "application/json");
}

#[test]
fn test_mask_sensitive_headers() {
    let headers = vec![
        ("content-type".to_string(), "application/json".to_string()),
        ("authorization".to_string(), "Bearer token".to_string()),
        ("accept".to_string(), "*/*".to_string()),
        ("cookie".to_string(), "session=123".to_string()),
    ];
    let masked = mask_sensitive_headers(&headers);
    assert_eq!(masked[0].0, "content-type");
    assert_eq!(masked[0].1, "application/json");
    assert_eq!(masked[1].0, "authorization");
    assert_eq!(masked[1].1, "***MASKED***");
    assert_eq!(masked[2].0, "accept");
    assert_eq!(masked[2].1, "*/*");
    assert_eq!(masked[3].0, "cookie");
    assert_eq!(masked[3].1, "***MASKED***");
}

#[test]
fn test_truncate_body_small() {
    let body = b"small body";
    assert_eq!(truncate_body(body), b"small body");
}

#[test]
fn test_truncate_body_exact_max() {
    let body = vec![0u8; MAX_BODY_PREVIEW];
    assert_eq!(truncate_body(&body).len(), MAX_BODY_PREVIEW);
}

#[test]
fn test_truncate_body_large() {
    let body = vec![0u8; MAX_BODY_PREVIEW + 1000];
    let truncated = truncate_body(&body);
    assert_eq!(truncated.len(), MAX_BODY_PREVIEW);
}

#[test]
fn test_app_state_new() {
    let state = AppState::new();
    assert_eq!(state.runtime_status, RuntimeStatus::Stopped);
    assert!(state.server_address.is_none());
    assert_eq!(state.rule_count, 0);
    assert!(state.requests.is_empty());
    assert!(state.selected_request.is_none());
    assert_eq!(state.active_panel, Panel::RequestList);
    assert!(state.filter.is_empty());
    assert!(state.config_error.is_none());
    assert!(!state.should_quit);
}

#[test]
fn test_select_previous_empty() {
    let mut state = AppState::new();
    state.select_previous();
    assert!(state.selected_request.is_none());
}

#[test]
fn test_select_next_empty() {
    let mut state = AppState::new();
    state.select_next();
    assert!(state.selected_request.is_none());
}

#[test]
fn test_select_previous_wraps() {
    let mut state = AppState::new();
    state.requests.push_back(record("GET", "/test", 200, "1"));
    state.selected_request = Some(0);
    state.select_previous();
    assert_eq!(state.selected_request, Some(0));
}

#[test]
fn test_clear_history() {
    let mut state = AppState::new();
    state.requests.push_back(record("GET", "/test", 200, "1"));
    state.selected_request = Some(0);
    state.clear_history();
    assert!(state.requests.is_empty());
    assert!(state.selected_request.is_none());
}

#[test]
fn test_filtered_requests_empty_filter() {
    let mut state = AppState::new();
    state.requests.push_back(record("GET", "/test", 200, "1"));
    let filtered = state.filtered_requests();
    assert_eq!(filtered.len(), 1);
}

#[test]
fn test_filtered_requests_with_filter() {
    let mut state = AppState::new();
    state.requests.push_back(record("GET", "/test", 200, "1"));
    let mut second = record("POST", "/other", 201, "2");
    second.latency_ms = 20;
    state.requests.push_back(second);
    state.filter = "get".to_string();
    let filtered = state.filtered_requests();
    assert_eq!(filtered.len(), 1);
    assert_eq!(filtered[0].path, "/test");
}

#[test]
fn test_help_bar_new() {
    let help = HelpBar::new();
    assert_eq!(help.title, "Help");
}

#[test]
fn test_request_details_new() {
    let details = RequestDetails::new();
    assert_eq!(details.title, "Request Details");
}

#[test]
fn test_status_color() {
    assert_eq!(request_details::status_color(0), Color::Red);
    assert_eq!(request_details::status_color(200), Color::Green);
    assert_eq!(request_details::status_color(301), Color::Yellow);
    assert_eq!(request_details::status_color(404), Color::Red);
    assert_eq!(request_details::status_color(500), Color::Red);
}

#[test]
fn test_status_str() {
    assert_eq!(request_details::status_str(0), "ERROR");
    assert_eq!(request_details::status_str(200), "200");
}

#[test]
fn test_request_list_new() {
    let list = RequestList::new();
    assert_eq!(list.title, "Requests");
}

#[test]
fn test_truncate_path_short() {
    assert_eq!(truncate_path("/short"), "/short");
}

#[test]
fn test_truncate_path_long() {
    let path = "/this/is/a/very/long/path/that/exceeds/the/maximum/width";
    let result = truncate_path(path);
    assert!(result.len() <= PATH_WIDTH as usize);
    assert!(result.ends_with("..."));
}

#[test]
fn test_status_str_zero() {
    assert_eq!(request_list::status_str(0), "-");
}

#[test]
fn test_status_str_normal() {
    assert_eq!(request_list::status_str(200), "200");
}

#[test]
fn test_status_bar_new() {
    let bar = StatusBar::new();
    assert_eq!(bar, StatusBar);
}

// --- further cases ---

#[test]
fn cli_truncate_path_exact_form() {
    let path = "/this/is/a/very/long/path/that/exceeds/the/maximum/width";
    assert_eq!(truncate_path(path), format!("{}...", &path[..37]));
    let forty = "/".repeat(40);
    assert_eq!(truncate_path(&forty), forty);
}

#[test]
fn cli_status_bar_texts() {
    assert_eq!(StatusBar::status_text(RuntimeStatus::Starting), "Starting...");
    assert_eq!(StatusBar::status_color(RuntimeStatus::Running), Color::Green);
    let mut state = AppState::new();
    assert_eq!(StatusBar::address_text(&state), "not bound");
    state.rule_count = 3;
    assert_eq!(StatusBar::rule_count_text(&state), "3 rules");
}

#[test]
fn cli_help_key_label() {
    assert_eq!(HelpBar::key_label("q"), " q   ");
    assert_eq!(HelpBar::key_label("Enter"), " Enter");
    assert_eq!(HelpBar::shortcuts()[0], ("q".to_string(), "quit".to_string()));
}

#[test]
fn cli_handle_events() {
    let mut state = AppState::new();
    state.handle_event(&RuntimeEvent::ServerStarted { address: "127.0.0.1:8080".to_string() });
    assert_eq!(state.runtime_status, RuntimeStatus::Running);
    assert_eq!(state.server_address.as_deref(), Some("127.0.0.1:8080"));
    state.handle_event(&RuntimeEvent::ConfigReloadFailed { message: "bad".to_string() });
    assert_eq!(state.config_error.as_deref(), Some("bad"));
    state.handle_event(&RuntimeEvent::ConfigReloaded { rule_count: 4 });
    assert_eq!(state.rule_count, 4);
    assert!(state.config_error.is_none());
    state.handle_event(&RuntimeEvent::RequestStarted {
        request_id: "r1".to_string(),
        summary: RequestSummary {
            method: "GET".to_string(),
            path: "/a".to_string(),
            rule_id: Some("rule".to_string()),
            upstream_url: None,
        },
    });
    assert_eq!(state.requests.len(), 1);
    assert_eq!(state.requests[0].status, 0);
    state.handle_event(&RuntimeEvent::RequestCompleted {
        request_id: "r1".to_string(),
        result: RequestResult { status: 201, elapsed_ms: 7, decision_type: DecisionType::Forward },
    });
    assert_eq!(state.requests[0].status, 201);
    assert_eq!(state.requests[0].latency_ms, 7);
    assert_eq!(state.requests[0].decision_type, DecisionType::Forward);
    state.handle_event(&RuntimeEvent::ServerStopped);
    assert_eq!(state.runtime_status, RuntimeStatus::Stopped);
    assert!(state.server_address.is_none());
}

#[test]
fn cli_history_bounded() {
    let mut state = AppState::new();
    for i in 0..(MAX_REQUESTS + 5) {
        state.handle_event(&RuntimeEvent::RequestStarted {
            request_id: format!("{}", i),
            summary: RequestSummary {
                method: "GET".to_string(),
                path: "/".to_string(),
                rule_id: None,
                upstream_url: None,
            },
        });
    }
    assert_eq!(state.requests.len(), MAX_REQUESTS);
    assert_eq!(state.requests[0].request_id, "5");
}

#[test]
fn cli_keys() {
    let mut state = AppState::new();
    assert_eq!(handle_key(&mut state, KeyInput::Char('r')), KeyAction::Reload);
    state.requests.push_back(record("GET", "/a", 200, "1"));
    state.requests.push_back(record("GET", "/b", 200, "2"));
    handle_key(&mut state, KeyInput::Down);
    assert_eq!(state.selected_request, Some(0));
    handle_key(&mut state, KeyInput::Char('j'));
    assert_eq!(state.selected_request, Some(1));
    handle_key(&mut state, KeyInput::Enter);
    assert_eq!(state.active_panel, Panel::Details);
    handle_key(&mut state, KeyInput::Char('/'));
    assert!(state.filter_input_mode);
    handle_key(&mut state, KeyInput::Char('x'));
    assert_eq!(state.filter, "x");
    handle_key(&mut state, KeyInput::Backspace);
    assert_eq!(state.filter, "");
    handle_key(&mut state, KeyInput::Esc);
    assert!(!state.filter_input_mode);
    handle_key(&mut state, KeyInput::Char('q'));
    assert!(state.should_quit);
}
