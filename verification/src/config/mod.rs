//! The configuration model: server, defaults, routes and the unmatched
//! action, with its semantic check.

use vstd::prelude::*;
use crate::body::{BodyData, BodyModel};
use crate::json::{JsonValue, JsonModel};
use crate::strmap::{StrMap, MapModel};
use crate::transform::{TransformDef, from_spec::DefModel};

pub mod validate;

pub use validate::{validate, validation_failure};

verus! {

/// Model of an optional string.
pub open spec fn opt_view(o: Option<String>) -> Option<Seq<char>> {
    match o {
        Some(s) => Some(s@),
        None => None,
    }
}

/// A copy of an optional string.
pub fn copy_opt(o: &Option<String>) -> (r: Option<String>)
    ensures
        opt_view(r) == opt_view(*o),
{
    match o {
        Some(s) => Some(s.clone()),
        None => None,
    }
}

/// Server binding: host, port and the optional TLS keystore.
#[derive(Debug, Clone, PartialEq)]
pub struct ServerConfig {
    pub host: String,
    pub port: u16,
    /// A JKS keystore with the TLS certificate and key; HTTPS when set.
    pub keystore_file: Option<String>,
    /// The keystore's password.
    pub keystore_password: Option<String>,
    /// The key entry's password (defaults to the keystore's).
    pub key_password: Option<String>,
}

/// Model of the server binding.
pub struct ServerModel {
    pub host: Seq<char>,
    pub port: u16,
    pub keystore_file: Option<Seq<char>>,
    pub keystore_password: Option<Seq<char>>,
    pub key_password: Option<Seq<char>>,
}

impl View for ServerConfig {
    type V = ServerModel;

    open spec fn view(&self) -> ServerModel {
        ServerModel {
            host: self.host@,
            port: self.port,
            keystore_file: opt_view(self.keystore_file),
            keystore_password: opt_view(self.keystore_password),
            key_password: opt_view(self.key_password),
        }
    }
}

impl Default for ServerConfig {
    /// `127.0.0.1:8080`, without TLS.
    fn default() -> (r: ServerConfig)
        ensures
            r@ == (ServerModel {
                host: "127.0.0.1"@,
                port: 8080,
                keystore_file: None,
                keystore_password: None,
                key_password: None,
            }),
    {
        ServerConfig {
            host: String::from_str("127.0.0.1"),
            port: 8080,
            keystore_file: None,
            keystore_password: None,
            key_password: None,
        }
    }
}

/// Defaults for all routes.
#[derive(Debug, Clone, PartialEq, Eq)]
pub struct DefaultsConfig {
    pub upstream_timeout_ms: u64,
    pub max_body_bytes: usize,
}

impl Default for DefaultsConfig {
    /// A 10 s upstream timeout and a 1 MiB body limit.
    fn default() -> (r: DefaultsConfig)
        ensures
            r.upstream_timeout_ms == 10000,
            r.max_body_bytes == 1048576,
    {
        DefaultsConfig { upstream_timeout_ms: 10000, max_body_bytes: 1048576 }
    }
}

/// What a route requires of a request.
#[derive(Debug, PartialEq)]
pub struct MatchRule {
    pub method: Option<String>,
    pub path: Option<String>,
    pub headers: Option<StrMap>,
    pub query: Option<StrMap>,
    pub body: Option<BodyData>,
}

/// Model of a match rule.
pub struct MatchRuleModel {
    pub method: Option<Seq<char>>,
    pub path: Option<Seq<char>>,
    pub headers: Option<MapModel>,
    pub query: Option<MapModel>,
    pub body: Option<BodyModel>,
}

impl View for MatchRule {
    type V = MatchRuleModel;

    open spec fn view(&self) -> MatchRuleModel {
        MatchRuleModel {
            method: opt_view(self.method),
            path: opt_view(self.path),
            headers: match self.headers {
                Some(h) => Some(h@),
                None => None,
            },
            query: match self.query {
                Some(q) => Some(q@),
                None => None,
            },
            body: match self.body {
                Some(b) => Some(b@),
                None => None,
            },
        }
    }
}

/// A mock response.
#[derive(Debug, PartialEq)]
pub struct Response {
    pub status: u16,
    pub headers: StrMap,
    pub json_body: Option<JsonValue>,
    pub text_body: Option<String>,
    pub delay_ms: Option<u64>,
}

/// Model of a mock response.
pub struct ResponseSpecModel {
    pub status: u16,
    pub headers: MapModel,
    pub json_body: Option<JsonModel>,
    pub text_body: Option<Seq<char>>,
    pub delay_ms: Option<u64>,
}

impl View for Response {
    type V = ResponseSpecModel;

    open spec fn view(&self) -> ResponseSpecModel {
        ResponseSpecModel {
            status: self.status,
            headers: self.headers@,
            json_body: match self.json_body {
                Some(j) => Some(j@),
                None => None,
            },
            text_body: opt_view(self.text_body),
            delay_ms: self.delay_ms,
        }
    }
}

/// What a route does.
#[derive(Debug, PartialEq)]
pub enum Action {
    Mock { response: Response },
    Forward {
        upstream: String,
        request_transforms: Vec<TransformDef>,
        response_transforms: Vec<TransformDef>,
    },
}

/// Model of a list of transform descriptions.
pub open spec fn defs_view(v: Seq<TransformDef>) -> Seq<DefModel> {
    v.map_values(|t: TransformDef| t@)
}

/// Model of an action.
pub enum ActionSpecModel {
    Mock { response: ResponseSpecModel },
    Forward {
        upstream: Seq<char>,
        request_transforms: Seq<DefModel>,
        response_transforms: Seq<DefModel>,
    },
}

impl View for Action {
    type V = ActionSpecModel;

    open spec fn view(&self) -> ActionSpecModel {
        match self {
            Action::Mock { response } => ActionSpecModel::Mock { response: response@ },
            Action::Forward { upstream, request_transforms, response_transforms } => ActionSpecModel::Forward {
                upstream: upstream@,
                request_transforms: defs_view(request_transforms@),
                response_transforms: defs_view(response_transforms@),
            },
        }
    }
}

/// A route: a match rule and an action.
#[derive(Debug, PartialEq)]
pub struct Route {
    pub id: String,
    pub priority: i32,
    pub match_rule: MatchRule,
    pub action: Action,
}

/// Model of a route.
pub struct RouteModel {
    pub id: Seq<char>,
    pub priority: i32,
    pub match_rule: MatchRuleModel,
    pub action: ActionSpecModel,
}

impl View for Route {
    type V = RouteModel;

    open spec fn view(&self) -> RouteModel {
        RouteModel {
            id: self.id@,
            priority: self.priority,
            match_rule: self.match_rule@,
            action: self.action@,
        }
    }
}

/// What to do with requests that match no route.
#[derive(Debug, PartialEq)]
pub struct UnmatchedConfig {
    pub action: Action,
}

/// The whole configuration.
#[derive(Debug, PartialEq)]
pub struct Config {
    pub version: u32,
    pub server: ServerConfig,
    pub defaults: DefaultsConfig,
    pub routes: Vec<Route>,
    pub unmatched: Option<UnmatchedConfig>,
}

/// Model of a list of routes.
pub open spec fn routes_view(v: Seq<Route>) -> Seq<RouteModel> {
    v.map_values(|r: Route| r@)
}

/// Model of a configuration.
pub struct ConfigModel {
    pub version: u32,
    pub server: ServerModel,
    pub defaults: DefaultsConfig,
    pub routes: Seq<RouteModel>,
    pub unmatched: Option<ActionSpecModel>,
}

impl View for Config {
    type V = ConfigModel;

    open spec fn view(&self) -> ConfigModel {
        ConfigModel {
            version: self.version,
            server: self.server@,
            defaults: self.defaults,
            routes: routes_view(self.routes@),
            unmatched: match self.unmatched {
                Some(u) => Some(u.action@),
                None => None,
            },
        }
    }
}

impl Default for Config {
    /// Version 1, the default server and defaults, no routes, no unmatched
    /// action.
    fn default() -> (r: Config)
        ensures
            r@.version == 1,
            r@.server.host == "127.0.0.1"@,
            r@.server.port == 8080,
            r@.server.keystore_file is None,
            r@.server.keystore_password is None,
            r@.server.key_password is None,
            r@.defaults.upstream_timeout_ms == 10000,
            r@.defaults.max_body_bytes == 1048576,
            r@.routes.len() == 0,
            r@.unmatched is None,
    {
        let r = Config {
            version: 1,
            server: ServerConfig::default(),
            defaults: DefaultsConfig::default(),
            routes: Vec::new(),
            unmatched: None,
        };
        r
    }
}

/// How serious a validation issue is.
#[derive(Debug, Clone, Copy, PartialEq, Eq, Structural)]
pub enum ValidationSeverity {
    /// Must be fixed.
    Error,
    /// Should be fixed.
    Warning,
}

/// A problem found by the configuration check.
#[derive(Debug, Clone, PartialEq)]
pub struct ValidationIssue {
    pub code: String,
    pub path: String,
    pub message: String,
    pub severity: ValidationSeverity,
    pub suggestion: Option<String>,
}

/// Model of a validation issue.
pub struct IssueModel {
    pub code: Seq<char>,
    pub path: Seq<char>,
    pub message: Seq<char>,
    pub severity: ValidationSeverity,
    pub suggestion: Option<Seq<char>>,
}

impl View for ValidationIssue {
    type V = IssueModel;

    open spec fn view(&self) -> IssueModel {
        IssueModel {
            code: self.code@,
            path: self.path@,
            message: self.message@,
            severity: self.severity,
            suggestion: opt_view(self.suggestion),
        }
    }
}

/// Errors of loading a configuration.
#[derive(Debug, Clone, PartialEq)]
pub enum ConfigError {
    /// The text is not a configuration (with the parser's message).
    Parse(String),
    /// The file could not be read (with the system error's text).
    Io(String),
    /// The check found issues (their joined text).
    Validation(String),
}

/// The text of a configuration error.
pub open spec fn config_error_message(e: ConfigError) -> Seq<char> {
    match e {
        ConfigError::Parse(s) => "failed to parse JSON: "@ + s@,
        ConfigError::Io(s) => "I/O error: "@ + s@,
        ConfigError::Validation(s) => "validation failed: "@ + s@,
    }
}

impl ConfigError {
    /// A validation error with the given message.
    pub fn validation(message: &str) -> (r: ConfigError)
        ensures
            r == ConfigError::Validation(r->Validation_0),
            r->Validation_0@ == message@,
    {
        ConfigError::Validation(String::from_str(message))
    }

    /// The text of the error.
    pub fn message(&self) -> (r: String)
        ensures
            r@ == config_error_message(*self),
    {
        match self {
            ConfigError::Parse(s) => crate::text::concat("failed to parse JSON: ", s.as_str()),
            ConfigError::Io(s) => crate::text::concat("I/O error: ", s.as_str()),
            ConfigError::Validation(s) => crate::text::concat("validation failed: ", s.as_str()),
        }
    }
}

/// Checks a parsed configuration: a parse failure is a parse error; any
/// issue, warnings included, fails the check with every issue as
/// `"{path}: {message}"` joined with `"; "`.
pub fn parse_and_validate(parsed: Result<Config, String>) -> (r: Result<Config, ConfigError>)
    ensures
        match parsed {
            Err(e) => r == Err::<Config, ConfigError>(ConfigError::Parse(e)),
            Ok(c) => if validate::validate_spec(c@).len() == 0 {
                r == Ok::<Config, ConfigError>(c)
            } else {
                r matches Err(ConfigError::Validation(m)) && m@ == validate::join_issues(
                    validate::validate_spec(c@),
                )
            },
        },
{
    match parsed {
        Err(e) => Err(ConfigError::Parse(e)),
        Ok(c) => match validation_failure(&c) {
            Some(m) => Err(ConfigError::Validation(m)),
            None => Ok(c),
        },
    }
}

} // verus!
