//! The HTTP layer's own data and decisions: runtime events, errors, server
//! settings, and the request and response conversions around the engine.

use vstd::prelude::*;
use crate::body::BodyData;
use crate::response::{ResponseData, ResponseModel, response_new};
use crate::body::BodyModel;
use crate::text::{concat, decimal, fmt_u64};

pub mod handler;

verus! {

/// The largest upstream response body that is passed on, in bytes (5 MiB);
/// a larger one is answered with `502 Bad Gateway`.
pub const MAX_RESPONSE_BYTES: usize = 5242880;

/// The kind of decision made for a request.
#[derive(Debug, Clone, Copy, PartialEq, Eq, Structural)]
pub enum DecisionType {
    /// A mock response.
    Mock,
    /// Forwarded upstream.
    Forward,
    /// Rejected.
    Reject,
}

/// The name of a decision kind.
pub open spec fn decision_type_name(d: DecisionType) -> Seq<char> {
    match d {
        DecisionType::Mock => "mock"@,
        DecisionType::Forward => "forward"@,
        DecisionType::Reject => "reject"@,
    }
}

impl DecisionType {
    /// The decision kind's name: `mock`, `forward` or `reject`.
    pub fn as_str(&self) -> (r: &'static str)
        ensures
            r@ == decision_type_name(*self),
    {
        match self {
            DecisionType::Mock => "mock",
            DecisionType::Forward => "forward",
            DecisionType::Reject => "reject",
        }
    }
}

/// What is known of a request when it starts.
#[derive(Debug, Clone, PartialEq)]
pub struct RequestSummary {
    pub method: String,
    pub path: String,
    /// The matched rule, if any.
    pub rule_id: Option<String>,
    /// The upstream URL of a forward decision, if known.
    pub upstream_url: Option<String>,
}

/// The outcome of a completed request.
#[derive(Debug, Clone, Copy, PartialEq, Eq)]
pub struct RequestResult {
    pub status: u16,
    /// Processing time in milliseconds.
    pub elapsed_ms: u64,
    pub decision_type: DecisionType,
}

/// Events emitted by the runtime and its server.
#[derive(Debug, Clone, PartialEq)]
pub enum RuntimeEvent {
    ServerStarted { address: String },
    ServerStopped,
    ConfigReloaded { rule_count: usize },
    ConfigReloadFailed { message: String },
    RequestStarted { request_id: String, summary: RequestSummary },
    RequestCompleted { request_id: String, result: RequestResult },
    RequestFailed { request_id: String, message: String },
}

/// Errors of the HTTP layer.
#[derive(Debug, Clone, PartialEq)]
pub enum HttpError {
    /// Binding the address failed (with the system error's text).
    BindError { host: String, port: u16, source: String },
    /// The request body exceeded the limit.
    BodyTooLarge { size: usize, limit: usize },
    /// The request body could not be read.
    BodyReadError,
    /// The request body is not UTF-8 (with the decoder's message).
    BodyEncodingError(String),
    /// The request body is not JSON (with the parser's message).
    BodyJsonError(String),
    /// The server was stopped.
    ServerStopped(String),
    /// Draining in-flight requests took too long.
    ShutdownTimeout,
}

/// The text of an HTTP-layer error.
pub open spec fn http_error_message(e: HttpError) -> Seq<char> {
    match e {
        HttpError::BindError { host, port, source } => "failed to bind to "@ + host@ + ":"@ + decimal(
            port as nat,
        ) + ": "@ + source@,
        HttpError::BodyTooLarge { size, limit } => "request body too large: "@ + decimal(size as nat)
            + " bytes exceeds limit of "@ + decimal(limit as nat) + " bytes"@,
        HttpError::BodyReadError => "failed to read request body"@,
        HttpError::BodyEncodingError(s) => "request body is not valid UTF-8: "@ + s@,
        HttpError::BodyJsonError(s) => "request body is not valid JSON: "@ + s@,
        HttpError::ServerStopped(s) => "server stopped: "@ + s@,
        HttpError::ShutdownTimeout => "shutdown timed out waiting for in-flight requests to complete"@,
    }
}

impl HttpError {
    /// The text of the error.
    pub fn message(&self) -> (r: String)
        ensures
            r@ == http_error_message(*self),
    {
        match self {
            HttpError::BindError { host, port, source } => {
                let a = concat("failed to bind to ", host.as_str());
                let b = concat(a.as_str(), ":");
                let c = concat(b.as_str(), fmt_u64(*port as u64).as_str());
                let d = concat(c.as_str(), ": ");
                concat(d.as_str(), source.as_str())
            },
            HttpError::BodyTooLarge { size, limit } => {
                let a = concat("request body too large: ", fmt_u64(*size as u64).as_str());
                let b = concat(a.as_str(), " bytes exceeds limit of ");
                let c = concat(b.as_str(), fmt_u64(*limit as u64).as_str());
                concat(c.as_str(), " bytes")
            },
            HttpError::BodyReadError => String::from_str("failed to read request body"),
            HttpError::BodyEncodingError(s) => concat("request body is not valid UTF-8: ", s.as_str()),
            HttpError::BodyJsonError(s) => concat("request body is not valid JSON: ", s.as_str()),
            HttpError::ServerStopped(s) => concat("server stopped: ", s.as_str()),
            HttpError::ShutdownTimeout => String::from_str(
                "shutdown timed out waiting for in-flight requests to complete",
            ),
        }
    }
}

/// Errors of forwarding a request upstream.
#[derive(Debug, Clone, PartialEq)]
pub enum UpstreamError {
    /// The connection failed (with the client error's text).
    ConnectionError(String),
    /// The upstream did not answer in time.
    Timeout { timeout_ms: u64 },
    /// The upstream URL is invalid.
    InvalidUrl(String),
    /// The upstream answered with a status outside 200-299.
    UpstreamStatus { status: u16, reason: String },
    /// The upstream answer could not be used.
    InvalidResponse(String),
}

/// The text of a forwarding error.
pub open spec fn upstream_error_message(e: UpstreamError) -> Seq<char> {
    match e {
        UpstreamError::ConnectionError(s) => "connection failed: "@ + s@,
        UpstreamError::Timeout { timeout_ms } => "upstream request timed out after "@ + decimal(
            timeout_ms as nat,
        ) + "ms"@,
        UpstreamError::InvalidUrl(s) => "invalid upstream URL: "@ + s@,
        UpstreamError::UpstreamStatus { status, reason } => "upstream returned error status "@
            + decimal(status as nat) + ": "@ + reason@,
        UpstreamError::InvalidResponse(s) => "invalid upstream response: "@ + s@,
    }
}

impl UpstreamError {
    /// The text of the error.
    pub fn message(&self) -> (r: String)
        ensures
            r@ == upstream_error_message(*self),
    {
        match self {
            UpstreamError::ConnectionError(s) => concat("connection failed: ", s.as_str()),
            UpstreamError::Timeout { timeout_ms } => {
                let a = concat("upstream request timed out after ", fmt_u64(*timeout_ms).as_str());
                concat(a.as_str(), "ms")
            },
            UpstreamError::InvalidUrl(s) => concat("invalid upstream URL: ", s.as_str()),
            UpstreamError::UpstreamStatus { status, reason } => {
                let a = concat("upstream returned error status ", fmt_u64(*status as u64).as_str());
                let b = concat(a.as_str(), ": ");
                concat(b.as_str(), reason.as_str())
            },
            UpstreamError::InvalidResponse(s) => concat("invalid upstream response: ", s.as_str()),
        }
    }

    /// A `502 Bad Gateway` response whose text body is the error's text.
    pub fn to_502_response(&self) -> (r: ResponseData)
        ensures
            r@ == (ResponseModel {
                body: BodyModel::Text(upstream_error_message(*self)),
                ..response_new(502)
            }),
    {
        ResponseData::new(502).with_body(BodyData::Text(self.message()))
    }
}

/// Settings of the HTTP server.
#[derive(Debug, Clone, PartialEq)]
pub struct ServerConfig {
    pub host: String,
    pub port: u16,
    /// The largest accepted request body, in bytes.
    pub max_body_bytes: usize,
    /// The upstream timeout, in milliseconds.
    pub upstream_timeout_ms: u64,
}

impl ServerConfig {
    /// Settings for `host:port` with a 1 MiB body limit and a 10 s upstream
    /// timeout.
    pub fn new(host: &str, port: u16) -> (r: ServerConfig)
        ensures
            r.host@ == host@,
            r.port == port,
            r.max_body_bytes == 1048576,
            r.upstream_timeout_ms == 10000,
    {
        ServerConfig {
            host: String::from_str(host),
            port,
            max_body_bytes: 1048576,
            upstream_timeout_ms: 10000,
        }
    }

    /// Sets the body limit.
    pub fn with_max_body_bytes(self, bytes: usize) -> (r: ServerConfig)
        ensures
            r == (ServerConfig { max_body_bytes: bytes, ..self }),
    {
        ServerConfig { max_body_bytes: bytes, ..self }
    }

    /// Sets the upstream timeout.
    pub fn with_upstream_timeout_ms(self, ms: u64) -> (r: ServerConfig)
        ensures
            r == (ServerConfig { upstream_timeout_ms: ms, ..self }),
    {
        ServerConfig { upstream_timeout_ms: ms, ..self }
    }
}

impl Default for ServerConfig {
    /// `127.0.0.1:8080` with the default limits.
    fn default() -> (r: ServerConfig)
        ensures
            r.host@ == "127.0.0.1"@,
            r.port == 8080,
            r.max_body_bytes == 1048576,
            r.upstream_timeout_ms == 10000,
    {
        ServerConfig::new("127.0.0.1", 8080)
    }
}

} // verus!
