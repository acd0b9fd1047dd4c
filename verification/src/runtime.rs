//! The runtime's lifecycle: a state machine over start, reload and stop,
//! holding the engine that serves requests. The caller performs the server
//! work (binding, shutting down) and reports its outcome.

use vstd::prelude::*;
use crate::config::{Config, ConfigModel, IssueModel};
use crate::config::validate::{validate, validate_spec, issues_view};
use crate::engine::{Engine, EngineModel};
use crate::engine::compile::{compile_spec, engine_realizes};
use crate::error::engine_error_message;
use crate::http::{RuntimeEvent, ServerConfig};
use crate::text::{concat, push_str};

verus! {

/// The state of the runtime.
#[derive(Debug, Clone, Copy, PartialEq, Eq, Structural)]
pub enum RuntimeStatus {
    /// Not serving.
    Stopped,
    /// The server is being started.
    Starting,
    /// Serving requests.
    Running,
    /// A configuration is being loaded.
    Reloading,
    /// The server could not be started.
    Failed,
}

/// The name of a status.
pub open spec fn status_name(s: RuntimeStatus) -> Seq<char> {
    match s {
        RuntimeStatus::Stopped => "Stopped"@,
        RuntimeStatus::Starting => "Starting"@,
        RuntimeStatus::Running => "Running"@,
        RuntimeStatus::Reloading => "Reloading"@,
        RuntimeStatus::Failed => "Failed"@,
    }
}

impl RuntimeStatus {
    /// The status's name.
    pub fn name(&self) -> (r: &'static str)
        ensures
            r@ == status_name(*self),
    {
        match self {
            RuntimeStatus::Stopped => "Stopped",
            RuntimeStatus::Starting => "Starting",
            RuntimeStatus::Running => "Running",
            RuntimeStatus::Reloading => "Reloading",
            RuntimeStatus::Failed => "Failed",
        }
    }
}

/// Errors of runtime operations.
#[derive(Debug, Clone, PartialEq)]
pub enum RuntimeError {
    /// The configuration is not valid JSON for the model.
    InvalidConfig(String),
    /// The configuration check found issues.
    ValidationError(String),
    /// The server could not be started.
    ServerError(String),
    /// The operation is not allowed in the current state.
    InvalidState(String),
    /// The engine could not be compiled.
    EngineError(String),
}

/// The text of a runtime error.
pub open spec fn runtime_error_message(e: RuntimeError) -> Seq<char> {
    match e {
        RuntimeError::InvalidConfig(s) => "invalid configuration: "@ + s@,
        RuntimeError::ValidationError(s) => "validation error: "@ + s@,
        RuntimeError::ServerError(s) => "server error: "@ + s@,
        RuntimeError::InvalidState(s) => "invalid state: "@ + s@,
        RuntimeError::EngineError(s) => "engine error: "@ + s@,
    }
}

impl RuntimeError {
    /// The text of the error.
    pub fn message(&self) -> (r: String)
        ensures
            r@ == runtime_error_message(*self),
    {
        match self {
            RuntimeError::InvalidConfig(s) => concat("invalid configuration: ", s.as_str()),
            RuntimeError::ValidationError(s) => concat("validation error: ", s.as_str()),
            RuntimeError::ServerError(s) => concat("server error: ", s.as_str()),
            RuntimeError::InvalidState(s) => concat("invalid state: ", s.as_str()),
            RuntimeError::EngineError(s) => concat("engine error: ", s.as_str()),
        }
    }
}

/// The issues joined as `"{code}: {message} (at {path})"` with `"; "`.
pub open spec fn join_runtime_issues(is: Seq<IssueModel>) -> Seq<char>
    decreases is.len(),
{
    if is.len() == 0 {
        Seq::empty()
    } else {
        let last = is.last();
        let item = last.code + ": "@ + last.message + " (at "@ + last.path + ")"@;
        if is.len() == 1 {
            item
        } else {
            join_runtime_issues(is.drop_last()) + "; "@ + item
        }
    }
}

/// `s` holds the server settings of `c`.
pub open spec fn server_config_matches(s: ServerConfig, c: ConfigModel) -> bool {
    &&& s.host@ == c.server.host
    &&& s.port == c.server.port
    &&& s.max_body_bytes == c.defaults.max_body_bytes
    &&& s.upstream_timeout_ms == c.defaults.upstream_timeout_ms
}

/// The text of the load error for a configuration that cannot be loaded.
pub open spec fn load_error_text(parsed: Result<ConfigModel, Seq<char>>, text: Seq<char>) -> Seq<char> {
    match parsed {
        Err(e) => "invalid JSON: "@ + e,
        Ok(c) => if validate_spec(c).len() > 0 {
            join_runtime_issues(validate_spec(c))
        } else {
            match compile_spec(text) {
                Err(m) => engine_error_message(crate::error::EErrModel::CompileError(m)),
                Ok(_) => Seq::empty(),
            }
        },
    }
}

/// `e` is the error of loading the configuration: of the right kind, with
/// the right text.
pub open spec fn is_load_error(e: RuntimeError, parsed: Result<ConfigModel, Seq<char>>, text: Seq<char>) -> bool {
    match parsed {
        Err(_) => e matches RuntimeError::InvalidConfig(m) && m@ == load_error_text(parsed, text),
        Ok(c) => if validate_spec(c).len() > 0 {
            e matches RuntimeError::ValidationError(m) && m@ == load_error_text(parsed, text)
        } else {
            e matches RuntimeError::EngineError(m) && m@ == load_error_text(parsed, text)
        },
    }
}

/// Whether the configuration can be loaded.
pub open spec fn loads(parsed: Result<ConfigModel, Seq<char>>, text: Seq<char>) -> bool {
    parsed matches Ok(c) && validate_spec(c).len() == 0 && compile_spec(text) is Ok
}

/// The model of a parse result.
pub open spec fn parsed_view(p: Result<Config, String>) -> Result<ConfigModel, Seq<char>> {
    match p {
        Ok(c) => Ok(c@),
        Err(e) => Err(e@),
    }
}

/// What loading a configuration gives: server settings, the engine and the
/// number of routes.
pub struct Loaded {
    pub server: ServerConfig,
    pub engine: Engine,
    pub rule_count: usize,
}

/// Joins issues as `"{code}: {message} (at {path})"` with `"; "`.
fn join_issues_for_runtime(issues: &Vec<crate::config::ValidationIssue>) -> (r: String)
    ensures
        r@ == join_runtime_issues(issues_view(issues@)),
{
    let ghost iv = issues_view(issues@);
    let mut out = String::new();
    let mut i: usize = 0;
    while i < issues.len()
        invariant
            iv == issues_view(issues@),
            i <= issues.len(),
            out@ == join_runtime_issues(iv.subrange(0, i as int)),
        decreases issues.len() - i,
    {
        assert(iv.subrange(0, i + 1).drop_last() =~= iv.subrange(0, i as int));
        if i > 0 {
            push_str(&mut out, "; ");
        }
        push_str(&mut out, issues[i].code.as_str());
        push_str(&mut out, ": ");
        push_str(&mut out, issues[i].message.as_str());
        push_str(&mut out, " (at ");
        push_str(&mut out, issues[i].path.as_str());
        push_str(&mut out, ")");
        proof {
            assert(iv.subrange(0, i + 1).last() == iv[i as int]);
            if i == 0 {
                assert(out@ =~= join_runtime_issues(iv.subrange(0, 1)));
            } else {
                assert(out@ =~= join_runtime_issues(iv.subrange(0, i + 1)));
            }
        }
        i = i + 1;
    }
    assert(iv.subrange(0, i as int) =~= iv);
    out
}

/// Loads a configuration: the parsed model must pass the check and the text
/// must compile.
pub fn load_config(parsed: Result<Config, String>, config_json: &str) -> (r: Result<Loaded, RuntimeError>)
    ensures
        match r {
            Ok(l) => loads(parsed_view(parsed), config_json@) && (parsed_view(parsed) matches Ok(c)
                && server_config_matches(l.server, c) && l.rule_count == c.routes.len())
                && engine_realizes(l.engine@, compile_spec(config_json@)->Ok_0),
            Err(e) => !loads(parsed_view(parsed), config_json@) && is_load_error(
                e,
                parsed_view(parsed),
                config_json@,
            ),
        },
{
    let config = match parsed {
        Err(e) => {
            return Err(RuntimeError::InvalidConfig(concat("invalid JSON: ", e.as_str())));
        },
        Ok(c) => c,
    };
    let issues = validate(&config);
    if issues.len() > 0 {
        return Err(RuntimeError::ValidationError(join_issues_for_runtime(&issues)));
    }
    let server = ServerConfig::new(config.server.host.as_str(), config.server.port)
        .with_max_body_bytes(config.defaults.max_body_bytes)
        .with_upstream_timeout_ms(config.defaults.upstream_timeout_ms);
    let engine = match Engine::compile(config_json) {
        Ok(e) => e,
        Err(e) => {
            return Err(RuntimeError::EngineError(e.message()));
        },
    };
    Ok(Loaded { server, engine, rule_count: config.routes.len() })
}

/// The runtime: its status, the engine serving requests and the server
/// settings.
pub struct RuntimeCore {
    status: RuntimeStatus,
    engine: Engine,
    server_config: ServerConfig,
}

/// Model of the runtime.
pub struct RuntimeModel {
    pub status: RuntimeStatus,
    pub engine: EngineModel,
    pub server_config: ServerConfig,
}

impl View for RuntimeCore {
    type V = RuntimeModel;

    closed spec fn view(&self) -> RuntimeModel {
        RuntimeModel { status: self.status, engine: self.engine@, server_config: self.server_config }
    }
}

impl RuntimeCore {
    /// A stopped runtime for a configuration that loads.
    pub fn new(parsed: Result<Config, String>, config_json: &str) -> (r: Result<RuntimeCore, RuntimeError>)
        ensures
            match r {
                Ok(rt) => loads(parsed_view(parsed), config_json@) && rt@.status
                    == RuntimeStatus::Stopped && (parsed_view(parsed) matches Ok(c)
                    && server_config_matches(rt@.server_config, c)) && engine_realizes(
                    rt@.engine,
                    compile_spec(config_json@)->Ok_0,
                ),
                Err(e) => !loads(parsed_view(parsed), config_json@) && is_load_error(
                    e,
                    parsed_view(parsed),
                    config_json@,
                ),
            },
    {
        let l = load_config(parsed, config_json)?;
        Ok(RuntimeCore { status: RuntimeStatus::Stopped, engine: l.engine, server_config: l.server })
    }

    /// The current status.
    pub fn status(&self) -> (r: RuntimeStatus)
        ensures
            r == self@.status,
    {
        self.status
    }

    /// The engine serving requests.
    pub fn engine(&self) -> (r: &Engine)
        ensures
            r@ == self@.engine,
    {
        &self.engine
    }

    /// The server settings.
    pub fn server_config(&self) -> (r: &ServerConfig)
        ensures
            *r == self@.server_config,
    {
        &self.server_config
    }

    /// Begins starting the server: refused when already running, starting or
    /// failed; otherwise the status becomes `Starting` and the caller starts
    /// the server.
    pub fn begin_start(&mut self) -> (r: Result<(), RuntimeError>)
        ensures
            old(self)@.status == RuntimeStatus::Running ==> (r matches Err(RuntimeError::InvalidState(m))
                && m@ == "already running"@ && final(self)@ == old(self)@),
            old(self)@.status == RuntimeStatus::Starting ==> (r matches Err(RuntimeError::InvalidState(m))
                && m@ == "already starting"@ && final(self)@ == old(self)@),
            old(self)@.status == RuntimeStatus::Failed ==> (r matches Err(RuntimeError::InvalidState(m))
                && m@ == "already failed"@ && final(self)@ == old(self)@),
            old(self)@.status != RuntimeStatus::Running && old(self)@.status != RuntimeStatus::Starting
                && old(self)@.status != RuntimeStatus::Failed ==> r is Ok && final(self)@ == (RuntimeModel { status: RuntimeStatus::Starting, ..old(self)@ }),
    {
        if self.status == RuntimeStatus::Running {
            return Err(RuntimeError::InvalidState(String::from_str("already running")));
        }
        if self.status == RuntimeStatus::Starting {
            return Err(RuntimeError::InvalidState(String::from_str("already starting")));
        }
        if self.status == RuntimeStatus::Failed {
            return Err(RuntimeError::InvalidState(String::from_str("already failed")));
        }
        self.status = RuntimeStatus::Starting;
        Ok(())
    }

    /// Records the outcome of starting the server: `Running` on success,
    /// `Failed` with a server error otherwise.
    pub fn finish_start(&mut self, outcome: Result<(), String>) -> (r: Result<(), RuntimeError>)
        ensures
            match outcome {
                Ok(()) => r is Ok && final(self)@ == (RuntimeModel { status: RuntimeStatus::Running, ..old(self)@ }),
                Err(e) => r matches Err(RuntimeError::ServerError(m)) && m@ == e@ && final(self)@ == (
                RuntimeModel { status: RuntimeStatus::Failed, ..old(self)@ }),
            },
    {
        match outcome {
            Ok(()) => {
                self.status = RuntimeStatus::Running;
                Ok(())
            },
            Err(e) => {
                self.status = RuntimeStatus::Failed;
                Err(RuntimeError::ServerError(e))
            },
        }
    }

    /// Reloads the configuration while running. A configuration that loads
    /// replaces the engine and the server settings and is announced with its
    /// rule count; one that does not leaves the engine and settings as they
    /// were and is announced with the error's text. Either way the runtime is
    /// running afterwards. Outside the running state the reload is refused.
    pub fn reload(&mut self, parsed: Result<Config, String>, config_json: &str) -> (r: (Result<(), RuntimeError>, Option<RuntimeEvent>))
        ensures
            old(self)@.status != RuntimeStatus::Running ==> (r.0 matches Err(RuntimeError::InvalidState(m))
                && m@ == "cannot reload in state "@ + status_name(old(self)@.status) && r.1 is None
                && final(self)@ == old(self)@),
            old(self)@.status == RuntimeStatus::Running ==> final(self)@.status == RuntimeStatus::Running,
            old(self)@.status == RuntimeStatus::Running && !loads(parsed_view(parsed), config_json@) ==> (
            r.0 matches Err(e) && is_load_error(e, parsed_view(parsed), config_json@) && r.1
                == Some(RuntimeEvent::ConfigReloadFailed { message: r.1->Some_0->ConfigReloadFailed_message })
                && r.1->Some_0->ConfigReloadFailed_message@ == load_error_text(
                parsed_view(parsed),
                config_json@,
            ) && final(self)@ == old(self)@),
            old(self)@.status == RuntimeStatus::Running && loads(parsed_view(parsed), config_json@) ==> (
            r.0 is Ok && (parsed_view(parsed) matches Ok(c) && r.1 == Some(
                RuntimeEvent::ConfigReloaded { rule_count: c.routes.len() as usize },
            ) && server_config_matches(final(self)@.server_config, c)) && engine_realizes(
                final(self)@.engine,
                compile_spec(config_json@)->Ok_0,
            )),
    {
        if self.status != RuntimeStatus::Running {
            let m = concat("cannot reload in state ", self.status.name());
            return (Err(RuntimeError::InvalidState(m)), None);
        }
        self.status = RuntimeStatus::Reloading;
        match load_config(parsed, config_json) {
            Err(e) => {
                let message = match &e {
                    RuntimeError::InvalidConfig(m) => m.clone(),
                    RuntimeError::ValidationError(m) => m.clone(),
                    RuntimeError::EngineError(m) => m.clone(),
                    RuntimeError::ServerError(m) => m.clone(),
                    RuntimeError::InvalidState(m) => m.clone(),
                };
                self.status = RuntimeStatus::Running;
                (Err(e), Some(RuntimeEvent::ConfigReloadFailed { message }))
            },
            Ok(l) => {
                self.engine = l.engine;
                self.server_config = l.server;
                self.status = RuntimeStatus::Running;
                (Ok(()), Some(RuntimeEvent::ConfigReloaded { rule_count: l.rule_count }))
            },
        }
    }

    /// Stops serving: refused when already stopped; otherwise the status
    /// becomes `Stopped` and the stop is announced. The caller shuts the
    /// server down.
    pub fn stop(&mut self) -> (r: Result<RuntimeEvent, RuntimeError>)
        ensures
            old(self)@.status == RuntimeStatus::Stopped ==> (r matches Err(RuntimeError::InvalidState(m))
                && m@ == "not running"@ && final(self)@ == old(self)@),
            old(self)@.status != RuntimeStatus::Stopped ==> r == Ok::<RuntimeEvent, RuntimeError>(
                RuntimeEvent::ServerStopped,
            ) && final(self)@ == (RuntimeModel { status: RuntimeStatus::Stopped, ..old(self)@ }),
    {
        if self.status == RuntimeStatus::Stopped {
            return Err(RuntimeError::InvalidState(String::from_str("not running")));
        }
        self.status = RuntimeStatus::Stopped;
        Ok(RuntimeEvent::ServerStopped)
    }
}

} // verus!
