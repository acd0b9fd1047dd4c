//! The command-line front end: its options, commands and the terminal view's
//! state.

use vstd::prelude::*;
use crate::config::{Config, ConfigError, config_error_message};
use crate::text::{concat, spec_to_lowercase, to_lowercase, str_eq};

pub mod state;
pub mod event_handler;
pub mod widgets;
pub mod keys;

verus! {

/// How often the terminal view polls for runtime events, in milliseconds.
pub const EVENT_POLL_INTERVAL_MS: u64 = 100;

/// How logs are written.
#[derive(Debug, Clone, Copy, PartialEq, Eq, Structural)]
pub enum LogFormat {
    /// Human-readable.
    Pretty,
    /// Line-delimited JSON.
    Json,
}

impl Default for LogFormat {
    /// Human-readable logs.
    fn default() -> (r: LogFormat)
        ensures
            r == LogFormat::Pretty,
    {
        LogFormat::Pretty
    }
}

impl LogFormat {
    /// The format named `s` (any case): `pretty` or `json`.
    pub fn parse(s: &str) -> (r: Result<LogFormat, String>)
        ensures
            spec_to_lowercase(s@) == "pretty"@ ==> r == Ok::<LogFormat, String>(LogFormat::Pretty),
            spec_to_lowercase(s@) == "json"@ ==> r == Ok::<LogFormat, String>(LogFormat::Json),
            spec_to_lowercase(s@) != "pretty"@ && spec_to_lowercase(s@) != "json"@ ==> (r matches Err(
                m,
            ) && m@ == "unknown log format: "@ + s@),
    {
        proof {
            reveal_strlit("pretty");
            reveal_strlit("json");
            assert("json"@.len() != "pretty"@.len());
        }
        let l = to_lowercase(s);
        if str_eq(l.as_str(), "pretty") {
            Ok(LogFormat::Pretty)
        } else if str_eq(l.as_str(), "json") {
            Ok(LogFormat::Json)
        } else {
            Err(concat("unknown log format: ", s))
        }
    }
}

impl std::str::FromStr for LogFormat {
    type Err = String;

    fn from_str(s: &str) -> (r: Result<LogFormat, String>)
        ensures
            spec_to_lowercase(s@) == "pretty"@ ==> r == Ok::<LogFormat, String>(LogFormat::Pretty),
            spec_to_lowercase(s@) == "json"@ ==> r == Ok::<LogFormat, String>(LogFormat::Json),
            spec_to_lowercase(s@) != "pretty"@ && spec_to_lowercase(s@) != "json"@ ==> (r matches Err(
                m,
            ) && m@ == "unknown log format: "@ + s@),
    {
        LogFormat::parse(s)
    }
}

/// How the server runs.
#[derive(Debug, Clone, Copy, PartialEq, Eq, Structural)]
pub enum RunMode {
    /// In the foreground with logs.
    Standard,
    /// With the interactive terminal view.
    Tui,
}

impl Default for RunMode {
    /// In the foreground with logs.
    fn default() -> (r: RunMode)
        ensures
            r == RunMode::Standard,
    {
        RunMode::Standard
    }
}

impl RunMode {
    /// The mode named `s` (any case): `standard` or `tui`.
    pub fn parse(s: &str) -> (r: Result<RunMode, String>)
        ensures
            spec_to_lowercase(s@) == "standard"@ ==> r == Ok::<RunMode, String>(RunMode::Standard),
            spec_to_lowercase(s@) == "tui"@ ==> r == Ok::<RunMode, String>(RunMode::Tui),
            spec_to_lowercase(s@) != "standard"@ && spec_to_lowercase(s@) != "tui"@ ==> (r matches Err(
                m,
            ) && m@ == "unknown run mode: "@ + s@),
    {
        proof {
            reveal_strlit("standard");
            reveal_strlit("tui");
            assert("tui"@.len() != "standard"@.len());
        }
        let l = to_lowercase(s);
        if str_eq(l.as_str(), "standard") {
            Ok(RunMode::Standard)
        } else if str_eq(l.as_str(), "tui") {
            Ok(RunMode::Tui)
        } else {
            Err(concat("unknown run mode: ", s))
        }
    }
}

impl std::str::FromStr for RunMode {
    type Err = String;

    fn from_str(s: &str) -> (r: Result<RunMode, String>)
        ensures
            spec_to_lowercase(s@) == "standard"@ ==> r == Ok::<RunMode, String>(RunMode::Standard),
            spec_to_lowercase(s@) == "tui"@ ==> r == Ok::<RunMode, String>(RunMode::Tui),
            spec_to_lowercase(s@) != "standard"@ && spec_to_lowercase(s@) != "tui"@ ==> (r matches Err(
                m,
            ) && m@ == "unknown run mode: "@ + s@),
    {
        RunMode::parse(s)
    }
}

/// The `run` command: serve a configuration file.
#[derive(Debug, Clone, PartialEq)]
pub struct RunCommand {
    pub config_path: String,
    pub log_format: LogFormat,
    pub run_mode: RunMode,
}

impl RunCommand {
    /// Serves `config_path` in the standard mode with the given log format.
    pub fn new(config_path: &str, log_format: LogFormat) -> (r: RunCommand)
        ensures
            r.config_path@ == config_path@,
            r.log_format == log_format,
            r.run_mode == RunMode::Standard,
    {
        RunCommand { config_path: String::from_str(config_path), log_format, run_mode: RunMode::Standard }
    }

    /// Sets the run mode.
    pub fn with_run_mode(self, mode: RunMode) -> (r: RunCommand)
        ensures
            r == (RunCommand { run_mode: mode, ..self }),
    {
        RunCommand { run_mode: mode, ..self }
    }
}

/// The `validate` command: check a configuration file.
#[derive(Debug, Clone, PartialEq)]
pub struct ValidateCommand {
    pub config_path: String,
}

impl ValidateCommand {
    /// Checks `config_path`.
    pub fn new(config_path: &str) -> (r: ValidateCommand)
        ensures
            r.config_path@ == config_path@,
    {
        ValidateCommand { config_path: String::from_str(config_path) }
    }
}

/// The `print-config` command: print the checked configuration.
#[derive(Debug, Clone, PartialEq)]
pub struct PrintEffectiveConfigCommand {
    pub config_path: String,
}

impl PrintEffectiveConfigCommand {
    /// Prints `config_path` once checked.
    pub fn new(config_path: &str) -> (r: PrintEffectiveConfigCommand)
        ensures
            r.config_path@ == config_path@,
    {
        PrintEffectiveConfigCommand { config_path: String::from_str(config_path) }
    }
}

/// The `schema` command: write the configuration's JSON Schema.
#[derive(Debug, Clone, PartialEq)]
pub struct SchemaCommand {
    /// Where to write it; standard output when absent.
    pub output: Option<String>,
}

impl SchemaCommand {
    /// Writes the schema to `output`, or standard output.
    pub fn new(output: Option<String>) -> (r: SchemaCommand)
        ensures
            r == (SchemaCommand { output }),
    {
        SchemaCommand { output }
    }
}

/// What the `validate` command reports: `Ok` with "Config is valid", or
/// `Err` with "Config is invalid: " and the error's text.
pub fn validation_report(check: &Result<Config, ConfigError>) -> (r: Result<String, String>)
    ensures
        match check {
            Ok(_) => r matches Ok(m) && m@ == "Config is valid"@,
            Err(e) => r matches Err(m) && m@ == "Config is invalid: "@ + config_error_message(*e),
        },
{
    match check {
        Ok(_) => Ok(String::from_str("Config is valid")),
        Err(e) => Err(concat("Config is invalid: ", e.message().as_str())),
    }
}

/// The message for a configuration file that cannot be read.
pub fn read_error_text(path: &str, error: &str) -> (r: String)
    ensures
        r@ == "Error reading config file "@ + path@ + ": "@ + error@,
{
    let a = concat("Error reading config file ", path);
    let b = concat(a.as_str(), ": ");
    concat(b.as_str(), error)
}

} // verus!
