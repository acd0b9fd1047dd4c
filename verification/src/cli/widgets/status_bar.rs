//! The status bar: runtime status, address and rule count.

use vstd::prelude::*;
use super::Color;
use crate::cli::state::{AppState, StateModel};
use crate::runtime::RuntimeStatus;
use crate::text::{concat, decimal, fmt_u64};

verus! {

/// The status bar.
#[derive(Debug, Clone, Copy, PartialEq, Eq)]
pub struct StatusBar;

/// The text of a status.
pub open spec fn status_text_spec(s: RuntimeStatus) -> Seq<char> {
    match s {
        RuntimeStatus::Stopped => "Stopped"@,
        RuntimeStatus::Starting => "Starting..."@,
        RuntimeStatus::Running => "Running"@,
        RuntimeStatus::Reloading => "Reloading..."@,
        RuntimeStatus::Failed => "Failed"@,
    }
}

/// The color of a status.
pub open spec fn status_color_spec(s: RuntimeStatus) -> Color {
    match s {
        RuntimeStatus::Stopped => Color::Gray,
        RuntimeStatus::Starting => Color::Yellow,
        RuntimeStatus::Running => Color::Green,
        RuntimeStatus::Reloading => Color::Yellow,
        RuntimeStatus::Failed => Color::Red,
    }
}

impl StatusBar {
    /// The status bar.
    pub fn new() -> (r: StatusBar)
        ensures
            r == StatusBar,
    {
        StatusBar
    }

    /// The text of a status.
    pub fn status_text(status: RuntimeStatus) -> (r: &'static str)
        ensures
            r@ == status_text_spec(status),
    {
        match status {
            RuntimeStatus::Stopped => "Stopped",
            RuntimeStatus::Starting => "Starting...",
            RuntimeStatus::Running => "Running",
            RuntimeStatus::Reloading => "Reloading...",
            RuntimeStatus::Failed => "Failed",
        }
    }

    /// The color of a status.
    pub fn status_color(status: RuntimeStatus) -> (r: Color)
        ensures
            r == status_color_spec(status),
    {
        match status {
            RuntimeStatus::Stopped => Color::Gray,
            RuntimeStatus::Starting => Color::Yellow,
            RuntimeStatus::Running => Color::Green,
            RuntimeStatus::Reloading => Color::Yellow,
            RuntimeStatus::Failed => Color::Red,
        }
    }

    /// The address shown: the bound address, or "not bound".
    pub fn address_text(state: &AppState) -> (r: String)
        ensures
            r@ == match state@.server_address {
                Some(a) => a,
                None => "not bound"@,
            },
    {
        match &state.server_address {
            Some(a) => a.clone(),
            None => String::from_str("not bound"),
        }
    }

    /// The rule count shown: "{n} rules".
    pub fn rule_count_text(state: &AppState) -> (r: String)
        ensures
            r@ == decimal(state@.rule_count as nat) + " rules"@,
    {
        concat(fmt_u64(state.rule_count as u64).as_str(), " rules")
    }
}

impl Default for StatusBar {
    /// The status bar.
    fn default() -> (r: StatusBar)
        ensures
            r == StatusBar,
    {
        StatusBar::new()
    }
}

} // verus!
