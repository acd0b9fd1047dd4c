//! Key handling of the terminal view.

use vstd::prelude::*;
use super::state::{AppState, StateModel, filtered_spec, select_next_spec, select_previous_spec};
use super::widgets::Panel;
use crate::text::{chars_of, push_char, string_of_range};

verus! {

/// A key press, as the view distinguishes them.
#[derive(Debug, Clone, Copy, PartialEq, Eq, Structural)]
pub enum KeyInput {
    Char(char),
    Up,
    Down,
    Tab,
    Enter,
    Esc,
    Backspace,
    Other,
}

/// What the caller must do after a key press.
#[derive(Debug, Clone, Copy, PartialEq, Eq, Structural)]
pub enum KeyAction {
    /// Nothing more.
    Nothing,
    /// Reload the configuration file.
    Reload,
}

/// A key while the filter is being edited: Enter confirms, Esc clears and
/// leaves, Backspace deletes the last character, a character is appended,
/// and any other key leaves.
pub open spec fn filter_key_spec(s: StateModel, k: KeyInput) -> StateModel {
    match k {
        KeyInput::Enter => StateModel { filter_input_mode: false, ..s },
        KeyInput::Esc => StateModel { filter: Seq::empty(), filter_input_mode: false, ..s },
        KeyInput::Backspace => StateModel {
            filter: if s.filter.len() > 0 { s.filter.drop_last() } else { s.filter },
            ..s
        },
        KeyInput::Char(c) => StateModel { filter: s.filter.push(c), ..s },
        _ => StateModel { filter_input_mode: false, ..s },
    }
}

/// What a key does to the view's state, and what the caller must do.
pub open spec fn key_spec(s: StateModel, k: KeyInput) -> (StateModel, KeyAction) {
    if s.filter_input_mode {
        (filter_key_spec(s, k), KeyAction::Nothing)
    } else {
        match k {
            KeyInput::Char(c) => if c == 'q' || c == 'Q' {
                (StateModel { should_quit: true, ..s }, KeyAction::Nothing)
            } else if c == 'r' || c == 'R' {
                (s, KeyAction::Reload)
            } else if c == 'c' || c == 'C' {
                (StateModel { requests: Seq::empty(), selected_request: None, ..s }, KeyAction::Nothing)
            } else if c == 'j' {
                (
                    StateModel {
                        selected_request: select_next_spec(s.selected_request, filtered_spec(s).len() as int),
                        ..s
                    },
                    KeyAction::Nothing,
                )
            } else if c == 'k' {
                (
                    StateModel {
                        selected_request: select_previous_spec(
                            s.selected_request,
                            filtered_spec(s).len() as int,
                        ),
                        ..s
                    },
                    KeyAction::Nothing,
                )
            } else if c == '/' {
                (StateModel { filter_input_mode: true, filter: Seq::empty(), ..s }, KeyAction::Nothing)
            } else if c == '?' {
                (
                    StateModel {
                        active_panel: if s.active_panel == Panel::Help {
                            Panel::RequestList
                        } else {
                            Panel::Help
                        },
                        ..s
                    },
                    KeyAction::Nothing,
                )
            } else {
                (s, KeyAction::Nothing)
            },
            KeyInput::Down => (
                StateModel {
                    selected_request: select_next_spec(s.selected_request, filtered_spec(s).len() as int),
                    ..s
                },
                KeyAction::Nothing,
            ),
            KeyInput::Up => (
                StateModel {
                    selected_request: select_previous_spec(s.selected_request, filtered_spec(s).len() as int),
                    ..s
                },
                KeyAction::Nothing,
            ),
            KeyInput::Tab => (
                StateModel {
                    active_panel: match s.active_panel {
                        Panel::RequestList => Panel::Details,
                        Panel::Details => Panel::RequestList,
                        Panel::Help => Panel::RequestList,
                    },
                    ..s
                },
                KeyAction::Nothing,
            ),
            KeyInput::Enter => if s.selected_request is Some {
                (StateModel { active_panel: Panel::Details, ..s }, KeyAction::Nothing)
            } else {
                (s, KeyAction::Nothing)
            },
            _ => (s, KeyAction::Nothing),
        }
    }
}

/// Handles a key while the filter is being edited.
pub fn handle_filter_input(state: &mut AppState, key: KeyInput)
    ensures
        final(state)@ == filter_key_spec(old(state)@, key),
{
    match key {
        KeyInput::Enter => {
            state.filter_input_mode = false;
        },
        KeyInput::Esc => {
            state.filter = String::new();
            state.filter_input_mode = false;
        },
        KeyInput::Backspace => {
            let cs = chars_of(state.filter.as_str());
            if cs.len() > 0 {
                state.filter = string_of_range(cs.as_slice(), 0, cs.len() - 1);
            }
        },
        KeyInput::Char(c) => {
            push_char(&mut state.filter, c);
        },
        _ => {
            state.filter_input_mode = false;
        },
    }
}

/// Handles a key press.
pub fn handle_key(state: &mut AppState, key: KeyInput) -> (r: KeyAction)
    ensures
        (final(state)@, r) == key_spec(old(state)@, key),
{
    if state.filter_input_mode {
        handle_filter_input(state, key);
        return KeyAction::Nothing;
    }
    match key {
        KeyInput::Char(c) => {
            if c == 'q' || c == 'Q' {
                state.should_quit = true;
            } else if c == 'r' || c == 'R' {
                return KeyAction::Reload;
            } else if c == 'c' || c == 'C' {
                state.clear_history();
            } else if c == 'j' {
                state.select_next();
            } else if c == 'k' {
                state.select_previous();
            } else if c == '/' {
                state.filter_input_mode = true;
                state.filter = String::new();
            } else if c == '?' {
                if state.active_panel == Panel::Help {
                    state.active_panel = Panel::RequestList;
                } else {
                    state.active_panel = Panel::Help;
                }
            }
        },
        KeyInput::Down => {
            state.select_next();
        },
        KeyInput::Up => {
            state.select_previous();
        },
        KeyInput::Tab => {
            state.active_panel = match state.active_panel {
                Panel::RequestList => Panel::Details,
                Panel::Details => Panel::RequestList,
                Panel::Help => Panel::RequestList,
            };
        },
        KeyInput::Enter => {
            if state.selected_request.is_some() {
                state.active_panel = Panel::Details;
            }
        },
        _ => {},
    }
    KeyAction::Nothing
}

} // verus!
