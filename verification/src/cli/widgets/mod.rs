//! The terminal view's panels and the text they show.

use vstd::prelude::*;

pub mod help;
pub mod request_details;
pub mod request_list;
pub mod status_bar;

pub use help::HelpBar;
pub use request_details::RequestDetails;
pub use request_list::RequestList;
pub use status_bar::StatusBar;

verus! {

/// The panel shown in the main area.
#[derive(Debug, Clone, Copy, PartialEq, Eq, Structural)]
pub enum Panel {
    /// The request history.
    RequestList,
    /// The selected request.
    Details,
    /// The key bindings.
    Help,
}

impl Default for Panel {
    /// The request history.
    fn default() -> (r: Panel)
        ensures
            r == Panel::RequestList,
    {
        Panel::RequestList
    }
}

/// The colors the view uses.
#[derive(Debug, Clone, Copy, PartialEq, Eq, Structural)]
pub enum Color {
    Red,
    Cyan,
    Green,
    Yellow,
    White,
    Blue,
    Gray,
}

} // verus!
