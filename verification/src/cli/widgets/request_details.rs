//! The details of the selected request.

use vstd::prelude::*;
use super::Color;
use super::request_list::latency_text;
use crate::cli::state::{AppState, RecordModel, filtered_spec};
use crate::http::{DecisionType, decision_type_name};
use crate::text::{decimal, fmt_u64};

verus! {

/// The details panel.
#[derive(Debug, Clone, PartialEq)]
pub struct RequestDetails {
    /// The panel's title.
    pub title: String,
}

/// The status as shown in the details: "ERROR" for none.
pub fn status_str(status: u16) -> (r: String)
    ensures
        r@ == if status == 0 { "ERROR"@ } else { decimal(status as nat) },
{
    if status == 0 {
        String::from_str("ERROR")
    } else {
        fmt_u64(status as u64)
    }
}

/// The color of a status: red for none, errors and codes 400-599; cyan for
/// 1xx, green for 2xx, yellow for 3xx, white otherwise.
pub open spec fn status_color_spec(status: u16) -> Color {
    if status == 0 {
        Color::Red
    } else if 100 <= status <= 199 {
        Color::Cyan
    } else if 200 <= status <= 299 {
        Color::Green
    } else if 300 <= status <= 399 {
        Color::Yellow
    } else if 400 <= status <= 599 {
        Color::Red
    } else {
        Color::White
    }
}

/// The color of a status.
pub fn status_color(status: u16) -> (r: Color)
    ensures
        r == status_color_spec(status),
{
    if status == 0 {
        Color::Red
    } else if 100 <= status && status <= 199 {
        Color::Cyan
    } else if 200 <= status && status <= 299 {
        Color::Green
    } else if 300 <= status && status <= 399 {
        Color::Yellow
    } else if 400 <= status && status <= 599 {
        Color::Red
    } else {
        Color::White
    }
}

/// The color of a decision kind.
pub fn decision_color(d: &DecisionType) -> (r: Color)
    ensures
        r == match *d {
            DecisionType::Mock => Color::Green,
            DecisionType::Forward => Color::Blue,
            DecisionType::Reject => Color::Red,
        },
{
    match d {
        DecisionType::Mock => Color::Green,
        DecisionType::Forward => Color::Blue,
        DecisionType::Reject => Color::Red,
    }
}

/// The (label, value) lines shown for a record.
pub open spec fn detail_lines_spec(r: RecordModel) -> Seq<(Seq<char>, Seq<char>)> {
    seq![
        ("Method: "@, r.method),
        ("Path: "@, r.path),
        ("Status: "@, if r.status == 0 { "ERROR"@ } else { decimal(r.status as nat) }),
        ("Latency: "@, decimal(r.latency_ms as nat) + "ms"@),
        ("Decision: "@, decision_type_name(r.decision_type)),
        ("Rule: "@, match r.rule_id {
            Some(id) => id,
            None => "-"@,
        }),
        ("Request ID: "@, r.request_id),
    ]
}

impl RequestDetails {
    /// A panel titled "Request Details".
    pub fn new() -> (r: RequestDetails)
        ensures
            r.title@ == "Request Details"@,
    {
        RequestDetails { title: String::from_str("Request Details") }
    }

    /// The lines shown for the selected request of the filtered history;
    /// `None` when no request is selected (or the selection is out of range).
    pub fn lines(state: &AppState) -> (r: Option<Vec<(String, String)>>)
        ensures
            match state@.selected_request {
                Some(i) => if i < filtered_spec(state@).len() {
                    r matches Some(v) && crate::pairs::pairs_view(v@) == detail_lines_spec(
                        filtered_spec(state@)[i as int],
                    )
                } else {
                    r is None
                },
                None => r is None,
            },
    {
        let filtered = state.filtered_requests();
        let idx = match state.selected_request {
            Some(i) => i,
            None => {
                return None;
            },
        };
        if idx >= filtered.len() {
            return None;
        }
        let rec = filtered[idx];
        assert(rec@ == filtered_spec(state@)[idx as int]);
        let mut v: Vec<(String, String)> = Vec::new();
        v.push((String::from_str("Method: "), rec.method.clone()));
        v.push((String::from_str("Path: "), rec.path.clone()));
        v.push((String::from_str("Status: "), status_str(rec.status)));
        v.push((String::from_str("Latency: "), latency_text(rec.latency_ms)));
        v.push((String::from_str("Decision: "), String::from_str(rec.decision_type.as_str())));
        v.push(
            (
                String::from_str("Rule: "),
                match &rec.rule_id {
                    Some(id) => id.clone(),
                    None => String::from_str("-"),
                },
            ),
        );
        v.push((String::from_str("Request ID: "), rec.request_id.clone()));
        assert(crate::pairs::pairs_view(v@) =~= detail_lines_spec(rec@));
        Some(v)
    }
}

impl Default for RequestDetails {
    /// A panel titled "Request Details".
    fn default() -> (r: RequestDetails)
        ensures
            r.title@ == "Request Details"@,
    {
        RequestDetails::new()
    }
}

} // verus!
