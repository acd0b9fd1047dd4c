//! The terminal view's state: runtime status, request history, selection
//! and filter.

use vstd::prelude::*;
use std::collections::VecDeque;
use super::widgets::Panel;
use crate::http::{DecisionType, RequestResult, RuntimeEvent};
use crate::runtime::RuntimeStatus;
use crate::engine::clock_now;
use crate::text::{contains, contains_spec, decimal, fmt_u64, spec_to_lowercase, to_lowercase, str_eq};

verus! {

/// The most requests kept in the history.
pub const MAX_REQUESTS: usize = 1000;

/// A request as shown in the history.
#[derive(Debug)]
pub struct RequestRecord {
    /// When it was received.
    pub timestamp: std::time::Instant,
    pub method: String,
    pub path: String,
    /// The response status (0 until completed, or after a failure).
    pub status: u16,
    pub latency_ms: u64,
    pub rule_id: Option<String>,
    pub decision_type: DecisionType,
    pub request_id: String,
}

/// Model of a record (its time aside).
pub struct RecordModel {
    pub method: Seq<char>,
    pub path: Seq<char>,
    pub status: u16,
    pub latency_ms: u64,
    pub rule_id: Option<Seq<char>>,
    pub decision_type: DecisionType,
    pub request_id: Seq<char>,
}

impl View for RequestRecord {
    type V = RecordModel;

    open spec fn view(&self) -> RecordModel {
        RecordModel {
            method: self.method@,
            path: self.path@,
            status: self.status,
            latency_ms: self.latency_ms,
            rule_id: crate::config::opt_view(self.rule_id),
            decision_type: self.decision_type,
            request_id: self.request_id@,
        }
    }
}

impl RequestRecord {
    /// The record of a completed request: the event must complete the
    /// request with this ID.
    pub fn from_event(request_id: &str, method: String, path: String, event: &RuntimeEvent) -> (r: Option<RequestRecord>)
        ensures
            match event {
                RuntimeEvent::RequestCompleted { request_id: rid, result } => if rid@ == request_id@ {
                    r matches Some(x) && x@ == (RecordModel {
                        method: method@,
                        path: path@,
                        status: result.status,
                        latency_ms: result.elapsed_ms,
                        rule_id: None,
                        decision_type: result.decision_type,
                        request_id: request_id@,
                    })
                } else {
                    r is None
                },
                _ => r is None,
            },
    {
        match event {
            RuntimeEvent::RequestCompleted { request_id: rid, result } => {
                if str_eq(rid.as_str(), request_id) {
                    Some(
                        RequestRecord {
                            timestamp: clock_now(),
                            method,
                            path,
                            status: result.status,
                            latency_ms: result.elapsed_ms,
                            rule_id: None,
                            decision_type: result.decision_type,
                            request_id: String::from_str(request_id),
                        },
                    )
                } else {
                    None
                }
            },
            _ => None,
        }
    }
}

/// The state of the terminal view.
#[derive(Debug)]
pub struct AppState {
    pub runtime_status: RuntimeStatus,
    /// The bound address while running.
    pub server_address: Option<String>,
    /// Routes in the current configuration.
    pub rule_count: usize,
    /// Request history, oldest first.
    pub requests: VecDeque<RequestRecord>,
    /// Selected position in the filtered history.
    pub selected_request: Option<usize>,
    pub active_panel: Panel,
    /// Filter text for the history.
    pub filter: String,
    /// Whether keys edit the filter.
    pub filter_input_mode: bool,
    /// Events missed by a slow reader.
    pub lag_count: u64,
    /// The last reload error, if any.
    pub config_error: Option<String>,
    pub should_quit: bool,
}

/// Model of the history.
pub open spec fn records_view(q: Seq<RequestRecord>) -> Seq<RecordModel> {
    q.map_values(|r: RequestRecord| r@)
}

/// Model of the view's state.
pub struct StateModel {
    pub runtime_status: RuntimeStatus,
    pub server_address: Option<Seq<char>>,
    pub rule_count: usize,
    pub requests: Seq<RecordModel>,
    pub selected_request: Option<usize>,
    pub active_panel: Panel,
    pub filter: Seq<char>,
    pub filter_input_mode: bool,
    pub lag_count: u64,
    pub config_error: Option<Seq<char>>,
    pub should_quit: bool,
}

impl View for AppState {
    type V = StateModel;

    open spec fn view(&self) -> StateModel {
        StateModel {
            runtime_status: self.runtime_status,
            server_address: crate::config::opt_view(self.server_address),
            rule_count: self.rule_count,
            requests: records_view(self.requests@),
            selected_request: self.selected_request,
            active_panel: self.active_panel,
            filter: self.filter@,
            filter_input_mode: self.filter_input_mode,
            lag_count: self.lag_count,
            config_error: crate::config::opt_view(self.config_error),
            should_quit: self.should_quit,
        }
    }
}

/// The first record at or after `i` with the given request ID.
pub open spec fn record_index_from(rs: Seq<RecordModel>, id: Seq<char>, i: int) -> Option<int>
    decreases rs.len() - i,
{
    if i < 0 || i >= rs.len() {
        None
    } else if rs[i].request_id == id {
        Some(i)
    } else {
        record_index_from(rs, id, i + 1)
    }
}

/// The history after a request started: its record appended, the oldest
/// dropped when the history is full.
pub open spec fn started_spec(rs: Seq<RecordModel>, rec: RecordModel) -> Seq<RecordModel> {
    if rs.len() >= MAX_REQUESTS {
        rs.drop_first().push(rec)
    } else {
        rs.push(rec)
    }
}

/// What an event does to the view's state.
pub open spec fn handle_event_spec(s: StateModel, e: RuntimeEvent) -> StateModel {
    match e {
        RuntimeEvent::ServerStarted { address } => StateModel {
            server_address: Some(address@),
            runtime_status: RuntimeStatus::Running,
            ..s
        },
        RuntimeEvent::ServerStopped => StateModel {
            runtime_status: RuntimeStatus::Stopped,
            server_address: None,
            ..s
        },
        RuntimeEvent::ConfigReloaded { rule_count } => StateModel { rule_count, config_error: None, ..s },
        RuntimeEvent::ConfigReloadFailed { message } => StateModel {
            config_error: Some(message@),
            ..s
        },
        RuntimeEvent::RequestStarted { request_id, summary } => StateModel {
            requests: started_spec(
                s.requests,
                RecordModel {
                    method: summary.method@,
                    path: summary.path@,
                    status: 0,
                    latency_ms: 0,
                    rule_id: crate::config::opt_view(summary.rule_id),
                    decision_type: DecisionType::Mock,
                    request_id: request_id@,
                },
            ),
            ..s
        },
        RuntimeEvent::RequestCompleted { request_id, result } => match record_index_from(
            s.requests,
            request_id@,
            0,
        ) {
            Some(i) => StateModel {
                requests: s.requests.update(
                    i,
                    RecordModel {
                        status: result.status,
                        latency_ms: result.elapsed_ms,
                        decision_type: result.decision_type,
                        ..s.requests[i]
                    },
                ),
                ..s
            },
            None => s,
        },
        RuntimeEvent::RequestFailed { request_id, .. } => match record_index_from(
            s.requests,
            request_id@,
            0,
        ) {
            Some(i) => StateModel {
                requests: s.requests.update(i, RecordModel { status: 0, ..s.requests[i] }),
                ..s
            },
            None => s,
        },
    }
}

/// Whether a record matches a (lower-cased) filter: in its path, method,
/// status or rule ID, compared lower-cased.
pub open spec fn record_matches(r: RecordModel, fl: Seq<char>) -> bool {
    contains_spec(spec_to_lowercase(r.path), fl) || contains_spec(spec_to_lowercase(r.method), fl)
        || contains_spec(decimal(r.status as nat), fl) || (r.rule_id matches Some(id)
        && contains_spec(spec_to_lowercase(id), fl))
}

/// The records that match a filter, in order.
pub open spec fn filter_records(rs: Seq<RecordModel>, fl: Seq<char>) -> Seq<RecordModel>
    decreases rs.len(),
{
    if rs.len() == 0 {
        rs
    } else if record_matches(rs.last(), fl) {
        filter_records(rs.drop_last(), fl).push(rs.last())
    } else {
        filter_records(rs.drop_last(), fl)
    }
}

/// The history as filtered: all of it for an empty filter.
pub open spec fn filtered_spec(s: StateModel) -> Seq<RecordModel> {
    if s.filter.len() == 0 {
        s.requests
    } else {
        filter_records(s.requests, spec_to_lowercase(s.filter))
    }
}

/// The selection after moving up in a list of `n` items.
pub open spec fn select_previous_spec(sel: Option<usize>, n: int) -> Option<usize> {
    if n == 0 {
        None
    } else {
        match sel {
            None => Some((n - 1) as usize),
            Some(i) => if i > 0 { Some((i - 1) as usize) } else { sel },
        }
    }
}

/// The selection after moving down in a list of `n` items.
pub open spec fn select_next_spec(sel: Option<usize>, n: int) -> Option<usize> {
    if n == 0 {
        sel
    } else {
        match sel {
            None => Some(0),
            Some(i) => if i < n - 1 { Some((i + 1) as usize) } else { sel },
        }
    }
}

/// A copy of an optional string.
fn copy_opt(o: &Option<String>) -> (r: Option<String>)
    ensures
        crate::config::opt_view(r) == crate::config::opt_view(*o),
{
    crate::config::copy_opt(o)
}

impl AppState {
    /// A stopped, empty state with the request list active.
    pub fn new() -> (r: AppState)
        ensures
            r@ == (StateModel {
                runtime_status: RuntimeStatus::Stopped,
                server_address: None,
                rule_count: 0,
                requests: Seq::empty(),
                selected_request: None,
                active_panel: Panel::RequestList,
                filter: Seq::empty(),
                filter_input_mode: false,
                lag_count: 0,
                config_error: None,
                should_quit: false,
            }),
    {
        let r = AppState {
            runtime_status: RuntimeStatus::Stopped,
            server_address: None,
            rule_count: 0,
            requests: VecDeque::new(),
            selected_request: None,
            active_panel: Panel::RequestList,
            filter: String::new(),
            filter_input_mode: false,
            lag_count: 0,
            config_error: None,
            should_quit: false,
        };
        assert(r@.requests =~= Seq::<RecordModel>::empty());
        r
    }

    /// Updates the state with a runtime event.
    pub fn handle_event(&mut self, event: &RuntimeEvent)
        ensures
            final(self)@ == handle_event_spec(old(self)@, *event),
    {
        match event {
            RuntimeEvent::ServerStarted { address } => {
                self.server_address = Some(address.clone());
                self.runtime_status = RuntimeStatus::Running;
            },
            RuntimeEvent::ServerStopped => {
                self.runtime_status = RuntimeStatus::Stopped;
                self.server_address = None;
            },
            RuntimeEvent::ConfigReloaded { rule_count } => {
                self.rule_count = *rule_count;
                self.config_error = None;
            },
            RuntimeEvent::ConfigReloadFailed { message } => {
                self.config_error = Some(message.clone());
            },
            RuntimeEvent::RequestStarted { request_id, summary } => {
                let record = RequestRecord {
                    timestamp: clock_now(),
                    method: summary.method.clone(),
                    path: summary.path.clone(),
                    status: 0,
                    latency_ms: 0,
                    rule_id: copy_opt(&summary.rule_id),
                    decision_type: DecisionType::Mock,
                    request_id: request_id.clone(),
                };
                let ghost before = records_view(self.requests@);
                let ghost rv = record@;
                if self.requests.len() >= MAX_REQUESTS {
                    let ghost raw = self.requests@;
                    self.requests.pop_front();
                    assert(records_view(self.requests@) =~= before.drop_first()) by {
                        assert(self.requests@ =~= raw.drop_first());
                    }
                }
                let ghost mid = records_view(self.requests@);
                self.requests.push_back(record);
                assert(records_view(self.requests@) =~= mid.push(rv));
            },
            RuntimeEvent::RequestCompleted { request_id, result } => {
                match self.find_record(request_id.as_str()) {
                    Some(i) => {
                        let ghost before = records_view(self.requests@);
                        let mut rec = self.requests.remove(i).unwrap();
                        rec.status = result.status;
                        rec.latency_ms = result.elapsed_ms;
                        rec.decision_type = result.decision_type;
                        let ghost rv = rec@;
                        self.requests.insert(i, rec);
                        assert(records_view(self.requests@) =~= before.update(i as int, rv));
                    },
                    None => {},
                }
            },
            RuntimeEvent::RequestFailed { request_id, .. } => {
                match self.find_record(request_id.as_str()) {
                    Some(i) => {
                        let ghost before = records_view(self.requests@);
                        let mut rec = self.requests.remove(i).unwrap();
                        rec.status = 0;
                        let ghost rv = rec@;
                        self.requests.insert(i, rec);
                        assert(records_view(self.requests@) =~= before.update(i as int, rv));
                    },
                    None => {},
                }
            },
        }
    }

    /// The position of the first record with the given request ID.
    fn find_record(&self, id: &str) -> (r: Option<usize>)
        ensures
            match r {
                Some(i) => record_index_from(self@.requests, id@, 0) == Some(i as int) && i
                    < self.requests@.len(),
                None => record_index_from(self@.requests, id@, 0) is None,
            },
    {
        let ghost rs = self@.requests;
        let mut i: usize = 0;
        while i < self.requests.len()
            invariant
                rs == records_view(self.requests@),
                i <= self.requests@.len(),
                record_index_from(rs, id@, 0) == record_index_from(rs, id@, i as int),
            decreases self.requests@.len() - i,
        {
            assert(rs[i as int] == self.requests@[i as int]@);
            if str_eq(self.requests[i].request_id.as_str(), id) {
                return Some(i);
            }
            i = i + 1;
        }
        None
    }

    /// Empties the history and the selection.
    pub fn clear_history(&mut self)
        ensures
            final(self)@ == (StateModel {
                requests: Seq::empty(),
                selected_request: None,
                ..old(self)@
            }),
    {
        self.requests.clear();
        self.selected_request = None;
        assert(records_view(self.requests@) =~= Seq::<RecordModel>::empty());
    }

    /// Whether a record matches the lower-cased filter.
    fn matches(r: &RequestRecord, fl: &str) -> (b: bool)
        ensures
            b == record_matches(r@, fl@),
    {
        let p = to_lowercase(r.path.as_str());
        if contains(p.as_str(), fl) {
            return true;
        }
        let m = to_lowercase(r.method.as_str());
        if contains(m.as_str(), fl) {
            return true;
        }
        let st = fmt_u64(r.status as u64);
        if contains(st.as_str(), fl) {
            return true;
        }
        match &r.rule_id {
            Some(id) => {
                let l = to_lowercase(id.as_str());
                contains(l.as_str(), fl)
            },
            None => false,
        }
    }

    /// The history as filtered, oldest first.
    pub fn filtered_requests(&self) -> (r: Vec<&RequestRecord>)
        ensures
            r@.map_values(|x: &RequestRecord| x@) == filtered_spec(self@),
    {
        let ghost rs = self@.requests;
        let empty = self.filter.as_str().unicode_len() == 0;
        let fl = to_lowercase(self.filter.as_str());
        let mut out: Vec<&RequestRecord> = Vec::new();
        let mut i: usize = 0;
        let ghost target = if empty { rs } else { filter_records(rs, fl@) };
        assert(out@.map_values(|x: &RequestRecord| x@) =~= Seq::<RecordModel>::empty());
        while i < self.requests.len()
            invariant
                rs == records_view(self.requests@),
                i <= self.requests@.len(),
                fl@ == spec_to_lowercase(self.filter@),
                empty == (self.filter@.len() == 0),
                out@.map_values(|x: &RequestRecord| x@) == if empty {
                    rs.subrange(0, i as int)
                } else {
                    filter_records(rs.subrange(0, i as int), fl@)
                },
            decreases self.requests@.len() - i,
        {
            let ghost before = out@.map_values(|x: &RequestRecord| x@);
            assert(rs.subrange(0, i + 1).drop_last() =~= rs.subrange(0, i as int));
            assert(rs[i as int] == self.requests@[i as int]@);
            let rec = &self.requests[i];
            if empty || Self::matches(rec, fl.as_str()) {
                out.push(rec);
                assert(out@.map_values(|x: &RequestRecord| x@) =~= before.push(rs[i as int]));
            }
            assert(rs.subrange(0, i + 1) =~= rs.subrange(0, i as int).push(rs[i as int]));
            i = i + 1;
        }
        assert(rs.subrange(0, i as int) =~= rs);
        out
    }

    /// Moves the selection up in the filtered history: to the last item when
    /// nothing is selected, and no further than the first.
    pub fn select_previous(&mut self)
        ensures
            final(self)@ == (StateModel {
                selected_request: select_previous_spec(
                    old(self)@.selected_request,
                    filtered_spec(old(self)@).len() as int,
                ),
                ..old(self)@
            }),
    {
        let len = self.filtered_requests().len();
        if len == 0 {
            self.selected_request = None;
            return;
        }
        match self.selected_request {
            None => {
                self.selected_request = Some(len - 1);
            },
            Some(i) => {
                if i > 0 {
                    self.selected_request = Some(i - 1);
                }
            },
        }
    }

    /// Moves the selection down in the filtered history: to the first item
    /// when nothing is selected, and no further than the last.
    pub fn select_next(&mut self)
        ensures
            final(self)@ == (StateModel {
                selected_request: select_next_spec(
                    old(self)@.selected_request,
                    filtered_spec(old(self)@).len() as int,
                ),
                ..old(self)@
            }),
    {
        let len = self.filtered_requests().len();
        if len == 0 {
            return;
        }
        match self.selected_request {
            None => {
                self.selected_request = Some(0);
            },
            Some(i) => {
                if i < len - 1 {
                    self.selected_request = Some(i + 1);
                }
            },
        }
    }
}

impl Default for AppState {
    /// The initial state.
    fn default() -> (r: AppState)
        ensures
            r@.requests.len() == 0,
            r@.selected_request is None,
            r@.runtime_status == RuntimeStatus::Stopped,
    {
        AppState::new()
    }
}

/// The history never grows beyond `MAX_REQUESTS` records through events.
pub proof fn law_history_bounded(s: StateModel, e: RuntimeEvent)
    requires
        s.requests.len() <= MAX_REQUESTS,
    ensures
        handle_event_spec(s, e).requests.len() <= MAX_REQUESTS,
{
    match e {
        RuntimeEvent::RequestCompleted { request_id, .. } => {
            lemma_record_index_range(s.requests, request_id@, 0);
        },
        RuntimeEvent::RequestFailed { request_id, .. } => {
            lemma_record_index_range(s.requests, request_id@, 0);
        },
        _ => {},
    }
}

proof fn lemma_record_index_range(rs: Seq<RecordModel>, id: Seq<char>, i: int)
    ensures
        record_index_from(rs, id, i) matches Some(k) ==> 0 <= k < rs.len() && i <= k,
    decreases rs.len() - i,
{
    if 0 <= i < rs.len() && rs[i].request_id != id {
        lemma_record_index_range(rs, id, i + 1);
    }
}

/// Moving the selection keeps it within the filtered history when it was
/// within it (or empty) before.
pub proof fn law_selection_in_range(sel: Option<usize>, n: int)
    requires
        0 <= n <= usize::MAX,
        sel matches Some(i) ==> i < n,
    ensures
        select_previous_spec(sel, n) matches Some(i) ==> i < n,
        select_next_spec(sel, n) matches Some(i) ==> i < n,
{
}

proof fn lemma_filter_records(rs: Seq<RecordModel>, fl: Seq<char>)
    ensures
        forall|i: int| 0 <= i < rs.len() && record_matches(#[trigger] rs[i], fl) ==> filter_records(rs, fl).contains(rs[i]),
        forall|j: int| 0 <= j < filter_records(rs, fl).len() ==> rs.contains(#[trigger] filter_records(rs, fl)[j])
            && record_matches(filter_records(rs, fl)[j], fl),
    decreases rs.len(),
{
    if rs.len() > 0 {
        let prev = rs.drop_last();
        lemma_filter_records(prev, fl);
        let out = filter_records(rs, fl);
        let pout = filter_records(prev, fl);
        assert forall|i: int| 0 <= i < rs.len() && record_matches(#[trigger] rs[i], fl) implies out.contains(rs[i]) by {
            if i < rs.len() - 1 {
                assert(prev[i] == rs[i]);
                assert(pout.contains(rs[i]));
                let k = choose|k: int| 0 <= k < pout.len() && pout[k] == rs[i];
                if record_matches(rs.last(), fl) {
                    assert(out[k] == rs[i]);
                } else {
                    assert(out[k] == rs[i]);
                }
            } else {
                assert(out[out.len() - 1] == rs[i]);
            }
        }
        assert forall|j: int| 0 <= j < out.len() implies rs.contains(#[trigger] out[j]) && record_matches(out[j], fl) by {
            if j < pout.len() {
                assert(out[j] == pout[j]);
                assert(prev.contains(pout[j]));
                let k = choose|k: int| 0 <= k < prev.len() && prev[k] == pout[j];
                assert(rs[k] == pout[j]);
            } else {
                assert(out[j] == rs.last());
                assert(rs[rs.len() - 1] == rs.last());
            }
        }
    }
}

/// Filtering the history: with an empty filter every record is shown; with
/// a non-empty one, a record is shown exactly when its lower-cased path,
/// lower-cased method, status code or lower-cased rule ID contains the
/// lower-cased filter. Every shown record is one of the history's.
pub proof fn law_filter_history(s: StateModel)
    ensures
        s.filter.len() == 0 ==> filtered_spec(s) == s.requests,
        s.filter.len() > 0 ==> forall|i: int|
            0 <= i < s.requests.len() && ({
                let r = #[trigger] s.requests[i];
                let fl = spec_to_lowercase(s.filter);
                contains_spec(spec_to_lowercase(r.path), fl) || contains_spec(spec_to_lowercase(r.method), fl)
                    || contains_spec(decimal(r.status as nat), fl) || (r.rule_id matches Some(id) && contains_spec(
                    spec_to_lowercase(id),
                    fl,
                ))
            }) ==> filtered_spec(s).contains(s.requests[i]),
        s.filter.len() > 0 ==> forall|j: int|
            0 <= j < filtered_spec(s).len() ==> s.requests.contains(#[trigger] filtered_spec(s)[j]) && ({
                let r = filtered_spec(s)[j];
                let fl = spec_to_lowercase(s.filter);
                contains_spec(spec_to_lowercase(r.path), fl) || contains_spec(spec_to_lowercase(r.method), fl)
                    || contains_spec(decimal(r.status as nat), fl) || (r.rule_id matches Some(id) && contains_spec(
                    spec_to_lowercase(id),
                    fl,
                ))
            }),
{
    lemma_filter_records(s.requests, spec_to_lowercase(s.filter));
}

} // verus!
