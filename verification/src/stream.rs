//! Streaming a task's log as server-sent events: the events written, which
//! log entries are new or changed since the last poll, and when the stream
//! ends.

use vstd::prelude::*;
use crate::text::{trim, trim_str, str_eq, concat, owned, views, opt_view};
use crate::queries::form_urlencoded_pairs;
use crate::systemd::pair_views;
use crate::auth::AdminDecision;

verus! {

/// The `task_id` a stream is asked for: the first `task_id` pair whose
/// value is not blank.
pub open spec fn first_task_id(pairs: Seq<(Seq<char>, Seq<char>)>, n: int) -> Option<Seq<char>>
    decreases n,
{
    if n <= 0 {
        None
    } else {
        match first_task_id(pairs, n - 1) {
            Some(v) => Some(v),
            None => if pairs[n - 1].0 == "task_id"@ && trim(pairs[n - 1].1).len() > 0 {
                Some(pairs[n - 1].1)
            } else {
                None
            },
        }
    }
}

/// The task a stream request's query names.
pub open spec fn stream_task_id_spec(query: Option<Seq<char>>) -> Option<Seq<char>> {
    match query {
        None => None,
        Some(q) => first_task_id(form_urlencoded_pairs(q), form_urlencoded_pairs(q).len() as int),
    }
}

/// Once found, the first `task_id` stays the same as more pairs are read.
proof fn lemma_first_task_id_stays(pairs: Seq<(Seq<char>, Seq<char>)>, m: int, n: int)
    requires
        0 < m <= n,
        first_task_id(pairs, m) is Some,
    ensures
        first_task_id(pairs, n) == first_task_id(pairs, m),
    decreases n - m,
{
    if n > m {
        lemma_first_task_id_stays(pairs, m, n - 1);
    }
}

/// The `task_id` among decoded pairs.
pub fn task_id_from_pairs(pairs: &[(String, String)]) -> (r: Option<String>)
    ensures
        opt_view(r) == first_task_id(pair_views(pairs@), pairs@.len() as int),
{
    let ghost pv = pair_views(pairs@);
    let mut i: usize = 0;
    while i < pairs.len()
        invariant
            i <= pairs@.len(),
            pv == pair_views(pairs@),
            pv.len() == pairs@.len(),
            first_task_id(pv, i as int) is None,
        decreases pairs@.len() - i,
    {
        proof {
            assert(pv[i as int] == (pairs@[i as int].0@, pairs@[i as int].1@));
        }
        if str_eq(pairs[i].0.as_str(), "task_id") && trim_str(pairs[i].1.as_str()).unicode_len() > 0 {
            proof {
                lemma_first_task_id_stays(pv, i + 1, pv.len() as int);
            }
            return Some(owned(pairs[i].1.as_str()));
        }
        i = i + 1;
    }
    None
}

/// The task a stream request's query names.
pub fn stream_task_id(query: Option<&str>) -> (r: Option<String>)
    ensures
        opt_view(r) == stream_task_id_spec(crate::config::opt_str(query)),
{
    match query {
        Some(q) => {
            let pairs = crate::queries::form_pairs(q);
            task_id_from_pairs(pairs.as_slice())
        },
        None => None,
    }
}

/// The event carrying one serialized log entry.
pub open spec fn log_event(payload: Seq<char>) -> Seq<char> {
    "event: log\ndata: "@ + payload + "\n\n"@
}

/// A task log entry as a server-sent `log` event.
pub fn log_event_of(payload: &str) -> (r: String)
    ensures
        r@ == log_event(payload@),
{
    let a = concat("event: log\ndata: ", payload);
    concat(a.as_str(), "\n\n")
}

/// The events of a finished task's whole log, then the end event.
pub open spec fn snapshot(payloads: Seq<Seq<char>>) -> Seq<char>
    decreases payloads.len(),
{
    if payloads.len() == 0 {
        "event: end\ndata: done\n\n"@
    } else {
        log_event(payloads[0]) + snapshot(payloads.drop_first())
    }
}

/// The events of the first `n` entries.
pub open spec fn log_events(payloads: Seq<Seq<char>>, n: int) -> Seq<char>
    decreases n,
{
    if n <= 0 {
        Seq::<char>::empty()
    } else {
        log_events(payloads, n - 1) + log_event(payloads[n - 1])
    }
}

/// All events of the entries, then the end event, form the snapshot.
proof fn lemma_snapshot(payloads: Seq<Seq<char>>)
    ensures
        log_events(payloads, payloads.len() as int) + "event: end\ndata: done\n\n"@ == snapshot(payloads),
    decreases payloads.len(),
{
    if payloads.len() == 0 {
        assert(Seq::<char>::empty() + "event: end\ndata: done\n\n"@ =~= "event: end\ndata: done\n\n"@);
    } else {
        let rest = payloads.drop_first();
        lemma_snapshot(rest);
        lemma_log_events_first(payloads, payloads.len() as int);
        assert(log_event(payloads[0]) + (log_events(rest, rest.len() as int) + "event: end\ndata: done\n\n"@)
            =~= (log_event(payloads[0]) + log_events(rest, rest.len() as int)) + "event: end\ndata: done\n\n"@);
    }
}

/// Splitting off the first entry's event.
proof fn lemma_log_events_first(payloads: Seq<Seq<char>>, n: int)
    requires
        1 <= n <= payloads.len(),
    ensures
        log_events(payloads, n) == log_event(payloads[0]) + log_events(payloads.drop_first(), n - 1),
    decreases n,
{
    if n == 1 {
        assert(log_events(payloads, 0) + log_event(payloads[0]) =~= log_event(payloads[0]) + Seq::<char>::empty());
    } else {
        lemma_log_events_first(payloads, n - 1);
        let rest = payloads.drop_first();
        assert(rest[n - 2] == payloads[n - 1]);
        assert(log_event(payloads[0]) + log_events(rest, n - 2) + log_event(payloads[n - 1]) =~= log_event(
            payloads[0],
        ) + (log_events(rest, n - 2) + log_event(rest[n - 2])));
    }
}

/// The body sent for a task that is not running: every log entry, then the
/// end of the stream.
pub fn snapshot_body(payloads: &[String]) -> (r: String)
    ensures
        r@ == snapshot(views(payloads@)),
{
    let mut body = String::new();
    let mut i: usize = 0;
    proof {
        assert(body@ =~= log_events(views(payloads@), 0));
    }
    while i < payloads.len()
        invariant
            i <= payloads@.len(),
            body@ == log_events(views(payloads@), i as int),
        decreases payloads@.len() - i,
    {
        let ev = log_event_of(payloads[i].as_str());
        body = concat(body.as_str(), ev.as_str());
        proof {
            assert(views(payloads@)[i as int] == payloads@[i as int]@);
        }
        i = i + 1;
    }
    let out = concat(body.as_str(), "event: end\ndata: done\n\n");
    proof {
        lemma_snapshot(views(payloads@));
    }
    out
}

/// What the stream does after a round of log events: end with `done` once
/// the task no longer runs, end with `timeout` after ten minutes, else poll
/// again. The result is the end event and the reason recorded.
pub open spec fn after_round_spec(status: Seq<char>, elapsed_secs: u64) -> Option<(Seq<char>, Seq<char>)> {
    if status != "running"@ {
        Some(("event: end\ndata: done\n\n"@, "completed"@))
    } else if elapsed_secs >= 600 {
        Some(("event: end\ndata: timeout\n\n"@, "timeout"@))
    } else {
        None
    }
}

/// Whether a task log stream ends after a round, and with which event, from
/// the task's status and the time elapsed.
pub fn after_round(status: &str, elapsed_secs: u64) -> (r: Option<(&'static str, &'static str)>)
    ensures
        match r {
            Some((ev, reason)) => after_round_spec(status@, elapsed_secs) == Some((ev@, reason@)),
            None => after_round_spec(status@, elapsed_secs) is None,
        },
{
    if !str_eq(status, "running") {
        Some(("event: end\ndata: done\n\n", "completed"))
    } else if elapsed_secs >= 600 {
        Some(("event: end\ndata: timeout\n\n", "timeout"))
    } else {
        None
    }
}

/// The entries already sent, by log id, as a map built by inserting them
/// in order.
pub open spec fn seen_map(s: Seq<(i64, String)>) -> Map<i64, Seq<char>>
    decreases s.len(),
{
    if s.len() == 0 {
        Map::<i64, Seq<char>>::empty()
    } else {
        seen_map(s.drop_last()).insert(s.last().0, s.last().1@)
    }
}

/// No log id occurs twice.
pub open spec fn distinct_ids(s: Seq<(i64, String)>) -> bool {
    forall|i: int, j: int| 0 <= i < j < s.len() ==> s[i].0 != s[j].0
}

/// In a list without repeated ids, each entry is what the map holds for
/// its id, and an id of no entry is not in the map.
proof fn lemma_seen_map_lookup(s: Seq<(i64, String)>, k: i64)
    requires
        distinct_ids(s),
    ensures
        forall|i: int| 0 <= i < s.len() && s[i].0 == k ==> seen_map(s).contains_key(k) && seen_map(s)[k] == s[i].1@,
        (forall|i: int| 0 <= i < s.len() ==> s[i].0 != k) ==> !seen_map(s).contains_key(k),
    decreases s.len(),
{
    if s.len() > 0 {
        let p = s.drop_last();
        assert(distinct_ids(p)) by {
            assert forall|i: int, j: int| 0 <= i < j < p.len() implies p[i].0 != p[j].0 by {
                assert(p[i] == s[i] && p[j] == s[j]);
            }
        }
        lemma_seen_map_lookup(p, k);
        assert forall|i: int| 0 <= i < s.len() && s[i].0 == k implies seen_map(s).contains_key(k) && seen_map(s)[k]
            == s[i].1@ by {
            if i < s.len() - 1 {
                assert(p[i] == s[i]);
                assert(s[s.len() - 1].0 != s[i].0);
            }
        }
        if forall|i: int| 0 <= i < s.len() ==> s[i].0 != k {
            assert forall|i: int| 0 <= i < p.len() implies p[i].0 != k by {
                assert(p[i] == s[i]);
            }
            assert(s[s.len() - 1].0 != k);
        }
    }
}

/// Replacing the entry of an id replaces what the map holds for it.
proof fn lemma_seen_map_update(s: Seq<(i64, String)>, idx: int, e: (i64, String))
    requires
        distinct_ids(s),
        0 <= idx < s.len(),
        e.0 == s[idx].0,
    ensures
        seen_map(s.update(idx, e)) == seen_map(s).insert(e.0, e.1@),
        distinct_ids(s.update(idx, e)),
    decreases s.len(),
{
    let t = s.update(idx, e);
    let p = s.drop_last();
    assert(distinct_ids(p)) by {
        assert forall|i: int, j: int| 0 <= i < j < p.len() implies p[i].0 != p[j].0 by {
            assert(p[i] == s[i] && p[j] == s[j]);
        }
    }
    if idx == s.len() - 1 {
        assert(t.drop_last() =~= p);
        assert(seen_map(t) =~= seen_map(s).insert(e.0, e.1@));
    } else {
        lemma_seen_map_update(p, idx, e);
        assert(t.drop_last() =~= p.update(idx, e));
        assert(s.last().0 != e.0) by {
            assert(s[s.len() - 1].0 != s[idx].0);
        }
        assert(seen_map(t) =~= seen_map(s).insert(e.0, e.1@));
    }
    assert forall|i: int, j: int| 0 <= i < j < t.len() implies t[i].0 != t[j].0 by {
        assert(s[i].0 != s[j].0);
    }
}

/// The log entries already streamed, by id, with the payload sent for each.
pub struct SeenLogs {
    pub entries: Vec<(i64, String)>,
}

impl SeenLogs {
    /// No log id is held twice.
    pub open spec fn wf(&self) -> bool {
        distinct_ids(self.entries@)
    }

    /// The payload sent for each log id.
    pub open spec fn sent(&self) -> Map<i64, Seq<char>> {
        seen_map(self.entries@)
    }

    /// Nothing sent yet.
    pub fn new() -> (r: SeenLogs)
        ensures
            r.wf(),
            r.sent() == Map::<i64, Seq<char>>::empty(),
    {
        SeenLogs { entries: Vec::new() }
    }

    /// The entry must be sent: it is new, or its payload changed.
    pub fn changed(&self, id: i64, payload: &str) -> (r: bool)
        requires
            self.wf(),
        ensures
            r == !(self.sent().contains_key(id) && self.sent()[id] == payload@),
    {
        let mut i: usize = 0;
        while i < self.entries.len()
            invariant
                i <= self.entries@.len(),
                self.wf(),
                forall|k: int| 0 <= k < i ==> self.entries@[k].0 != id,
            decreases self.entries@.len() - i,
        {
            if self.entries[i].0 == id {
                proof {
                    lemma_seen_map_lookup(self.entries@, id);
                }
                return !str_eq(self.entries[i].1.as_str(), payload);
            }
            i = i + 1;
        }
        proof {
            lemma_seen_map_lookup(self.entries@, id);
        }
        true
    }

    /// Records the payload sent for a log id.
    pub fn record(&mut self, id: i64, payload: String)
        requires
            old(self).wf(),
        ensures
            final(self).wf(),
            final(self).sent() == old(self).sent().insert(id, payload@),
    {
        let mut i: usize = 0;
        while i < self.entries.len()
            invariant
                i <= self.entries@.len(),
                self.entries@ == old(self).entries@,
                distinct_ids(self.entries@),
                forall|k: int| 0 <= k < i ==> self.entries@[k].0 != id,
            decreases self.entries@.len() - i,
        {
            if self.entries[i].0 == id {
                proof {
                    lemma_seen_map_update(self.entries@, i as int, (id, payload));
                }
                self.entries.set(i, (id, payload));
                return;
            }
            i = i + 1;
        }
        let ghost before = self.entries@;
        self.entries.push((id, payload));
        proof {
            assert(self.entries@.drop_last() =~= before);
            assert forall|a: int, b: int| 0 <= a < b < self.entries@.len() implies self.entries@[a].0
                != self.entries@[b].0 by {
                if b == self.entries@.len() - 1 {
                    assert(self.entries@[a] == before[a]);
                } else {
                    assert(self.entries@[a] == before[a] && self.entries@[b] == before[b]);
                }
            }
        }
    }
}

/// Once an entry is recorded, sending it again unchanged is not needed:
/// a payload just recorded for an id is not reported as changed.
pub proof fn lemma_recorded_is_unchanged(before: Map<i64, Seq<char>>, id: i64, payload: Seq<char>)
    ensures
        before.insert(id, payload).contains_key(id) && before.insert(id, payload)[id] == payload,
{
}

/// What the task log stream does with a request before it looks the task
/// up.
pub enum StreamGate {
    /// 405 `MethodNotAllowed`: only `GET` is served.
    MethodNotAllowed,
    /// The admin check refused the request (401, or 500 when forward auth
    /// is not configured).
    Refused(AdminDecision),
    /// 400 `BadRequest`, `{"error":"missing task_id"}`.
    MissingTaskId,
    /// The task to load.
    Lookup(String),
}

/// The plain shape of a gate.
pub enum StreamGateView {
    MethodNotAllowed,
    Refused(AdminDecision),
    MissingTaskId,
    Lookup(Seq<char>),
}

/// The view of a gate.
pub open spec fn gate_view(g: StreamGate) -> StreamGateView {
    match g {
        StreamGate::MethodNotAllowed => StreamGateView::MethodNotAllowed,
        StreamGate::Refused(d) => StreamGateView::Refused(d),
        StreamGate::MissingTaskId => StreamGateView::MissingTaskId,
        StreamGate::Lookup(t) => StreamGateView::Lookup(t@),
    }
}

/// The method is checked first, then admin access, then the `task_id`
/// parameter (the first non-blank one).
pub open spec fn stream_gate_spec(method: Seq<char>, admin: AdminDecision, query: Option<Seq<char>>) -> StreamGateView {
    if method != "GET"@ {
        StreamGateView::MethodNotAllowed
    } else if admin != AdminDecision::Allowed {
        StreamGateView::Refused(admin)
    } else {
        match stream_task_id_spec(query) {
            Some(t) => StreamGateView::Lookup(t),
            None => StreamGateView::MissingTaskId,
        }
    }
}

/// The checks of the task log stream on the method, the admin decision for
/// the request and its query string.
pub fn stream_gate(method: &str, admin: AdminDecision, query: Option<&str>) -> (r: StreamGate)
    ensures
        gate_view(r) == stream_gate_spec(method@, admin, crate::config::opt_str(query)),
{
    if !str_eq(method, "GET") {
        return StreamGate::MethodNotAllowed;
    }
    match admin {
        AdminDecision::Allowed => {},
        _ => {
            return StreamGate::Refused(admin);
        },
    }
    match stream_task_id(query) {
        Some(t) => StreamGate::Lookup(t),
        None => StreamGate::MissingTaskId,
    }
}

/// The answer to a refused stream request: status, reason and, for JSON
/// answers, the error text.
pub open spec fn gate_answer_spec(g: StreamGateView) -> Option<(u16, Seq<char>, Seq<char>)> {
    match g {
        StreamGateView::MethodNotAllowed => Some((405u16, "MethodNotAllowed"@, "method not allowed"@)),
        StreamGateView::MissingTaskId => Some((400u16, "BadRequest"@, "missing task_id"@)),
        _ => None,
    }
}

/// The answer after the task lookup (`Ok(true)`: found): none when the
/// task exists, 404 `task not found` when it does not, 500 `failed to load
/// task` when the lookup failed.
pub open spec fn lookup_answer_spec(found: Result<bool, Seq<char>>) -> Option<(u16, Seq<char>, Seq<char>)> {
    match found {
        Ok(true) => None,
        Ok(false) => Some((404u16, "NotFound"@, "task not found"@)),
        Err(_) => Some((500u16, "InternalServerError"@, "failed to load task"@)),
    }
}

/// The answer of the stream to a lookup result.
pub fn stream_lookup_answer(found: &Result<bool, String>) -> (r: Option<(u16, &'static str, &'static str)>)
    ensures
        match r {
            Some((c, a, b)) => lookup_answer_spec(match found {
                Ok(x) => Ok(*x),
                Err(e) => Err(e@),
            }) == Some((c, a@, b@)),
            None => lookup_answer_spec(match found {
                Ok(x) => Ok(*x),
                Err(e) => Err(e@),
            }) is None,
        },
{
    match found {
        Ok(true) => None,
        Ok(false) => Some((404, "NotFound", "task not found")),
        Err(_) => Some((500, "InternalServerError", "failed to load task")),
    }
}

/// The answer of the stream to a gate that does not go on to the lookup.
pub fn stream_gate_answer(g: &StreamGate) -> (r: Option<(u16, &'static str, &'static str)>)
    ensures
        match r {
            Some((c, a, b)) => gate_answer_spec(gate_view(*g)) == Some((c, a@, b@)),
            None => gate_answer_spec(gate_view(*g)) is None,
        },
{
    match g {
        StreamGate::MethodNotAllowed => Some((405, "MethodNotAllowed", "method not allowed")),
        StreamGate::MissingTaskId => Some((400, "BadRequest", "missing task_id")),
        _ => None,
    }
}

} // verus!
