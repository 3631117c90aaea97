//! The bytes of HTTP responses: status line and headers of text, payload
//! and event-stream responses.

use vstd::prelude::*;
use crate::text::{concat, owned, nat_decimal, u64_to_string, lines, lines_of, views, opt_view};

verus! {

/// `HTTP/1.1 <status> <reason>` and CRLF.
pub open spec fn status_line(status: u16, reason: Seq<char>) -> Seq<char> {
    "HTTP/1.1 "@ + nat_decimal(status as nat) + " "@ + reason + "\r\n"@
}

/// The status line of an HTTP answer.
fn status_line_of(status: u16, reason: &str) -> (r: String)
    ensures
        r@ == status_line(status, reason@),
{
    let n = u64_to_string(status as u64);
    let a = concat("HTTP/1.1 ", n.as_str());
    let b = concat(a.as_str(), " ");
    let c = concat(b.as_str(), reason);
    concat(c.as_str(), "\r\n")
}

/// A plain-text response that closes the connection; a non-empty body is
/// followed by a newline.
pub open spec fn text_response_spec(status: u16, reason: Seq<char>, body: Seq<char>) -> Seq<char> {
    let head = status_line(status, reason) + "Content-Type: text/plain; charset=utf-8\r\n"@
        + "Connection: close\r\n"@ + "\r\n"@;
    if body.len() > 0 {
        head + body + "\n"@
    } else {
        head
    }
}

/// A complete plain-text HTTP answer.
pub fn text_response(status: u16, reason: &str, body: &str) -> (r: String)
    ensures
        r@ == text_response_spec(status, reason@, body@),
{
    let s = status_line_of(status, reason);
    let a = concat(s.as_str(), "Content-Type: text/plain; charset=utf-8\r\n");
    let b = concat(a.as_str(), "Connection: close\r\n");
    let head = concat(b.as_str(), "\r\n");
    if body.unicode_len() > 0 {
        let c = concat(head.as_str(), body);
        concat(c.as_str(), "\n")
    } else {
        head
    }
}

/// The head of a response with a typed payload of `length` bytes that
/// closes the connection (the payload, if sent, follows it).
pub open spec fn payload_head_spec(status: u16, reason: Seq<char>, content_type: Seq<char>, length: usize) -> Seq<char> {
    status_line(status, reason) + "Content-Type: "@ + content_type + "\r\n"@ + "Content-Length: "@
        + nat_decimal(length as nat) + "\r\n"@ + "Connection: close\r\n"@ + "\r\n"@
}

/// The head of an HTTP answer that carries a payload of the given type and
/// length.
pub fn payload_head(status: u16, reason: &str, content_type: &str, length: usize) -> (r: String)
    ensures
        r@ == payload_head_spec(status, reason@, content_type@, length),
{
    let s = status_line_of(status, reason);
    let a = concat(s.as_str(), "Content-Type: ");
    let b = concat(a.as_str(), content_type);
    let c = concat(b.as_str(), "\r\n");
    let d = concat(c.as_str(), "Content-Length: ");
    let n = u64_to_string(length as u64);
    let e = concat(d.as_str(), n.as_str());
    let f = concat(e.as_str(), "\r\n");
    let g = concat(f.as_str(), "Connection: close\r\n");
    concat(g.as_str(), "\r\n")
}

/// The head of an event stream.
pub open spec fn sse_head_spec() -> Seq<char> {
    "HTTP/1.1 200 OK\r\n"@ + "Content-Type: text/event-stream\r\n"@ + "Cache-Control: no-cache\r\n"@
        + "Connection: keep-alive\r\n"@ + "\r\n"@
}

/// The head of a server-sent events stream.
pub fn sse_head() -> (r: String)
    ensures
        r@ == sse_head_spec(),
{
    let a = concat("HTTP/1.1 200 OK\r\n", "Content-Type: text/event-stream\r\n");
    let b = concat(a.as_str(), "Cache-Control: no-cache\r\n");
    let c = concat(b.as_str(), "Connection: keep-alive\r\n");
    concat(c.as_str(), "\r\n")
}

/// `data: <line>` and a newline for each of the first `n` lines.
pub open spec fn data_lines(ls: Seq<Seq<char>>, n: int) -> Seq<char>
    decreases n,
{
    if n <= 0 {
        Seq::<char>::empty()
    } else {
        data_lines(ls, n - 1) + "data: "@ + ls[n - 1] + "\n"@
    }
}

/// A response carrying one event: the stream head, the event's name when
/// it has one, a retry of 15 seconds, each line of the data, and a blank
/// line.
pub open spec fn sse_single_spec(event: Seq<char>, data: Seq<char>) -> Seq<char> {
    let named = if event.len() > 0 {
        "event: "@ + event + "\n"@
    } else {
        Seq::<char>::empty()
    };
    sse_head_spec() + named + "retry: 15000\n"@ + data_lines(lines(data), lines(data).len() as int) + "\n"@
}

/// A server-sent events answer with a single event.
pub fn sse_single(event: &str, data: &str) -> (r: String)
    ensures
        r@ == sse_single_spec(event@, data@),
{
    let mut out = sse_head();
    if event.unicode_len() > 0 {
        let a = concat(out.as_str(), "event: ");
        let b = concat(a.as_str(), event);
        out = concat(b.as_str(), "\n");
    }
    out = concat(out.as_str(), "retry: 15000\n");
    let ghost before = out@;
    let ls = lines_of(data);
    let mut i: usize = 0;
    proof {
        assert(out@ =~= before + data_lines(lines(data@), 0));
    }
    while i < ls.len()
        invariant
            i <= ls@.len(),
            views(ls@) == lines(data@),
            out@ == before + data_lines(lines(data@), i as int),
        decreases ls@.len() - i,
    {
        let a = concat(out.as_str(), "data: ");
        let b = concat(a.as_str(), ls[i].as_str());
        out = concat(b.as_str(), "\n");
        proof {
            assert(views(ls@)[i as int] == ls@[i as int]@);
            assert(out@ =~= before + data_lines(lines(data@), i + 1));
        }
        i = i + 1;
    }
    concat(out.as_str(), "\n")
}

/// A problem the health check reports: the component, its message and a
/// hint.
pub struct HealthIssue {
    pub component: &'static str,
    pub message: String,
    pub hint: &'static str,
}

/// The health answer: its status code and reason, its overall status, the
/// database error shown, whether the database address is shown, and the
/// issues.
pub struct HealthReport {
    pub http_status: u16,
    pub reason: &'static str,
    pub status: &'static str,
    pub db_error: Option<String>,
    pub show_db_url: bool,
    pub issues: Vec<HealthIssue>,
}

/// The database error as shown: in full to an admin, else generic.
pub open spec fn shown_db_error(err: Option<Seq<char>>, is_admin: bool) -> Option<Seq<char>> {
    match err {
        Some(e) => Some(if is_admin {
            e
        } else {
            "database initialization failed"@
        }),
        None => None,
    }
}

/// The health of the service from its database and podman errors: healthy
/// (200, `ok`) without any, else degraded (503) with one issue for each.
pub fn health_report(db_error: Option<&str>, podman_error: Option<&str>, is_admin: bool) -> (r: HealthReport)
    ensures
        r.issues@.len() == (if db_error is Some { 1int } else { 0 }) + (if podman_error is Some {
            1int
        } else {
            0
        }),
        (db_error is None && podman_error is None) ==> r.http_status == 200 && r.reason@ == "OK"@
            && r.status@ == "ok"@,
        (db_error is Some || podman_error is Some) ==> r.http_status == 503 && r.reason@
            == "ServiceUnavailable"@ && r.status@ == "degraded"@,
        opt_view(r.db_error) == shown_db_error(crate::config::opt_str(db_error), is_admin),
        r.show_db_url == is_admin,
        db_error is Some ==> r.issues@[0].component@ == "database"@ && Some(r.issues@[0].message@)
            == shown_db_error(crate::config::opt_str(db_error), is_admin) && r.issues@[0].hint@
            == "Set PODUP_DB_URL or PODUP_STATE_DIR to a writable path"@,
        podman_error matches Some(pe) ==> r.issues@[r.issues@.len() - 1].component@ == "podman"@
            && r.issues@[r.issues@.len() - 1].message@ == pe@ && r.issues@[r.issues@.len() - 1].hint@
            == "Ensure podman is installed and available on PATH"@,
{
    let shown = match db_error {
        Some(e) => Some(if is_admin {
            owned(e)
        } else {
            String::from_str("database initialization failed")
        }),
        None => None,
    };
    let mut issues: Vec<HealthIssue> = Vec::new();
    if let Some(m) = &shown {
        issues.push(
            HealthIssue {
                component: "database",
                message: owned(m.as_str()),
                hint: "Set PODUP_DB_URL or PODUP_STATE_DIR to a writable path",
            },
        );
    }
    if let Some(pe) = podman_error {
        issues.push(
            HealthIssue {
                component: "podman",
                message: owned(pe),
                hint: "Ensure podman is installed and available on PATH",
            },
        );
    }
    let healthy = issues.len() == 0;
    HealthReport {
        http_status: if healthy {
            200
        } else {
            503
        },
        reason: if healthy {
            "OK"
        } else {
            "ServiceUnavailable"
        },
        status: if healthy {
            "ok"
        } else {
            "degraded"
        },
        db_error: shown,
        show_db_url: is_admin,
        issues,
    }
}

/// Whether a request that needs the database and podman may go on.
pub enum InfraGate {
    /// Both are available.
    Ready,
    /// 503 `db-unavailable`, with the database error.
    DbUnavailable(String),
    /// 503 `podman-unavailable`, with the podman error.
    PodmanUnavailable(String),
}

/// The readiness check: the database is checked first, then podman.
pub fn infra_gate(db_error: Option<&str>, podman_error: Option<&str>) -> (r: InfraGate)
    ensures
        match db_error {
            Some(e) => r matches InfraGate::DbUnavailable(m) && m@ == e@,
            None => match podman_error {
                Some(e) => r matches InfraGate::PodmanUnavailable(m) && m@ == e@,
                None => r is Ready,
            },
        },
{
    match db_error {
        Some(e) => InfraGate::DbUnavailable(owned(e)),
        None => match podman_error {
            Some(e) => InfraGate::PodmanUnavailable(owned(e)),
            None => InfraGate::Ready,
        },
    }
}

} // verus!
