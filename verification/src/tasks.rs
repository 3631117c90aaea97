//! Task control: whether a running task can be stopped, how a stop is
//! recorded, and how task metadata is merged.

use vstd::prelude::*;
use crate::text::{str_eq, concat, owned, opt_view, trim, trim_str, views, ends_with, str_ends_with, trim_start_matches_char, trim_end_matches_char, trim_start_char, trim_end_char};
use crate::http::{contains_seq, str_contains_str};

verus! {

/// A graceful stop or a forced one.
#[derive(Clone, Copy, Debug, PartialEq, Eq, Structural)]
pub enum StopMode {
    Graceful,
    Force,
}

/// What a stop request leads to.
pub enum StopPlan {
    /// The task is not running: nothing to stop (the request is logged).
    AlreadyFinished,
    /// 400: the task is marked as not stoppable.
    Unsupported,
    /// 500: the task's metadata could not be read.
    InvalidMeta,
    /// 400: the executor needs a runner unit and the task has none.
    NoRunnerUnit,
    /// Stop the task, through its runner unit when it has one.
    Stop(Option<String>),
}

/// The plain shape of a stop plan.
pub enum StopVerdict {
    AlreadyFinished,
    Unsupported,
    InvalidMeta,
    NoRunnerUnit,
    Stop(Option<Seq<char>>),
}

/// The plain view of a stop plan.
pub open spec fn stop_verdict(p: StopPlan) -> StopVerdict {
    match p {
        StopPlan::AlreadyFinished => StopVerdict::AlreadyFinished,
        StopPlan::Unsupported => StopVerdict::Unsupported,
        StopPlan::InvalidMeta => StopVerdict::InvalidMeta,
        StopPlan::NoRunnerUnit => StopVerdict::NoRunnerUnit,
        StopPlan::Stop(u) => StopVerdict::Stop(opt_view(u)),
    }
}

/// The checks of the stop and force-stop handlers: only a running task
/// marked as stoppable is stopped; with the `systemd-run` executor its
/// runner unit must be known (unreadable metadata is an error there, and
/// means "no unit" for other executors).
pub open spec fn stop_plan_spec(
    status: Seq<char>,
    stoppable: bool,
    runner: Result<Option<Seq<char>>, Seq<char>>,
    systemd_run: bool,
) -> StopVerdict {
    if status != "running"@ {
        StopVerdict::AlreadyFinished
    } else if !stoppable {
        StopVerdict::Unsupported
    } else {
        match runner {
            Err(_) => if systemd_run {
                StopVerdict::InvalidMeta
            } else {
                StopVerdict::Stop(None)
            },
            Ok(None) => if systemd_run {
                StopVerdict::NoRunnerUnit
            } else {
                StopVerdict::Stop(None)
            },
            Ok(Some(u)) => StopVerdict::Stop(Some(u)),
        }
    }
}

/// The view of the runner-unit lookup.
pub open spec fn runner_view(r: &Result<Option<String>, String>) -> Result<Option<Seq<char>>, Seq<char>> {
    match r {
        Ok(o) => Ok(opt_view(*o)),
        Err(e) => Err(e@),
    }
}

/// Decides a stop or force-stop request from the task's status, its
/// stoppable flag, its runner unit lookup and the executor in use.
pub fn stop_plan(
    status: &str,
    stoppable: bool,
    runner: &Result<Option<String>, String>,
    systemd_run: bool,
) -> (r: StopPlan)
    ensures
        stop_verdict(r) == stop_plan_spec(status@, stoppable, runner_view(runner), systemd_run),
{
    if !str_eq(status, "running") {
        return StopPlan::AlreadyFinished;
    }
    if !stoppable {
        return StopPlan::Unsupported;
    }
    match runner {
        Err(_) => if systemd_run {
            StopPlan::InvalidMeta
        } else {
            StopPlan::Stop(None)
        },
        Ok(None) => if systemd_run {
            StopPlan::NoRunnerUnit
        } else {
            StopPlan::Stop(None)
        },
        Ok(Some(u)) => StopPlan::Stop(Some(owned(u.as_str()))),
    }
}

/// A task that is not running is never stopped again, and one not marked
/// stoppable is never stopped.
pub proof fn lemma_stop_only_running_stoppable(
    status: Seq<char>,
    stoppable: bool,
    runner: Result<Option<Seq<char>>, Seq<char>>,
    systemd_run: bool,
)
    requires
        stop_plan_spec(status, stoppable, runner, systemd_run) is Stop,
    ensures
        status == "running"@,
        stoppable,
        systemd_run ==> runner matches Ok(Some(_)),
{
}

/// The runner-unit checks belong to the `systemd-run` executor alone: a
/// missing runner unit or unreadable metadata refuses a stop only there.
/// Under any other executor a running, stoppable task is always stopped,
/// through its runner unit when the lookup found one.
pub proof fn lemma_stop_local_executor(
    status: Seq<char>,
    stoppable: bool,
    runner: Result<Option<Seq<char>>, Seq<char>>,
    systemd_run: bool,
)
    ensures
        stop_plan_spec(status, stoppable, runner, systemd_run) is NoRunnerUnit ==> systemd_run,
        stop_plan_spec(status, stoppable, runner, systemd_run) is InvalidMeta ==> systemd_run,
        status == "running"@ && stoppable && !systemd_run ==> stop_plan_spec(
            status,
            stoppable,
            runner,
            systemd_run,
        ) == StopVerdict::Stop(
            match runner {
                Ok(Some(u)) => Some(u),
                _ => None,
            },
        ),
        status == "running"@ && stoppable && runner == Ok::<Option<Seq<char>>, Seq<char>>(None)
            && !systemd_run ==> stop_plan_spec(status, stoppable, runner, systemd_run)
            == StopVerdict::Stop(None),
{
}

/// The word a stop leaves in the task summary.
pub open spec fn stop_marker(m: StopMode) -> Seq<char> {
    match m {
        StopMode::Graceful => "cancelled"@,
        StopMode::Force => "force-stopped"@,
    }
}

/// The status a stopped task ends in.
pub open spec fn stop_status(m: StopMode) -> Seq<char> {
    match m {
        StopMode::Graceful => "cancelled"@,
        StopMode::Force => "failed"@,
    }
}

/// The summary after a stop: kept when it already says so, else the marker
/// appended (`Task · <marker>` when there was none).
pub open spec fn stopped_summary_spec(m: StopMode, existing: Option<Seq<char>>) -> Seq<char> {
    let suffix = match m {
        StopMode::Graceful => " · cancelled by user"@,
        StopMode::Force => " · force-stopped"@,
    };
    match existing {
        Some(s) => if contains_seq(s, stop_marker(m)) {
            s
        } else {
            s + suffix
        },
        None => "Task"@ + suffix,
    }
}

/// The summary recorded when a task is stopped.
pub fn stopped_summary(m: StopMode, existing: Option<&str>) -> (r: String)
    ensures
        r@ == stopped_summary_spec(
            m,
            match existing {
                Some(s) => Some(s@),
                None => None,
            },
        ),
{
    let (marker, suffix) = match m {
        StopMode::Graceful => ("cancelled", " · cancelled by user"),
        StopMode::Force => ("force-stopped", " · force-stopped"),
    };
    match existing {
        Some(s) => {
            if str_contains_str(s, marker) {
                owned(s)
            } else {
                concat(s, suffix)
            }
        },
        None => concat("Task", suffix),
    }
}

/// The final status of a stopped task.
pub fn stopped_status(m: StopMode) -> (r: &'static str)
    ensures
        r@ == stop_status(m),
{
    match m {
        StopMode::Graceful => "cancelled",
        StopMode::Force => "failed",
    }
}

/// Stopping twice does not repeat the marker.
pub proof fn lemma_stopped_summary_stable(m: StopMode, existing: Option<Seq<char>>)
    ensures
        stopped_summary_spec(m, Some(stopped_summary_spec(m, existing))) == stopped_summary_spec(
            m,
            existing,
        ),
{
    let s = stopped_summary_spec(m, existing);
    let marker = stop_marker(m);
    reveal_strlit("cancelled");
    reveal_strlit("force-stopped");
    reveal_strlit(" · cancelled by user");
    reveal_strlit(" · force-stopped");
    let suffix = match m {
        StopMode::Graceful => " · cancelled by user"@,
        StopMode::Force => " · force-stopped"@,
    };
    let start: int = match m {
        StopMode::Graceful => 3,
        StopMode::Force => 3,
    };
    assert(suffix.subrange(start, start + marker.len()) =~= marker);
    let base = match existing {
        Some(x) => x,
        None => "Task"@,
    };
    if !(existing is Some && contains_seq(existing->0, marker)) {
        assert(s == base + suffix);
        let i = base.len() + start;
        assert(s.subrange(i, i + marker.len()) =~= suffix.subrange(start, start + marker.len()));
        assert(contains_seq(s, marker));
    }
}

/// What is logged and answered when a stop request does not stop the
/// task: the log entry's level, action and summary, the response status,
/// its message (none: the task's detail is returned) and the field it
/// carries (`reason` or `error` with its value).
pub struct StopNotice {
    pub level: &'static str,
    pub action: &'static str,
    pub summary: &'static str,
    pub http_status: u16,
    pub message: Option<&'static str>,
    pub field: Option<(&'static str, &'static str)>,
}

/// The view of a notice.
pub struct StopNoticeView {
    pub level: Seq<char>,
    pub action: Seq<char>,
    pub summary: Seq<char>,
    pub http_status: u16,
    pub message: Option<Seq<char>>,
    pub field: Option<(Seq<char>, Seq<char>)>,
}

/// `StopNotice` with texts as character sequences.
pub open spec fn notice_view(n: StopNotice) -> StopNoticeView {
    StopNoticeView {
        level: n.level@,
        action: n.action@,
        summary: n.summary@,
        http_status: n.http_status,
        message: match n.message {
            Some(x) => Some(x@),
            None => None,
        },
        field: match n.field {
            Some((k, v)) => Some((k@, v@)),
            None => None,
        },
    }
}

/// The notice of each refusal. A finished task gets its detail back (200)
/// and the request is logged; a task not marked stoppable, or without a
/// runner unit under `systemd-run`, is refused (400); unreadable metadata
/// is an error (500, `invalid-task-meta`).
pub open spec fn notice_spec(m: StopMode, v: StopVerdict) -> Option<StopNoticeView> {
    let graceful = m == StopMode::Graceful;
    let refused = if graceful {
        "task cannot be safely stopped"@
    } else {
        "task cannot be safely force-stopped"@
    };
    match v {
        StopVerdict::AlreadyFinished => Some(StopNoticeView {
            level: "info"@,
            action: if graceful { "task-stop-noop"@ } else { "task-force-stop-noop"@ },
            summary: if graceful {
                "Stop requested but task already in terminal state"@
            } else {
                "Force-stop requested but task already in terminal state"@
            },
            http_status: 200u16,
            message: None,
            field: None,
        }),
        StopVerdict::Unsupported => Some(StopNoticeView {
            level: "info"@,
            action: if graceful { "task-stop-unsupported"@ } else { "task-force-stop-unsupported"@ },
            summary: if graceful {
                "Stop requested but task cannot be safely stopped"@
            } else {
                "Force-stop requested but task cannot be safely force-stopped"@
            },
            http_status: 400u16,
            message: Some(refused),
            field: Some(("reason"@, "unsupported"@)),
        }),
        StopVerdict::InvalidMeta => Some(StopNoticeView {
            level: "error"@,
            action: if graceful { "task-stop-meta-error"@ } else { "task-force-stop-meta-error"@ },
            summary: if graceful {
                "Stop requested but task metadata was invalid"@
            } else {
                "Force-stop requested but task metadata was invalid"@
            },
            http_status: 500u16,
            message: Some(if graceful { "failed to stop task"@ } else { "failed to force-stop task"@ }),
            field: Some(("error"@, "invalid-task-meta"@)),
        }),
        StopVerdict::NoRunnerUnit => Some(StopNoticeView {
            level: "info"@,
            action: if graceful { "task-stop-unsupported"@ } else { "task-force-stop-unsupported"@ },
            summary: if graceful {
                "Stop requested but task has no controllable runner unit"@
            } else {
                "Force-stop requested but task has no controllable runner unit"@
            },
            http_status: 400u16,
            message: Some(refused),
            field: Some(("reason"@, "no-runner-unit"@)),
        }),
        StopVerdict::Stop(_) => None,
    }
}

/// The notice for a stop request that does not stop the task (`None` when
/// the task is to be stopped).
pub fn stop_notice(m: StopMode, plan: &StopPlan) -> (r: Option<StopNotice>)
    ensures
        match r {
            Some(n) => notice_spec(m, stop_verdict(*plan)) == Some(notice_view(n)),
            None => notice_spec(m, stop_verdict(*plan)) is None,
        },
{
    let graceful = match m {
        StopMode::Graceful => true,
        StopMode::Force => false,
    };
    let refused = if graceful {
        "task cannot be safely stopped"
    } else {
        "task cannot be safely force-stopped"
    };
    match plan {
        StopPlan::AlreadyFinished => Some(StopNotice {
            level: "info",
            action: if graceful { "task-stop-noop" } else { "task-force-stop-noop" },
            summary: if graceful {
                "Stop requested but task already in terminal state"
            } else {
                "Force-stop requested but task already in terminal state"
            },
            http_status: 200,
            message: None,
            field: None,
        }),
        StopPlan::Unsupported => Some(StopNotice {
            level: "info",
            action: if graceful { "task-stop-unsupported" } else { "task-force-stop-unsupported" },
            summary: if graceful {
                "Stop requested but task cannot be safely stopped"
            } else {
                "Force-stop requested but task cannot be safely force-stopped"
            },
            http_status: 400,
            message: Some(refused),
            field: Some(("reason", "unsupported")),
        }),
        StopPlan::InvalidMeta => Some(StopNotice {
            level: "error",
            action: if graceful { "task-stop-meta-error" } else { "task-force-stop-meta-error" },
            summary: if graceful {
                "Stop requested but task metadata was invalid"
            } else {
                "Force-stop requested but task metadata was invalid"
            },
            http_status: 500,
            message: Some(if graceful { "failed to stop task" } else { "failed to force-stop task" }),
            field: Some(("error", "invalid-task-meta")),
        }),
        StopPlan::NoRunnerUnit => Some(StopNotice {
            level: "info",
            action: if graceful { "task-stop-unsupported" } else { "task-force-stop-unsupported" },
            summary: if graceful {
                "Stop requested but task has no controllable runner unit"
            } else {
                "Force-stop requested but task has no controllable runner unit"
            },
            http_status: 400,
            message: Some(refused),
            field: Some(("reason", "no-runner-unit")),
        }),
        StopPlan::Stop(_) => None,
    }
}

/// What is recorded once a task is stopped: the log level, action and
/// summary, and the message left on its unfinished units.
pub open spec fn stopped_record_spec(m: StopMode) -> (Seq<char>, Seq<char>, Seq<char>, Seq<char>) {
    match m {
        StopMode::Graceful => ("warning"@, "task-cancelled"@, "Task cancelled via /stop API"@, "cancelled by user"@),
        StopMode::Force => ("error"@, "task-force-killed"@, "Task force-stopped via /force-stop API"@, "force-stopped by user"@),
    }
}

/// The level, action, summary and unit message logged when a task is
/// stopped.
pub fn stopped_record(m: StopMode) -> (r: (&'static str, &'static str, &'static str, &'static str))
    ensures
        (r.0@, r.1@, r.2@, r.3@) == stopped_record_spec(m),
{
    match m {
        StopMode::Graceful => ("warning", "task-cancelled", "Task cancelled via /stop API", "cancelled by user"),
        StopMode::Force => ("error", "task-force-killed", "Task force-stopped via /force-stop API", "force-stopped by user"),
    }
}

/// A retry of a task: the summary of the new task and its long-running
/// flag (normalised to 0 or 1).
pub struct RetryPlan {
    pub summary: String,
    pub is_long_running: Option<i64>,
}

/// A running or pending task cannot be retried; otherwise the new task's
/// summary is the old one with ` · retry`, or `Retry of previous task`.
pub open spec fn retry_spec(status: Seq<char>, summary: Option<Seq<char>>, is_long_running: Option<i64>) -> Option<(Seq<char>, Option<i64>)> {
    if status == "running"@ || status == "pending"@ {
        None
    } else {
        Some((
            match summary {
                Some(s) => s + " · retry"@,
                None => "Retry of previous task"@,
            },
            match is_long_running {
                Some(v) => Some(if v != 0 {
                    1i64
                } else {
                    0i64
                }),
                None => None,
            },
        ))
    }
}

/// Plans the retry of a task (`None`: conflict, the task is still going).
pub fn retry_plan(status: &str, summary: Option<&str>, is_long_running: Option<i64>) -> (r: Option<RetryPlan>)
    ensures
        match r {
            Some(p) => retry_spec(status@, crate::config::opt_str(summary), is_long_running) == Some((p.summary@, p.is_long_running)),
            None => retry_spec(status@, crate::config::opt_str(summary), is_long_running) is None,
        },
{
    if str_eq(status, "running") || str_eq(status, "pending") {
        return None;
    }
    let text = match summary {
        Some(s) => concat(s, " · retry"),
        None => String::from_str("Retry of previous task"),
    };
    let flag = match is_long_running {
        Some(v) => Some(if v != 0 {
            1
        } else {
            0
        }),
        None => None,
    };
    Some(RetryPlan { summary: text, is_long_running: flag })
}

/// A task still running or waiting is never retried.
pub proof fn lemma_retry_needs_finished_task(status: Seq<char>, summary: Option<Seq<char>>, is_long_running: Option<i64>)
    requires
        retry_spec(status, summary, is_long_running) is Some,
    ensures
        status != "running"@ && status != "pending"@,
{
}

/// A retry is refused exactly when the task is still running or pending:
/// every other status (succeeded, failed, cancelled, skipped, ...) gives a
/// plan, whose summary extends the old one.
pub proof fn lemma_retry_refused_iff_active(status: Seq<char>, summary: Option<Seq<char>>, is_long_running: Option<i64>)
    ensures
        retry_spec(status, summary, is_long_running) is None <==> (status == "running"@ || status
            == "pending"@),
        summary matches Some(s) ==> (status != "running"@ && status != "pending"@ ==> retry_spec(
            status,
            summary,
            is_long_running,
        ).unwrap().0 == s + " · retry"@),
{
}

/// A request to create a task through the API.
pub struct CreateTaskRequest {
    pub kind: Option<String>,
    pub source: Option<String>,
    pub units: Option<Vec<String>>,
    pub caller: Option<String>,
    pub reason: Option<String>,
    pub path: Option<String>,
    pub is_long_running: Option<bool>,
}

/// The task such a request creates.
pub struct ApiTaskPlan {
    pub kind: String,
    pub source: String,
    pub units: Vec<String>,
    pub caller: Option<String>,
    pub reason: Option<String>,
    pub path: Option<String>,
    pub is_long_running: bool,
    pub summary: String,
}

/// A value that is not blank, else the default.
pub open spec fn or_default(v: Option<Seq<char>>, d: Seq<char>) -> Seq<char> {
    match v {
        Some(x) => if trim(x).len() > 0 {
            x
        } else {
            d
        },
        None => d,
    }
}

/// A value trimmed, when something is left.
pub open spec fn trimmed_value(v: Option<Seq<char>>) -> Option<Seq<char>> {
    match v {
        Some(x) => if trim(x).len() > 0 {
            Some(trim(x))
        } else {
            None
        },
        None => None,
    }
}

/// The units that are not blank, in order.
pub open spec fn nonblank_units(us: Seq<Seq<char>>) -> Seq<Seq<char>>
    decreases us.len(),
{
    if us.len() == 0 {
        Seq::<Seq<char>>::empty()
    } else if trim(us.last()).len() > 0 {
        nonblank_units(us.drop_last()).push(us.last())
    } else {
        nonblank_units(us.drop_last())
    }
}

/// The units of an API task: those given and not blank, or `unknown.unit`.
pub open spec fn api_units(us: Option<Seq<Seq<char>>>) -> Seq<Seq<char>> {
    let kept = match us {
        Some(v) => nonblank_units(v),
        None => Seq::<Seq<char>>::empty(),
    };
    if kept.len() == 0 {
        seq!["unknown.unit"@]
    } else {
        kept
    }
}

/// A value's default when it is blank.
fn value_or(v: &Option<String>, d: &str) -> (r: String)
    ensures
        r@ == or_default(opt_view(*v), d@),
{
    match v {
        Some(x) => if trim_str(x.as_str()).unicode_len() > 0 {
            owned(x.as_str())
        } else {
            owned(d)
        },
        None => owned(d),
    }
}

/// A value trimmed, when something is left.
fn trimmed_of(v: &Option<String>) -> (r: Option<String>)
    ensures
        opt_view(r) == trimmed_value(opt_view(*v)),
{
    match v {
        Some(x) => {
            let t = trim_str(x.as_str());
            if t.unicode_len() > 0 {
                Some(owned(t))
            } else {
                None
            }
        },
        None => None,
    }
}

/// The task an API request creates: kind and source default to `manual`,
/// caller, reason and path are trimmed, the task is long-running unless
/// said otherwise, and the summary names maintenance or manual work.
pub fn api_task_plan(req: &CreateTaskRequest) -> (r: ApiTaskPlan)
    ensures
        r.kind@ == or_default(opt_view(req.kind), "manual"@),
        r.source@ == or_default(opt_view(req.source), "manual"@),
        views(r.units@) == api_units(
            match req.units {
                Some(v) => Some(views(v@)),
                None => None,
            },
        ),
        opt_view(r.caller) == trimmed_value(opt_view(req.caller)),
        opt_view(r.reason) == trimmed_value(opt_view(req.reason)),
        opt_view(r.path) == trimmed_value(opt_view(req.path)),
        r.is_long_running == (match req.is_long_running {
            Some(b) => b,
            None => true,
        }),
        r.summary@ == (if or_default(opt_view(req.kind), "manual"@) == "maintenance"@ {
            "Maintenance task started from API"@
        } else {
            "Manual task started from API"@
        }),
{
    let kind = value_or(&req.kind, "manual");
    let source = value_or(&req.source, "manual");
    let mut units: Vec<String> = Vec::new();
    match &req.units {
        Some(v) => {
            let mut i: usize = 0;
            proof {
                assert(views(v@).take(0) =~= Seq::<Seq<char>>::empty());
                assert(views(units@) =~= Seq::<Seq<char>>::empty());
            }
            while i < v.len()
                invariant
                    i <= v@.len(),
                    views(units@) == nonblank_units(views(v@).take(i as int)),
                decreases v@.len() - i,
            {
                proof {
                    assert(views(v@).take(i + 1).drop_last() =~= views(v@).take(i as int));
                    assert(views(v@).take(i + 1).last() == v@[i as int]@);
                }
                if trim_str(v[i].as_str()).unicode_len() > 0 {
                    crate::text::push_str_owned(&mut units, v[i].as_str());
                }
                i = i + 1;
            }
            proof {
                assert(views(v@).take(v@.len() as int) =~= views(v@));
            }
        },
        None => {
            proof {
                assert(views(units@) =~= Seq::<Seq<char>>::empty());
            }
        },
    }
    if units.len() == 0 {
        crate::text::push_str_owned(&mut units, "unknown.unit");
        proof {
            assert(views(units@) =~= seq!["unknown.unit"@]);
        }
    }
    let summary = if str_eq(kind.as_str(), "maintenance") {
        String::from_str("Maintenance task started from API")
    } else {
        String::from_str("Manual task started from API")
    };
    ApiTaskPlan {
        kind,
        source,
        units,
        caller: trimmed_of(&req.caller),
        reason: trimmed_of(&req.reason),
        path: trimmed_of(&req.path),
        is_long_running: match req.is_long_running {
            Some(b) => b,
            None => true,
        },
        summary,
    }
}

/// The slug recorded for a unit of an API task: the name without
/// `.service`, trimmed of `/`; none for other names.
pub open spec fn api_unit_slug_spec(unit: Seq<char>) -> Option<Seq<char>> {
    if ends_with(unit, ".service"@) {
        Some(trim_end_char(trim_start_char(unit.take(unit.len() - 8), '/'), '/'))
    } else {
        None
    }
}

/// The slug of a unit named in a task request.
pub fn api_unit_slug(unit: &str) -> (r: Option<String>)
    ensures
        opt_view(r) == api_unit_slug_spec(unit@),
{
    if !str_ends_with(unit, ".service") {
        return None;
    }
    proof {
        reveal_strlit(".service");
    }
    let n = unit.unicode_len();
    let head = unit.substring_char(0, n - 8);
    proof {
        assert(head@ =~= unit@.take(unit@.len() - 8));
    }
    Some(owned(trim_end_matches_char(trim_start_matches_char(head, '/'), '/')))
}

/// What created a task.
#[derive(Clone, Copy, Debug, PartialEq, Eq, Structural)]
pub enum TaskOrigin {
    GithubWebhook,
    ManualTrigger,
    ManualDeploy,
    CliManualTrigger,
    ManualService,
    ManualAutoUpdate,
    ManualAutoUpdateRun,
    SchedulerAutoUpdate,
    MaintenancePruneApi,
    SelfUpdateRunApi,
    CliMaintenancePrune,
}

/// How a new task is stored: its kind and trigger source, and whether it
/// can be stopped, force-stopped or retried. Every new task starts
/// `running`, long-running, with its units `queued`.
#[derive(Clone, Copy, Debug)]
pub struct TaskCreationPlan {
    pub kind: &'static str,
    pub trigger_source: &'static str,
    pub can_stop: bool,
    pub can_force_stop: bool,
    pub can_retry: bool,
}

/// The kind and trigger source stored for each origin.
pub open spec fn origin_kind_source(o: TaskOrigin) -> (Seq<char>, Seq<char>) {
    match o {
        TaskOrigin::GithubWebhook => ("github-webhook"@, "webhook"@),
        TaskOrigin::ManualTrigger => ("manual"@, "manual"@),
        TaskOrigin::ManualDeploy => ("manual"@, "manual"@),
        TaskOrigin::CliManualTrigger => ("manual"@, "cli"@),
        TaskOrigin::ManualService => ("manual"@, "manual"@),
        TaskOrigin::ManualAutoUpdate => ("manual"@, "manual"@),
        TaskOrigin::ManualAutoUpdateRun => ("manual"@, "manual"@),
        TaskOrigin::SchedulerAutoUpdate => ("scheduler"@, "scheduler"@),
        TaskOrigin::MaintenancePruneApi => ("maintenance"@, "maintenance"@),
        TaskOrigin::SelfUpdateRunApi => ("maintenance"@, "maintenance"@),
        TaskOrigin::CliMaintenancePrune => ("maintenance"@, "cli"@),
    }
}

/// The creation plan of each `create_*_task`: only webhook tasks can be
/// stopped or force-stopped; no new task can be retried.
pub fn creation_plan(o: TaskOrigin) -> (r: TaskCreationPlan)
    ensures
        (r.kind@, r.trigger_source@) == origin_kind_source(o),
        r.can_stop == (o == TaskOrigin::GithubWebhook),
        r.can_force_stop == (o == TaskOrigin::GithubWebhook),
        !r.can_retry,
{
    let (kind, trigger_source): (&'static str, &'static str) = match o {
        TaskOrigin::GithubWebhook => ("github-webhook", "webhook"),
        TaskOrigin::ManualTrigger => ("manual", "manual"),
        TaskOrigin::ManualDeploy => ("manual", "manual"),
        TaskOrigin::CliManualTrigger => ("manual", "cli"),
        TaskOrigin::ManualService => ("manual", "manual"),
        TaskOrigin::ManualAutoUpdate => ("manual", "manual"),
        TaskOrigin::ManualAutoUpdateRun => ("manual", "manual"),
        TaskOrigin::SchedulerAutoUpdate => ("scheduler", "scheduler"),
        TaskOrigin::MaintenancePruneApi => ("maintenance", "maintenance"),
        TaskOrigin::SelfUpdateRunApi => ("maintenance", "maintenance"),
        TaskOrigin::CliMaintenancePrune => ("maintenance", "cli"),
    };
    let webhook = match o {
        TaskOrigin::GithubWebhook => true,
        _ => false,
    };
    TaskCreationPlan { kind, trigger_source, can_stop: webhook, can_force_stop: webhook, can_retry: false }
}

/// Only webhook tasks are ever stopped: a task created from any other
/// origin keeps its stop flags off, and a stop request on it is never
/// carried out, whatever its status or runner.
pub proof fn lemma_only_webhook_tasks_stop(
    o: TaskOrigin,
    status: Seq<char>,
    runner: Result<Option<Seq<char>>, Seq<char>>,
    systemd_run: bool,
)
    requires
        o != TaskOrigin::GithubWebhook,
    ensures
        !(stop_plan_spec(status, o == TaskOrigin::GithubWebhook, runner, systemd_run) is Stop),
{
}

/// What a carried-out stop writes: the task's new status, its flags (it
/// can no longer be stopped or force-stopped, and can now be retried) and
/// the status of its units.
#[derive(Clone, Copy, Debug)]
pub struct StoppedRow {
    pub status: &'static str,
    pub can_stop: bool,
    pub can_force_stop: bool,
    pub can_retry: bool,
    pub unit_status: &'static str,
}

/// The row written by the stop and force-stop handlers.
pub fn stopped_row(m: StopMode) -> (r: StoppedRow)
    ensures
        r.status@ == stop_status(m),
        r.unit_status@ == stop_status(m),
        !r.can_stop,
        !r.can_force_stop,
        r.can_retry,
{
    let st = stopped_status(m);
    StoppedRow { status: st, can_stop: false, can_force_stop: false, can_retry: true, unit_status: st }
}

/// The command that stops a task's runner unit: `systemctl --user stop`
/// for a stop, `systemctl --user kill --signal=SIGKILL` for a force-stop.
pub open spec fn runner_stop_spec(m: StopMode, unit: Seq<char>) -> Seq<Seq<char>> {
    match m {
        StopMode::Graceful => seq!["systemctl"@, "--user"@, "stop"@, unit],
        StopMode::Force => seq!["systemctl"@, "--user"@, "kill"@, "--signal=SIGKILL"@, unit],
    }
}

/// The argument vector run against the runner unit of a stopped task.
pub fn runner_stop_command(m: StopMode, unit: &str) -> (r: Vec<String>)
    ensures
        views(r@) == runner_stop_spec(m, unit@),
{
    let mut v: Vec<String> = Vec::new();
    v.push(owned("systemctl"));
    v.push(owned("--user"));
    match m {
        StopMode::Graceful => {
            v.push(owned("stop"));
        },
        StopMode::Force => {
            v.push(owned("kill"));
            v.push(owned("--signal=SIGKILL"));
        },
    }
    v.push(owned(unit));
    proof {
        assert(views(v@) =~= runner_stop_spec(m, unit@));
    }
    v
}

/// A stopped task becomes retryable and can never be stopped again.
pub proof fn lemma_stopped_task_not_stopped_again(
    m: StopMode,
    runner: Result<Option<Seq<char>>, Seq<char>>,
    systemd_run: bool,
)
    ensures
        !(stop_plan_spec(stop_status(m), false, runner, systemd_run) is Stop),
{
}

/// A unit of a retry task: name, slug and display name copied from the
/// original task, waiting to run.
pub struct RetryUnit {
    pub unit: String,
    pub slug: Option<String>,
    pub display_name: Option<String>,
    pub status: &'static str,
    pub phase: &'static str,
    pub message: &'static str,
}

/// The task a retry inserts: a new id with the `retry` prefix, the original
/// kind, `pending`, stoppable and force-stoppable but not retryable, with
/// each unit of the original task copied as pending.
pub struct RetryTask {
    pub task_id: String,
    pub kind: String,
    pub status: &'static str,
    pub can_stop: bool,
    pub can_force_stop: bool,
    pub can_retry: bool,
    pub units: Vec<RetryUnit>,
}

/// The view of the original task's unit rows.
pub open spec fn unit_rows_view(units: Seq<(String, Option<String>, Option<String>)>) -> Seq<(Seq<char>, Option<Seq<char>>, Option<Seq<char>>)> {
    units.map_values(|u: (String, Option<String>, Option<String>)| (u.0@, opt_view(u.1), opt_view(u.2)))
}

/// A copy of an optional string.
fn copy_opt_str(o: &Option<String>) -> (r: Option<String>)
    ensures
        opt_view(r) == opt_view(*o),
{
    match o {
        Some(s) => Some(owned(s.as_str())),
        None => None,
    }
}

/// The retry task of a task of `kind` with these unit rows (unit, slug,
/// display name).
pub fn retry_task(kind: &str, units: &[(String, Option<String>, Option<String>)]) -> (r: RetryTask)
    ensures
        r.task_id@.len() == 22,
        r.task_id@.take(6) == "retry_"@,
        r.kind@ == kind@,
        r.status@ == "pending"@,
        r.can_stop,
        r.can_force_stop,
        !r.can_retry,
        r.units@.len() == units@.len(),
        forall|k: int|
            0 <= k < units@.len() ==> {
                let u = #[trigger] r.units@[k];
                &&& (u.unit@, opt_view(u.slug), opt_view(u.display_name)) == unit_rows_view(units@)[k]
                &&& u.status@ == "pending"@
                &&& u.phase@ == "queued"@
                &&& u.message@ == "Retry pending"@
            },
{
    let id = crate::ids::next_task_id("retry");
    proof {
        reveal_strlit("retry");
        reveal_strlit("retry_");
        assert(id@.take(6) =~= id@.take(5).push(id@[5]));
        assert("retry_"@ =~= "retry"@.push('_'));
    }
    let mut out: Vec<RetryUnit> = Vec::new();
    let mut i: usize = 0;
    while i < units.len()
        invariant
            i <= units@.len(),
            out@.len() == i,
            forall|k: int|
                0 <= k < i ==> {
                    let u = #[trigger] out@[k];
                    &&& (u.unit@, opt_view(u.slug), opt_view(u.display_name)) == unit_rows_view(units@)[k]
                    &&& u.status@ == "pending"@
                    &&& u.phase@ == "queued"@
                    &&& u.message@ == "Retry pending"@
                },
        decreases units@.len() - i,
    {
        let (name, slug, display) = &units[i];
        out.push(
            RetryUnit {
                unit: owned(name.as_str()),
                slug: copy_opt_str(slug),
                display_name: copy_opt_str(display),
                status: "pending",
                phase: "queued",
                message: "Retry pending",
            },
        );
        i = i + 1;
    }
    RetryTask {
        task_id: id,
        kind: owned(kind),
        status: "pending",
        can_stop: true,
        can_force_stop: true,
        can_retry: false,
        units: out,
    }
}

} // verus!
