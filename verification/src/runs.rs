//! Background runs: the per-unit outcome and summary of a manual deploy,
//! and the reading of `podman auto-update` JSONL events and summaries.

use vstd::prelude::*;
use crate::text::{str_eq, concat, owned, nat_decimal, u64_to_string, trim, trim_str, utf8_len, views, lines, lines_of, nonempty, opt_view};
use vstd::utf8::{encode_utf8, decode_utf8, is_char_boundary};
use crate::json::{Json, obj_get, obj_lookup, member_str, get_member_str};
use crate::systemd::UnitHealthVerdict;
use crate::quadlet::{extension_spec};

verus! {

/// A unit's deploy status from the result of its restart: `triggered` is a
/// success, `failed` and `error` are failures, anything else is unknown.
pub open spec fn restart_status_spec(op_status: Seq<char>) -> Seq<char> {
    if op_status == "triggered"@ {
        "succeeded"@
    } else if op_status == "failed"@ || op_status == "error"@ {
        "failed"@
    } else {
        "unknown"@
    }
}

/// The deploy status of a unit after its restart.
pub fn restart_status(op_status: &str) -> (r: &'static str)
    ensures
        r@ == restart_status_spec(op_status@),
{
    if str_eq(op_status, "triggered") {
        "succeeded"
    } else if str_eq(op_status, "failed") || str_eq(op_status, "error") {
        "failed"
    } else {
        "unknown"
    }
}

/// The status after the health check: a failed unit is left as it is; a
/// failed check fails it; a degraded or unknown one makes it unknown.
pub open spec fn after_health_spec(status: Seq<char>, verdict: Option<UnitHealthVerdict>) -> Seq<char> {
    if status == "failed"@ {
        status
    } else {
        match verdict {
            Some(UnitHealthVerdict::Failed) => "failed"@,
            Some(UnitHealthVerdict::Degraded) | Some(UnitHealthVerdict::Unknown) => "unknown"@,
            _ => status,
        }
    }
}

/// The status of a deployed unit once its health is known (`verdict` is
/// `None` when no check ran).
pub fn status_after_health(status: &str, verdict: Option<UnitHealthVerdict>) -> (r: String)
    ensures
        r@ == after_health_spec(status@, verdict),
{
    if str_eq(status, "failed") {
        return owned(status);
    }
    match verdict {
        Some(UnitHealthVerdict::Failed) => String::from_str("failed"),
        Some(UnitHealthVerdict::Degraded) | Some(UnitHealthVerdict::Unknown) => String::from_str(
            "unknown",
        ),
        _ => owned(status),
    }
}

/// What happened to a unit of a manual deploy.
pub enum DeployUnitEvent {
    /// The image pull ran (`Err` when podman could not be run at all).
    Pulled(Result<crate::host::CommandExecResult, String>),
    /// The restart ran, with its action status (`triggered`, `failed`, ...).
    Restarted(String),
    /// The health check ran on a unit whose status so far is `status`.
    Checked { status: String, verdict: UnitHealthVerdict },
}

/// What a manual deploy does next with a unit.
pub enum DeployUnitStep {
    /// Restart the unit.
    Restart,
    /// Check its health; the status so far is kept.
    CheckHealth(String),
    /// The unit is done, with this status.
    Done(String),
}

/// The plain shape of a deploy step.
pub enum DeployStepView {
    Restart,
    CheckHealth(Seq<char>),
    Done(Seq<char>),
}

/// The view of a deploy step.
pub open spec fn deploy_step_view(s: DeployUnitStep) -> DeployStepView {
    match s {
        DeployUnitStep::Restart => DeployStepView::Restart,
        DeployUnitStep::CheckHealth(t) => DeployStepView::CheckHealth(t@),
        DeployUnitStep::Done(t) => DeployStepView::Done(t@),
    }
}

/// A failed or unrunnable pull fails the unit; a pulled image is followed
/// by the restart; a failed restart fails the unit, any other is followed by
/// the health check, whose verdict settles the status.
pub open spec fn deploy_next_spec(e: DeployUnitEvent) -> DeployStepView {
    match e {
        DeployUnitEvent::Pulled(r) => match r {
            Ok(res) => if res.exit_code == Some(0i32) {
                DeployStepView::Restart
            } else {
                DeployStepView::Done("failed"@)
            },
            Err(_) => DeployStepView::Done("failed"@),
        },
        DeployUnitEvent::Restarted(op) => if restart_status_spec(op@) == "failed"@ {
            DeployStepView::Done("failed"@)
        } else {
            DeployStepView::CheckHealth(restart_status_spec(op@))
        },
        DeployUnitEvent::Checked { status, verdict } => DeployStepView::Done(
            after_health_spec(status@, Some(verdict)),
        ),
    }
}

/// The decision of a manual deploy after each step on a unit.
pub fn deploy_unit_next(e: &DeployUnitEvent) -> (r: DeployUnitStep)
    ensures
        deploy_step_view(r) == deploy_next_spec(*e),
{
    match e {
        DeployUnitEvent::Pulled(r) => match r {
            Ok(res) => if res.success() {
                DeployUnitStep::Restart
            } else {
                DeployUnitStep::Done(String::from_str("failed"))
            },
            Err(_) => DeployUnitStep::Done(String::from_str("failed")),
        },
        DeployUnitEvent::Restarted(op) => {
            let st = restart_status(op.as_str());
            if str_eq(st, "failed") {
                DeployUnitStep::Done(String::from_str("failed"))
            } else {
                DeployUnitStep::CheckHealth(owned(st))
            }
        },
        DeployUnitEvent::Checked { status, verdict } => DeployUnitStep::Done(
            status_after_health(status.as_str(), Some(*verdict)),
        ),
    }
}

/// A deployed unit ends as succeeded only through a `triggered` restart and
/// a healthy check: a restart that was not triggered never leads to a
/// succeeded check, and a check ends succeeded only when the status so far
/// was succeeded and the unit is healthy.
pub proof fn lemma_deploy_success_needs_trigger_and_health(op: String, status: String, verdict: UnitHealthVerdict)
    ensures
        deploy_next_spec(DeployUnitEvent::Restarted(op)) == DeployStepView::CheckHealth("succeeded"@)
            ==> op@ == "triggered"@,
        deploy_next_spec(DeployUnitEvent::Checked { status, verdict }) == DeployStepView::Done(
            "succeeded"@,
        ) ==> status@ == "succeeded"@ && verdict == UnitHealthVerdict::Healthy,
{
    reveal_strlit("succeeded");
    reveal_strlit("failed");
    reveal_strlit("unknown");
    reveal_strlit("triggered");
    assert("succeeded"@.len() == 9 && "failed"@.len() == 6 && "unknown"@.len() == 7);
    assert("succeeded"@ != "failed"@);
    assert("succeeded"@ != "unknown"@);
    if op@ != "triggered"@ {
        assert(restart_status_spec(op@) != "succeeded"@);
    }
    match verdict {
        UnitHealthVerdict::Healthy => {},
        UnitHealthVerdict::Failed => {
            assert(after_health_spec(status@, Some(verdict)) != "succeeded"@);
        },
        _ => {
            assert(after_health_spec(status@, Some(verdict)) != "succeeded"@);
        },
    }
}

/// The message recorded for a deployed unit.
pub fn deploy_unit_message(status: &str) -> (r: &'static str)
    ensures
        r@ == (if status@ == "succeeded"@ {
            "deployed"@
        } else if status@ == "unknown"@ {
            "completed with warnings"@
        } else {
            "failed"@
        }),
{
    if str_eq(status, "succeeded") {
        "deployed"
    } else if str_eq(status, "unknown") {
        "completed with warnings"
    } else {
        "failed"
    }
}

/// The outcome of a manual deploy run.
pub struct DeploySummary {
    pub status: String,
    pub level: String,
    pub text: String,
}

/// `<succeeded>/<total> units deployed, <failed> failed, <skipped> skipped`,
/// with `, <unknown> unknown` when some are unknown.
pub open spec fn deploy_text(succeeded: nat, failed: nat, unknown: nat, total: nat, skipped: nat) -> Seq<char> {
    let base = nat_decimal(succeeded) + "/"@ + nat_decimal(total) + " units deployed, "@
        + nat_decimal(failed) + " failed, "@ + nat_decimal(skipped) + " skipped"@;
    if unknown > 0 {
        base + ", "@ + nat_decimal(unknown) + " unknown"@
    } else {
        base
    }
}

/// The status of a deploy: failed when any unit failed, else unknown when
/// any is unknown, else succeeded.
pub open spec fn deploy_status_spec(failed: nat, unknown: nat) -> Seq<char> {
    if failed > 0 {
        "failed"@
    } else if unknown > 0 {
        "unknown"@
    } else {
        "succeeded"@
    }
}

/// Decimal text of a `usize`.
fn usize_text(n: usize) -> (r: String)
    ensures
        r@ == nat_decimal(n as nat),
{
    u64_to_string(n as u64)
}

/// The summary of a manual deploy run over `deploying` units with `skipped`
/// ones left out.
pub fn deploy_summary(
    succeeded: usize,
    failed: usize,
    unknown: usize,
    deploying: usize,
    skipped: usize,
) -> (r: DeploySummary)
    requires
        deploying + skipped <= usize::MAX,
    ensures
        r.status@ == deploy_status_spec(failed as nat, unknown as nat),
        r.level@ == (if failed > 0 || unknown > 0 {
            "warning"@
        } else {
            "info"@
        }),
        r.text@ == deploy_text(
            succeeded as nat,
            failed as nat,
            unknown as nat,
            (deploying + skipped) as nat,
            skipped as nat,
        ),
{
    let total = deploying + skipped;
    let a = usize_text(succeeded);
    let b = concat(a.as_str(), "/");
    let c = usize_text(total);
    let d = concat(b.as_str(), c.as_str());
    let e = concat(d.as_str(), " units deployed, ");
    let f = usize_text(failed);
    let g = concat(e.as_str(), f.as_str());
    let h = concat(g.as_str(), " failed, ");
    let k = usize_text(skipped);
    let m = concat(h.as_str(), k.as_str());
    let mut text = concat(m.as_str(), " skipped");
    if unknown > 0 {
        let n = concat(text.as_str(), ", ");
        let u = usize_text(unknown);
        let o = concat(n.as_str(), u.as_str());
        text = concat(o.as_str(), " unknown");
    }
    let status = if failed > 0 {
        String::from_str("failed")
    } else if unknown > 0 {
        String::from_str("unknown")
    } else {
        String::from_str("succeeded")
    };
    let level = if failed > 0 || unknown > 0 {
        String::from_str("warning")
    } else {
        String::from_str("info")
    };
    DeploySummary { status, level, text }
}

/// A deploy with a failed unit is reported failed, whatever else happened.
pub proof fn lemma_failed_unit_fails_deploy(failed: nat, unknown: nat)
    requires
        failed > 0,
    ensures
        deploy_status_spec(failed, unknown) == "failed"@,
{
}

/// The `type` of a podman auto-update event (empty when missing).
pub open spec fn event_type(event: Json) -> Seq<char> {
    match member_str(event, "type"@) {
        Some(t) => t,
        None => Seq::<char>::empty(),
    }
}

/// A member's presence: absent, or present with its text when it is a
/// string.
pub open spec fn pick_str(event: Json, k: Seq<char>) -> Option<Option<Seq<char>>> {
    match event {
        Json::Object(m) => match obj_get(m@, k) {
            Some(Json::Str(s)) => Some(Some(s@)),
            Some(_) => Some(None),
            None => None,
        },
        _ => None,
    }
}

/// The text of the first present member among the keys, when it is a
/// string; empty otherwise.
pub open spec fn first_str3(event: Json, a: Seq<char>, b: Seq<char>, c: Seq<char>) -> Seq<char> {
    match pick_str(event, a) {
        Some(v) => match v {
            Some(x) => x,
            None => Seq::<char>::empty(),
        },
        None => first_str2(event, b, c),
    }
}

/// The text of the first present member among the keys, when it is a
/// string; empty otherwise.
pub open spec fn first_str2(event: Json, a: Seq<char>, b: Seq<char>) -> Seq<char> {
    match pick_str(event, a) {
        Some(v) => match v {
            Some(x) => x,
            None => Seq::<char>::empty(),
        },
        None => first_str1(event, b),
    }
}

/// The text of a member, when it is a string; empty otherwise.
pub open spec fn first_str1(event: Json, a: Seq<char>) -> Seq<char> {
    match pick_str(event, a) {
        Some(Some(x)) => x,
        _ => Seq::<char>::empty(),
    }
}

/// What an auto-update event is logged as: level, status and message.
pub open spec fn event_log_spec(event: Json, unit: Seq<char>) -> (Seq<char>, Seq<char>, Seq<char>) {
    let t = event_type(event);
    let level = if t == "auto-update-error"@ {
        "error"@
    } else if t == "dry-run-error"@ {
        "warning"@
    } else {
        "info"@
    };
    let status = if t == "summary"@ {
        "succeeded"@
    } else {
        "running"@
    };
    let message = if t == "dry-run-error"@ || t == "auto-update-error"@ {
        let container = first_str3(event, "container"@, "container_name"@, "container_id"@);
        let image = first_str2(event, "image"@, "image_name"@);
        let err = first_str1(event, "error"@);
        let subject = if image.len() > 0 {
            image
        } else if container.len() > 0 {
            container
        } else {
            unit
        };
        if err.len() == 0 {
            t + " reported by podman auto-update for "@ + subject
        } else {
            t + " from podman auto-update for "@ + subject + ": "@ + err
        }
    } else if t == "summary"@ {
        "Auto-update summary received from podman auto-update"@
    } else if t.len() == 0 {
        "Auto-update event from podman auto-update"@
    } else {
        "Auto-update event: "@ + t
    };
    (level, status, message)
}

/// Reads a member's presence.
fn pick(event: &Json, k: &str) -> (r: Option<Option<String>>)
    ensures
        match r {
            Some(Some(x)) => pick_str(*event, k@) == Some(Some(x@)),
            Some(None) => pick_str(*event, k@) == Some(None::<Seq<char>>),
            None => pick_str(*event, k@) is None,
        },
{
    match event {
        Json::Object(m) => match obj_lookup(m, k) {
            Some(Json::Str(s)) => Some(Some(owned(s.as_str()))),
            Some(_) => Some(None),
            None => None,
        },
        _ => None,
    }
}

/// `first_str1`.
fn str1(event: &Json, a: &str) -> (r: String)
    ensures
        r@ == first_str1(*event, a@),
{
    match pick(event, a) {
        Some(Some(x)) => x,
        _ => String::new(),
    }
}

/// `first_str2`.
fn str2(event: &Json, a: &str, b: &str) -> (r: String)
    ensures
        r@ == first_str2(*event, a@, b@),
{
    match pick(event, a) {
        Some(Some(x)) => x,
        Some(None) => String::new(),
        None => str1(event, b),
    }
}

/// `first_str3`.
fn str3(event: &Json, a: &str, b: &str, c: &str) -> (r: String)
    ensures
        r@ == first_str3(*event, a@, b@, c@),
{
    match pick(event, a) {
        Some(Some(x)) => x,
        Some(None) => String::new(),
        None => str2(event, b, c),
    }
}

/// How an auto-update event is logged.
pub fn event_log(event: &Json, unit: &str) -> (r: (&'static str, &'static str, String))
    ensures
        (r.0@, r.1@, r.2@) == event_log_spec(*event, unit@),
{
    let t = match get_member_str(event, "type") {
        Some(x) => owned(x),
        None => String::new(),
    };
    let ts = t.as_str();
    let level = if str_eq(ts, "auto-update-error") {
        "error"
    } else if str_eq(ts, "dry-run-error") {
        "warning"
    } else {
        "info"
    };
    let status = if str_eq(ts, "summary") {
        "succeeded"
    } else {
        "running"
    };
    let message = if str_eq(ts, "dry-run-error") || str_eq(ts, "auto-update-error") {
        let container = str3(event, "container", "container_name", "container_id");
        let image = str2(event, "image", "image_name");
        let err = str1(event, "error");
        let subject = if image.unicode_len() > 0 {
            image
        } else if container.unicode_len() > 0 {
            container
        } else {
            owned(unit)
        };
        if err.unicode_len() == 0 {
            let a = concat(ts, " reported by podman auto-update for ");
            concat(a.as_str(), subject.as_str())
        } else {
            let a = concat(ts, " from podman auto-update for ");
            let b = concat(a.as_str(), subject.as_str());
            let c = concat(b.as_str(), ": ");
            concat(c.as_str(), err.as_str())
        }
    } else if str_eq(ts, "summary") {
        String::from_str("Auto-update summary received from podman auto-update")
    } else if ts.unicode_len() == 0 {
        String::from_str("Auto-update event from podman auto-update")
    } else {
        concat("Auto-update event: ", ts)
    };
    (level, status, message)
}

/// `Value::as_u64` on a number's text: decimal digits within `u64`.
pub open spec fn number_u64(t: Seq<char>) -> Option<u64> {
    if t.len() > 0 && t[0] != '+' {
        crate::text::parse_u64(t)
    } else {
        None
    }
}

/// A count of the summary's `counts` object (zero when missing).
pub open spec fn summary_count(summary: Json, k: Seq<char>) -> u64 {
    match summary {
        Json::Object(m) => match obj_get(m@, "summary"@) {
            Some(Json::Object(s)) => match obj_get(s@, "counts"@) {
                Some(Json::Object(c)) => match obj_get(c@, k) {
                    Some(Json::Number(t)) => match number_u64(t@) {
                        Some(v) => v,
                        None => 0,
                    },
                    _ => 0,
                },
                _ => 0,
            },
            _ => 0,
        },
        _ => 0,
    }
}

/// Reads one count of an auto-update summary event.
fn count_of(summary: &Json, k: &str) -> (r: u64)
    ensures
        r == summary_count(*summary, k@),
{
    match summary {
        Json::Object(m) => match obj_lookup(m, "summary") {
            Some(Json::Object(s)) => match obj_lookup(s, "counts") {
                Some(Json::Object(c)) => match obj_lookup(c, k) {
                    Some(Json::Number(t)) => {
                        let ts = t.as_str();
                        if ts.unicode_len() > 0 && ts.get_char(0) != '+' {
                            match crate::text::parse_u64_str(ts) {
                                Some(v) => v,
                                None => 0,
                            }
                        } else {
                            0
                        }
                    },
                    _ => 0,
                },
                _ => 0,
            },
            _ => 0,
        },
        _ => 0,
    }
}

/// The outcome of an auto-update run with a summary event.
pub struct AutoUpdateOutcome {
    pub total: u64,
    pub succeeded: u64,
    pub failed: u64,
    pub unchanged: u64,
    pub task_status: String,
    pub level: String,
    pub text: String,
}

/// `a - b`, floored at zero.
pub open spec fn sat_sub(a: u64, b: u64) -> u64 {
    if b > a {
        0
    } else {
        (a - b) as u64
    }
}

/// `a + b`, capped at `u64::MAX`.
pub open spec fn sat_add(a: u64, b: u64) -> u64 {
    if a + b > u64::MAX {
        u64::MAX
    } else {
        (a + b) as u64
    }
}

/// The summary line of an auto-update run.
pub open spec fn auto_update_text(dry_run: bool, total: u64, succeeded: u64, failed: u64, unchanged: u64) -> Seq<char> {
    (if dry_run {
        "podman auto-update dry-run completed: total="@
    } else {
        "podman auto-update completed: total="@
    }) + nat_decimal(total as nat) + ", updated="@ + nat_decimal(succeeded as nat) + ", failed="@
        + nat_decimal(failed as nat) + ", unchanged="@ + nat_decimal(unchanged as nat)
}

/// The outcome of an auto-update run from its summary event: the counts,
/// failed when any update failed.
pub fn auto_update_outcome(summary: &Json, dry_run: bool) -> (r: AutoUpdateOutcome)
    ensures
        r.total == summary_count(*summary, "total"@),
        r.succeeded == summary_count(*summary, "succeeded"@),
        r.failed == summary_count(*summary, "failed"@),
        r.unchanged == sat_sub(r.total, sat_add(r.succeeded, r.failed)),
        r.task_status@ == (if r.failed > 0 {
            "failed"@
        } else {
            "succeeded"@
        }),
        r.level@ == (if r.failed > 0 {
            "error"@
        } else {
            "info"@
        }),
        r.text@ == auto_update_text(dry_run, r.total, r.succeeded, r.failed, r.unchanged),
{
    let total = count_of(summary, "total");
    let succeeded = count_of(summary, "succeeded");
    let failed = count_of(summary, "failed");
    let done = succeeded.saturating_add(failed);
    let unchanged = total.saturating_sub(done);
    let head = if dry_run {
        "podman auto-update dry-run completed: total="
    } else {
        "podman auto-update completed: total="
    };
    let t0 = u64_to_string(total);
    let a = concat(head, t0.as_str());
    let b = concat(a.as_str(), ", updated=");
    let t1 = u64_to_string(succeeded);
    let c = concat(b.as_str(), t1.as_str());
    let d = concat(c.as_str(), ", failed=");
    let t2 = u64_to_string(failed);
    let e = concat(d.as_str(), t2.as_str());
    let f = concat(e.as_str(), ", unchanged=");
    let t3 = u64_to_string(unchanged);
    let text = concat(f.as_str(), t3.as_str());
    AutoUpdateOutcome {
        total,
        succeeded,
        failed,
        unchanged,
        task_status: if failed > 0 {
            String::from_str("failed")
        } else {
            String::from_str("succeeded")
        },
        level: if failed > 0 {
            String::from_str("error")
        } else {
            String::from_str("info")
        },
        text,
    }
}

/// The outcome of an auto-update run that produced no summary event: a
/// timeout fails it, otherwise it is unknown. Returns task status, unit
/// status, level, text and the reason recorded with the run (`timeout` or
/// `no-summary`).
pub fn no_summary_outcome(timed_out: bool, dry_run: bool, max_secs: u64) -> (r: (&'static str, &'static str, &'static str, String, &'static str))
    ensures
        r.4@ == (if timed_out {
            "timeout"@
        } else {
            "no-summary"@
        }),
        timed_out ==> r.0@ == "failed"@ && r.1@ == "failed"@ && r.2@ == "error"@ && r.3@ == (
        if dry_run {
            "podman auto-update dry-run timed out after "@
        } else {
            "podman auto-update run timed out after "@
        }) + nat_decimal(max_secs as nat) + " seconds; check podman auto-update logs"@,
        !timed_out ==> r.0@ == "unknown"@ && r.1@ == "unknown"@ && r.2@ == "warning"@ && r.3@ == (
        if dry_run {
            "podman auto-update dry-run completed (no JSONL summary found; check podman auto-update JSONL logs or podman logs on the host)"@
        } else {
            "podman auto-update run completed (no JSONL summary found; check podman auto-update JSONL logs or podman logs on the host)"@
        }),
{
    if timed_out {
        let head = if dry_run {
            "podman auto-update dry-run timed out after "
        } else {
            "podman auto-update run timed out after "
        };
        let n = u64_to_string(max_secs);
        let a = concat(head, n.as_str());
        ("failed", "failed", "error", concat(a.as_str(), " seconds; check podman auto-update logs"), "timeout")
    } else {
        let text = if dry_run {
            String::from_str(
                "podman auto-update dry-run completed (no JSONL summary found; check podman auto-update JSONL logs or podman logs on the host)",
            )
        } else {
            String::from_str(
                "podman auto-update run completed (no JSONL summary found; check podman auto-update JSONL logs or podman logs on the host)",
            )
        };
        ("unknown", "unknown", "warning", text, "no-summary")
    }
}

/// A log directory entry: its name, whether it is a file, and when it was
/// last modified (if known).
pub struct LogEntry {
    pub name: String,
    pub is_file: bool,
    pub modified: Option<u64>,
}

/// The entry is a usable JSONL log: a `.jsonl` file with a known time, not
/// listed in `skip`, and not older than `threshold`.
pub open spec fn usable_log(e: LogEntry, skip: Seq<Seq<char>>, threshold: u64) -> bool {
    &&& extension_spec(e.name@) == Some("jsonl"@)
    &&& !skip.contains(e.name@)
    &&& e.is_file
    &&& e.modified is Some
    &&& e.modified->0 >= threshold
}

/// The index of the newest usable log among the first `n` entries; among
/// equally new ones the first wins.
pub open spec fn newest_log(entries: Seq<LogEntry>, skip: Seq<Seq<char>>, threshold: u64, n: int) -> Option<int>
    decreases n,
{
    if n <= 0 {
        None
    } else {
        let prev = newest_log(entries, skip, threshold, n - 1);
        let e = entries[n - 1];
        if usable_log(e, skip, threshold) {
            match prev {
                Some(p) => if e.modified->0 > entries[p].modified->0 {
                    Some(n - 1)
                } else {
                    Some(p)
                },
                None => Some(n - 1),
            }
        } else {
            prev
        }
    }
}

/// The newest usable log index lies among the entries and is usable.
pub proof fn lemma_newest_log_usable(entries: Seq<LogEntry>, skip: Seq<Seq<char>>, threshold: u64, n: int)
    requires
        0 <= n <= entries.len(),
    ensures
        newest_log(entries, skip, threshold, n) matches Some(i) ==> 0 <= i < n && usable_log(
            entries[i],
            skip,
            threshold,
        ),
        forall|k: int|
            0 <= k < n && usable_log(entries[k], skip, threshold) ==> (newest_log(
                entries,
                skip,
                threshold,
                n,
            ) matches Some(i) && entries[k].modified->0 <= entries[i].modified->0),
    decreases n,
{
    if n > 0 {
        lemma_newest_log_usable(entries, skip, threshold, n - 1);
    }
}

/// The file name ends with `.jsonl`, as `Path::extension` reads it.
fn is_jsonl(name: &str) -> (r: bool)
    ensures
        r == (extension_spec(name@) == Some("jsonl"@)),
{
    match crate::quadlet::split_at_last_dot(name) {
        Some((_, ext)) => str_eq(ext.as_str(), "jsonl"),
        None => false,
    }
}

/// Picks the newest usable JSONL log from a directory listing (the file a
/// run or an ingest reads).
pub fn pick_latest_log(entries: &[LogEntry], skip: &[String], threshold: u64) -> (r: Option<usize>)
    ensures
        r matches Some(i) ==> newest_log(entries@, crate::text::views(skip@), threshold, entries@.len() as int) == Some(i as int),
        r is None ==> newest_log(entries@, crate::text::views(skip@), threshold, entries@.len() as int) is None,
{
    let ghost sv = crate::text::views(skip@);
    let mut best: Option<usize> = None;
    let mut i: usize = 0;
    while i < entries.len()
        invariant
            i <= entries@.len(),
            sv == crate::text::views(skip@),
            best matches Some(b) ==> b < i,
            best matches Some(b) ==> newest_log(entries@, sv, threshold, i as int) == Some(b as int),
            best is None ==> newest_log(entries@, sv, threshold, i as int) is None,
        decreases entries@.len() - i,
    {
        let e = &entries[i];
        let usable = is_jsonl(e.name.as_str()) && !crate::units::contains_string_slice(skip, e.name.as_str())
            && e.is_file && match e.modified {
            Some(m) => m >= threshold,
            None => false,
        };
        proof {
            assert(usable == usable_log(entries@[i as int], sv, threshold));
        }
        if usable {
            let m = match e.modified {
                Some(m) => m,
                None => 0,
            };
            match best {
                Some(b) => {
                    let bm = match entries[b].modified {
                        Some(x) => x,
                        None => 0,
                    };
                    proof {
                        lemma_newest_log_usable(entries@, sv, threshold, i as int);
                    }
                    if m > bm {
                        best = Some(i);
                    }
                },
                None => {
                    best = Some(i);
                },
            }
        }
        i = i + 1;
    }
    best
}

/// The non-blank lines of a JSONL log, trimmed.
pub open spec fn jsonl_lines(contents: Seq<char>) -> Seq<Seq<char>> {
    nonempty(lines(contents).map_values(|l: Seq<char>| trim(l)))
}

/// The trimmed, non-blank lines of a JSONL log, in order (each is parsed as
/// one event).
pub fn jsonl_lines_of(contents: &str) -> (r: Vec<String>)
    ensures
        views(r@) == jsonl_lines(contents@),
{
    let ls = lines_of(contents);
    let mut trimmed: Vec<String> = Vec::new();
    let mut i: usize = 0;
    while i < ls.len()
        invariant
            i <= ls@.len(),
            views(ls@) == lines(contents@),
            views(trimmed@) == lines(contents@).take(i as int).map_values(|l: Seq<char>| trim(l)),
        decreases ls@.len() - i,
    {
        let ghost prev = trimmed@;
        trimmed.push(owned(trim_str(ls[i].as_str())));
        proof {
            assert(views(ls@)[i as int] == ls@[i as int]@);
            assert(views(trimmed@) =~= views(prev).push(trim(ls@[i as int]@)));
            assert(lines(contents@).take(i + 1).map_values(|l: Seq<char>| trim(l)) =~= lines(
                contents@,
            ).take(i as int).map_values(|l: Seq<char>| trim(l)).push(trim(lines(contents@)[i as int])));
        }
        i = i + 1;
    }
    proof {
        assert(lines(contents@).take(ls@.len() as int) =~= lines(contents@));
    }
    crate::text::drop_empty(&trimmed)
}

/// An event podman auto-update reports as a problem: `dry-run-error` or
/// `auto-update-error`.
pub open spec fn is_warning(event: Json) -> bool {
    event_type(event) == "dry-run-error"@ || event_type(event) == "auto-update-error"@
}

/// Whether the event is a warning.
pub fn is_warning_event(event: &Json) -> (r: bool)
    ensures
        r == is_warning(*event),
{
    let t = match get_member_str(event, "type") {
        Some(x) => owned(x),
        None => String::new(),
    };
    proof {
        assert(t@ == event_type(*event));
    }
    str_eq(t.as_str(), "dry-run-error") || str_eq(t.as_str(), "auto-update-error")
}

/// The indices of the warnings among the first `n` events, in order.
pub open spec fn warning_indices(events: Seq<Json>, n: int) -> Seq<int>
    decreases n,
{
    if n <= 0 {
        Seq::<int>::empty()
    } else if is_warning(events[n - 1]) {
        warning_indices(events, n - 1).push(n - 1)
    } else {
        warning_indices(events, n - 1)
    }
}

/// The indices of the warnings among the events, in order.
pub fn warnings_of(events: &[Json]) -> (r: Vec<usize>)
    ensures
        r@.map_values(|k: usize| k as int) == warning_indices(events@, events@.len() as int),
{
    let mut out: Vec<usize> = Vec::new();
    let mut i: usize = 0;
    while i < events.len()
        invariant
            i <= events@.len(),
            out@.map_values(|k: usize| k as int) == warning_indices(events@, i as int),
        decreases events@.len() - i,
    {
        let ghost prev = out@;
        if is_warning_event(&events[i]) {
            out.push(i);
            proof {
                assert(out@.map_values(|k: usize| k as int) =~= prev.map_values(|k: usize| k as int).push(i as int));
            }
        }
        i = i + 1;
    }
    out
}

/// The summary logged when a run produced warnings.
pub fn warnings_summary(count: usize) -> (r: String)
    ensures
        r@ == "Auto-update succeeded with "@ + nat_decimal(count as nat) + " warning(s) from podman auto-update"@,
{
    let n = u64_to_string(count as u64);
    let a = concat("Auto-update succeeded with ", n.as_str());
    concat(a.as_str(), " warning(s) from podman auto-update")
}

/// The error text of a warning, trimmed.
pub open spec fn warning_error(event: Json) -> Seq<char> {
    trim(first_str1(event, "error"@))
}

/// The first `n` bytes of `s` as text (`String::truncate`): all of `s`
/// when it is no longer.
pub open spec fn byte_prefix(s: Seq<char>, n: usize) -> Seq<char> {
    if utf8_len(s) <= n {
        s
    } else {
        decode_utf8(encode_utf8(s).take(n as int))
    }
}

/// The first `n` bytes of `s` (`String::truncate`, which panics unless
/// byte `n` starts a character).
pub fn truncate_bytes(s: &str, n: usize) -> (r: String)
    requires
        utf8_len(s@) <= n || is_char_boundary(encode_utf8(s@), n as int),
    ensures
        r@ == byte_prefix(s@, n),
{
    if s.len() <= n {
        owned(s)
    } else {
        let (a, _) = s.split_at(n);
        proof {
            vstd::utf8::encode_utf8_decode_utf8(a@);
            assert(encode_utf8(a@) =~= encode_utf8(s@).take(n as int));
        }
        owned(a)
    }
}

/// How one warning is logged.
pub struct WarningEntry {
    pub level: String,
    pub summary: String,
    pub at: String,
    pub container: Option<String>,
    pub image: Option<String>,
}

/// A text, or nothing when it is empty.
pub open spec fn nonblank(s: Seq<char>) -> Option<Seq<char>> {
    if s.len() > 0 {
        Some(s)
    } else {
        None
    }
}

/// The logged form of a warning: an error for `auto-update-error`, else a
/// warning; the summary names the image, else the container, else the
/// unit, and quotes at most 200 bytes of the trimmed error.
pub open spec fn warning_entry_spec(event: Json, unit: Seq<char>) -> (Seq<char>, Seq<char>, Seq<char>, Option<Seq<char>>, Option<Seq<char>>) {
    let t = event_type(event);
    let container = first_str3(event, "container"@, "container_name"@, "container_id"@);
    let image = first_str2(event, "image"@, "image_name"@);
    let snippet = byte_prefix(warning_error(event), 200);
    let desc = if image.len() > 0 {
        image
    } else if container.len() > 0 {
        container
    } else {
        unit
    };
    let summary = if snippet.len() > 0 {
        "["@ + t + "] auto-update warning for "@ + desc + ": "@ + snippet
    } else {
        "["@ + t + "] auto-update warning for "@ + desc + " (see meta.error)"@
    };
    let level = if t == "auto-update-error"@ {
        "error"@
    } else {
        "warning"@
    };
    (level, summary, first_str1(event, "at"@), nonblank(container), nonblank(image))
}

/// How a warning is logged for `unit`.
pub fn warning_entry(event: &Json, unit: &str) -> (r: WarningEntry)
    requires
        utf8_len(warning_error(*event)) <= 200 || is_char_boundary(encode_utf8(warning_error(*event)), 200),
    ensures
        (r.level@, r.summary@, r.at@, opt_view(r.container), opt_view(r.image)) == warning_entry_spec(*event, unit@),
{
    let t = match get_member_str(event, "type") {
        Some(x) => owned(x),
        None => String::new(),
    };
    let container = str3(event, "container", "container_name", "container_id");
    let image = str2(event, "image", "image_name");
    let err = str1(event, "error");
    let snippet = truncate_bytes(trim_str(err.as_str()), 200);
    let desc = if image.unicode_len() > 0 {
        owned(image.as_str())
    } else if container.unicode_len() > 0 {
        owned(container.as_str())
    } else {
        owned(unit)
    };
    let a = concat("[", t.as_str());
    let b = concat(a.as_str(), "] auto-update warning for ");
    let c = concat(b.as_str(), desc.as_str());
    let summary = if snippet.unicode_len() > 0 {
        let d = concat(c.as_str(), ": ");
        concat(d.as_str(), snippet.as_str())
    } else {
        concat(c.as_str(), " (see meta.error)")
    };
    let level = if str_eq(t.as_str(), "auto-update-error") {
        String::from_str("error")
    } else {
        String::from_str("warning")
    };
    let at = str1(event, "at");
    WarningEntry {
        level,
        summary,
        at,
        container: if container.unicode_len() > 0 {
            Some(container)
        } else {
            None
        },
        image: if image.unicode_len() > 0 {
            Some(image)
        } else {
            None
        },
    }
}

/// The number of results among the first `n` with the given status.
pub open spec fn count_status(statuses: Seq<Seq<char>>, st: Seq<char>, n: int) -> nat
    decreases n,
{
    if n <= 0 {
        0
    } else {
        count_status(statuses, st, n - 1) + if statuses[n - 1] == st {
            1nat
        } else {
            0nat
        }
    }
}

/// The number of failed results among the first `n`: any that is neither
/// `triggered` nor `dry-run`.
pub open spec fn count_failed(statuses: Seq<Seq<char>>, n: int) -> nat
    decreases n,
{
    if n <= 0 {
        0
    } else {
        count_failed(statuses, n - 1) + if statuses[n - 1] != "triggered"@ && statuses[n - 1]
            != "dry-run"@ {
            1nat
        } else {
            0nat
        }
    }
}

/// Neither count exceeds the number of results read.
proof fn lemma_counts_bounded(statuses: Seq<Seq<char>>, n: int)
    requires
        0 <= n,
    ensures
        count_status(statuses, "triggered"@, n) <= n,
        count_failed(statuses, n) <= n,
    decreases n,
{
    if n > 0 {
        lemma_counts_bounded(statuses, n - 1);
    }
}

/// The outcome of a manual trigger run: failed when any unit failed; the
/// summary counts the triggered units (and the failed ones, if any).
pub open spec fn trigger_run_spec(statuses: Seq<Seq<char>>) -> (Seq<char>, Seq<char>) {
    let n = statuses.len() as int;
    let ok = count_status(statuses, "triggered"@, n);
    let failed = count_failed(statuses, n);
    if failed > 0 {
        ("failed"@, nat_decimal(ok) + "/"@ + nat_decimal(n as nat) + " units triggered, "@ + nat_decimal(failed)
            + " failed"@)
    } else {
        ("succeeded"@, nat_decimal(ok) + "/"@ + nat_decimal(n as nat) + " units triggered"@)
    }
}

/// The status and summary of a manual trigger run from its units' results.
pub fn trigger_run_outcome(statuses: &[String]) -> (r: (&'static str, String))
    ensures
        (r.0@, r.1@) == trigger_run_spec(views(statuses@)),
{
    let ghost sv = views(statuses@);
    let mut ok: usize = 0;
    let mut failed: usize = 0;
    let mut i: usize = 0;
    while i < statuses.len()
        invariant
            i <= statuses@.len(),
            sv == views(statuses@),
            ok == count_status(sv, "triggered"@, i as int),
            failed == count_failed(sv, i as int),
        decreases statuses@.len() - i,
    {
        proof {
            lemma_counts_bounded(sv, i as int);
            assert(sv[i as int] == statuses@[i as int]@);
        }
        let st = statuses[i].as_str();
        if str_eq(st, "triggered") {
            ok = ok + 1;
        } else if !str_eq(st, "dry-run") {
            failed = failed + 1;
        }
        i = i + 1;
    }
    let n = statuses.len();
    let a = u64_to_string(ok as u64);
    let b = concat(a.as_str(), "/");
    let c = u64_to_string(n as u64);
    let d = concat(b.as_str(), c.as_str());
    if failed > 0 {
        let e = concat(d.as_str(), " units triggered, ");
        let f = u64_to_string(failed as u64);
        let g = concat(e.as_str(), f.as_str());
        ("failed", concat(g.as_str(), " failed"))
    } else {
        ("succeeded", concat(d.as_str(), " units triggered"))
    }
}

/// How a unit's trigger result is recorded: `triggered` succeeded, a dry
/// run was skipped, `failed` and `error` failed; anything else as it is.
pub open spec fn unit_run_status(status: Seq<char>) -> Seq<char> {
    if status == "triggered"@ {
        "succeeded"@
    } else if status == "dry-run"@ {
        "skipped"@
    } else if status == "failed"@ || status == "error"@ {
        "failed"@
    } else {
        status
    }
}

/// What is recorded for one unit of a manual trigger run: its status, the
/// message and error of a failure, and the log entry's level and summary.
pub open spec fn trigger_unit_record_spec(status: Seq<char>, verb: Seq<char>, error: Option<Seq<char>>) -> (Seq<char>, Option<Seq<char>>, Option<Seq<char>>, Seq<char>, Seq<char>) {
    let st = unit_run_status(status);
    if st == "failed"@ {
        (st, Some(verb + " failed"@), error, "error"@, "Manual trigger unit "@ + verb + " failed"@)
    } else {
        (st, None, None, "info"@, "Manual trigger unit "@ + verb + " succeeded"@)
    }
}

/// The record of one unit of a manual trigger run.
pub struct UnitRunRecord {
    pub status: String,
    pub message: Option<String>,
    pub error: Option<String>,
    pub level: &'static str,
    pub summary: String,
}

/// `trigger_unit_record_spec` for a unit operated with `purpose`.
pub fn trigger_unit_record(status: &str, purpose: crate::units::UnitOperationPurpose, error: Option<String>) -> (r: UnitRunRecord)
    ensures
        (r.status@, opt_view(r.message), opt_view(r.error), r.level@, r.summary@) == trigger_unit_record_spec(
            status@,
            crate::units::purpose_verb(purpose),
            opt_view(error),
        ),
{
    let verb = purpose.as_str();
    let st = if str_eq(status, "triggered") {
        String::from_str("succeeded")
    } else if str_eq(status, "dry-run") {
        String::from_str("skipped")
    } else if str_eq(status, "failed") || str_eq(status, "error") {
        String::from_str("failed")
    } else {
        owned(status)
    };
    if str_eq(st.as_str(), "failed") {
        let a = concat("Manual trigger unit ", verb);
        UnitRunRecord {
            status: st,
            message: Some(concat(verb, " failed")),
            error,
            level: "error",
            summary: concat(a.as_str(), " failed"),
        }
    } else {
        let a = concat("Manual trigger unit ", verb);
        UnitRunRecord {
            status: st,
            message: None,
            error: None,
            level: "info",
            summary: concat(a.as_str(), " succeeded"),
        }
    }
}

/// Diagnostics are captured for a failed or erroring unit when enabled.
pub fn needs_diagnostics(enabled: bool, status: &str) -> (r: bool)
    ensures
        r == (enabled && (status@ == "failed"@ || status@ == "error"@)),
{
    enabled && (str_eq(status, "failed") || str_eq(status, "error"))
}

/// How long an auto-update run waits for its summary, in seconds.
pub const AUTO_UPDATE_RUN_MAX_SECS: u64 = 1800;

/// Where the poll of an auto-update run stands: the log file it follows
/// (once one appeared) and how many of its lines were already handled.
pub struct RunPoll {
    pub file: Option<String>,
    pub processed: usize,
}

/// What the poll of an auto-update run learns.
pub enum RunPollEvent {
    /// An iteration starts, `elapsed_secs` after the run started.
    Tick(u64),
    /// The listing of the log directory, or the error reading it.
    Listed(Result<Vec<LogEntry>, String>),
    /// The contents of the followed file, or the error reading it.
    Read(Result<String, String>),
}

/// What the poll does next.
pub enum RunPollAction {
    /// List the log directory.
    ListDir,
    /// Read the followed file.
    ReadFile(String),
    /// Handle these new lines (trimmed, non-blank) in order, stopping at a
    /// summary event; without one, wait `sleep_ms` and start the next
    /// iteration.
    Handle { lines: Vec<String>, sleep_ms: u64 },
    /// No file yet: wait `sleep_ms` and start the next iteration.
    Sleep(u64),
    /// Stop polling without a summary.
    GiveUp,
}

/// The plain shape of an action.
pub enum RunPollActionView {
    ListDir,
    ReadFile(Seq<char>),
    Handle(Seq<Seq<char>>, u64),
    Sleep(u64),
    GiveUp,
}

/// The view of an action.
pub open spec fn poll_action_view(a: RunPollAction) -> RunPollActionView {
    match a {
        RunPollAction::ListDir => RunPollActionView::ListDir,
        RunPollAction::ReadFile(p) => RunPollActionView::ReadFile(p@),
        RunPollAction::Handle { lines, sleep_ms } => RunPollActionView::Handle(views(lines@), sleep_ms),
        RunPollAction::Sleep(ms) => RunPollActionView::Sleep(ms),
        RunPollAction::GiveUp => RunPollActionView::GiveUp,
    }
}

/// The lines of `contents` after the first `processed`, trimmed and
/// non-blank.
pub open spec fn new_lines(contents: Seq<char>, processed: nat) -> Seq<Seq<char>> {
    if processed >= lines(contents).len() {
        Seq::<Seq<char>>::empty()
    } else {
        nonempty(lines(contents).skip(processed as int).map_values(|l: Seq<char>| trim(l)))
    }
}

/// One step of the poll of an auto-update run, on the log
/// directory `dir`, the JSONL files present before the run (`baseline`)
/// and the time limit `max_secs`: past the limit it gives up; without a
/// file it lists the directory and follows the newest new `.jsonl` file
/// (from its first line), waiting a second when there is none; with a file
/// it reads it and hands on the lines after those already handled. A
/// listing or read error ends the poll.
pub open spec fn poll_step_spec(
    dir: Seq<char>,
    baseline: Seq<Seq<char>>,
    max_secs: u64,
    file: Option<Seq<char>>,
    processed: nat,
    e: RunPollEvent,
) -> (Option<Seq<char>>, nat, RunPollActionView) {
    match e {
        RunPollEvent::Tick(el) => if el >= max_secs {
            (file, processed, RunPollActionView::GiveUp)
        } else {
            match file {
                None => (file, processed, RunPollActionView::ListDir),
                Some(p) => (file, processed, RunPollActionView::ReadFile(p)),
            }
        },
        RunPollEvent::Listed(Err(_)) => (file, processed, RunPollActionView::GiveUp),
        RunPollEvent::Listed(Ok(entries)) => match newest_log(entries@, baseline, 0, entries@.len() as int) {
            Some(i) => {
                let p = crate::frontend::join_path_spec(dir, entries@[i].name@);
                (Some(p), 0, RunPollActionView::ReadFile(p))
            },
            None => (file, processed, RunPollActionView::Sleep(1000)),
        },
        RunPollEvent::Read(Err(_)) => (file, processed, RunPollActionView::GiveUp),
        RunPollEvent::Read(Ok(c)) => (
            file,
            if lines(c@).len() > processed {
                lines(c@).len()
            } else {
                processed
            },
            RunPollActionView::Handle(new_lines(c@, processed), 1000),
        ),
    }
}

/// The poll step: the new state and the action.
pub fn poll_step(dir: &str, baseline: &[String], max_secs: u64, state: RunPoll, e: &RunPollEvent) -> (r: (
    RunPoll,
    RunPollAction,
))
    ensures
        ({
            let (f, n, a) = poll_step_spec(dir@, views(baseline@), max_secs, opt_view(state.file), state.processed as nat, *e);
            opt_view(r.0.file) == f && r.0.processed == n && poll_action_view(r.1) == a
        }),
{
    match e {
        RunPollEvent::Tick(el) => {
            if *el >= max_secs {
                (state, RunPollAction::GiveUp)
            } else {
                match &state.file {
                    None => (state, RunPollAction::ListDir),
                    Some(p) => {
                        let path = owned(p.as_str());
                        (state, RunPollAction::ReadFile(path))
                    },
                }
            }
        },
        RunPollEvent::Listed(Err(_)) => (state, RunPollAction::GiveUp),
        RunPollEvent::Listed(Ok(entries)) => {
            match pick_latest_log(entries.as_slice(), baseline, 0) {
                Some(i) => {
                    proof {
                        lemma_newest_log_usable(entries@, views(baseline@), 0, entries@.len() as int);
                    }
                    let p = crate::frontend::join_path(dir, entries[i].name.as_str());
                    let q = owned(p.as_str());
                    (RunPoll { file: Some(p), processed: 0 }, RunPollAction::ReadFile(q))
                },
                None => (state, RunPollAction::Sleep(1000)),
            }
        },
        RunPollEvent::Read(Err(_)) => (state, RunPollAction::GiveUp),
        RunPollEvent::Read(Ok(c)) => {
            let ls = lines_of(c.as_str());
            let processed = state.processed;
            let mut out: Vec<String> = Vec::new();
            let mut i: usize = processed;
            let ghost tail = if processed as nat >= lines(c@).len() {
                Seq::<Seq<char>>::empty()
            } else {
                lines(c@).skip(processed as int).map_values(|l: Seq<char>| trim(l))
            };
            proof {
                assert(views(out@) =~= Seq::<Seq<char>>::empty());
            }
            while i < ls.len()
                invariant
                    views(ls@) == lines(c@),
                    processed <= i,
                    processed < ls@.len() ==> i <= ls@.len(),
                    processed < ls@.len() ==> views(out@) == lines(c@).skip(processed as int).take(
                        i - processed,
                    ).map_values(|l: Seq<char>| trim(l)),
                    processed >= ls@.len() ==> out@.len() == 0,
                decreases ls@.len() - i,
            {
                let ghost prev = views(out@);
                out.push(owned(trim_str(ls[i].as_str())));
                proof {
                    assert(views(ls@)[i as int] == ls@[i as int]@);
                    assert(views(out@) =~= prev.push(trim(ls@[i as int]@)));
                    assert(lines(c@).skip(processed as int)[i - processed] == lines(c@)[i as int]);
                    assert(lines(c@).skip(processed as int).take(i + 1 - processed).map_values(
                        |l: Seq<char>| trim(l),
                    ) =~= lines(c@).skip(processed as int).take(i - processed).map_values(
                        |l: Seq<char>| trim(l),
                    ).push(trim(lines(c@)[i as int])));
                }
                i = i + 1;
            }
            proof {
                if processed < ls@.len() {
                    assert(lines(c@).skip(processed as int).take(ls@.len() - processed) =~= lines(c@).skip(
                        processed as int,
                    ));
                    assert(views(out@) == tail);
                } else {
                    assert(views(out@) =~= tail);
                }
            }
            let kept = crate::text::drop_empty(&out);
            proof {
                if processed >= ls@.len() {
                    assert(nonempty(Seq::<Seq<char>>::empty()) =~= Seq::<Seq<char>>::empty());
                }
            }
            let n = if ls.len() > processed {
                ls.len()
            } else {
                processed
            };
            (RunPoll { file: state.file, processed: n }, RunPollAction::Handle { lines: kept, sleep_ms: 1000 })
        },
    }
}

/// The oldest modification time a log may have to be read for warnings:
/// `now` less the maximum age setting (600 seconds when unset or invalid),
/// or the epoch.
pub open spec fn log_threshold_spec(now: u64, max_age_raw: Option<Seq<char>>) -> u64 {
    let age = match crate::config::parsed_setting(max_age_raw) {
        Some(a) => a,
        None => 600,
    };
    if now >= age {
        (now - age) as u64
    } else {
        0
    }
}

/// The age threshold of the warnings ingest.
pub fn log_threshold(now: u64, max_age_raw: Option<&str>) -> (r: u64)
    ensures
        r == log_threshold_spec(now, crate::config::opt_str(max_age_raw)),
{
    let age = match crate::config::parse_setting(max_age_raw) {
        Some(a) => a,
        None => 600,
    };
    now.saturating_sub(age)
}

/// What an ingest of auto-update warnings records: one summary log
/// (`info`, action `auto-update-warnings`, status `succeeded`), one log per
/// warning (action `auto-update-warning`, status `succeeded`, logged as
/// `warning_entry` gives it), and one `auto-update-warning` event (status
/// 200) carrying the warning count.
pub struct WarningsIngest {
    pub warnings: Vec<usize>,
    pub warning_count: usize,
    pub summary_level: &'static str,
    pub summary_action: &'static str,
    pub summary_status: &'static str,
    pub summary: String,
    pub warning_action: &'static str,
    pub warning_status: &'static str,
    pub event_kind: &'static str,
    pub event_status: u16,
}

/// The records of an ingest over the events of the newest recent log:
/// nothing when none is a warning.
pub fn warnings_ingest(events: &[Json]) -> (r: Option<WarningsIngest>)
    ensures
        r is None <==> warning_indices(events@, events@.len() as int).len() == 0,
        r matches Some(w) ==> {
            &&& w.warnings@.map_values(|k: usize| k as int) == warning_indices(events@, events@.len() as int)
            &&& w.warning_count == w.warnings@.len()
            &&& w.summary_level@ == "info"@
            &&& w.summary_action@ == "auto-update-warnings"@
            &&& w.summary_status@ == "succeeded"@
            &&& w.summary@ == "Auto-update succeeded with "@ + nat_decimal(w.warning_count as nat)
                + " warning(s) from podman auto-update"@
            &&& w.warning_action@ == "auto-update-warning"@
            &&& w.warning_status@ == "succeeded"@
            &&& w.event_kind@ == "auto-update-warning"@
            &&& w.event_status == 200
        },
{
    let warnings = warnings_of(events);
    if warnings.len() == 0 {
        return None;
    }
    let n = warnings.len();
    let summary = warnings_summary(n);
    Some(
        WarningsIngest {
            warnings,
            warning_count: n,
            summary_level: "info",
            summary_action: "auto-update-warnings",
            summary_status: "succeeded",
            summary,
            warning_action: "auto-update-warning",
            warning_status: "succeeded",
            event_kind: "auto-update-warning",
            event_status: 200,
        },
    )
}

} // verus!
