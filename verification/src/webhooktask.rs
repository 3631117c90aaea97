//! The background task a package webhook starts: take the image's rate
//! limit, pull the image, restart the unit, check its health. Each step's
//! result decides the next step or how the task ends.

use vstd::prelude::*;
use crate::text::{concat, owned, opt_view};
use crate::host::CommandExecResult;
use crate::ratelimit::RateLimitError;
use crate::systemd::UnitHealthVerdict;
use crate::units::{exit_code_text, exit_code_string};

verus! {

/// How a task ends: the task's and the unit's status, the summary and the
/// action of the log entry, its level, and the error kept on the unit.
pub struct TaskOutcome {
    pub task_status: &'static str,
    pub unit_status: &'static str,
    pub summary: &'static str,
    pub action: &'static str,
    pub level: &'static str,
    pub error: Option<String>,
}

/// The view of an outcome.
pub struct TaskOutcomeView {
    pub task_status: Seq<char>,
    pub unit_status: Seq<char>,
    pub summary: Seq<char>,
    pub action: Seq<char>,
    pub level: Seq<char>,
    pub error: Option<Seq<char>>,
}

/// `TaskOutcome` with texts as character sequences.
pub open spec fn outcome_view(o: TaskOutcome) -> TaskOutcomeView {
    TaskOutcomeView {
        task_status: o.task_status@,
        unit_status: o.unit_status@,
        summary: o.summary@,
        action: o.action@,
        level: o.level@,
        error: opt_view(o.error),
    }
}

/// What a step of the task returned.
pub enum WebhookTaskEvent {
    /// The image's rate limit was taken, or why not.
    Limited(Result<(), RateLimitError>),
    /// `podman pull` ran, or could not run.
    Pulled(Result<CommandExecResult, String>),
    /// `systemctl --user restart` ran, or could not run.
    Restarted(Result<CommandExecResult, String>),
    /// The unit's health after the restart, with the check's summary.
    Checked(UnitHealthVerdict, String),
}

/// What the task does next.
pub enum WebhookTaskStep {
    Pull,
    Restart,
    CheckHealth,
    Finish(TaskOutcome),
    /// The rate limit could not be read or stored: the task fails with this
    /// error.
    Abort(String),
}

/// The plain shape of a step.
pub enum StepView {
    Pull,
    Restart,
    CheckHealth,
    Finish(TaskOutcomeView),
    Abort(Seq<char>),
}

/// The view of a step.
pub open spec fn step_view(s: WebhookTaskStep) -> StepView {
    match s {
        WebhookTaskStep::Pull => StepView::Pull,
        WebhookTaskStep::Restart => StepView::Restart,
        WebhookTaskStep::CheckHealth => StepView::CheckHealth,
        WebhookTaskStep::Finish(o) => StepView::Finish(outcome_view(o)),
        WebhookTaskStep::Abort(e) => StepView::Abort(e@),
    }
}

/// An outcome without an error.
pub open spec fn plain(task: Seq<char>, unit: Seq<char>, summary: Seq<char>, action: Seq<char>, level: Seq<char>) -> StepView {
    StepView::Finish(TaskOutcomeView { task_status: task, unit_status: unit, summary, action, level, error: None })
}

/// The next step after each result: a full or locked rate limit skips the
/// task; a failed pull or restart fails it; after a restart the health
/// decides: healthy succeeds, failed fails, anything else ends with
/// warnings. The health summary is kept on the unit when it is not healthy.
pub open spec fn next_step_spec(e: WebhookTaskEvent) -> StepView {
    match e {
        WebhookTaskEvent::Limited(r) => match r {
            Ok(_) => StepView::Pull,
            Err(RateLimitError::LockTimeout) => plain(
                "skipped"@,
                "skipped"@,
                "Skipped due to image rate-limit lock timeout"@,
                "image-rate-limit"@,
                "warning"@,
            ),
            Err(RateLimitError::Exceeded { .. }) => plain(
                "skipped"@,
                "skipped"@,
                "Skipped due to image rate-limit exceeded"@,
                "image-rate-limit"@,
                "warning"@,
            ),
            Err(RateLimitError::Io(msg)) => StepView::Abort(msg@),
        },
        WebhookTaskEvent::Pulled(r) => match r {
            Ok(res) => if res.exit_code == Some(0i32) {
                StepView::Restart
            } else {
                plain("failed"@, "failed"@, "Image pull failed for github webhook task"@, "image-pull"@, "error"@)
            },
            Err(_) => plain("failed"@, "failed"@, "Image pull failed for github webhook task"@, "image-pull"@, "error"@),
        },
        WebhookTaskEvent::Restarted(r) => match r {
            Ok(res) => if res.exit_code == Some(0i32) {
                StepView::CheckHealth
            } else {
                plain("failed"@, "failed"@, "Restart unit failed for github webhook task"@, "restart-unit"@, "error"@)
            },
            Err(_) => plain("failed"@, "failed"@, "Restart unit error for github webhook task"@, "restart-unit"@, "error"@),
        },
        WebhookTaskEvent::Checked(v, summary) => match v {
            UnitHealthVerdict::Healthy => plain(
                "succeeded"@,
                "succeeded"@,
                "Github webhook task completed successfully"@,
                "restart-unit"@,
                "info"@,
            ),
            UnitHealthVerdict::Failed => StepView::Finish(
                TaskOutcomeView {
                    task_status: "failed"@,
                    unit_status: "failed"@,
                    summary: "Github webhook task failed (unit unhealthy after restart)"@,
                    action: "restart-unit"@,
                    level: "error"@,
                    error: Some(summary@),
                },
            ),
            _ => StepView::Finish(
                TaskOutcomeView {
                    task_status: "unknown"@,
                    unit_status: "unknown"@,
                    summary: "Github webhook task completed with warnings (unit state uncertain)"@,
                    action: "restart-unit"@,
                    level: "warning"@,
                    error: Some(summary@),
                },
            ),
        },
    }
}

/// An outcome without an error.
fn finish(task_status: &'static str, unit_status: &'static str, summary: &'static str, action: &'static str, level: &'static str) -> (r: WebhookTaskStep)
    ensures
        step_view(r) == plain(task_status@, unit_status@, summary@, action@, level@),
{
    WebhookTaskStep::Finish(TaskOutcome { task_status, unit_status, summary, action, level, error: None })
}

/// The step that follows a result.
pub fn next_step(e: &WebhookTaskEvent) -> (r: WebhookTaskStep)
    ensures
        step_view(r) == next_step_spec(*e),
{
    match e {
        WebhookTaskEvent::Limited(r) => match r {
            Ok(_) => WebhookTaskStep::Pull,
            Err(RateLimitError::LockTimeout) => finish(
                "skipped",
                "skipped",
                "Skipped due to image rate-limit lock timeout",
                "image-rate-limit",
                "warning",
            ),
            Err(RateLimitError::Exceeded { .. }) => finish(
                "skipped",
                "skipped",
                "Skipped due to image rate-limit exceeded",
                "image-rate-limit",
                "warning",
            ),
            Err(RateLimitError::Io(msg)) => WebhookTaskStep::Abort(owned(msg.as_str())),
        },
        WebhookTaskEvent::Pulled(r) => match r {
            Ok(res) => if res.success() {
                WebhookTaskStep::Restart
            } else {
                finish("failed", "failed", "Image pull failed for github webhook task", "image-pull", "error")
            },
            Err(_) => finish("failed", "failed", "Image pull failed for github webhook task", "image-pull", "error"),
        },
        WebhookTaskEvent::Restarted(r) => match r {
            Ok(res) => if res.success() {
                WebhookTaskStep::CheckHealth
            } else {
                finish("failed", "failed", "Restart unit failed for github webhook task", "restart-unit", "error")
            },
            Err(_) => finish("failed", "failed", "Restart unit error for github webhook task", "restart-unit", "error"),
        },
        WebhookTaskEvent::Checked(v, summary) => match v {
            UnitHealthVerdict::Healthy => finish(
                "succeeded",
                "succeeded",
                "Github webhook task completed successfully",
                "restart-unit",
                "info",
            ),
            UnitHealthVerdict::Failed => WebhookTaskStep::Finish(
                TaskOutcome {
                    task_status: "failed",
                    unit_status: "failed",
                    summary: "Github webhook task failed (unit unhealthy after restart)",
                    action: "restart-unit",
                    level: "error",
                    error: Some(owned(summary.as_str())),
                },
            ),
            _ => WebhookTaskStep::Finish(
                TaskOutcome {
                    task_status: "unknown",
                    unit_status: "unknown",
                    summary: "Github webhook task completed with warnings (unit state uncertain)",
                    action: "restart-unit",
                    level: "warning",
                    error: Some(owned(summary.as_str())),
                },
            ),
        },
    }
}

/// A task only succeeds through a healthy unit after a restart.
pub proof fn lemma_success_needs_healthy_unit(e: WebhookTaskEvent)
    requires
        next_step_spec(e) matches StepView::Finish(o) && o.task_status == "succeeded"@,
    ensures
        e matches WebhookTaskEvent::Checked(v, _) && v == UnitHealthVerdict::Healthy,
{
    reveal_strlit("succeeded");
    reveal_strlit("skipped");
    reveal_strlit("failed");
    reveal_strlit("unknown");
    assert("succeeded"@ != "skipped"@) by {
        assert("succeeded"@[1] != "skipped"@[1]);
    }
    assert("succeeded"@ != "failed"@) by {
        assert("succeeded"@.len() != "failed"@.len());
    }
    assert("succeeded"@ != "unknown"@) by {
        assert("succeeded"@.len() != "unknown"@.len());
    }
}

/// The error recorded for a failed pull: the exit status, then `: ` and
/// what it wrote to stderr, if anything.
pub open spec fn pull_failure_spec(exit_code: Option<i32>, stderr: Seq<char>) -> Seq<char> {
    if stderr.len() > 0 {
        exit_code_text(exit_code) + ": "@ + stderr
    } else {
        exit_code_text(exit_code)
    }
}

/// The error kept when an image pull fails.
pub fn pull_failure_message(res: &CommandExecResult) -> (r: String)
    ensures
        r@ == pull_failure_spec(res.exit_code, res.stderr@),
{
    let code = exit_code_string(res.exit_code);
    if res.stderr.unicode_len() > 0 {
        let a = concat(code.as_str(), ": ");
        concat(a.as_str(), res.stderr.as_str())
    } else {
        code
    }
}

/// How a manual service task ends: the unit's and the task's status, the
/// summary, the error kept on the unit, and the log level.
pub struct ServiceRunOutcome {
    pub unit_status: String,
    pub task_status: &'static str,
    pub summary: &'static str,
    pub error: Option<String>,
    pub level: &'static str,
}

/// The end of a manual service task from its unit operation's status, the
/// error summary of a failed operation, and the health read after a
/// successful one (`None` when it was not read): a failed operation fails
/// the task; otherwise an unhealthy unit fails it and an uncertain one ends
/// it with warnings, keeping the health summary as the error.
pub open spec fn service_outcome_spec(
    op_status: Seq<char>,
    op_error: Option<Seq<char>>,
    health: Option<(UnitHealthVerdict, Seq<char>)>,
) -> (Seq<char>, Seq<char>, Seq<char>, Option<Seq<char>>, Seq<char>) {
    let st = crate::runs::unit_run_status(op_status);
    if st == "failed"@ {
        ("failed"@, "failed"@, "Manual service task failed"@, op_error, "error"@)
    } else {
        match health {
            Some((UnitHealthVerdict::Failed, h)) => (
                "failed"@,
                "failed"@,
                "Manual service task failed (unit unhealthy after restart)"@,
                Some(h),
                "error"@,
            ),
            Some((UnitHealthVerdict::Degraded, h)) | Some((UnitHealthVerdict::Unknown, h)) => (
                "unknown"@,
                "unknown"@,
                "Manual service task completed with warnings (unit state uncertain)"@,
                Some(h),
                "warning"@,
            ),
            _ => (st, "succeeded"@, "Manual service task succeeded"@, None, if st == "unknown"@ {
                "warning"@
            } else {
                "info"@
            }),
        }
    }
}

/// How a single-service task ends, from the restart and the health check.
pub fn service_outcome(op_status: &str, op_error: Option<String>, health: Option<(UnitHealthVerdict, String)>) -> (r: ServiceRunOutcome)
    ensures
        (r.unit_status@, r.task_status@, r.summary@, opt_view(r.error), r.level@) == service_outcome_spec(
            op_status@,
            opt_view(op_error),
            match health {
                Some((v, h)) => Some((v, h@)),
                None => None,
            },
        ),
{
    let st = if crate::text::str_eq(op_status, "triggered") {
        String::from_str("succeeded")
    } else if crate::text::str_eq(op_status, "dry-run") {
        String::from_str("skipped")
    } else if crate::text::str_eq(op_status, "failed") || crate::text::str_eq(op_status, "error") {
        String::from_str("failed")
    } else {
        owned(op_status)
    };
    if crate::text::str_eq(st.as_str(), "failed") {
        return ServiceRunOutcome {
            unit_status: st,
            task_status: "failed",
            summary: "Manual service task failed",
            error: op_error,
            level: "error",
        };
    }
    match health {
        Some((UnitHealthVerdict::Failed, h)) => ServiceRunOutcome {
            unit_status: String::from_str("failed"),
            task_status: "failed",
            summary: "Manual service task failed (unit unhealthy after restart)",
            error: Some(h),
            level: "error",
        },
        Some((UnitHealthVerdict::Degraded, h)) | Some((UnitHealthVerdict::Unknown, h)) => ServiceRunOutcome {
            unit_status: String::from_str("unknown"),
            task_status: "unknown",
            summary: "Manual service task completed with warnings (unit state uncertain)",
            error: Some(h),
            level: "warning",
        },
        _ => {
            let level = if crate::text::str_eq(st.as_str(), "unknown") {
                "warning"
            } else {
                "info"
            };
            ServiceRunOutcome {
                unit_status: st,
                task_status: "succeeded",
                summary: "Manual service task succeeded",
                error: None,
                level,
            }
        },
    }
}

/// What the image pull does after an attempt.
#[derive(Clone, Copy, Debug, PartialEq, Eq, Structural)]
pub enum PullStep {
    /// The attempt succeeded: the pull is done.
    Done,
    /// Wait `delay_secs`, then make attempt `next`.
    Retry { next: u8, delay_secs: u64 },
    /// The last attempt failed: its result is the pull's result.
    GiveUp,
}

/// The number of attempts an image pull makes at most.
pub open spec fn pull_attempts() -> u8 {
    3
}

/// The step after attempt `attempt` (counted from 1).
pub open spec fn pull_step_spec(attempt: u8, succeeded: bool) -> PullStep {
    if succeeded {
        PullStep::Done
    } else if attempt < pull_attempts() {
        PullStep::Retry { next: (attempt + 1) as u8, delay_secs: 5 }
    } else {
        PullStep::GiveUp
    }
}

/// The decision of an image pull after each `podman pull`.
pub fn pull_step(attempt: u8, succeeded: bool) -> (r: PullStep)
    ensures
        r == pull_step_spec(attempt, succeeded),
{
    if succeeded {
        PullStep::Done
    } else if attempt < 3 {
        PullStep::Retry { next: attempt + 1, delay_secs: 5 }
    } else {
        PullStep::GiveUp
    }
}

/// The attempt reached after `k` failures from the first one, if the pull
/// is still going.
pub open spec fn attempt_after_failures(k: nat) -> Option<u8>
    decreases k,
{
    if k == 0 {
        Some(1u8)
    } else {
        match attempt_after_failures((k - 1) as nat) {
            Some(a) => match pull_step_spec(a, false) {
                PullStep::Retry { next, .. } => Some(next),
                _ => None,
            },
            None => None,
        }
    }
}

/// A pull that keeps failing makes exactly three attempts: after `k`
/// failures it is at attempt `k + 1` while `k < 3`, and it has given up
/// from the third failure on.
pub proof fn lemma_pull_attempts_bounded(k: nat)
    ensures
        k < 3 ==> attempt_after_failures(k) == Some((k + 1) as u8),
        k >= 3 ==> attempt_after_failures(k) is None,
    decreases k,
{
    if k > 0 {
        lemma_pull_attempts_bounded((k - 1) as nat);
    }
}

} // verus!
