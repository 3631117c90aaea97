//! Reports left by the self-update runner: how each becomes a finished
//! `self-update` task.

use vstd::prelude::*;
use crate::text::{trim, trim_str, lower, to_ascii_lowercase, str_eq, concat, owned, opt_view, int_decimal, i64_to_string, views};

verus! {

/// The fields of a self-update report that decide its task.
pub struct SelfUpdateReport {
    pub report_type: Option<String>,
    pub started_at: Option<i64>,
    pub finished_at: Option<i64>,
    pub status: Option<String>,
    pub exit_code: Option<i64>,
    pub dry_run: Option<bool>,
    pub release_tag: Option<String>,
    pub stderr_tail: Option<String>,
}

/// The finished task a report becomes.
pub struct SelfUpdateImport {
    pub succeeded: bool,
    pub task_status: String,
    pub level: String,
    pub created_at: i64,
    pub started_at: i64,
    pub finished_at: i64,
    pub duration_ms: i64,
    pub summary: String,
    pub unit: String,
    pub slug: String,
    pub error: Option<String>,
    pub dry_run: bool,
}

/// An integer clamped to the range of `i64`.
pub open spec fn clamp_i64(x: int) -> i64 {
    if x > i64::MAX {
        i64::MAX
    } else if x < i64::MIN {
        i64::MIN
    } else {
        x as i64
    }
}

/// A reported status counts as success when it reads (in any ASCII case)
/// `succeeded`, `success`, `ok` or `passed`; a missing one is `unknown`.
pub open spec fn report_succeeded(status: Option<Seq<char>>) -> bool {
    let s = match status {
        Some(x) => lower(x),
        None => "unknown"@,
    };
    s == "succeeded"@ || s == "success"@ || s == "ok"@ || s == "passed"@
}

/// A release tag worth naming: present and not blank.
pub open spec fn named_tag(tag: Option<Seq<char>>) -> Option<Seq<char>> {
    match tag {
        Some(t) => if trim(t).len() > 0 {
            Some(t)
        } else {
            None
        },
        None => None,
    }
}

/// The summary of a self-update task.
pub open spec fn report_summary(succeeded: bool, dry_run: bool, tag: Option<Seq<char>>, exit_code: Option<i64>) -> Seq<char> {
    let exit_label = match exit_code {
        Some(c) => int_decimal(c as int),
        None => "-"@,
    };
    if succeeded {
        let head = if dry_run {
            "Self-update dry-run from GitHub Release succeeded"@
        } else {
            "Self-update from GitHub Release succeeded"@
        };
        match named_tag(tag) {
            Some(t) => head + " ("@ + t + ")"@,
            None => head,
        }
    } else if dry_run {
        "Self-update dry-run failed (exit="@ + exit_label + ")"@
    } else {
        "Self-update failed (exit="@ + exit_label + ")"@
    }
}

/// The task a report becomes, or `type-mismatch` when it is not a
/// `self-update-run` report. Its start is the reported start, else the
/// reported end, else `now`; its end the reported end, else its start.
pub open spec fn import_spec(r: SelfUpdateReport, now: i64) -> Result<SelfUpdateImportView, Seq<char>> {
    if opt_view(r.report_type) != Some("self-update-run"@) {
        Err("type-mismatch"@)
    } else {
        let started = match r.started_at {
            Some(s) => s,
            None => match r.finished_at {
                Some(f) => f,
                None => now,
            },
        };
        let finished = match r.finished_at {
            Some(f) => f,
            None => started,
        };
        let succeeded = report_succeeded(opt_view(r.status));
        let dry_run = match r.dry_run {
            Some(b) => b,
            None => false,
        };
        Ok(
            SelfUpdateImportView {
                succeeded,
                task_status: if succeeded {
                    "succeeded"@
                } else {
                    "failed"@
                },
                level: if succeeded {
                    "info"@
                } else {
                    "error"@
                },
                created_at: if started <= finished {
                    started
                } else {
                    finished
                },
                started_at: started,
                finished_at: finished,
                duration_ms: clamp_i64(clamp_i64(finished - started) * 1000),
                summary: report_summary(succeeded, dry_run, opt_view(r.release_tag), r.exit_code),
                unit: "pod-upgrade-trigger-http.service"@,
                slug: "pod-upgrade-trigger-http"@,
                error: if succeeded {
                    None
                } else {
                    opt_view(r.stderr_tail)
                },
                dry_run,
            },
        )
    }
}

/// A `SelfUpdateImport` with texts as character sequences.
pub struct SelfUpdateImportView {
    pub succeeded: bool,
    pub task_status: Seq<char>,
    pub level: Seq<char>,
    pub created_at: i64,
    pub started_at: i64,
    pub finished_at: i64,
    pub duration_ms: i64,
    pub summary: Seq<char>,
    pub unit: Seq<char>,
    pub slug: Seq<char>,
    pub error: Option<Seq<char>>,
    pub dry_run: bool,
}

impl SelfUpdateImport {
    /// The task with texts as character sequences.
    pub open spec fn view_of(self) -> SelfUpdateImportView {
        SelfUpdateImportView {
            succeeded: self.succeeded,
            task_status: self.task_status@,
            level: self.level@,
            created_at: self.created_at,
            started_at: self.started_at,
            finished_at: self.finished_at,
            duration_ms: self.duration_ms,
            summary: self.summary@,
            unit: self.unit@,
            slug: self.slug@,
            error: opt_view(self.error),
            dry_run: self.dry_run,
        }
    }
}

/// `i64::saturating_sub`.
fn saturating_sub_i64(a: i64, b: i64) -> (r: i64)
    ensures
        r == clamp_i64(a - b),
{
    match a.checked_sub(b) {
        Some(x) => x,
        None => if b < 0 {
            i64::MAX
        } else {
            i64::MIN
        },
    }
}

/// `i64::saturating_mul` by 1000.
fn saturating_mul_1000(a: i64) -> (r: i64)
    ensures
        r == clamp_i64(a * 1000),
{
    match a.checked_mul(1000) {
        Some(x) => x,
        None => if a > 0 {
            i64::MAX
        } else {
            i64::MIN
        },
    }
}

/// Whether a status reads as success.
fn status_succeeded(status: &Option<String>) -> (r: bool)
    ensures
        r == report_succeeded(opt_view(*status)),
{
    let s = match status {
        Some(x) => to_ascii_lowercase(x.as_str()),
        None => String::from_str("unknown"),
    };
    let t = s.as_str();
    str_eq(t, "succeeded") || str_eq(t, "success") || str_eq(t, "ok") || str_eq(t, "passed")
}

/// The summary of an imported self-update report.
fn summary_of(succeeded: bool, dry_run: bool, tag: &Option<String>, exit_code: Option<i64>) -> (r: String)
    ensures
        r@ == report_summary(succeeded, dry_run, opt_view(*tag), exit_code),
{
    let exit_label = match exit_code {
        Some(c) => i64_to_string(c),
        None => String::from_str("-"),
    };
    if succeeded {
        let head = if dry_run {
            "Self-update dry-run from GitHub Release succeeded"
        } else {
            "Self-update from GitHub Release succeeded"
        };
        match tag {
            Some(t) => if trim_str(t.as_str()).unicode_len() > 0 {
                let a = concat(head, " (");
                let b = concat(a.as_str(), t.as_str());
                concat(b.as_str(), ")")
            } else {
                String::from_str(head)
            },
            None => String::from_str(head),
        }
    } else {
        let head = if dry_run {
            "Self-update dry-run failed (exit="
        } else {
            "Self-update failed (exit="
        };
        let a = concat(head, exit_label.as_str());
        concat(a.as_str(), ")")
    }
}

/// The task a self-update report becomes (`now` is the time of the import).
pub fn import_self_update_report(r: &SelfUpdateReport, now: i64) -> (out: Result<SelfUpdateImport, String>)
    ensures
        match out {
            Ok(i) => import_spec(*r, now) == Ok::<SelfUpdateImportView, Seq<char>>(i.view_of()),
            Err(e) => import_spec(*r, now) == Err::<SelfUpdateImportView, Seq<char>>(e@),
        },
{
    let type_ok = match &r.report_type {
        Some(t) => str_eq(t.as_str(), "self-update-run"),
        None => false,
    };
    if !type_ok {
        return Err(String::from_str("type-mismatch"));
    }
    let started = match r.started_at {
        Some(s) => s,
        None => match r.finished_at {
            Some(f) => f,
            None => now,
        },
    };
    let finished = match r.finished_at {
        Some(f) => f,
        None => started,
    };
    let succeeded = status_succeeded(&r.status);
    let dry_run = match r.dry_run {
        Some(b) => b,
        None => false,
    };
    let summary = summary_of(succeeded, dry_run, &r.release_tag, r.exit_code);
    let error = if succeeded {
        None
    } else {
        match &r.stderr_tail {
            Some(t) => Some(owned(t.as_str())),
            None => None,
        }
    };
    Ok(
        SelfUpdateImport {
            succeeded,
            task_status: String::from_str(
                if succeeded {
                    "succeeded"
                } else {
                    "failed"
                },
            ),
            level: String::from_str(
                if succeeded {
                    "info"
                } else {
                    "error"
                },
            ),
            created_at: if started <= finished {
                started
            } else {
                finished
            },
            started_at: started,
            finished_at: finished,
            duration_ms: saturating_mul_1000(saturating_sub_i64(finished, started)),
            summary,
            unit: String::from_str("pod-upgrade-trigger-http.service"),
            slug: String::from_str("pod-upgrade-trigger-http"),
            error,
            dry_run,
        },
    )
}

/// Why the self-update command cannot run: it is not configured (or
/// blank), its path does not exist, or it is not a file.
pub enum CommandProblem {
    Missing,
    NotFound,
    NotFile,
}

/// The self-update command, trimmed, when it is configured: its metadata
/// is then looked up (`None`: the path does not exist; else whether it is
/// a file).
pub open spec fn command_spec(raw: Option<Seq<char>>) -> Option<Seq<char>> {
    let t = match raw {
        Some(v) => trim(v),
        None => Seq::<char>::empty(),
    };
    if t.len() == 0 {
        None
    } else {
        Some(t)
    }
}

/// The configured self-update command.
pub fn self_update_command(raw: Option<&str>) -> (r: Option<String>)
    ensures
        opt_view(r) == command_spec(crate::config::opt_str(raw)),
{
    let t = match raw {
        Some(v) => trim_str(v),
        None => "",
    };
    proof {
        reveal_strlit("");
    }
    if t.unicode_len() == 0 {
        None
    } else {
        Some(owned(t))
    }
}

/// Whether the command can run, from its metadata (`None`: not found).
pub fn command_problem(is_file: Option<bool>) -> (r: Option<CommandProblem>)
    ensures
        match r {
            None => is_file == Some(true),
            Some(CommandProblem::NotFound) => is_file is None,
            Some(CommandProblem::NotFile) => is_file == Some(false),
            Some(CommandProblem::Missing) => false,
        },
{
    match is_file {
        None => Some(CommandProblem::NotFound),
        Some(false) => Some(CommandProblem::NotFile),
        Some(true) => None,
    }
}

/// The summary, error code and reason recorded when the command cannot run.
pub open spec fn problem_spec(p: CommandProblem) -> (Seq<char>, Seq<char>, Option<Seq<char>>) {
    match p {
        CommandProblem::Missing => ("Self-update command missing"@, "self-update-command-missing"@, None),
        CommandProblem::NotFound => (
            "Self-update command path does not exist"@,
            "self-update-command-invalid"@,
            Some("not-found"@),
        ),
        CommandProblem::NotFile => (
            "Self-update command path is not a file"@,
            "self-update-command-invalid"@,
            Some("not-file"@),
        ),
    }
}

/// The summary, error code and reason recorded when the self-update command
/// cannot run.
pub fn problem_record(p: CommandProblem) -> (r: (&'static str, &'static str, Option<&'static str>))
    ensures
        (r.0@, r.1@, match r.2 {
            Some(x) => Some(x@),
            None => None,
        }) == problem_spec(p),
{
    match p {
        CommandProblem::Missing => ("Self-update command missing", "self-update-command-missing", None),
        CommandProblem::NotFound => (
            "Self-update command path does not exist",
            "self-update-command-invalid",
            Some("not-found"),
        ),
        CommandProblem::NotFile => (
            "Self-update command path is not a file",
            "self-update-command-invalid",
            Some("not-file"),
        ),
    }
}

/// The command line of a self-update run: the command, with `--dry-run`
/// for a dry run.
pub fn self_update_argv(command: &str, dry_run: bool) -> (r: Vec<String>)
    ensures
        views(r@) == (if dry_run {
            seq![command@, "--dry-run"@]
        } else {
            seq![command@]
        }),
{
    let mut v: Vec<String> = Vec::new();
    crate::text::push_str_owned(&mut v, command);
    if dry_run {
        crate::text::push_str_owned(&mut v, "--dry-run");
    }
    proof {
        if dry_run {
            assert(views(v@) =~= seq![command@, "--dry-run"@]);
        } else {
            assert(views(v@) =~= seq![command@]);
        }
    }
    v
}

/// The summary of a finished self-update run: success, or failure with
/// its exit status; the error kept is what it wrote to stderr, if anything.
pub open spec fn run_summary_spec(dry_run: bool, exit_code: Option<i32>, stderr: Seq<char>) -> (Seq<char>, Seq<char>, Option<Seq<char>>) {
    if exit_code == Some(0i32) {
        ("succeeded"@, if dry_run { "Self-update dry-run succeeded"@ } else { "Self-update succeeded"@ }, None)
    } else {
        (
            "failed"@,
            if dry_run {
                "Self-update dry-run failed ("@ + crate::units::exit_code_text(exit_code) + ")"@
            } else {
                "Self-update failed ("@ + crate::units::exit_code_text(exit_code) + ")"@
            },
            if stderr.len() > 0 {
                Some(stderr)
            } else {
                None
            },
        )
    }
}

/// `run_summary_spec`: status, summary and error.
pub fn self_update_run_summary(dry_run: bool, res: &crate::host::CommandExecResult) -> (r: (&'static str, String, Option<String>))
    ensures
        (r.0@, r.1@, opt_view(r.2)) == run_summary_spec(dry_run, res.exit_code, res.stderr@),
{
    if res.success() {
        return ("succeeded", String::from_str(if dry_run { "Self-update dry-run succeeded" } else { "Self-update succeeded" }), None);
    }
    let exit = crate::units::exit_code_string(res.exit_code);
    let head = if dry_run {
        "Self-update dry-run failed ("
    } else {
        "Self-update failed ("
    };
    let a = concat(head, exit.as_str());
    let summary = concat(a.as_str(), ")");
    let err = if res.stderr.unicode_len() > 0 {
        Some(owned(res.stderr.as_str()))
    } else {
        None
    };
    ("failed", summary, err)
}

} // verus!
