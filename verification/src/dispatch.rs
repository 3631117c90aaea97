//! Which runner a stored task goes to, from its kind and metadata.

use vstd::prelude::*;
use crate::text::{str_eq, owned, opt_view, views, trim, trim_str, concat};
use crate::queries::sat_mul;

verus! {

/// A unit a manual deploy pulls and restarts.
pub struct DeployUnitSpec {
    pub unit: String,
    pub image: String,
}

/// A unit a manual deploy left out, and why.
pub struct SkippedUnit {
    pub unit: String,
    pub message: String,
}

/// The metadata stored with a task, by the kind of work it describes.
#[allow(inconsistent_fields)]
pub enum TaskMeta {
    ManualTrigger { all: bool, dry_run: bool },
    ManualDeploy { all: bool, dry_run: bool, units: Vec<DeployUnitSpec>, skipped: Vec<SkippedUnit> },
    ManualService { unit: String, dry_run: bool, image: Option<String> },
    GithubWebhook { unit: String, image: String, event: String, delivery: String, path: String },
    AutoUpdate { unit: String },
    AutoUpdateRun { unit: String, dry_run: bool },
    SelfUpdateRun { dry_run: bool },
    MaintenancePrune { max_age_hours: u64, dry_run: bool },
    Other,
}

/// The runner a task goes to.
#[allow(inconsistent_fields)]
pub enum TaskRun {
    GithubWebhook { unit: String, image: String, event: String, delivery: String, path: String },
    ManualTrigger,
    ManualDeploy,
    /// A dry-run service request: nothing to run.
    ManualServiceDryRun { unit: String },
    ManualService { unit: String, image: Option<String> },
    AutoUpdate { unit: String },
    AutoUpdateRun { unit: String, dry_run: bool },
    MaintenancePrune { retention_secs: u64, dry_run: bool },
    SelfUpdate { dry_run: bool },
    /// Kind and metadata do not go together: the task is left alone.
    Unsupported,
}

/// `TaskRun` with texts as character sequences.
#[allow(inconsistent_fields)]
pub enum TaskRunView {
    GithubWebhook { unit: Seq<char>, image: Seq<char>, event: Seq<char>, delivery: Seq<char>, path: Seq<char> },
    ManualTrigger,
    ManualDeploy,
    ManualServiceDryRun { unit: Seq<char> },
    ManualService { unit: Seq<char>, image: Option<Seq<char>> },
    AutoUpdate { unit: Seq<char> },
    AutoUpdateRun { unit: Seq<char>, dry_run: bool },
    MaintenancePrune { retention_secs: u64, dry_run: bool },
    SelfUpdate { dry_run: bool },
    Unsupported,
}

/// The view of a runner choice.
pub open spec fn run_view(r: TaskRun) -> TaskRunView {
    match r {
        TaskRun::GithubWebhook { unit, image, event, delivery, path } => TaskRunView::GithubWebhook {
            unit: unit@,
            image: image@,
            event: event@,
            delivery: delivery@,
            path: path@,
        },
        TaskRun::ManualTrigger => TaskRunView::ManualTrigger,
        TaskRun::ManualDeploy => TaskRunView::ManualDeploy,
        TaskRun::ManualServiceDryRun { unit } => TaskRunView::ManualServiceDryRun { unit: unit@ },
        TaskRun::ManualService { unit, image } => TaskRunView::ManualService { unit: unit@, image: opt_view(image) },
        TaskRun::AutoUpdate { unit } => TaskRunView::AutoUpdate { unit: unit@ },
        TaskRun::AutoUpdateRun { unit, dry_run } => TaskRunView::AutoUpdateRun { unit: unit@, dry_run },
        TaskRun::MaintenancePrune { retention_secs, dry_run } => TaskRunView::MaintenancePrune {
            retention_secs,
            dry_run,
        },
        TaskRun::SelfUpdate { dry_run } => TaskRunView::SelfUpdate { dry_run },
        TaskRun::Unsupported => TaskRunView::Unsupported,
    }
}

/// The runner of a task: webhook tasks run the webhook steps; manual tasks
/// trigger, deploy, run one service (an image-less request for the
/// auto-update unit runs auto-update instead; a dry run runs nothing) or
/// run auto-update; scheduler tasks run auto-update; maintenance tasks prune
/// state (at least one second of retention) or update the service itself.
pub open spec fn task_run_spec(kind: Seq<char>, meta: TaskMeta, auto_unit: Seq<char>) -> TaskRunView {
    match meta {
        TaskMeta::GithubWebhook { unit, image, event, delivery, path } => if kind == "github-webhook"@ {
            TaskRunView::GithubWebhook { unit: unit@, image: image@, event: event@, delivery: delivery@, path: path@ }
        } else {
            TaskRunView::Unsupported
        },
        TaskMeta::ManualTrigger { .. } => if kind == "manual"@ {
            TaskRunView::ManualTrigger
        } else {
            TaskRunView::Unsupported
        },
        TaskMeta::ManualDeploy { .. } => if kind == "manual"@ {
            TaskRunView::ManualDeploy
        } else {
            TaskRunView::Unsupported
        },
        TaskMeta::ManualService { unit, dry_run, image } => if kind == "manual"@ {
            if dry_run {
                TaskRunView::ManualServiceDryRun { unit: unit@ }
            } else if image is None && unit@ == auto_unit {
                TaskRunView::AutoUpdate { unit: unit@ }
            } else {
                TaskRunView::ManualService { unit: unit@, image: opt_view(image) }
            }
        } else {
            TaskRunView::Unsupported
        },
        TaskMeta::AutoUpdate { unit } => if kind == "manual"@ || kind == "scheduler"@ {
            TaskRunView::AutoUpdate { unit: unit@ }
        } else {
            TaskRunView::Unsupported
        },
        TaskMeta::AutoUpdateRun { unit, dry_run } => if kind == "manual"@ {
            TaskRunView::AutoUpdateRun { unit: unit@, dry_run }
        } else {
            TaskRunView::Unsupported
        },
        TaskMeta::MaintenancePrune { max_age_hours, dry_run } => if kind == "maintenance"@ {
            TaskRunView::MaintenancePrune {
                retention_secs: if sat_mul(max_age_hours, 3600) >= 1 {
                    sat_mul(max_age_hours, 3600)
                } else {
                    1u64
                },
                dry_run,
            }
        } else {
            TaskRunView::Unsupported
        },
        TaskMeta::SelfUpdateRun { dry_run } => if kind == "maintenance"@ {
            TaskRunView::SelfUpdate { dry_run }
        } else {
            TaskRunView::Unsupported
        },
        TaskMeta::Other => TaskRunView::Unsupported,
    }
}

/// A copy of an optional string.
fn copy_opt(o: &Option<String>) -> (r: Option<String>)
    ensures
        opt_view(r) == opt_view(*o),
{
    match o {
        Some(s) => Some(owned(s.as_str())),
        None => None,
    }
}

/// The runner of a stored task.
pub fn task_run(kind: &str, meta: &TaskMeta, auto_unit: &str) -> (r: TaskRun)
    ensures
        run_view(r) == task_run_spec(kind@, *meta, auto_unit@),
{
    match meta {
        TaskMeta::GithubWebhook { unit, image, event, delivery, path } => if str_eq(kind, "github-webhook") {
            TaskRun::GithubWebhook {
                unit: owned(unit.as_str()),
                image: owned(image.as_str()),
                event: owned(event.as_str()),
                delivery: owned(delivery.as_str()),
                path: owned(path.as_str()),
            }
        } else {
            TaskRun::Unsupported
        },
        TaskMeta::ManualTrigger { .. } => if str_eq(kind, "manual") {
            TaskRun::ManualTrigger
        } else {
            TaskRun::Unsupported
        },
        TaskMeta::ManualDeploy { .. } => if str_eq(kind, "manual") {
            TaskRun::ManualDeploy
        } else {
            TaskRun::Unsupported
        },
        TaskMeta::ManualService { unit, dry_run, image } => if str_eq(kind, "manual") {
            if *dry_run {
                TaskRun::ManualServiceDryRun { unit: owned(unit.as_str()) }
            } else if image.is_none() && str_eq(unit.as_str(), auto_unit) {
                TaskRun::AutoUpdate { unit: owned(unit.as_str()) }
            } else {
                TaskRun::ManualService { unit: owned(unit.as_str()), image: copy_opt(image) }
            }
        } else {
            TaskRun::Unsupported
        },
        TaskMeta::AutoUpdate { unit } => if str_eq(kind, "manual") || str_eq(kind, "scheduler") {
            TaskRun::AutoUpdate { unit: owned(unit.as_str()) }
        } else {
            TaskRun::Unsupported
        },
        TaskMeta::AutoUpdateRun { unit, dry_run } => if str_eq(kind, "manual") {
            TaskRun::AutoUpdateRun { unit: owned(unit.as_str()), dry_run: *dry_run }
        } else {
            TaskRun::Unsupported
        },
        TaskMeta::MaintenancePrune { max_age_hours, dry_run } => if str_eq(kind, "maintenance") {
            let secs = match max_age_hours.checked_mul(3600) {
                Some(x) => x,
                None => u64::MAX,
            };
            TaskRun::MaintenancePrune {
                retention_secs: if secs >= 1 {
                    secs
                } else {
                    1
                },
                dry_run: *dry_run,
            }
        } else {
            TaskRun::Unsupported
        },
        TaskMeta::SelfUpdateRun { dry_run } => if str_eq(kind, "maintenance") {
            TaskRun::SelfUpdate { dry_run: *dry_run }
        } else {
            TaskRun::Unsupported
        },
        TaskMeta::Other => TaskRun::Unsupported,
    }
}

/// The settings a background worker inherits from the service.
pub open spec fn run_task_keys_spec() -> Seq<Seq<char>> {
    seq![
        "PODUP_DB_URL"@,
        "PODUP_STATE_DIR"@,
        "PODUP_SSH_TARGET"@,
        "PODUP_CONTAINER_DIR"@,
        "PODUP_AUTO_UPDATE_LOG_DIR"@,
        "PODUP_MANUAL_UNITS"@,
        "PODUP_MANUAL_AUTO_UPDATE_UNIT"@,
        "PODUP_SELF_UPDATE_COMMAND"@,
        "PODUP_SELF_UPDATE_DRY_RUN"@,
        "PODUP_SELF_UPDATE_REPORT_DIR"@,
        "TARGET_BIN"@,
        "PODUP_RELEASE_BASE_URL"@,
    ]
}

/// The names of the settings passed on to background workers, in order.
pub fn run_task_env_keys() -> (r: Vec<String>)
    ensures
        views(r@) == run_task_keys_spec(),
{
    let mut v: Vec<String> = Vec::new();
    v.push(owned("PODUP_DB_URL"));
    v.push(owned("PODUP_STATE_DIR"));
    v.push(owned("PODUP_SSH_TARGET"));
    v.push(owned("PODUP_CONTAINER_DIR"));
    v.push(owned("PODUP_AUTO_UPDATE_LOG_DIR"));
    v.push(owned("PODUP_MANUAL_UNITS"));
    v.push(owned("PODUP_MANUAL_AUTO_UPDATE_UNIT"));
    v.push(owned("PODUP_SELF_UPDATE_COMMAND"));
    v.push(owned("PODUP_SELF_UPDATE_DRY_RUN"));
    v.push(owned("PODUP_SELF_UPDATE_REPORT_DIR"));
    v.push(owned("TARGET_BIN"));
    v.push(owned("PODUP_RELEASE_BASE_URL"));
    proof {
        assert(views(v@) =~= run_task_keys_spec());
    }
    v
}

/// The view of a setting's name and raw value.
pub open spec fn setting_view(p: (String, Option<String>)) -> (Seq<char>, Option<Seq<char>>) {
    (p.0@, opt_view(p.1))
}

/// `KEY=value` for each setting whose value is not blank, in order.
pub open spec fn run_task_env_spec(settings: Seq<(Seq<char>, Option<Seq<char>>)>) -> Seq<Seq<char>>
    decreases settings.len(),
{
    if settings.len() == 0 {
        Seq::<Seq<char>>::empty()
    } else {
        let rest = run_task_env_spec(settings.drop_last());
        let (k, v) = settings.last();
        match v {
            Some(val) => if trim(val).len() > 0 {
                rest.push(k + "="@ + val)
            } else {
                rest
            },
            None => rest,
        }
    }
}

/// The environment entries of a background worker, from the settings read
/// (name and value, if set).
pub fn run_task_env(settings: &[(String, Option<String>)]) -> (r: Vec<String>)
    ensures
        views(r@) == run_task_env_spec(settings@.map_values(|p: (String, Option<String>)| setting_view(p))),
{
    let ghost sv = settings@.map_values(|p: (String, Option<String>)| setting_view(p));
    let mut out: Vec<String> = Vec::new();
    let mut i: usize = 0;
    proof {
        assert(sv.take(0) =~= Seq::<(Seq<char>, Option<Seq<char>>)>::empty());
        assert(views(out@) =~= Seq::<Seq<char>>::empty());
    }
    while i < settings.len()
        invariant
            i <= settings@.len(),
            sv == settings@.map_values(|p: (String, Option<String>)| setting_view(p)),
            views(out@) == run_task_env_spec(sv.take(i as int)),
        decreases settings@.len() - i,
    {
        proof {
            assert(sv.take(i + 1).drop_last() =~= sv.take(i as int));
            assert(sv.take(i + 1).last() == setting_view(settings@[i as int]));
        }
        let (k, v) = &settings[i];
        match v {
            Some(val) => {
                if trim_str(val.as_str()).unicode_len() > 0 {
                    let mut e = concat(k.as_str(), "=");
                    e.append(val.as_str());
                    let ghost prev = views(out@);
                    out.push(e);
                    proof {
                        assert(views(out@) =~= prev.push(k@ + "="@ + val@));
                    }
                }
            },
            None => {},
        }
        i = i + 1;
    }
    proof {
        assert(sv.take(settings@.len() as int) =~= sv);
    }
    out
}

/// The summary of a task that could not be dispatched.
pub open spec fn dispatch_failure_spec(source: Seq<char>, unit: Option<Seq<char>>) -> Seq<char> {
    match unit {
        Some(u) => "Failed to dispatch "@ + source + " task for unit "@ + u,
        None => "Failed to dispatch "@ + source + " task"@,
    }
}

/// The summary of a failed dispatch, naming the unit when there is one.
pub fn dispatch_failure_summary(source: &str, unit: Option<&str>) -> (r: String)
    ensures
        r@ == dispatch_failure_spec(source@, crate::config::opt_str(unit)),
{
    let mut s = concat("Failed to dispatch ", source);
    match unit {
        Some(u) => {
            s.append(" task for unit ");
            s.append(u);
        },
        None => {
            s.append(" task");
        },
    }
    s
}

} // verus!
