use podup::auth::{admin_decision, forward_mode, AdminDecision, ForwardAuthConfig, ForwardAuthMode};
use podup::cli::scheduler_tick;
use podup::config::{db_url_setting, db_url_supported, self_update_cron_setting, setting_configured, sqlite_file_path, CronSetting, SelfUpdateSchedule};
use podup::dispatch::{dispatch_failure_summary, run_task_env, run_task_env_keys};
use podup::github::{comparison_verdict, current_version};
use podup::maintenance::{
    legacy_state_entries, lock_cutoff, prunable_task_status, prune_cli_line, prune_cutoff,
    prune_summary, task_prunable, StatePruneReport,
};
use podup::podman::{podman_unavailable, skip_podman_check};
use podup::responses::{infra_gate, InfraGate};
use podup::webhooktask::{pull_step, PullStep};
use podup::paths::{auto_update_log_dir, container_systemd_dir, self_update_report_dir};
use podup::ratelimit::{lock_step, LockStep};
use podup::tasks::{creation_plan, retry_task, runner_stop_command, stop_plan, stopped_row, StopMode, StopPlan, TaskOrigin};
use podup::units::{runner_unit_for_delivery, task_runner_unit_from_meta};
use podup::stream::{stream_gate, stream_gate_answer, stream_lookup_answer, StreamGate};
use podup::discovery::dir_discovered_units;
use podup::digests::resolve_running_digests;
use podup::host::validate_host_abs_path;
use podup::images::trim_start_matches_str;
use podup::json::Json;
use podup::text::replace_str;
use podup::http::{chunk_step, ChunkPhase, ChunkRead, ChunkStep};
use podup::frontend::{choose_dist_dir, frontend_dist_candidates, join_path};
use podup::host::{executor_kind, select_backend, ssh_target_setting, HostBackend, HostBackendError, HostBackendKind, SelectedBackend, TaskExecutorKind};

fn s(x: &str) -> String {
    x.to_string()
}

fn cfg(header: Option<&str>, value: Option<&str>, open: bool) -> ForwardAuthConfig {
    ForwardAuthConfig {
        header_name: header.map(s),
        admin_value: value.map(s),
        nickname_header: None,
        admin_mode_name: None,
        dev_open_admin: open,
    }
}

#[test]
fn scheduler_stops_after_the_limit() {
    assert_eq!(scheduler_tick(0, Some(3)), (1, false));
    assert_eq!(scheduler_tick(1, Some(3)), (2, false));
    assert_eq!(scheduler_tick(2, Some(3)), (3, true));
    assert_eq!(scheduler_tick(0, Some(0)), (1, true));
    assert_eq!(scheduler_tick(5, None), (6, false));
    assert_eq!(scheduler_tick(u64::MAX, None), (u64::MAX, false));
}

#[test]
fn bounded_scheduler_run_counts_ticks() {
    let mut count = 0u64;
    let mut ticks = 0;
    loop {
        let (next, stop) = scheduler_tick(count, Some(4));
        count = next;
        ticks += 1;
        if stop {
            break;
        }
    }
    assert_eq!(ticks, 4);
}

#[test]
fn open_mode_admits_requests_without_headers() {
    let c = cfg(None, None, true);
    assert_eq!(admin_decision(&c, &vec![]), AdminDecision::Allowed);
    let protected = cfg(Some("x-forwarded-user"), Some("admin"), false);
    let wrong = vec![(s("x-forwarded-user"), s("guest"))];
    assert_eq!(admin_decision(&protected, &wrong), AdminDecision::Unauthorized);
    assert_eq!(admin_decision(&protected, &vec![]), AdminDecision::Unauthorized);
}

#[test]
fn forward_auth_modes() {
    assert_eq!(forward_mode(&cfg(None, None, true)), ForwardAuthMode::Open);
    assert_eq!(forward_mode(&cfg(Some("h"), Some("v"), false)), ForwardAuthMode::Protected);
    assert_eq!(forward_mode(&cfg(Some("h"), None, false)), ForwardAuthMode::Misconfigured);
    assert_eq!(ForwardAuthMode::Open.as_str(), "open");
    assert_eq!(ForwardAuthMode::Protected.as_str(), "protected");
    assert_eq!(ForwardAuthMode::Misconfigured.as_str(), "misconfigured");
}

#[test]
fn database_settings() {
    assert_eq!(db_url_setting(None), "sqlite://data/pod-upgrade-trigger.db");
    assert_eq!(db_url_setting(Some("  ")), "sqlite://data/pod-upgrade-trigger.db");
    assert_eq!(db_url_setting(Some("sqlite:///tmp/x.db")), "sqlite:///tmp/x.db");
    assert!(db_url_supported(" sqlite::memory: "));
    assert!(db_url_supported("sqlite:///var/lib/podup.db"));
    assert!(!db_url_supported("postgres://db/podup"));
    assert_eq!(sqlite_file_path("sqlite:///var/db.sqlite"), Some(s("/var/db.sqlite")));
    assert_eq!(sqlite_file_path("sqlite::memory:"), None);
    assert!(!setting_configured(None));
    assert!(!setting_configured(Some("   ")));
    assert!(setting_configured(Some("secret")));
}

#[test]
fn prune_cutoffs_and_statuses() {
    assert_eq!(prune_cutoff(100, 0), 99);
    assert_eq!(prune_cutoff(100, 50), 50);
    assert_eq!(prune_cutoff(10, 50), 0);
    assert_eq!(lock_cutoff(100, 0), 100);
    assert_eq!(lock_cutoff(10, 50), 0);
    assert!(prunable_task_status("skipped"));
    assert!(prunable_task_status("cancelled"));
    assert!(!prunable_task_status("running"));
    assert!(task_prunable(Some(5), "failed", 10));
    assert!(task_prunable(Some(-1), "succeeded", 10));
    assert!(!task_prunable(Some(10), "failed", 10));
    assert!(!task_prunable(None, "failed", 10));
    assert!(!task_prunable(Some(5), "pending", 10));
    assert_eq!(
        legacy_state_entries(),
        vec![s("github-image-limits"), s("github-image-locks"), s("ratelimit.db"), s("ratelimit.lock")]
    );
}

#[test]
fn prune_report_lines() {
    let r = StatePruneReport { tokens_removed: 3, locks_removed: 1, legacy_dirs_removed: 2, tasks_removed: 10 };
    assert_eq!(prune_summary(&r, true), "State prune dry-run completed: tokens=3 locks=1 legacy_dirs=2 tasks=10");
    assert_eq!(prune_summary(&r, false), "State prune completed: tokens=3 locks=1 legacy_dirs=2 tasks=10");
    assert_eq!(
        prune_cli_line(&r, false),
        "Removed tokens=3 legacy_entries=2 stale_locks=1 tasks_pruned=10 dry_run=false"
    );
}

#[test]
fn run_task_environment() {
    let keys = run_task_env_keys();
    assert_eq!(keys.len(), 12);
    assert_eq!(keys[0], "PODUP_DB_URL");
    assert_eq!(keys[11], "PODUP_RELEASE_BASE_URL");
    let settings = vec![(s("A"), Some(s("1"))), (s("B"), Some(s("  "))), (s("C"), None), (s("D"), Some(s("x y")))];
    assert_eq!(run_task_env(&settings), vec![s("A=1"), s("D=x y")]);
}

#[test]
fn infra_gate_checks_database_first() {
    assert!(matches!(infra_gate(None, None), InfraGate::Ready));
    assert!(matches!(infra_gate(Some("db down"), Some("no podman")), InfraGate::DbUnavailable(m) if m == "db down"));
    assert!(matches!(infra_gate(None, Some("no podman")), InfraGate::PodmanUnavailable(m) if m == "no podman"));
}

#[test]
fn podman_check_settings() {
    assert!(skip_podman_check(Some("1")));
    assert!(skip_podman_check(Some("TRUE")));
    assert!(!skip_podman_check(Some(" 1")));
    assert!(!skip_podman_check(None));
    assert_eq!(podman_unavailable("exit=127"), "podman unavailable: exit=127");
}

#[test]
fn pull_retries_three_times() {
    assert_eq!(pull_step(1, false), PullStep::Retry { next: 2, delay_secs: 5 });
    assert_eq!(pull_step(2, false), PullStep::Retry { next: 3, delay_secs: 5 });
    assert_eq!(pull_step(3, false), PullStep::GiveUp);
    assert_eq!(pull_step(2, true), PullStep::Done);
}

#[test]
fn version_settings_and_verdicts() {
    let v = current_version(Some(" 1.2.3 "), "0.1.0", None);
    assert_eq!(v.package, "1.2.3");
    assert_eq!(v.release_tag, Some(s("v1.2.3")));
    let v = current_version(None, "0.1.0", Some("release-7"));
    assert_eq!(v.package, "0.1.0");
    assert_eq!(v.release_tag, Some(s("release-7")));
    assert_eq!(comparison_verdict(None), (None, s("uncomparable")));
    assert_eq!(comparison_verdict(Some(true)), (Some(true), s("semver")));
}

#[test]
fn frontend_dist_candidates_in_order() {
    assert_eq!(join_path("/srv/x", "web/dist"), "/srv/x/web/dist");
    assert_eq!(join_path("/srv/x/", "web/dist"), "/srv/x/web/dist");
    assert_eq!(join_path("", "web/dist"), "web/dist");
    let c = frontend_dist_candidates(Some("/state"), Some("/work"));
    assert_eq!(c, vec![s("/state/web/dist"), s("/work/web/dist")]);
    let c = frontend_dist_candidates(Some("  "), Some("/state"));
    assert_eq!(c, vec![s("/state/web/dist")]);
    let c = frontend_dist_candidates(Some("/state"), Some("/state/"));
    assert_eq!(c, vec![s("/state/web/dist")]);
    let chosen = choose_dist_dir(&[(s("/a"), false), (s("/b"), true), (s("/c"), true)]);
    assert_eq!(chosen, Some(s("/b")));
    assert_eq!(choose_dist_dir(&[(s("/a"), false), (s("/b"), false)]), None);
    assert_eq!(choose_dist_dir(&[]), None);
}

#[test]
fn host_backend_selection_never_falls_back_to_local() {
    assert_eq!(ssh_target_setting(Some("  ")), None);
    assert_eq!(ssh_target_setting(Some(" deploy@host ")), Some(s("deploy@host")));
    assert!(matches!(select_backend(None), SelectedBackend::Local(_)));
    match select_backend(Some(s("deploy@host"))) {
        SelectedBackend::Ssh(b) => assert_eq!(b.kind(), HostBackendKind::Ssh),
        _ => panic!("a valid target selects ssh"),
    }
    match select_backend(Some(s("host;rm -rf /"))) {
        SelectedBackend::Failing(b) => {
            assert_eq!(b.kind(), HostBackendKind::Ssh);
            match b.failure() {
                HostBackendError::ExecFailed(m) => assert!(m.starts_with("ssh-backend-init-failed: ")),
                other => panic!("unexpected failure {other:?}"),
            }
        }
        _ => panic!("an invalid target must not run locally"),
    }
}

#[test]
fn task_executor_choice() {
    assert_eq!(executor_kind(Some("local-child"), false), TaskExecutorKind::LocalChild);
    assert_eq!(executor_kind(Some(" systemd-run "), true), TaskExecutorKind::SystemdRun);
    assert_eq!(executor_kind(Some("bogus"), true), TaskExecutorKind::LocalChild);
    assert_eq!(executor_kind(None, false), TaskExecutorKind::SystemdRun);
    assert_eq!(executor_kind(Some(""), true), TaskExecutorKind::LocalChild);
    assert_eq!(TaskExecutorKind::LocalChild.as_str(), "local-child");
}

#[test]
fn only_webhook_tasks_can_be_stopped() {
    let gh = creation_plan(TaskOrigin::GithubWebhook);
    assert_eq!((gh.kind, gh.trigger_source, gh.can_stop, gh.can_force_stop, gh.can_retry), ("github-webhook", "webhook", true, true, false));
    let cli = creation_plan(TaskOrigin::CliMaintenancePrune);
    assert_eq!((cli.kind, cli.trigger_source, cli.can_stop), ("maintenance", "cli", false));
    let sched = creation_plan(TaskOrigin::SchedulerAutoUpdate);
    assert_eq!((sched.kind, sched.trigger_source), ("scheduler", "scheduler"));
    let manual = creation_plan(TaskOrigin::ManualDeploy);
    assert!(!manual.can_stop && !manual.can_force_stop);
    let plan = stop_plan("running", manual.can_stop, &Ok(Some(s("podup-task-x.service"))), true);
    assert!(!matches!(plan, StopPlan::Stop(_)));
}

#[test]
fn self_update_cron_settings() {
    assert!(matches!(self_update_cron_setting(None), CronSetting::Missing));
    assert!(matches!(self_update_cron_setting(Some("   ")), CronSetting::Missing));
    assert!(matches!(
        self_update_cron_setting(Some(" */5 * * * * ")),
        CronSetting::Schedule(SelfUpdateSchedule::EveryMinutes(5))
    ));
    assert!(matches!(self_update_cron_setting(Some("* * *")), CronSetting::Invalid(e) if e == "invalid-field-count"));
}

#[test]
fn host_directories() {
    let dir = container_systemd_dir(Some(" /etc/containers/systemd "), true, Some("/home/u")).unwrap();
    assert_eq!(dir.as_str(), "/etc/containers/systemd");
    assert_eq!(
        container_systemd_dir(None, true, Some("/home/u")).unwrap_err(),
        "PODUP_CONTAINER_DIR-missing (required when PODUP_SSH_TARGET is set)"
    );
    let dir = container_systemd_dir(Some("  "), false, Some("/home/u")).unwrap();
    assert_eq!(dir.as_str(), "/home/u/.config/containers/systemd");
    let dir = container_systemd_dir(None, false, None).unwrap();
    assert_eq!(dir.as_str(), "/srv/pod-upgrade-trigger/containers/systemd");
    assert!(container_systemd_dir(Some("relative/dir"), false, None).is_err());

    let logs = auto_update_log_dir(None, false, Some("/home/u/")).unwrap();
    assert_eq!(logs.as_str(), "/home/u/.local/share/podman-auto-update/logs");
    assert!(auto_update_log_dir(None, true, Some("/home/u")).is_none());
    assert!(auto_update_log_dir(Some("not-absolute"), false, Some("/home/u")).is_none());
    assert_eq!(auto_update_log_dir(Some("/var/log/pau"), true, None).unwrap().as_str(), "/var/log/pau");

    assert_eq!(self_update_report_dir(Some(" /r "), None), "/r");
    assert_eq!(self_update_report_dir(None, None), "/srv/pod-upgrade-trigger/self-update-reports");
    assert_eq!(self_update_report_dir(Some(""), Some("/state")), "/state/self-update-reports");
}

#[test]
fn image_lock_attempts() {
    assert_eq!(lock_step(true, 5000), LockStep::Acquired);
    assert_eq!(lock_step(false, 0), LockStep::Retry { wait_ms: 50 });
    assert_eq!(lock_step(false, 1999), LockStep::Retry { wait_ms: 50 });
    assert_eq!(lock_step(false, 2000), LockStep::TimedOut);
}

#[test]
fn dispatch_failure_summaries() {
    assert_eq!(dispatch_failure_summary("scheduler", Some("podman-auto-update.service")), "Failed to dispatch scheduler task for unit podman-auto-update.service");
    assert_eq!(dispatch_failure_summary("manual-trigger", None), "Failed to dispatch manual-trigger task");
}

#[test]
fn github_task_stop_marks_cancelled_and_stops_runner_unit() {
    // A running github-webhook task with delivery abc123 (can_stop 1), the
    // systemd-run executor.
    let plan = creation_plan(TaskOrigin::GithubWebhook);
    assert!(plan.can_stop);
    let meta = Some(Ok(Some(s("abc123"))));
    let runner = task_runner_unit_from_meta("github-webhook", &meta).unwrap();
    assert_eq!(runner, Some(s("webhook-task-abc123")));
    let unit = match stop_plan("running", plan.can_stop, &Ok(runner), true) {
        StopPlan::Stop(Some(u)) => u,
        _ => panic!("a running stoppable task with a runner unit is stopped"),
    };
    assert_eq!(
        runner_stop_command(StopMode::Graceful, &unit),
        vec![s("systemctl"), s("--user"), s("stop"), s("webhook-task-abc123")]
    );
    let row = stopped_row(StopMode::Graceful);
    assert_eq!(row.status, "cancelled");
    assert_eq!((row.can_stop, row.can_force_stop, row.can_retry), (false, false, true));
    assert_eq!(row.unit_status, "cancelled");
    let forced = stopped_row(StopMode::Force);
    assert_eq!(forced.status, "failed");
    assert_eq!(
        runner_stop_command(StopMode::Force, "webhook-task-x"),
        vec![s("systemctl"), s("--user"), s("kill"), s("--signal=SIGKILL"), s("webhook-task-x")]
    );
}

#[test]
fn runner_units_from_task_metadata() {
    assert_eq!(runner_unit_for_delivery("abc123"), "webhook-task-abc123");
    assert_eq!(task_runner_unit_from_meta("github-webhook", &None), Ok(None));
    assert_eq!(task_runner_unit_from_meta("manual", &Some(Err(s("x")))), Ok(None));
    assert_eq!(task_runner_unit_from_meta("github-webhook", &Some(Ok(None))), Ok(None));
    let err = task_runner_unit_from_meta("github-webhook", &Some(Err(s("expected value at line 1 column 1")))).unwrap_err();
    assert!(err.starts_with("invalid task meta for kind=github-webhook"));
}

#[test]
fn retry_creates_a_pending_copy() {
    let units = vec![(s("demo.service"), Some(s("demo")), Some(s("demo.service")))];
    let t = retry_task("github-webhook", &units);
    assert!(t.task_id.starts_with("retry_"));
    assert_eq!(t.task_id.len(), 22);
    assert_eq!(t.kind, "github-webhook");
    assert_eq!(t.status, "pending");
    assert_eq!((t.can_stop, t.can_force_stop, t.can_retry), (true, true, false));
    assert_eq!(t.units.len(), 1);
    assert_eq!(t.units[0].unit, "demo.service");
    assert_eq!(t.units[0].slug.as_deref(), Some("demo"));
    assert_eq!((t.units[0].status, t.units[0].phase, t.units[0].message), ("pending", "queued", "Retry pending"));
}

#[test]
fn task_log_stream_request_answers() {
    let g = stream_gate("POST", AdminDecision::Allowed, Some("task_id=t1"));
    assert!(matches!(g, StreamGate::MethodNotAllowed));
    assert_eq!(stream_gate_answer(&g), Some((405, "MethodNotAllowed", "method not allowed")));
    let g = stream_gate("GET", AdminDecision::Unauthorized, Some("task_id=t1"));
    assert!(matches!(g, StreamGate::Refused(AdminDecision::Unauthorized)));
    let g = stream_gate("GET", AdminDecision::Allowed, Some("task_id=%20&x=1"));
    assert!(matches!(g, StreamGate::MissingTaskId));
    assert_eq!(stream_gate_answer(&g), Some((400, "BadRequest", "missing task_id")));
    let g = stream_gate("GET", AdminDecision::Allowed, Some("task_id=tsk_1"));
    assert!(matches!(&g, StreamGate::Lookup(t) if t == "tsk_1"));
    assert_eq!(stream_gate_answer(&g), None);
    assert_eq!(stream_lookup_answer(&Ok(false)), Some((404, "NotFound", "task not found")));
    assert_eq!(stream_lookup_answer(&Ok(true)), None);
    assert_eq!(stream_lookup_answer(&Err(s("db"))), Some((500, "InternalServerError", "failed to load task")));
}

/// Reads a chunked body from `input` through the library's steps, as a
/// reader would; returns the body (or error) and what is left unread.
fn read_chunked(input: &[u8]) -> (Result<Vec<u8>, String>, Vec<u8>) {
    let mut pos = 0usize;
    let mut body = Vec::new();
    let mut phase = ChunkPhase::SizeLine;
    loop {
        let read = match phase {
            ChunkPhase::SizeLine | ChunkPhase::Trailer => {
                let end = input[pos..].iter().position(|b| *b == b'\n').map(|i| pos + i + 1).unwrap_or(input.len());
                let line = String::from_utf8(input[pos..end].to_vec()).unwrap();
                pos = end;
                ChunkRead::Line(Ok(line))
            }
            ChunkPhase::Data(n) => {
                let b = input[pos..pos + n].to_vec();
                pos += n;
                ChunkRead::Bytes(Ok(b))
            }
            ChunkPhase::Terminator => {
                pos += 2;
                ChunkRead::Bytes(Ok(b"\r\n".to_vec()))
            }
        };
        match chunk_step(phase, read, &mut body) {
            ChunkStep::Next(p) => phase = p,
            ChunkStep::Done => return (Ok(body), input[pos..].to_vec()),
            ChunkStep::Fail(e) => return (Err(e), input[pos..].to_vec()),
        }
    }
}

#[test]
fn chunked_bodies_are_read() {
    let (body, rest) = read_chunked(b"5\r\nhello\r\n6\r\n world\r\n0\r\n\r\nREST");
    assert_eq!(body, Ok(b"hello world".to_vec()));
    assert_eq!(rest, b"REST".to_vec());
    let (body, _) = read_chunked(b"a\r\n0123456789\r\n0\r\n\r\n");
    assert_eq!(body, Ok(b"0123456789".to_vec()));
    let (body, _) = read_chunked(b"zz\r\n");
    assert!(body.unwrap_err().starts_with("invalid chunk size 'zz'"));
}

#[test]
fn sanitized_asset_paths_are_relative_and_normal() {
    use_sanitized("/assets/./x//y.js", Some("assets/x/y.js"));
    use_sanitized("/assets/../secret", None);
    use_sanitized("///", Some("index.html"));
    use_sanitized("/assets/.", Some("assets"));
}

fn use_sanitized(path: &str, expected: Option<&str>) {
    let got = podup::http::sanitize_frontend_path(path);
    assert_eq!(got.as_deref(), expected);
    if let Some(p) = got {
        assert!(!p.starts_with('/') && !p.ends_with('/'));
        assert!(p.split('/').all(|c| !c.is_empty() && c != "." && c != ".."));
    }
}

#[test]
fn directory_discovery_keeps_enabled_units_sorted() {
    let entries = vec![
        (s("web.container"), Some(s("[Container]\nImage=x\nAutoUpdate=registry\n"))),
        (s("api.container"), Some(s("[Container]\nImage=y\nAutoUpdate=false\n"))),
        (s("job.container"), Some(s("[Container]\nImage=z\n"))),
        (s("db.kube"), None),
        (s("cache.service"), None),
        (s("bad name.container"), Some(s("AutoUpdate=registry\n"))),
        (s("notes.txt"), None),
        (s("cache.service"), None),
    ];
    let units = dir_discovered_units("/etc/containers/systemd", true, &entries);
    assert_eq!(units, vec![s("cache.service"), s("job.service"), s("web.service")]);
    assert!(dir_discovered_units("/etc/containers/systemd", false, &entries).is_empty());
}

#[test]
fn running_digests_for_every_unit() {
    let units = vec![s("a.service"), s("b.service")];
    let failed = resolve_running_digests(&units, None, None);
    assert_eq!(failed.len(), 2);
    assert!(failed.iter().all(|e| e.digest.is_none() && e.reason.as_deref() == Some("podman-ps-failed")));
    let ps = Json::Array(vec![]);
    let none = resolve_running_digests(&units, Some(&ps), None);
    assert!(none.iter().all(|e| e.digest.is_none() && e.reason.as_deref() == Some("container-not-found")));
    assert!(resolve_running_digests(&[], Some(&ps), None).is_empty());
}

#[test]
fn empty_patterns_behave_as_std() {
    assert_eq!(replace_str("abc", "", "-"), "abc".replace("", "-"));
    assert_eq!(replace_str("", "", "-"), "-");
    assert_eq!(trim_start_matches_str("abc", ""), "abc");
    assert_eq!(replace_str("a.b.c", ".", "/"), "a/b/c");
}

#[test]
fn accepted_host_paths_are_safe() {
    assert!(validate_host_abs_path("/srv/app/web-1/x_y.conf").is_ok());
    assert_eq!(validate_host_abs_path("/tmp/a@b"), Err(s("path-invalid-char")));
    assert!(validate_host_abs_path("/tmp/../etc").is_err());
    assert!(validate_host_abs_path("tmp").is_err());
}
