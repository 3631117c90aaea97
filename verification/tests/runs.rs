use podup::json::Json;
use podup::runs::{
    auto_update_outcome, deploy_summary, deploy_unit_message, event_log, no_summary_outcome,
    pick_latest_log, restart_status, status_after_health, LogEntry,
};
use podup::systemd::UnitHealthVerdict;
use podup::host::CommandExecResult;
use podup::runs::{log_threshold, warning_entry, warnings_ingest, deploy_unit_next, poll_step, DeployUnitEvent, DeployUnitStep, RunPoll, RunPollAction, RunPollEvent, AUTO_UPDATE_RUN_MAX_SECS};

fn s(x: &str) -> String {
    x.to_string()
}

fn obj(members: Vec<(&str, Json)>) -> Json {
    Json::Object(members.into_iter().map(|(k, v)| (s(k), v)).collect())
}

fn text(x: &str) -> Json {
    Json::Str(s(x))
}

fn num(x: &str) -> Json {
    Json::Number(s(x))
}

fn entry(name: &str, is_file: bool, modified: Option<u64>) -> LogEntry {
    LogEntry { name: s(name), is_file, modified }
}

#[test]
fn restart_results_become_deploy_statuses() {
    assert_eq!(restart_status("triggered"), "succeeded");
    assert_eq!(restart_status("failed"), "failed");
    assert_eq!(restart_status("error"), "failed");
    assert_eq!(restart_status("dry-run"), "unknown");
    assert_eq!(restart_status(""), "unknown");

    assert_eq!(status_after_health("failed", Some(UnitHealthVerdict::Healthy)), "failed");
    assert_eq!(status_after_health("succeeded", Some(UnitHealthVerdict::Failed)), "failed");
    assert_eq!(status_after_health("succeeded", Some(UnitHealthVerdict::Degraded)), "unknown");
    assert_eq!(status_after_health("succeeded", Some(UnitHealthVerdict::Unknown)), "unknown");
    assert_eq!(status_after_health("succeeded", Some(UnitHealthVerdict::Healthy)), "succeeded");
    assert_eq!(status_after_health("unknown", None), "unknown");

    assert_eq!(deploy_unit_message("succeeded"), "deployed");
    assert_eq!(deploy_unit_message("unknown"), "completed with warnings");
    assert_eq!(deploy_unit_message("failed"), "failed");
}

#[test]
fn deploy_summaries_count_units() {
    let all_good = deploy_summary(2, 0, 0, 2, 1);
    assert_eq!(all_good.status, "succeeded");
    assert_eq!(all_good.level, "info");
    assert_eq!(all_good.text, "2/3 units deployed, 0 failed, 1 skipped");

    let mixed = deploy_summary(1, 1, 1, 3, 0);
    assert_eq!(mixed.status, "failed");
    assert_eq!(mixed.level, "warning");
    assert_eq!(mixed.text, "1/3 units deployed, 1 failed, 0 skipped, 1 unknown");

    let warned = deploy_summary(1, 0, 1, 2, 0);
    assert_eq!(warned.status, "unknown");
    assert_eq!(warned.level, "warning");
    assert_eq!(warned.text, "1/2 units deployed, 0 failed, 0 skipped, 1 unknown");
}

#[test]
fn auto_update_events_are_logged() {
    let err = obj(vec![
        ("type", text("auto-update-error")),
        ("image", text("ghcr.io/acme/app:1")),
        ("error", text("pull failed")),
    ]);
    let (level, status, message) = event_log(&err, "app.service");
    assert_eq!(level, "error");
    assert_eq!(status, "running");
    assert_eq!(
        message,
        "auto-update-error from podman auto-update for ghcr.io/acme/app:1: pull failed"
    );

    let dry = obj(vec![("type", text("dry-run-error")), ("container_name", text("web"))]);
    let (level, status, message) = event_log(&dry, "app.service");
    assert_eq!(level, "warning");
    assert_eq!(status, "running");
    assert_eq!(message, "dry-run-error reported by podman auto-update for web");

    let bare = obj(vec![("type", text("dry-run-error"))]);
    assert_eq!(
        event_log(&bare, "app.service").2,
        "dry-run-error reported by podman auto-update for app.service"
    );

    let summary = obj(vec![("type", text("summary"))]);
    let (level, status, message) = event_log(&summary, "u");
    assert_eq!(level, "info");
    assert_eq!(status, "succeeded");
    assert_eq!(message, "Auto-update summary received from podman auto-update");

    assert_eq!(event_log(&obj(vec![]), "u").2, "Auto-update event from podman auto-update");
    assert_eq!(
        event_log(&obj(vec![("type", text("pull"))]), "u").2,
        "Auto-update event: pull"
    );
}

#[test]
fn auto_update_summaries_give_outcomes() {
    let counts = obj(vec![("total", num("5")), ("succeeded", num("2")), ("failed", num("1"))]);
    let summary = obj(vec![
        ("type", text("summary")),
        ("summary", obj(vec![("counts", counts)])),
    ]);
    let out = auto_update_outcome(&summary, false);
    assert_eq!(out.total, 5);
    assert_eq!(out.succeeded, 2);
    assert_eq!(out.failed, 1);
    assert_eq!(out.unchanged, 2);
    assert_eq!(out.task_status, "failed");
    assert_eq!(out.level, "error");
    assert_eq!(
        out.text,
        "podman auto-update completed: total=5, updated=2, failed=1, unchanged=2"
    );

    let quiet = obj(vec![(
        "summary",
        obj(vec![("counts", obj(vec![("total", num("3")), ("succeeded", num("-1"))]))]),
    )]);
    let out = auto_update_outcome(&quiet, true);
    assert_eq!(out.succeeded, 0);
    assert_eq!(out.unchanged, 3);
    assert_eq!(out.task_status, "succeeded");
    assert_eq!(out.level, "info");
    assert_eq!(
        out.text,
        "podman auto-update dry-run completed: total=3, updated=0, failed=0, unchanged=3"
    );

    let (task, unit, level, message, reason) = no_summary_outcome(true, false, 600);
    assert_eq!((task, unit, level, reason), ("failed", "failed", "error", "timeout"));
    assert_eq!(
        message,
        "podman auto-update run timed out after 600 seconds; check podman auto-update logs"
    );
    let (task, unit, level, message, reason) = no_summary_outcome(false, true, 600);
    assert_eq!((task, unit, level, reason), ("unknown", "unknown", "warning", "no-summary"));
    assert!(message.starts_with("podman auto-update dry-run completed (no JSONL summary found"));
}

#[test]
fn newest_jsonl_log_is_picked() {
    let entries = vec![
        entry("a.jsonl", true, Some(100)),
        entry("b.jsonl", true, Some(300)),
        entry("c.txt", true, Some(900)),
        entry("d.jsonl", false, Some(800)),
        entry("e.jsonl", true, Some(300)),
        entry("f.jsonl", true, None),
    ];
    assert_eq!(pick_latest_log(&entries, &[], 0), Some(1));
    assert_eq!(pick_latest_log(&entries, &[s("b.jsonl")], 0), Some(4));
    assert_eq!(pick_latest_log(&entries, &[], 200), Some(1));
    assert_eq!(pick_latest_log(&entries, &[], 400), None);
    assert_eq!(pick_latest_log(&[], &[], 0), None);
}

#[test]
fn manual_deploy_run_task_records_failures_for_podman_pull() {
    // MOCK_PODMAN_FAIL=1: `podman pull ghcr.io/example/svc-alpha:latest` for
    // svc-alpha.service exits non-zero.
    let pulled = DeployUnitEvent::Pulled(Ok(CommandExecResult {
        exit_code: Some(1),
        stdout: String::new(),
        stderr: "mock podman failure".to_string(),
    }));
    let unit_status = match deploy_unit_next(&pulled) {
        DeployUnitStep::Done(status) => status,
        _ => panic!("a failed pull must end the unit"),
    };
    let task = deploy_summary(0, 1, 0, 1, 0);
    assert_eq!(task.status, "failed");
    assert_eq!(unit_status, "failed");
}

#[test]
fn deploy_unit_steps_through_restart_and_health() {
    let ok = DeployUnitEvent::Pulled(Ok(CommandExecResult { exit_code: Some(0), stdout: String::new(), stderr: String::new() }));
    assert!(matches!(deploy_unit_next(&ok), DeployUnitStep::Restart));
    assert!(matches!(deploy_unit_next(&DeployUnitEvent::Pulled(Err("no podman".to_string()))), DeployUnitStep::Done(s) if s == "failed"));
    assert!(matches!(deploy_unit_next(&DeployUnitEvent::Restarted("triggered".to_string())), DeployUnitStep::CheckHealth(s) if s == "succeeded"));
    assert!(matches!(deploy_unit_next(&DeployUnitEvent::Restarted("error".to_string())), DeployUnitStep::Done(s) if s == "failed"));
    assert!(matches!(deploy_unit_next(&DeployUnitEvent::Restarted("dry-run".to_string())), DeployUnitStep::CheckHealth(s) if s == "unknown"));
    let checked = DeployUnitEvent::Checked { status: "succeeded".to_string(), verdict: UnitHealthVerdict::Degraded };
    assert!(matches!(deploy_unit_next(&checked), DeployUnitStep::Done(s) if s == "unknown"));
    let checked = DeployUnitEvent::Checked { status: "succeeded".to_string(), verdict: UnitHealthVerdict::Healthy };
    assert!(matches!(deploy_unit_next(&checked), DeployUnitStep::Done(s) if s == "succeeded"));
}

#[test]
fn auto_update_run_poll_follows_the_new_log() {
    let dir = "/home/u/.local/share/podman-auto-update/logs";
    let baseline = vec![s("old.jsonl")];
    let start = RunPoll { file: None, processed: 0 };
    let (st, a) = poll_step(dir, &baseline, AUTO_UPDATE_RUN_MAX_SECS, start, &RunPollEvent::Tick(0));
    assert!(matches!(a, RunPollAction::ListDir));
    let listing = Ok(vec![
        entry("old.jsonl", true, Some(500)),
        entry("run-1.jsonl", true, Some(100)),
        entry("run-2.jsonl", true, Some(200)),
        entry("notes.txt", true, Some(900)),
    ]);
    let (st, a) = poll_step(dir, &baseline, AUTO_UPDATE_RUN_MAX_SECS, st, &RunPollEvent::Listed(listing));
    let path = format!("{dir}/run-2.jsonl");
    assert!(matches!(&a, RunPollAction::ReadFile(p) if *p == path));
    assert_eq!(st.file.as_deref(), Some(path.as_str()));
    let (st, a) = poll_step(dir, &baseline, AUTO_UPDATE_RUN_MAX_SECS, st, &RunPollEvent::Read(Ok(s("{\"a\":1}\n\n"))));
    assert_eq!(st.processed, 2);
    assert!(matches!(&a, RunPollAction::Handle { lines, sleep_ms: 1000 } if *lines == vec![s("{\"a\":1}")]));
    let (st, a) = poll_step(dir, &baseline, AUTO_UPDATE_RUN_MAX_SECS, st, &RunPollEvent::Tick(5));
    assert!(matches!(&a, RunPollAction::ReadFile(p) if *p == path));
    let more = s("{\"a\":1}\n\n {\"type\":\"summary\"} \n");
    let (st, a) = poll_step(dir, &baseline, AUTO_UPDATE_RUN_MAX_SECS, st, &RunPollEvent::Read(Ok(more)));
    assert_eq!(st.processed, 3);
    assert!(matches!(&a, RunPollAction::Handle { lines, .. } if *lines == vec![s("{\"type\":\"summary\"}")]));
    let (_, a) = poll_step(dir, &baseline, AUTO_UPDATE_RUN_MAX_SECS, st, &RunPollEvent::Tick(AUTO_UPDATE_RUN_MAX_SECS));
    assert!(matches!(a, RunPollAction::GiveUp));
    let empty = RunPoll { file: None, processed: 0 };
    let (_, a) = poll_step(dir, &baseline, 10, empty, &RunPollEvent::Listed(Ok(vec![entry("old.jsonl", true, Some(1))])));
    assert!(matches!(a, RunPollAction::Sleep(1000)));
    let empty = RunPoll { file: None, processed: 0 };
    let (_, a) = poll_step(dir, &baseline, 10, empty, &RunPollEvent::Listed(Err(s("denied"))));
    assert!(matches!(a, RunPollAction::GiveUp));
}

#[test]
fn auto_update_dry_run_errors_are_ingested_into_task_logs_and_events() {
    let dry_run_error = obj(vec![
        ("type", text("dry-run-error")),
        ("container", text("svc-alpha")),
        ("image", text("ghcr.io/example/svc-alpha:latest")),
        ("error", text("manifest unknown")),
    ]);
    let summary = obj(vec![("type", text("summary")), ("summary", obj(vec![("counts", obj(vec![("total", num("1"))]))]))]);
    let events = vec![dry_run_error, summary];
    // PODUP_AUTO_UPDATE_LOG_MAX_AGE_SECS=31536000: the fresh log is read.
    let now = 1_700_000_000u64;
    let threshold = log_threshold(now, Some("31536000"));
    assert_eq!(threshold, now - 31_536_000);
    assert_eq!(pick_latest_log(&[entry("run.jsonl", true, Some(now - 5))], &[], threshold), Some(0));
    let ingest = warnings_ingest(&events).unwrap();
    assert_eq!(ingest.warning_count, 1);
    assert_eq!(ingest.warnings, vec![0]);
    assert_eq!((ingest.summary_level, ingest.summary_action, ingest.summary_status), ("info", "auto-update-warnings", "succeeded"));
    assert_eq!(ingest.summary, "Auto-update succeeded with 1 warning(s) from podman auto-update");
    assert_eq!((ingest.warning_action, ingest.warning_status), ("auto-update-warning", "succeeded"));
    assert_eq!((ingest.event_kind, ingest.event_status), ("auto-update-warning", 200));
    let entry_log = warning_entry(&events[0], "podman-auto-update.service");
    assert_eq!(entry_log.level, "warning");
    assert_eq!(
        entry_log.summary,
        "[dry-run-error] auto-update warning for ghcr.io/example/svc-alpha:latest: manifest unknown"
    );
    // PODUP_AUTO_UPDATE_LOG_MAX_AGE_SECS=0: a log written before now is too old.
    let threshold = log_threshold(now, Some("0"));
    assert_eq!(pick_latest_log(&[entry("run.jsonl", true, Some(now - 5))], &[], threshold), None);
    assert_eq!(log_threshold(now, None), now - 600);
    assert!(warnings_ingest(&events[1..]).is_none());
}
