use podup::dispatch::{task_run, DeployUnitSpec, TaskMeta, TaskRun};
use podup::host::CommandExecResult;
use podup::hookstatus::{webhook_links, webhook_statuses, WebhookEvent};
use podup::json::Json;
use podup::manual::{
    dry_run_deploy_message, requested_units, service_response_status, service_target,
    trigger_response_status, ServiceTargetError,
};
use podup::ratelimit::RateLimitError;
use podup::runs::{needs_diagnostics, trigger_run_outcome, trigger_unit_record};
use podup::systemd::{
    diagnose_journal_args, diagnose_status_args, diagnostic_entry, health_check_args,
    health_error_summary, health_result, health_summary, health_verdict, keep_polling,
    UnitHealthVerdict,
};
use podup::tasks::{
    api_task_plan, api_unit_slug, retry_plan, stop_notice, stop_plan, stopped_record,
    CreateTaskRequest, StopMode, StopPlan,
};
use podup::units::{UnitActionResult, UnitOperationPurpose};
use podup::webhooktask::{next_step, pull_failure_message, WebhookTaskEvent, WebhookTaskStep};

fn s(x: &str) -> String {
    x.to_string()
}

fn strings(items: &[&str]) -> Vec<String> {
    items.iter().map(|x| x.to_string()).collect()
}

fn obj(members: Vec<(&str, Json)>) -> Json {
    Json::Object(members.into_iter().map(|(k, v)| (s(k), v)).collect())
}

fn text(x: &str) -> Json {
    Json::Str(s(x))
}

fn props(items: &[(&str, &str)]) -> Vec<(String, String)> {
    items.iter().map(|(k, v)| (s(k), s(v))).collect()
}

fn exec(code: Option<i32>, stderr: &str) -> CommandExecResult {
    CommandExecResult { exit_code: code, stdout: String::new(), stderr: s(stderr) }
}

fn event(ts: i64, status: i64, path: Option<&str>, request_id: &str, meta: Json) -> WebhookEvent {
    WebhookEvent { ts, status, path: path.map(s), request_id: s(request_id), meta }
}

#[test]
fn stop_requests_are_answered() {
    let plan = stop_plan("succeeded", true, &Ok(None), true);
    let n = stop_notice(StopMode::Graceful, &plan).unwrap();
    assert_eq!((n.level, n.action, n.http_status), ("info", "task-stop-noop", 200));
    assert_eq!(n.summary, "Stop requested but task already in terminal state");
    assert_eq!(n.message, None);

    let plan = stop_plan("running", false, &Ok(None), true);
    let n = stop_notice(StopMode::Force, &plan).unwrap();
    assert_eq!(n.action, "task-force-stop-unsupported");
    assert_eq!(n.http_status, 400);
    assert_eq!(n.message, Some("task cannot be safely force-stopped"));
    assert_eq!(n.field, Some(("reason", "unsupported")));

    let plan = stop_plan("running", true, &Err(s("bad meta")), true);
    let n = stop_notice(StopMode::Graceful, &plan).unwrap();
    assert_eq!((n.level, n.http_status), ("error", 500));
    assert_eq!(n.message, Some("failed to stop task"));
    assert_eq!(n.field, Some(("error", "invalid-task-meta")));

    let plan = stop_plan("running", true, &Ok(None), true);
    let n = stop_notice(StopMode::Graceful, &plan).unwrap();
    assert_eq!(n.summary, "Stop requested but task has no controllable runner unit");
    assert_eq!(n.field, Some(("reason", "no-runner-unit")));

    let plan = stop_plan("running", true, &Ok(Some(s("runner.service"))), true);
    assert!(matches!(plan, StopPlan::Stop(Some(ref u)) if u == "runner.service"));
    assert!(stop_notice(StopMode::Force, &plan).is_none());

    assert_eq!(
        stopped_record(StopMode::Graceful),
        ("warning", "task-cancelled", "Task cancelled via /stop API", "cancelled by user")
    );
    assert_eq!(stopped_record(StopMode::Force).1, "task-force-killed");
}

#[test]
fn retries_and_api_tasks_are_planned() {
    assert!(retry_plan("running", None, None).is_none());
    assert!(retry_plan("pending", Some("x"), None).is_none());
    let p = retry_plan("failed", Some("Deploy app"), Some(5)).unwrap();
    assert_eq!(p.summary, "Deploy app \u{b7} retry");
    assert_eq!(p.is_long_running, Some(1));
    let p = retry_plan("cancelled", None, Some(0)).unwrap();
    assert_eq!(p.summary, "Retry of previous task");
    assert_eq!(p.is_long_running, Some(0));

    let req = CreateTaskRequest {
        kind: Some(s("maintenance")),
        source: Some(s("   ")),
        units: Some(strings(&[" ", "a.service", "  b  "])),
        caller: Some(s("  ops  ")),
        reason: Some(s(" ")),
        path: None,
        is_long_running: Some(false),
    };
    let plan = api_task_plan(&req);
    assert_eq!(plan.kind, "maintenance");
    assert_eq!(plan.source, "manual");
    assert_eq!(plan.units, strings(&["a.service", "  b  "]));
    assert_eq!(plan.caller.as_deref(), Some("ops"));
    assert_eq!(plan.reason, None);
    assert!(!plan.is_long_running);
    assert_eq!(plan.summary, "Maintenance task started from API");

    let empty = CreateTaskRequest {
        kind: None,
        source: None,
        units: None,
        caller: None,
        reason: None,
        path: Some(s(" /x ")),
        is_long_running: None,
    };
    let plan = api_task_plan(&empty);
    assert_eq!(plan.kind, "manual");
    assert_eq!(plan.units, strings(&["unknown.unit"]));
    assert_eq!(plan.path.as_deref(), Some("/x"));
    assert!(plan.is_long_running);
    assert_eq!(plan.summary, "Manual task started from API");

    assert_eq!(api_unit_slug("/app/.service"), Some(s("app")));
    assert_eq!(api_unit_slug("web.service"), Some(s("web")));
    assert_eq!(api_unit_slug("unknown.unit"), None);
}

#[test]
fn health_checks_are_read() {
    assert_eq!(
        health_check_args("app.service"),
        strings(&[
            "show",
            "app.service",
            "--property=ActiveState",
            "--property=SubState",
            "--property=Result",
            "--property=Type",
            "--property=ExecMainStatus"
        ])
    );
    let settling = props(&[("ActiveState", " Activating "), ("Type", "notify")]);
    assert!(keep_polling(&settling, 100));
    assert!(!keep_polling(&settling, 20000));
    assert!(!keep_polling(&props(&[("ActiveState", "active"), ("Type", "notify")]), 0));
    assert!(!keep_polling(&props(&[("ActiveState", "inactive"), ("Type", "oneshot")]), 0));
    assert!(!keep_polling(&props(&[("ActiveState", "failed")]), 0));
    assert!(keep_polling(&props(&[]), 0));

    assert_eq!(health_summary(UnitHealthVerdict::Healthy, ""), "Unit health check: OK");
    assert_eq!(
        health_summary(UnitHealthVerdict::Failed, "ActiveState=failed"),
        "Unit health check: FAILED \u{b7} ActiveState=failed"
    );
    assert_eq!(health_result(UnitHealthVerdict::Degraded), "degraded");
    assert_eq!(health_verdict(false, &props(&[("ActiveState", "active")])), UnitHealthVerdict::Unknown);
    assert_eq!(health_verdict(true, &props(&[])), UnitHealthVerdict::Unknown);
    assert_eq!(health_verdict(true, &props(&[("ActiveState", "failed")])), UnitHealthVerdict::Failed);
    assert_eq!(health_error_summary("ssh down"), "Unit health check: unavailable (ssh down)");

    assert_eq!(diagnose_status_args("u.service"), strings(&["status", "u.service", "--no-pager", "--full"]));
    assert_eq!(
        diagnose_journal_args("u.service", 200),
        strings(&["-u", "u.service", "-n", "200", "--no-pager", "--output=short-precise"])
    );
    assert_eq!(
        diagnostic_entry(true, false),
        ("warning", "unit-diagnose-journal", "failed", "Unit diagnostics: journalctl")
    );
    assert_eq!(
        diagnostic_entry(false, true),
        ("info", "unit-diagnose-status", "succeeded", "Unit diagnostics: systemctl status")
    );
}

#[test]
fn trigger_runs_are_summarised() {
    assert_eq!(
        trigger_run_outcome(&strings(&["triggered", "dry-run", "failed", "error", "triggered"])),
        ("failed", s("2/5 units triggered, 2 failed"))
    );
    assert_eq!(trigger_run_outcome(&strings(&["triggered", "dry-run"])), ("succeeded", s("1/2 units triggered")));
    assert_eq!(trigger_run_outcome(&[]), ("succeeded", s("0/0 units triggered")));

    let r = trigger_unit_record("error", UnitOperationPurpose::Restart, Some(s("exit=1")));
    assert_eq!(r.status, "failed");
    assert_eq!(r.message.as_deref(), Some("restart failed"));
    assert_eq!(r.error.as_deref(), Some("exit=1"));
    assert_eq!(r.level, "error");
    assert_eq!(r.summary, "Manual trigger unit restart failed");
    let r = trigger_unit_record("triggered", UnitOperationPurpose::Start, Some(s("ignored")));
    assert_eq!((r.status.as_str(), r.level), ("succeeded", "info"));
    assert_eq!(r.error, None);
    assert_eq!(r.summary, "Manual trigger unit start succeeded");
    assert_eq!(trigger_unit_record("dry-run", UnitOperationPurpose::Start, None).status, "skipped");
    assert_eq!(trigger_unit_record("pending", UnitOperationPurpose::Start, None).status, "pending");
    assert!(needs_diagnostics(true, "error"));
    assert!(!needs_diagnostics(false, "failed"));
    assert!(!needs_diagnostics(true, "triggered"));
}

#[test]
fn webhook_tasks_step_through_their_stages() {
    assert!(matches!(next_step(&WebhookTaskEvent::Limited(Ok(()))), WebhookTaskStep::Pull));
    match next_step(&WebhookTaskEvent::Limited(Err(RateLimitError::Exceeded { c1: 3, l1: 2, c2: 0, l2: 0 }))) {
        WebhookTaskStep::Finish(o) => {
            assert_eq!((o.task_status, o.unit_status, o.action), ("skipped", "skipped", "image-rate-limit"));
            assert_eq!(o.summary, "Skipped due to image rate-limit exceeded");
        },
        _ => panic!("expected a finish"),
    }
    match next_step(&WebhookTaskEvent::Limited(Err(RateLimitError::LockTimeout))) {
        WebhookTaskStep::Finish(o) => assert_eq!(o.summary, "Skipped due to image rate-limit lock timeout"),
        _ => panic!("expected a finish"),
    }
    assert!(matches!(
        next_step(&WebhookTaskEvent::Limited(Err(RateLimitError::Io(s("db locked"))))),
        WebhookTaskStep::Abort(ref e) if e == "db locked"
    ));
    assert!(matches!(next_step(&WebhookTaskEvent::Pulled(Ok(exec(Some(0), "")))), WebhookTaskStep::Restart));
    match next_step(&WebhookTaskEvent::Pulled(Ok(exec(Some(125), "denied")))) {
        WebhookTaskStep::Finish(o) => assert_eq!((o.task_status, o.action, o.level), ("failed", "image-pull", "error")),
        _ => panic!("expected a finish"),
    }
    assert!(matches!(next_step(&WebhookTaskEvent::Restarted(Ok(exec(Some(0), "")))), WebhookTaskStep::CheckHealth));
    match next_step(&WebhookTaskEvent::Restarted(Err(s("ssh")))) {
        WebhookTaskStep::Finish(o) => assert_eq!(o.summary, "Restart unit error for github webhook task"),
        _ => panic!("expected a finish"),
    }
    match next_step(&WebhookTaskEvent::Checked(UnitHealthVerdict::Healthy, s("ok"))) {
        WebhookTaskStep::Finish(o) => {
            assert_eq!(o.task_status, "succeeded");
            assert_eq!(o.error, None);
        },
        _ => panic!("expected a finish"),
    }
    match next_step(&WebhookTaskEvent::Checked(UnitHealthVerdict::Degraded, s("Unit health check: degraded"))) {
        WebhookTaskStep::Finish(o) => {
            assert_eq!((o.task_status, o.level), ("unknown", "warning"));
            assert_eq!(o.error.as_deref(), Some("Unit health check: degraded"));
        },
        _ => panic!("expected a finish"),
    }
    assert_eq!(pull_failure_message(&exec(Some(125), "denied")), "125: denied");
    assert_eq!(pull_failure_message(&exec(None, "")), "signal");
}

#[test]
fn stored_tasks_go_to_their_runners() {
    let webhook = TaskMeta::GithubWebhook {
        unit: s("app.service"),
        image: s("ghcr.io/a/app:1"),
        event: s("package"),
        delivery: s("d1"),
        path: s("/github-package-update/app"),
    };
    assert!(matches!(task_run("github-webhook", &webhook, "auto.service"), TaskRun::GithubWebhook { ref unit, .. } if unit == "app.service"));
    assert!(matches!(task_run("manual", &webhook, "auto.service"), TaskRun::Unsupported));
    let deploy = TaskMeta::ManualDeploy {
        all: true,
        dry_run: false,
        units: vec![DeployUnitSpec { unit: s("a.service"), image: s("i") }],
        skipped: vec![],
    };
    assert!(matches!(task_run("manual", &deploy, "x"), TaskRun::ManualDeploy));
    let svc = TaskMeta::ManualService { unit: s("auto.service"), dry_run: false, image: None };
    assert!(matches!(task_run("manual", &svc, "auto.service"), TaskRun::AutoUpdate { .. }));
    let svc_img = TaskMeta::ManualService { unit: s("auto.service"), dry_run: false, image: Some(s("i")) };
    assert!(matches!(task_run("manual", &svc_img, "auto.service"), TaskRun::ManualService { image: Some(_), .. }));
    let svc_dry = TaskMeta::ManualService { unit: s("web.service"), dry_run: true, image: None };
    assert!(matches!(task_run("manual", &svc_dry, "auto.service"), TaskRun::ManualServiceDryRun { .. }));
    let au = TaskMeta::AutoUpdate { unit: s("auto.service") };
    assert!(matches!(task_run("scheduler", &au, "x"), TaskRun::AutoUpdate { .. }));
    assert!(matches!(task_run("maintenance", &au, "x"), TaskRun::Unsupported));
    let prune = TaskMeta::MaintenancePrune { max_age_hours: 0, dry_run: true };
    assert!(matches!(task_run("maintenance", &prune, "x"), TaskRun::MaintenancePrune { retention_secs: 1, dry_run: true }));
    let prune = TaskMeta::MaintenancePrune { max_age_hours: u64::MAX, dry_run: false };
    assert!(matches!(task_run("maintenance", &prune, "x"), TaskRun::MaintenancePrune { retention_secs: u64::MAX, .. }));
    let su = TaskMeta::SelfUpdateRun { dry_run: true };
    assert!(matches!(task_run("maintenance", &su, "x"), TaskRun::SelfUpdate { dry_run: true }));
    assert!(matches!(task_run("manual", &TaskMeta::Other, "x"), TaskRun::Unsupported));
    let run = TaskMeta::AutoUpdateRun { unit: s("auto.service"), dry_run: true };
    assert!(matches!(task_run("manual", &run, "x"), TaskRun::AutoUpdateRun { dry_run: true, .. }));
    assert!(matches!(task_run("manual", &TaskMeta::ManualTrigger { all: false, dry_run: false }, "x"), TaskRun::ManualTrigger));
}

#[test]
fn manual_requests_are_answered() {
    let managed = strings(&["a.service", "b.service"]);
    assert_eq!(requested_units(true, &strings(&["x.service"]), &managed), managed);
    assert_eq!(requested_units(false, &[], &managed), managed);
    assert_eq!(
        requested_units(false, &strings(&["demo", "Bad Name.service", "c.service"]), &managed),
        strings(&["demo.service", "c.service"])
    );
    let ok = UnitActionResult { unit: s("a"), status: s("pending"), message: None };
    let bad = UnitActionResult { unit: s("b"), status: s("failed"), message: None };
    assert_eq!(trigger_response_status(&[ok.clone()]), (202, "Accepted"));
    assert_eq!(trigger_response_status(&[ok, bad]), (207, "Multi-Status"));
    assert_eq!(service_response_status("dry-run"), (202, "Accepted"));
    assert_eq!(service_response_status("error"), (500, "InternalServerError"));
    assert_eq!(service_target("/demo/").ok(), Some(s("demo.service")));
    assert!(matches!(service_target("//"), Err(ServiceTargetError::MissingSlug)));
    assert!(matches!(service_target("/Bad Name.service"), Err(ServiceTargetError::NotFound(ref t)) if t == "Bad Name.service"));
    assert_eq!(dry_run_deploy_message("img:1", "a.service"), "Would pull img:1 then restart a.service");
}

#[test]
fn webhook_status_is_aggregated() {
    let events = vec![
        event(300, 202, Some("/github-package-update/app"), "r3", obj(vec![])),
        event(300, 500, None, "r3b", obj(vec![("unit", text("app.service"))])),
        event(200, 401, Some("/github-package-update/app"), "r2", obj(vec![("reason", text("bad-signature"))])),
        event(100, 401, Some("/github-package-update/app"), "r1", obj(vec![("reason", text("old"))])),
        event(250, 202, Some("/github-package-update/zeta/redeploy"), "z1", obj(vec![])),
        event(260, 404, Some("/unknown"), "n1", obj(vec![])),
    ];
    let configured = strings(&["web.service", "app.service", "web.service"]);
    let (statuses, order) = webhook_statuses(&configured, &events);
    assert_eq!(statuses.len(), 3);
    let listed: Vec<&str> = order.iter().map(|&i| statuses[i].unit.as_str()).collect();
    assert_eq!(listed, vec!["app.service", "web.service", "zeta.service"]);
    let app = statuses.iter().find(|s| s.unit == "app.service").unwrap();
    assert_eq!(app.slug, "app");
    assert_eq!(app.last_ts, Some(300));
    assert_eq!(app.last_status, Some(202));
    assert_eq!(app.last_request_id.as_deref(), Some("r3"));
    assert_eq!(app.last_success_ts, Some(300));
    assert_eq!(app.last_failure_ts, Some(300));
    assert_eq!(app.last_hmac_error_ts, Some(200));
    assert_eq!(app.last_hmac_error_reason.as_deref(), Some("bad-signature"));
    let web = statuses.iter().find(|s| s.unit == "web.service").unwrap();
    assert_eq!(web.last_ts, None);
    let zeta = statuses.iter().find(|s| s.unit == "zeta.service").unwrap();
    assert_eq!(zeta.last_success_ts, Some(250));

    assert_eq!(
        webhook_links("app", Some("https://hooks.example")),
        (
            s("/github-package-update/app"),
            s("/github-package-update/app/redeploy"),
            s("https://hooks.example/github-package-update/app"),
            s("https://hooks.example/github-package-update/app/redeploy")
        )
    );
    assert_eq!(webhook_links("app", None).2, "/github-package-update/app");
}
