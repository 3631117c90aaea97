use podup::config::{
    env_flag_value, env_u64_value, journal_lines, manual_auto_update_unit, manual_env_unit_list,
    normalize_command, parse_self_update_cron, schedule_interval_secs, scheduler_sleep_secs,
    task_retention_secs, SelfUpdateSchedule,
};
use podup::host::CommandExecResult;
use podup::units::{
    all_units_ok, build_systemd_run_args, busctl_runner_command, busctl_unit_args, dedup_units,
    deploy_candidates, deploy_plan, dry_run_results, dry_run_unit_result, exit_code_string,
    images_match, is_github_route, lookup_unit_from_path, pending_results, resolve_unit_identifier,
    runner_unit_for_delivery, sanitize_image_key, summarize_task_units, systemctl_unit_args,
    task_runner_unit_for_task, trigger_purpose, trigger_targets, trigger_unit_result,
    truncate_command_output, truncate_unit_error_summary, unit_action_result_from_operation,
    unit_error_summary_from_command_result, unit_error_summary_from_exec_error,
    unit_operation_command, UnitActionResult, UnitOperationPurpose,
};

fn strings(items: &[&str]) -> Vec<String> {
    items.iter().map(|s| s.to_string()).collect()
}

fn exec_result(code: Option<i32>, stderr: &str) -> CommandExecResult {
    CommandExecResult {
        exit_code: code,
        stdout: String::new(),
        stderr: stderr.to_string(),
    }
}

#[test]
fn webhook_paths_name_units() {
    assert_eq!(
        lookup_unit_from_path("/github-package-update/demo"),
        Some("demo.service".to_string())
    );
    assert_eq!(
        lookup_unit_from_path("/github-package-update/demo/redeploy"),
        Some("demo.service".to_string())
    );
    assert_eq!(
        lookup_unit_from_path("//github-package-update//demo/"),
        Some("demo.service".to_string())
    );
    assert_eq!(lookup_unit_from_path("/github-package-update/demo/other"), None);
    assert_eq!(lookup_unit_from_path("/other/demo"), None);
    assert_eq!(lookup_unit_from_path("/github-package-update"), None);
}

#[test]
fn github_routes_are_recognised() {
    assert!(is_github_route("/github-package-update"));
    assert!(is_github_route("/github-package-update/demo"));
    assert!(!is_github_route("/github-package-updates"));
    assert!(!is_github_route("github-package-update"));
}

#[test]
fn unit_identifiers_resolve() {
    assert_eq!(
        resolve_unit_identifier(" demo.service "),
        Some("demo.service".to_string())
    );
    assert_eq!(resolve_unit_identifier("demo"), Some("demo.service".to_string()));
    assert_eq!(
        resolve_unit_identifier("/github-package-update/demo/"),
        Some("demo.service".to_string())
    );
    assert_eq!(resolve_unit_identifier("/"), None);
    assert_eq!(resolve_unit_identifier("bad name.service"), None);
    assert_eq!(resolve_unit_identifier("a/b"), None);
}

#[test]
fn images_match_is_symmetric_on_examples() {
    assert!(images_match(" a:1", "a:1 "));
    assert!(images_match("a:1 ", " a:1"));
    assert!(!images_match("a:1", "a:2"));
}

#[test]
fn image_keys_are_sanitised_and_stable() {
    let key = sanitize_image_key("GHCR.io/Example/App:Latest");
    assert_eq!(key, "ghcr.io_example_app_latest");
    assert_eq!(sanitize_image_key(&key), key);
    assert_eq!(sanitize_image_key("___"), "default");
    assert_eq!(sanitize_image_key(""), "default");
    assert_eq!(sanitize_image_key("@@x@@"), "x");
    assert_eq!(sanitize_image_key("default"), "default");
}

#[test]
fn units_are_deduplicated_in_first_seen_order() {
    let units = strings(&["a", "b", "a", "c", "b"]);
    let out = dedup_units(&units);
    assert_eq!(out, strings(&["a", "b", "c"]));
    assert_eq!(dedup_units(&out), out);
}

#[test]
fn exit_codes_and_error_summaries() {
    assert_eq!(exit_code_string(Some(3)), "3");
    assert_eq!(exit_code_string(Some(-1)), "-1");
    assert_eq!(exit_code_string(None), "signal");

    assert_eq!(
        unit_error_summary_from_command_result(&exec_result(Some(1), "boom")),
        Some("exit=1 stderr=boom".to_string())
    );
    assert_eq!(
        unit_error_summary_from_command_result(&exec_result(Some(1), "")),
        Some("exit=1".to_string())
    );
    assert_eq!(
        unit_error_summary_from_command_result(&exec_result(Some(0), "noise")),
        None
    );
    assert_eq!(unit_error_summary_from_exec_error("   "), None);
    assert_eq!(
        unit_error_summary_from_exec_error("  spawn failed "),
        Some("spawn failed".to_string())
    );
    let long = "x".repeat(2000);
    assert_eq!(truncate_unit_error_summary(&long).chars().count(), 1024);
    assert_eq!(truncate_unit_error_summary(""), "");
}

#[test]
fn unit_action_results_follow_the_outcome() {
    let ok = unit_action_result_from_operation("a.service", &Ok(exec_result(Some(0), "")));
    assert_eq!(ok.status, "triggered");
    assert_eq!(ok.message, None);

    let failed = unit_action_result_from_operation("a.service", &Ok(exec_result(Some(2), "bad")));
    assert_eq!(failed.status, "failed");
    assert_eq!(failed.message, Some("exit=2 stderr=bad".to_string()));

    let err = unit_action_result_from_operation("a.service", &Err("no host".to_string()));
    assert_eq!(err.unit, "a.service");
    assert_eq!(err.status, "error");
    assert_eq!(err.message, Some("no host".to_string()));

    let signal = trigger_unit_result("a.service", &Ok(exec_result(None, "")));
    assert_eq!(signal.status, "failed");
    assert_eq!(signal.message, Some("exit=signal".to_string()));

    let dry = dry_run_unit_result("a.service");
    assert_eq!(dry.status, "dry-run");
    assert_eq!(dry.message, Some("skipped by dry run".to_string()));
}

#[test]
fn all_units_ok_accepts_only_good_statuses() {
    let mk = |s: &str| UnitActionResult {
        unit: "u".to_string(),
        status: s.to_string(),
        message: None,
    };
    assert!(all_units_ok(&[mk("triggered"), mk("dry-run"), mk("pending")]));
    assert!(!all_units_ok(&[mk("triggered"), mk("failed")]));
    assert!(all_units_ok(&[]));
}

#[test]
fn unit_operations_build_their_commands() {
    assert_eq!(UnitOperationPurpose::Start.as_str(), "start");
    assert_eq!(UnitOperationPurpose::Restart.busctl_method(), "RestartUnit");
    assert_eq!(
        trigger_purpose("podman-auto-update.service", "podman-auto-update.service"),
        UnitOperationPurpose::Start
    );
    assert_eq!(
        trigger_purpose("web.service", "podman-auto-update.service"),
        UnitOperationPurpose::Restart
    );
    assert_eq!(
        busctl_unit_args(UnitOperationPurpose::Restart, "a.service"),
        strings(&[
            "call",
            "org.freedesktop.systemd1",
            "/org/freedesktop/systemd1",
            "org.freedesktop.systemd1.Manager",
            "RestartUnit",
            "ss",
            "a.service",
            "replace"
        ])
    );
    assert_eq!(
        systemctl_unit_args(UnitOperationPurpose::Start, "a.service"),
        strings(&["start", "a.service"])
    );
    assert_eq!(
        unit_operation_command(UnitOperationPurpose::Start, "x.service"),
        "systemctl --user start x.service"
    );
    assert_eq!(
        busctl_runner_command(UnitOperationPurpose::Start, "x.service"),
        "busctl --user call org.freedesktop.systemd1 /org/freedesktop/systemd1 org.freedesktop.systemd1.Manager StartUnit ss x.service replace"
    );
    let args = build_systemd_run_args("u", "/bin/x", "t");
    assert_eq!(args.len(), 7);
}

#[test]
fn task_units_are_summarised() {
    let counts = summarize_task_units(&strings(&[
        "succeeded",
        "failed",
        "running",
        "weird",
        "succeeded",
        "skipped",
    ]));
    assert_eq!(counts.total_units, 6);
    assert_eq!(counts.succeeded, 2);
    assert_eq!(counts.failed, 1);
    assert_eq!(counts.running, 1);
    assert_eq!(counts.skipped, 1);
    assert_eq!(counts.cancelled, 0);
    assert_eq!(counts.pending, 0);
    assert!(
        counts.succeeded
            + counts.failed
            + counts.cancelled
            + counts.running
            + counts.pending
            + counts.skipped
            <= counts.total_units
    );
}

#[test]
fn runner_units_come_from_the_delivery() {
    assert_eq!(runner_unit_for_delivery("abc123"), "webhook-task-abc123");
    assert_eq!(runner_unit_for_delivery("ABC-1/2"), "webhook-task-abc-1_2");
    assert_eq!(
        task_runner_unit_for_task("github-webhook", Some("abc123")),
        Some("webhook-task-abc123".to_string())
    );
    assert_eq!(task_runner_unit_for_task("github-webhook", None), None);
    assert_eq!(task_runner_unit_for_task("manual-trigger", Some("abc123")), None);
}

#[test]
fn trigger_and_deploy_targets() {
    let managed = strings(&["podman-auto-update.service", "a.service"]);
    assert_eq!(
        trigger_targets(false, &strings(&["demo", " x.service ", "bad one"]), &managed),
        strings(&["demo.service", "x.service"])
    );
    assert_eq!(trigger_targets(true, &strings(&["demo"]), &managed), managed);
    assert_eq!(trigger_targets(false, &[], &managed), managed);

    let pending = pending_results(&strings(&["a", "b"]));
    assert_eq!(pending.len(), 2);
    assert_eq!(pending[1].status, "pending");
    assert_eq!(pending[1].message, Some("scheduled via task".to_string()));

    let dry = dry_run_results(&strings(&["a", "b", "a"]));
    assert_eq!(dry.len(), 2);
    assert_eq!(dry[1].unit, "b");

    let candidates = deploy_candidates(
        &strings(&[
            "a.service",
            "podman-auto-update.service",
            "b.service",
            "a.service",
        ]),
        "podman-auto-update.service",
    );
    assert_eq!(candidates, strings(&["a.service", "b.service"]));

    let plan = deploy_plan(
        "podman-auto-update.service",
        &candidates,
        &[Some("ghcr.io/x/a:1".to_string()), None],
    );
    assert_eq!(
        plan.deploying,
        vec![("a.service".to_string(), "ghcr.io/x/a:1".to_string())]
    );
    assert_eq!(plan.skipped.len(), 2);
    assert_eq!(plan.skipped[0].unit, "podman-auto-update.service");
    assert_eq!(plan.skipped[0].message, Some("auto-update-unit".to_string()));
    assert_eq!(plan.skipped[1].unit, "b.service");
    assert_eq!(plan.skipped[1].message, Some("image-missing".to_string()));
}

#[test]
fn command_output_is_truncated_by_size() {
    assert_eq!(truncate_command_output("abc"), ("abc".to_string(), false));
    let long = "y".repeat(40_000);
    let (cut, flagged) = truncate_command_output(&long);
    assert!(flagged);
    assert_eq!(cut.len(), 32_768);
}

#[test]
fn settings_are_read_from_raw_values() {
    assert!(env_flag_value(Some(" YES ")));
    assert!(!env_flag_value(Some("off")));
    assert!(!env_flag_value(None));

    assert_eq!(env_u64_value(None, "N", 1), Ok(1));
    assert_eq!(env_u64_value(Some(" 7 "), "N", 1), Ok(7));
    assert_eq!(env_u64_value(Some("x"), "N", 1), Err("invalid N".to_string()));

    assert_eq!(task_retention_secs(Some("0")), 1);
    assert_eq!(task_retention_secs(None), 86_400);
    assert_eq!(task_retention_secs(Some("bad")), 86_400);

    assert_eq!(scheduler_sleep_secs(30, None), 60);
    assert_eq!(scheduler_sleep_secs(900, Some("10")), 900);
    assert_eq!(scheduler_sleep_secs(5, Some("10")), 10);

    assert_eq!(journal_lines(Some("5000")), 1000);
    assert_eq!(journal_lines(Some("-3")), 100);
    assert_eq!(journal_lines(None), 100);
    assert_eq!(journal_lines(Some(" 42 ")), 42);
    assert_eq!(journal_lines(Some("0")), 100);
}

#[test]
fn manual_units_come_from_settings() {
    assert_eq!(manual_auto_update_unit(Some(" x.service ")), "x.service");
    assert_eq!(manual_auto_update_unit(Some("bad")), "podman-auto-update.service");
    assert_eq!(manual_auto_update_unit(None), "podman-auto-update.service");

    let units = manual_env_unit_list(
        "podman-auto-update.service",
        Some("a.service,demo\nbad one,a.service,podman-auto-update.service"),
    );
    assert_eq!(
        units,
        strings(&["podman-auto-update.service", "a.service", "demo.service"])
    );
    assert_eq!(
        manual_env_unit_list("podman-auto-update.service", None),
        strings(&["podman-auto-update.service"])
    );
}

#[test]
fn self_update_cron_expressions() {
    assert_eq!(
        parse_self_update_cron("*/5 * * * *"),
        Ok(SelfUpdateSchedule::EveryMinutes(5))
    );
    assert_eq!(
        parse_self_update_cron("0 */2 * * *"),
        Ok(SelfUpdateSchedule::EveryHours(2))
    );
    assert_eq!(
        parse_self_update_cron("* * *"),
        Err("invalid-field-count".to_string())
    );
    assert_eq!(
        parse_self_update_cron("*/0 * * * *"),
        Err("minute-interval-zero".to_string())
    );
    assert_eq!(
        parse_self_update_cron("*/x * * * *"),
        Err("invalid-minute-interval".to_string())
    );
    assert_eq!(
        parse_self_update_cron("0 */0 * * *"),
        Err("hour-interval-zero".to_string())
    );
    assert_eq!(
        parse_self_update_cron("0 */y * * *"),
        Err("invalid-hour-interval".to_string())
    );
    assert_eq!(
        parse_self_update_cron("5 * * * 1"),
        Err("unsupported-fields".to_string())
    );
    assert_eq!(
        parse_self_update_cron("5 * * * *"),
        Err("unsupported-cron-pattern".to_string())
    );
    assert_eq!(schedule_interval_secs(SelfUpdateSchedule::EveryMinutes(5)), 300);
    assert_eq!(
        schedule_interval_secs(SelfUpdateSchedule::EveryHours(u64::MAX)),
        u64::MAX
    );
    assert_eq!(normalize_command("--HELP"), "help");
}
