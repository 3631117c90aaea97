use podup::cli::{
    comma_list_of, parse_prune_args, parse_scheduler_args, parse_trigger_args, parse_u64_arg,
    resolve_cli_unit_list, scheduler_tick,
};
use podup::json::Json;
use podup::queries::{
    events_query, events_sql, events_window, has_next, task_route, task_units_sql,
    task_warnings_sql, tasks_query, tasks_sql, tasks_window, SqlParam, TaskRoute,
};
use podup::runs::{jsonl_lines_of, warning_entry, warnings_of, warnings_summary};
use podup::selfupdate::{import_self_update_report, SelfUpdateReport};
use podup::stream::{after_round, snapshot_body, stream_task_id, SeenLogs};

fn s(x: &str) -> String {
    x.to_string()
}

fn strings(items: &[&str]) -> Vec<String> {
    items.iter().map(|x| x.to_string()).collect()
}

fn obj(members: Vec<(&str, Json)>) -> Json {
    Json::Object(members.into_iter().map(|(k, v)| (s(k), v)).collect())
}

fn text(x: &str) -> Json {
    Json::Str(s(x))
}

fn texts(params: &[SqlParam]) -> Vec<String> {
    params
        .iter()
        .map(|p| match p {
            SqlParam::Int(v) => format!("int:{v}"),
            SqlParam::Text(t) => format!("text:{t}"),
        })
        .collect()
}

fn report(kind: Option<&str>, started: Option<i64>, finished: Option<i64>, status: Option<&str>) -> SelfUpdateReport {
    SelfUpdateReport {
        report_type: kind.map(s),
        started_at: started,
        finished_at: finished,
        status: status.map(s),
        exit_code: None,
        dry_run: None,
        release_tag: None,
        stderr_tail: None,
    }
}

#[test]
fn events_queries_become_sql() {
    let q = events_query(Some(
        "limit=1000&task_id=&request_id=r1&path=%2Fgithub%2Bx+y&status=-5&from=%2B10&to=x&page=0&per_page=7",
    ));
    assert_eq!(q.limit, Some(500));
    assert_eq!(q.task_id, None);
    assert_eq!(q.request_id.as_deref(), Some("r1"));
    assert_eq!(q.path_prefix.as_deref(), Some("/github+x y"));
    assert_eq!(q.status, Some(-5));
    assert_eq!(q.from_ts, Some(10));
    assert_eq!(q.to_ts, None);
    assert_eq!(q.page, 1);
    assert_eq!(q.per_page, 7);
    assert_eq!(events_window(&q), (500, 0, 1, 500));

    let sql = events_sql(&q);
    assert_eq!(
        sql.count_sql,
        "SELECT COUNT(*) as cnt FROM event_log WHERE request_id = ? AND path LIKE ? AND status = ? AND ts >= ?"
    );
    assert!(sql.select_sql.ends_with(
        "FROM event_log WHERE request_id = ? AND path LIKE ? AND status = ? AND ts >= ? ORDER BY ts DESC, id DESC LIMIT ? OFFSET ?"
    ));
    assert_eq!(texts(&sql.params), strings(&["text:r1", "text:/github+x y%", "int:-5", "int:10"]));

    let paged = events_query(Some("page=3&page_size=20"));
    assert_eq!(events_window(&paged), (20, 40, 3, 20));
    let plain = events_query(None);
    assert_eq!(events_window(&plain), (50, 0, 1, 50));
    assert_eq!(events_sql(&plain).count_sql, "SELECT COUNT(*) as cnt FROM event_log");
    assert!(has_next(2, 20, 41));
    assert!(!has_next(2, 20, 40));
}

#[test]
fn tasks_queries_and_routes() {
    let q = tasks_query(Some("page=2&page_size=500&type=github&unit=App%20Svc&status="));
    assert_eq!(q.page, 2);
    assert_eq!(q.per_page, 100);
    assert_eq!(q.kind.as_deref(), Some("github"));
    assert_eq!(q.unit_query.as_deref(), Some("App Svc"));
    assert_eq!(q.status, None);
    assert_eq!(tasks_window(&q), (2, 100, 100));
    let sql = tasks_sql(&q);
    assert!(sql.count_sql.starts_with("SELECT COUNT(*) as cnt FROM tasks WHERE tasks.kind = ? AND EXISTS (SELECT 1 FROM task_units tu"));
    assert_eq!(
        texts(&sql.params),
        strings(&["text:github", "text:%app svc%", "text:%app svc%", "text:%app svc%"])
    );
    assert_eq!(tasks_window(&tasks_query(None)), (1, 20, 0));
    assert_eq!(
        task_units_sql(3),
        "SELECT task_id, unit, slug, display_name, status, phase, started_at, finished_at, duration_ms, message, error FROM task_units WHERE task_id IN (?,?,?) ORDER BY id ASC"
    );
    assert!(task_warnings_sql(1).ends_with("AND task_id IN (?) GROUP BY task_id"));

    assert!(matches!(task_route("GET", "/api/tasks"), TaskRoute::List));
    assert!(matches!(task_route("POST", "/api/tasks"), TaskRoute::Create));
    assert!(matches!(task_route("DELETE", "/api/tasks"), TaskRoute::MethodNotAllowed));
    assert!(matches!(task_route("GET", "/api/tasks/abc"), TaskRoute::Detail(id) if id == "abc"));
    assert!(matches!(task_route("POST", "/api/tasks//abc/stop/"), TaskRoute::Stop(id) if id == "abc"));
    assert!(matches!(task_route("POST", "/api/tasks/abc/force-stop"), TaskRoute::ForceStop(id) if id == "abc"));
    assert!(matches!(task_route("POST", "/api/tasks/abc/retry"), TaskRoute::Retry(id) if id == "abc"));
    assert!(matches!(task_route("GET", "/api/tasks/abc/stop"), TaskRoute::Unknown));
    assert!(matches!(task_route("PUT", "/api/tasks/"), TaskRoute::MissingId));
    assert!(matches!(task_route("GET", "/api/other"), TaskRoute::Unknown));
}

#[test]
fn self_update_reports_become_tasks() {
    let mut ok = report(Some("self-update-run"), Some(100), Some(160), Some("OK"));
    ok.release_tag = Some(s("v1.2.3"));
    let t = import_self_update_report(&ok, 999).unwrap();
    assert!(t.succeeded);
    assert_eq!(t.task_status, "succeeded");
    assert_eq!(t.level, "info");
    assert_eq!(t.summary, "Self-update from GitHub Release succeeded (v1.2.3)");
    assert_eq!((t.created_at, t.started_at, t.finished_at, t.duration_ms), (100, 100, 160, 60000));
    assert_eq!(t.unit, "pod-upgrade-trigger-http.service");
    assert_eq!(t.slug, "pod-upgrade-trigger-http");
    assert_eq!(t.error, None);

    let mut bad = report(Some("self-update-run"), None, None, Some("boom"));
    bad.exit_code = Some(3);
    bad.dry_run = Some(true);
    bad.stderr_tail = Some(s("tail"));
    bad.release_tag = Some(s("  "));
    let t = import_self_update_report(&bad, 500).unwrap();
    assert!(!t.succeeded);
    assert_eq!(t.level, "error");
    assert_eq!(t.summary, "Self-update dry-run failed (exit=3)");
    assert_eq!((t.created_at, t.started_at, t.finished_at, t.duration_ms), (500, 500, 500, 0));
    assert_eq!(t.error.as_deref(), Some("tail"));

    let mut dry_ok = report(Some("self-update-run"), None, Some(200), Some("passed"));
    dry_ok.dry_run = Some(true);
    let t = import_self_update_report(&dry_ok, 0).unwrap();
    assert_eq!(t.summary, "Self-update dry-run from GitHub Release succeeded");
    assert_eq!(t.started_at, 200);

    let backwards = report(Some("self-update-run"), Some(300), Some(200), None);
    let t = import_self_update_report(&backwards, 0).unwrap();
    assert_eq!(t.created_at, 200);
    assert_eq!(t.duration_ms, -100000);
    assert_eq!(t.summary, "Self-update failed (exit=-)");

    let huge = report(Some("self-update-run"), Some(i64::MIN), Some(i64::MAX), Some("ok"));
    assert_eq!(import_self_update_report(&huge, 0).unwrap().duration_ms, i64::MAX);

    assert_eq!(
        import_self_update_report(&report(Some("other"), None, None, None), 0).err().as_deref(),
        Some("type-mismatch")
    );
    assert!(import_self_update_report(&report(None, None, None, None), 0).is_err());
}

#[test]
fn command_line_options_are_read() {
    let o = parse_trigger_args(
        &strings(&["--dry-run", "--units", " a , ,b", "c.service", "--caller", "me", "--reason"]),
        false,
    )
    .unwrap();
    assert_eq!(o.units, strings(&["a", "b", "c.service"]));
    assert!(o.dry_run);
    assert!(!o.all);
    assert_eq!(o.caller.as_deref(), Some("me"));
    assert_eq!(o.reason, None);
    assert!(parse_trigger_args(&strings(&[]), true).unwrap().all);
    assert_eq!(parse_trigger_args(&strings(&["--all", "-x"]), false).err().as_deref(), Some("-x"));
    assert_eq!(comma_list_of(",x,, y ,"), strings(&["x", "y"]));

    let (ok, bad) = resolve_cli_unit_list(&strings(&["app.service", "demo", "Bad Unit.service"]));
    assert_eq!(ok, strings(&["app.service", "demo.service"]));
    assert_eq!(bad, strings(&["Bad Unit.service"]));

    assert_eq!(parse_prune_args(&strings(&[])), Ok((86400, 24, false)));
    assert_eq!(parse_prune_args(&strings(&["--max-age-hours", "2", "--dry-run"])), Ok((7200, 2, true)));
    assert_eq!(parse_prune_args(&strings(&["--max-age-hours", "0"])), Ok((1, 0, false)));
    assert_eq!(parse_prune_args(&strings(&["--max-age-hours"])), Err(s("missing max-age-hours")));
    assert_eq!(parse_prune_args(&strings(&["--max-age-hours", "x"])), Err(s("invalid max-age-hours")));
    assert_eq!(parse_prune_args(&strings(&["--bogus"])), Err(s("unknown prune option: --bogus")));
    assert_eq!(parse_u64_arg(Some(" 12 "), "n"), Ok(12));
    assert_eq!(parse_u64_arg(None, "n"), Err(s("missing n")));

    assert_eq!(
        parse_scheduler_args(&strings(&["--interval", "30", "--max-iterations", "2"]), 900, None),
        Ok((30, Some(2)))
    );
    assert_eq!(parse_scheduler_args(&strings(&["--interval-secs", "5"]), 900, Some(7)), Ok((5, Some(7))));
    assert_eq!(
        parse_scheduler_args(&strings(&["--foo"]), 900, None),
        Err(s("unknown scheduler option: --foo"))
    );
    assert_eq!(scheduler_tick(0, Some(1)), (1, true));
    assert_eq!(scheduler_tick(0, None), (1, false));
    assert_eq!(scheduler_tick(3, Some(10)), (4, false));
    assert_eq!(scheduler_tick(u64::MAX, Some(5)), (u64::MAX, true));
}

#[test]
fn task_logs_are_streamed() {
    assert_eq!(stream_task_id(Some("x=1&task_id=%20&task_id=t1&task_id=t2")), Some(s("t1")));
    assert_eq!(stream_task_id(Some("task_id=")), None);
    assert_eq!(stream_task_id(None), None);
    assert_eq!(
        snapshot_body(&strings(&["{a}", "{b}"])),
        "event: log\ndata: {a}\n\nevent: log\ndata: {b}\n\nevent: end\ndata: done\n\n"
    );
    assert_eq!(snapshot_body(&[]), "event: end\ndata: done\n\n");
    assert_eq!(after_round("running", 10), None);
    assert_eq!(after_round("running", 600), Some(("event: end\ndata: timeout\n\n", "timeout")));
    assert_eq!(after_round("failed", 0), Some(("event: end\ndata: done\n\n", "completed")));

    let mut seen = SeenLogs::new();
    assert!(seen.changed(1, "a"));
    seen.record(1, s("a"));
    assert!(!seen.changed(1, "a"));
    assert!(seen.changed(1, "b"));
    seen.record(1, s("b"));
    assert!(!seen.changed(1, "b"));
    seen.record(2, s("c"));
    assert_eq!(seen.entries.len(), 2);
    assert!(!seen.changed(2, "c"));
}

#[test]
fn auto_update_warnings_are_collected() {
    assert_eq!(
        jsonl_lines_of("  {\"a\":1}  \n\n\t\r\n{b}\r\n"),
        strings(&["{\"a\":1}", "{b}"])
    );
    let events = vec![
        obj(vec![("type", text("summary"))]),
        obj(vec![("type", text("dry-run-error"))]),
        obj(vec![("type", text("auto-update-error"))]),
        obj(vec![]),
    ];
    assert_eq!(warnings_of(&events), vec![1, 2]);
    assert_eq!(warnings_summary(2), "Auto-update succeeded with 2 warning(s) from podman auto-update");

    let e = obj(vec![
        ("type", text("auto-update-error")),
        ("image", text("img")),
        ("container", text("ctr")),
        ("error", text("  pull failed  ")),
        ("at", text("t0")),
    ]);
    let w = warning_entry(&e, "u.service");
    assert_eq!(w.level, "error");
    assert_eq!(w.summary, "[auto-update-error] auto-update warning for img: pull failed");
    assert_eq!(w.at, "t0");
    assert_eq!(w.container.as_deref(), Some("ctr"));
    assert_eq!(w.image.as_deref(), Some("img"));

    let quiet = obj(vec![("type", text("dry-run-error")), ("container_name", text("web"))]);
    let w = warning_entry(&quiet, "u.service");
    assert_eq!(w.level, "warning");
    assert_eq!(w.summary, "[dry-run-error] auto-update warning for web (see meta.error)");
    assert_eq!(w.at, "");
    assert_eq!(w.image, None);

    let long = obj(vec![("type", text("dry-run-error")), ("error", text(&"x".repeat(250)))]);
    let w = warning_entry(&long, "u.service");
    assert_eq!(w.summary, format!("[dry-run-error] auto-update warning for u.service: {}", "x".repeat(200)));
    let wide = obj(vec![("type", text("dry-run-error")), ("error", text(&"\u{e9}".repeat(150)))]);
    let w = warning_entry(&wide, "u");
    assert_eq!(w.summary, format!("[dry-run-error] auto-update warning for u: {}", "\u{e9}".repeat(100)));
}
