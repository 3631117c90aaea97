use podup::discovery::{dir_entry, merge_discoveries, ps_discovered_units};
use podup::host::CommandExecResult;
use podup::json::Json;
use podup::responses::{payload_head, sse_head, sse_single, text_response};
use podup::selfupdate::{
    command_problem, problem_record, self_update_argv, self_update_command,
    self_update_run_summary, CommandProblem,
};
use podup::systemd::UnitHealthVerdict;
use podup::webhooktask::service_outcome;

fn s(x: &str) -> String {
    x.to_string()
}

fn strings(items: &[&str]) -> Vec<String> {
    items.iter().map(|x| x.to_string()).collect()
}

fn obj(members: Vec<(&str, Json)>) -> Json {
    Json::Object(members.into_iter().map(|(k, v)| (s(k), v)).collect())
}

fn text(x: &str) -> Json {
    Json::Str(s(x))
}

fn labelled(labels: Vec<(&str, Json)>) -> Json {
    obj(vec![("Labels", obj(labels))])
}

#[test]
fn units_are_discovered() {
    assert_eq!(dir_entry("/etc/containers/systemd/app.container"), Some((s("app.service"), true)));
    assert_eq!(dir_entry("/etc/containers/systemd/db.service"), Some((s("db.service"), false)));
    assert_eq!(dir_entry("/etc/containers/systemd/pod.kube"), Some((s("pod.service"), true)));
    assert_eq!(dir_entry("/etc/containers/systemd/notes.txt"), None);
    assert_eq!(dir_entry("/etc/containers/systemd/bad name.container"), None);

    let ps = Json::Array(vec![
        labelled(vec![("io.containers.autoupdate", text("registry")), ("PODMAN_SYSTEMD_UNIT", text("web.service"))]),
        labelled(vec![("io.containers.autoupdate", text("OFF")), ("PODMAN_SYSTEMD_UNIT", text("off.service"))]),
        labelled(vec![("PODMAN_SYSTEMD_UNIT", text("nolabel.service"))]),
        labelled(vec![("io.containers.autoupdate", text("local")), ("io.podman.systemd.unit", text("app.service"))]),
        labelled(vec![("io.containers.autoupdate", text("registry")), ("PODMAN_SYSTEMD_UNIT", text("web.service"))]),
        labelled(vec![("io.containers.autoupdate", text("registry")), ("PODMAN_SYSTEMD_UNIT", text("bad name"))]),
        obj(vec![("Labels", text("not an object"))]),
    ]);
    assert_eq!(ps_discovered_units(&ps), strings(&["app.service", "web.service"]));
    assert_eq!(ps_discovered_units(&text("x")), strings(&[]));

    let merged = merge_discoveries(Ok(strings(&["web.service", "a.service"])), Ok(strings(&["web.service", "z.service"]))).unwrap();
    let listed: Vec<(&str, &str)> = merged.iter().map(|d| (d.unit.as_str(), d.source)).collect();
    assert_eq!(listed, vec![("a.service", "dir"), ("web.service", "dir"), ("z.service", "ps")]);
    let only_ps = merge_discoveries(Err(s("no dir")), Ok(strings(&["p.service"]))).unwrap();
    assert_eq!(only_ps[0].source, "ps");
    assert_eq!(merge_discoveries(Ok(vec![]), Ok(vec![])).unwrap().len(), 0);
    assert_eq!(
        merge_discoveries(Err(s("a")), Err(s("podman-ps: b"))).err(),
        Some(s("dir: a; podman-ps: podman-ps: b"))
    );
    assert_eq!(merge_discoveries(Ok(vec![]), Err(s("x"))).err(), Some(s("podman-ps: x")));
}

#[test]
fn responses_are_framed() {
    assert_eq!(
        text_response(404, "NotFound", "missing"),
        "HTTP/1.1 404 NotFound\r\nContent-Type: text/plain; charset=utf-8\r\nConnection: close\r\n\r\nmissing\n"
    );
    assert_eq!(
        text_response(204, "No Content", ""),
        "HTTP/1.1 204 No Content\r\nContent-Type: text/plain; charset=utf-8\r\nConnection: close\r\n\r\n"
    );
    assert_eq!(
        payload_head(200, "OK", "application/json", 17),
        "HTTP/1.1 200 OK\r\nContent-Type: application/json\r\nContent-Length: 17\r\nConnection: close\r\n\r\n"
    );
    assert_eq!(
        sse_head(),
        "HTTP/1.1 200 OK\r\nContent-Type: text/event-stream\r\nCache-Control: no-cache\r\nConnection: keep-alive\r\n\r\n"
    );
    assert_eq!(
        sse_single("hello", "a\nb"),
        format!("{}event: hello\nretry: 15000\ndata: a\ndata: b\n\n", sse_head())
    );
    assert_eq!(sse_single("", ""), format!("{}retry: 15000\n\n", sse_head()));
}

#[test]
fn self_update_commands_are_checked() {
    assert_eq!(self_update_command(Some("  /usr/local/bin/up  ")), Some(s("/usr/local/bin/up")));
    assert_eq!(self_update_command(Some("   ")), None);
    assert_eq!(self_update_command(None), None);
    assert!(command_problem(Some(true)).is_none());
    assert!(matches!(command_problem(Some(false)), Some(CommandProblem::NotFile)));
    assert!(matches!(command_problem(None), Some(CommandProblem::NotFound)));
    assert_eq!(problem_record(CommandProblem::Missing), ("Self-update command missing", "self-update-command-missing", None));
    assert_eq!(problem_record(CommandProblem::NotFile).2, Some("not-file"));
    assert_eq!(self_update_argv("/bin/up", true), strings(&["/bin/up", "--dry-run"]));
    assert_eq!(self_update_argv("/bin/up", false), strings(&["/bin/up"]));
    let ok = CommandExecResult { exit_code: Some(0), stdout: String::new(), stderr: String::new() };
    assert_eq!(self_update_run_summary(true, &ok), ("succeeded", s("Self-update dry-run succeeded"), None));
    let bad = CommandExecResult { exit_code: Some(2), stdout: String::new(), stderr: s("boom") };
    assert_eq!(self_update_run_summary(false, &bad), ("failed", s("Self-update failed (2)"), Some(s("boom"))));
    let killed = CommandExecResult { exit_code: None, stdout: String::new(), stderr: String::new() };
    assert_eq!(self_update_run_summary(true, &killed), ("failed", s("Self-update dry-run failed (signal)"), None));
}

#[test]
fn manual_service_runs_end() {
    let o = service_outcome("error", Some(s("exit=1")), None);
    assert_eq!((o.unit_status.as_str(), o.task_status, o.summary, o.level), ("failed", "failed", "Manual service task failed", "error"));
    assert_eq!(o.error.as_deref(), Some("exit=1"));
    let o = service_outcome("triggered", None, Some((UnitHealthVerdict::Healthy, s("fine"))));
    assert_eq!((o.unit_status.as_str(), o.task_status, o.level), ("succeeded", "succeeded", "info"));
    assert_eq!(o.error, None);
    let o = service_outcome("triggered", None, Some((UnitHealthVerdict::Failed, s("Unit health check: FAILED"))));
    assert_eq!(o.summary, "Manual service task failed (unit unhealthy after restart)");
    assert_eq!(o.error.as_deref(), Some("Unit health check: FAILED"));
    let o = service_outcome("triggered", None, Some((UnitHealthVerdict::Unknown, s("?"))));
    assert_eq!((o.unit_status.as_str(), o.task_status, o.level), ("unknown", "unknown", "warning"));
}
