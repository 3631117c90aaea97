use podup::json::{json_pointer, Json};
use podup::manual::{manual_route, ManualRoute};
use podup::meta::{merge_meta, merge_missing, obj_set};
use podup::ratelimit::{api_prune_retention, lock_age_secs, lock_request, LockRequest};
use podup::responses::health_report;

fn s(x: &str) -> String {
    x.to_string()
}

fn text(x: &str) -> Json {
    Json::Str(s(x))
}

fn members(items: Vec<(&str, Json)>) -> Vec<(String, Json)> {
    items.into_iter().map(|(k, v)| (s(k), v)).collect()
}

fn get<'a>(j: &'a Json, key: &str) -> Option<&'a Json> {
    json_pointer(j, &format!("/{key}"))
}

fn text_of(j: Option<&Json>) -> Option<&str> {
    match j {
        Some(Json::Str(t)) => Some(t.as_str()),
        _ => None,
    }
}

#[test]
fn metadata_objects_merge() {
    let mut m = members(vec![("a", text("1")), ("b", text("2"))]);
    obj_set(&mut m, "a", text("one"));
    obj_set(&mut m, "c", Json::Bool(true));
    assert_eq!(m.len(), 3);
    let obj = Json::Object(m);
    assert_eq!(text_of(get(&obj, "a")), Some("one"));
    assert_eq!(text_of(get(&obj, "b")), Some("2"));
    assert!(matches!(get(&obj, "c"), Some(Json::Bool(true))));

    let base = Json::Object(members(vec![("status", text("running")), ("kind", text("manual"))]));
    let extra = Json::Object(members(vec![("status", text("failed")), ("host_backend", text("ssh"))]));
    let merged = merge_meta(base, extra);
    assert_eq!(text_of(get(&merged, "status")), Some("failed"));
    assert_eq!(text_of(get(&merged, "kind")), Some("manual"));
    assert_eq!(text_of(get(&merged, "host_backend")), Some("ssh"));

    let with_extra = merge_meta(Json::Object(vec![]), text("note"));
    assert_eq!(text_of(get(&with_extra, "extra")), Some("note"));
    let unchanged = merge_meta(Json::Object(members(vec![("a", text("1"))])), Json::Null);
    assert!(matches!(unchanged, Json::Object(ref m) if m.len() == 1));
    assert!(matches!(merge_meta(text("plain"), text("x")), Json::Str(ref t) if t == "plain"));

    let mut cmd = members(vec![("type", text("command")), ("exit", text("exit=0"))]);
    merge_missing(&mut cmd, members(vec![("exit", text("overridden?")), ("unit", text("a.service")), ("unit", text("b.service"))]));
    let cmd = Json::Object(cmd);
    assert_eq!(text_of(get(&cmd, "exit")), Some("exit=0"));
    assert_eq!(text_of(get(&cmd, "unit")), Some("a.service"));
}

#[test]
fn manual_routes_and_locks() {
    assert!(matches!(manual_route("GET", "/api/manual/services/"), ManualRoute::ServicesList));
    assert!(matches!(manual_route("GET", "/api/manual/trigger"), ManualRoute::MethodNotAllowed));
    assert!(matches!(manual_route("POST", "/api/manual/auto-update/run"), ManualRoute::AutoUpdateRun));
    assert!(matches!(manual_route("POST", "/api/manual/trigger"), ManualRoute::Trigger));
    assert!(matches!(manual_route("POST", "/api/manual/deploy"), ManualRoute::Deploy));
    assert!(matches!(manual_route("POST", "/api/manual/services/web"), ManualRoute::Service(ref r) if r == "web"));
    assert!(matches!(manual_route("POST", "/api/manual/other"), ManualRoute::NotFound));

    assert!(matches!(lock_request("GET", "/api/image-locks"), LockRequest::List));
    assert!(matches!(lock_request("DELETE", "/api/image-locks//ghcr.io-app/"), LockRequest::Release(ref b) if b == "ghcr.io-app"));
    assert!(matches!(lock_request("DELETE", "/api/image-locks/"), LockRequest::MissingName));
    assert!(matches!(lock_request("DELETE", "/api/image-locks"), LockRequest::MissingName));
    assert!(matches!(lock_request("PUT", "/api/image-locks"), LockRequest::NotAllowed));
    assert_eq!(lock_age_secs(100, 40), 60);
    assert_eq!(lock_age_secs(40, 100), 0);
    assert_eq!(lock_age_secs(i64::MAX, -5), i64::MAX);
    assert_eq!(api_prune_retention(None), (86400, 24));
    assert_eq!(api_prune_retention(Some(0)), (1, 0));
    assert_eq!(api_prune_retention(Some(2)), (7200, 2));
}

#[test]
fn health_is_reported() {
    let ok = health_report(None, None, false);
    assert_eq!((ok.http_status, ok.reason, ok.status), (200, "OK", "ok"));
    assert!(ok.issues.is_empty());
    let bad = health_report(Some("disk full"), Some("podman missing"), false);
    assert_eq!((bad.http_status, bad.reason, bad.status), (503, "ServiceUnavailable", "degraded"));
    assert_eq!(bad.db_error.as_deref(), Some("database initialization failed"));
    assert_eq!(bad.issues.len(), 2);
    assert_eq!(bad.issues[0].component, "database");
    assert_eq!(bad.issues[0].message, "database initialization failed");
    assert_eq!(bad.issues[1].component, "podman");
    assert_eq!(bad.issues[1].message, "podman missing");
    assert!(!bad.show_db_url);
    let admin = health_report(Some("disk full"), None, true);
    assert_eq!(admin.db_error.as_deref(), Some("disk full"));
    assert_eq!(admin.issues[0].message, "disk full");
    assert!(admin.show_db_url);
}
