use hmac::{Hmac, Mac};
use podup::auth::{
    admin_decision, csrf_decision, is_admin_request, public_base_url, AdminDecision,
    CsrfDecision, ForwardAuthConfig,
};
use podup::github::{
    extract_container_image_value, extract_primary_tag, github_event_allowed, normalize_version,
};
use podup::ids::{redact_token, request_id};
use podup::images::{
    parse_manual_update_image, parse_target, payload_registry_host, registry_host, split_repo_tag,
};
use podup::json::Json;
use podup::podman::{
    container_created_ts, container_image_id, container_is_running, container_unit_label,
};
use podup::registry::{
    auth_credentials, cached_record, compute_stale, credentials_for_registry,
    failed_refresh_record, invalid_image_record, is_expired, manifest_head_outcome, manifest_url,
    map_status_to_error, parse_auth_params, parse_image_ref, parse_www_authenticate_bearer,
    read_digest_header, registry_digest_cache_ttl_secs, retry_outcome, select_challenge,
    token_from_body, CacheRow, Challenge, HeadOutcome, RegistryDigestError, RegistryDigestStatus,
};
use podup::signature::{parse_signature_bytes, verify_github_signature};
use podup::tasks::{stop_plan, stopped_status, stopped_summary, StopMode, StopPlan};
use podup::webhook::{image_gate, webhook_decision, ImageGate, WebhookDecision};
use podup::ratelimit::{manual_rate_windows, rate_limit_verdict, RateLimitError};
use podup::registry::{stored_record, use_cached};

fn s(x: &str) -> String {
    x.to_string()
}

fn obj(members: Vec<(&str, Json)>) -> Json {
    Json::Object(members.into_iter().map(|(k, v)| (s(k), v)).collect())
}

fn text(x: &str) -> Json {
    Json::Str(s(x))
}

fn sign(secret: &str, body: &[u8]) -> String {
    let mut mac = Hmac::<sha2::Sha256>::new_from_slice(secret.as_bytes()).unwrap();
    mac.update(body);
    format!("sha256={:x}", mac.finalize().into_bytes())
}

fn demo_payload() -> Json {
    obj(vec![
        (
            "package",
            obj(vec![
                ("name", text("demo")),
                ("namespace", text("Example")),
                ("package_type", text("CONTAINER")),
            ]),
        ),
        ("registry", obj(vec![("host", text("ghcr.io"))])),
        (
            "package_version",
            obj(vec![(
                "metadata",
                obj(vec![(
                    "container",
                    obj(vec![("tags", Json::Array(vec![text("  "), text("main")]))]),
                )]),
            )]),
        ),
    ])
}

#[test]
fn request_targets_are_split() {
    assert_eq!(parse_target("/a/b?x=1"), Ok((s("/a/b"), Some(s("x=1")))));
    assert_eq!(parse_target("http://h/p"), Ok((s("/p"), None)));
    assert_eq!(parse_target(""), Err(s("empty target")));
}

#[test]
fn image_paths_split_into_repo_and_tag() {
    assert_eq!(
        split_repo_tag("/ghcr.io/a/b:tag "),
        Some((s("ghcr.io/a/b"), s("tag")))
    );
    assert_eq!(split_repo_tag("host:5000/repo"), None);
    assert_eq!(split_repo_tag("repo:"), None);
    assert_eq!(split_repo_tag(""), None);
}

#[test]
fn registry_hosts_are_normalised() {
    assert_eq!(payload_registry_host(""), "ghcr.io");
    assert_eq!(payload_registry_host("https://GHCR.io/"), "ghcr.io");
    assert_eq!(payload_registry_host("GHCR.IO/"), "ghcr.io");
    assert_eq!(
        registry_host("https://Reg.example.com:5000/v2"),
        Some(s("reg.example.com:5000"))
    );
    assert_eq!(registry_host("Docker.IO/library"), Some(s("docker.io")));
    assert_eq!(registry_host("  "), None);
}

#[test]
fn manual_update_images() {
    let p = parse_manual_update_image("ghcr.io/org/app:v1").unwrap();
    assert_eq!(p.tag, "v1");
    assert_eq!(p.image_tag, "ghcr.io/org/app:v1");
    assert_eq!(p.image_latest, Some(s("ghcr.io/org/app:latest")));
    let q = parse_manual_update_image(" ghcr.io/org/app:LATEST ").unwrap();
    assert_eq!(q.image_latest, None);
    let u = parse_manual_update_image("http://localhost:5000/org/app:v2").unwrap();
    assert_eq!(u.image_tag, "http://localhost:5000/org/app:v2");
    assert_eq!(
        u.image_latest,
        Some(s("http://localhost:5000/org/app:latest"))
    );
    assert_eq!(
        parse_manual_update_image("  ").err(),
        Some(s("image-missing"))
    );
    assert_eq!(
        parse_manual_update_image("noslash").err(),
        Some(s("invalid-image"))
    );
}

#[test]
fn registry_statuses_and_errors() {
    assert_eq!(RegistryDigestStatus::from_db(" OK "), RegistryDigestStatus::Succeeded);
    assert_eq!(RegistryDigestStatus::from_db("x"), RegistryDigestStatus::Failed);
    assert_eq!(
        RegistryDigestStatus::from_db(RegistryDigestStatus::Failed.as_str()),
        RegistryDigestStatus::Failed
    );
    assert_eq!(RegistryDigestStatus::Succeeded.as_str(), "ok");
    assert_eq!(RegistryDigestError::Io.code(), "io-error");
    assert_eq!(RegistryDigestError::DigestMissing.code(), "digest-missing");
    assert_eq!(map_status_to_error(403), RegistryDigestError::Unauthorized);
    assert_eq!(map_status_to_error(500), RegistryDigestError::BadResponse);
    assert_eq!(read_digest_header(Some(" sha256:x ")), Ok(s("sha256:x")));
    assert_eq!(
        read_digest_header(Some(" ")),
        Err(RegistryDigestError::DigestMissing)
    );
    assert_eq!(registry_digest_cache_ttl_secs(Some("0")), 600);
    assert_eq!(registry_digest_cache_ttl_secs(Some(" 30 ")), 30);
    assert_eq!(registry_digest_cache_ttl_secs(None), 600);
}

#[test]
fn cache_freshness() {
    assert!(is_expired(1000, 100, 600));
    assert!(!is_expired(700, 100, 600));
    assert!(!is_expired(50, 100, 0));
    assert!(compute_stale(0, 0, 600, RegistryDigestStatus::Failed));
    assert!(!compute_stale(0, 0, 600, RegistryDigestStatus::Succeeded));
    let row = CacheRow {
        image: s("ghcr.io/a/b:1"),
        digest: Some(s("sha256:old")),
        checked_at: 100,
        status: RegistryDigestStatus::Succeeded,
        error: None,
    };
    let fresh = cached_record(&row, 600, 600);
    assert!(!fresh.stale);
    assert!(fresh.from_cache);
    let old = cached_record(&row, 701, 600);
    assert!(old.stale);
    let bad = invalid_image_record("  bad ", 5, RegistryDigestError::InvalidImage);
    assert_eq!(bad.image, "bad");
    assert_eq!(bad.error, Some(s("invalid-image")));
    assert!(bad.stale);
    let failed = failed_refresh_record("ghcr.io/a/b:1", Some("sha256:old"), 9, RegistryDigestError::Timeout);
    assert_eq!(failed.digest, Some(s("sha256:old")));
    assert_eq!(failed.error, Some(s("timeout")));
    assert_eq!(failed.status, RegistryDigestStatus::Failed);
}

#[test]
fn image_references_for_the_registry() {
    let r = parse_image_ref("GHCR.IO/Org/App:1").ok().unwrap();
    assert_eq!(r.scheme, "https");
    assert_eq!(r.registry, "ghcr.io");
    assert_eq!(r.repo, "Org/App");
    assert_eq!(r.tag, "1");
    assert_eq!(r.normalized_image, "ghcr.io/Org/App:1");
    let u = parse_image_ref("http://127.0.0.1:12345/repo:tag").ok().unwrap();
    assert_eq!(u.scheme, "http");
    assert_eq!(u.registry, "127.0.0.1:12345");
    assert_eq!(manifest_url(&u), "http://127.0.0.1:12345/v2/repo/manifests/tag");
    assert!(matches!(
        parse_image_ref("nope"),
        Err(RegistryDigestError::InvalidImage)
    ));
}

#[test]
fn authentication_challenges() {
    let params = parse_auth_params("realm=\"https://auth\", Service=\"reg\",scope=x,junk");
    assert_eq!(
        params,
        vec![
            (s("realm"), s("https://auth")),
            (s("service"), s("reg")),
            (s("scope"), s("x"))
        ]
    );
    let c = parse_www_authenticate_bearer(
        "Bearer realm=\"http://h/token\",service=\"mock\",scope=\"repository:repo:pull\"",
    )
    .ok()
    .unwrap();
    assert_eq!(c.realm, "http://h/token");
    assert_eq!(c.service, Some(s("mock")));
    assert_eq!(c.scope, Some(s("repository:repo:pull")));
    assert!(matches!(
        parse_www_authenticate_bearer("Bearer service=x"),
        Err(RegistryDigestError::ChallengeParse)
    ));
    assert!(matches!(
        select_challenge(&[s("Basic realm=x")]),
        Challenge::Basic
    ));
    assert!(matches!(
        select_challenge(&[s("Basic x"), s(" bearer realm=y")]),
        Challenge::Bearer(h) if h == " bearer realm=y"
    ));
    assert!(matches!(select_challenge(&[]), Challenge::Missing));
}

#[test]
fn manifest_answers_lead_to_next_steps() {
    assert!(matches!(
        manifest_head_outcome(200, Some("sha256:a"), &[]),
        HeadOutcome::Done(Ok(d)) if d == "sha256:a"
    ));
    assert!(matches!(
        manifest_head_outcome(200, None, &[]),
        HeadOutcome::Done(Err(RegistryDigestError::DigestMissing))
    ));
    assert!(matches!(
        manifest_head_outcome(404, None, &[]),
        HeadOutcome::Done(Err(RegistryDigestError::BadResponse))
    ));
    assert!(matches!(
        manifest_head_outcome(401, None, &[s("Bearer realm=x")]),
        HeadOutcome::NeedBearer(_)
    ));
    assert!(matches!(
        manifest_head_outcome(401, None, &[]),
        HeadOutcome::Done(Err(RegistryDigestError::Unauthorized))
    ));
    assert_eq!(retry_outcome(403, None), Err(RegistryDigestError::Unauthorized));
    assert_eq!(retry_outcome(200, Some("sha256:b")), Ok(s("sha256:b")));
}

#[test]
fn tokens_and_credentials() {
    assert_eq!(token_from_body(&obj(vec![("token", text("t123"))])), Ok(s("t123")));
    assert_eq!(
        token_from_body(&obj(vec![("access_token", text(" t9 "))])),
        Ok(s("t9"))
    );
    assert_eq!(
        token_from_body(&obj(vec![("token", text(" "))])),
        Err(RegistryDigestError::BadResponse)
    );
    let doc = obj(vec![(
        "auths",
        obj(vec![
            (
                "https://127.0.0.1:12345",
                obj(vec![("username", text("koha")), ("password", text("secret"))]),
            ),
            ("ghcr.io", obj(vec![("auth", text("dXNlcjpwYXNz"))])),
            ("quay.io", text("not an object")),
        ]),
    )]);
    let creds = auth_credentials(&doc);
    assert_eq!(creds.len(), 2);
    assert_eq!(
        credentials_for_registry(&creds, "127.0.0.1:12345"),
        Ok((s("koha"), s("secret")))
    );
    assert_eq!(
        credentials_for_registry(&creds, "GHCR.io"),
        Ok((s("user"), s("pass")))
    );
    assert_eq!(
        credentials_for_registry(&creds, "quay.io"),
        Err(RegistryDigestError::AuthMissing)
    );
}

#[test]
fn payloads_name_images() {
    assert_eq!(
        extract_container_image_value(&demo_payload()),
        Ok(s("ghcr.io/example/demo:main"))
    );
    let npm = obj(vec![(
        "package",
        obj(vec![("name", text("x")), ("package_type", text("npm"))]),
    )]);
    assert_eq!(
        extract_container_image_value(&npm),
        Err(s("unsupported-package-type:npm"))
    );
    let no_name = obj(vec![("package", obj(vec![("package_type", text("container"))]))]);
    assert_eq!(
        extract_container_image_value(&no_name),
        Err(s("missing-package-name"))
    );
    assert_eq!(
        extract_container_image_value(&obj(vec![])),
        Err(s("missing-package-node"))
    );
    let registry_package = obj(vec![
        (
            "registry_package",
            obj(vec![
                ("name", text("Demo")),
                ("package_type", text("container")),
                ("owner", obj(vec![("login", text("Octo"))])),
                (
                    "package_version",
                    obj(vec![(
                        "container_metadata",
                        obj(vec![("tag", obj(vec![("name", text(" v1 "))]))]),
                    )]),
                ),
            ]),
        ),
        ("registry", obj(vec![("url", text("https://GHCR.IO"))])),
    ]);
    assert_eq!(
        extract_container_image_value(&registry_package),
        Ok(s("ghcr.io/octo/demo:v1"))
    );
    assert_eq!(extract_primary_tag(&registry_package), Some(s("v1")));
}

#[test]
fn events_and_versions() {
    assert!(github_event_allowed("push", None));
    assert!(github_event_allowed("push", Some("  ")));
    assert!(github_event_allowed("Push", Some("release, push")));
    assert!(!github_event_allowed("ping", Some("release")));
    assert_eq!(normalize_version("vV1.2.3 "), "1.2.3");
}

#[test]
fn signatures_are_checked() {
    let body = br#"{"hello":"world"}"#;
    let secret = "another-secret";
    let bad_sig = "sha256=0000000000000000000000000000000000000000000000000000000000000000";
    let bad = verify_github_signature(bad_sig, secret, body).unwrap();
    assert!(!bad.valid);
    assert_eq!(bad.provided, bad_sig);
    assert_eq!(bad.expected.len(), 64);
    assert!(bad.prefix_ok);
    assert_eq!(bad.expected_len, 32);

    let good = sign(secret, body);
    let upper = good.to_uppercase();
    let check = verify_github_signature(&upper, secret, body).unwrap();
    assert!(check.valid);
    assert_eq!(check.expected, good.trim_start_matches("sha256="));

    let broken = verify_github_signature("sha256=zz", secret, body).unwrap();
    assert!(!broken.valid);
    assert!(!broken.prefix_ok);
    assert_eq!(
        broken.expected_error,
        Some(s("sig-parse: invalid hex: Invalid character 'z' at position 0"))
    );
    assert_eq!(broken.body_sha256.len(), 64);

    assert_eq!(parse_signature_bytes("abcd"), Ok((vec![0xab, 0xcd], false)));
    assert_eq!(
        parse_signature_bytes("abc"),
        Err(s("missing-prefix invalid hex: Odd number of digits"))
    );
}

#[test]
fn request_ids_and_redaction() {
    assert_eq!(request_id(26, 5), "1a-0005");
    assert_eq!(request_id(0, 0x12345), "0-12345");
    assert_eq!(
        redact_token("GET /x?token=abc&y=1 HTTP/1.1"),
        "GET /x?token=***REDACTED***&y=1 HTTP/1.1"
    );
    assert_eq!(redact_token("token=&x"), "token=&x");
}

#[test]
fn admin_and_csrf_checks() {
    let cfg = ForwardAuthConfig::load(
        None,
        Some(" X-Auth "),
        Some(" admin "),
        None,
        None,
        Some("0"),
    );
    assert_eq!(cfg.header_name, Some(s("x-auth")));
    assert_eq!(cfg.admin_value, Some(s("admin")));
    assert!(!cfg.dev_open_admin);
    let good = vec![(s("x-auth"), s("admin"))];
    let wrong = vec![(s("x-auth"), s("guest"))];
    assert!(is_admin_request(&cfg, &good));
    assert_eq!(admin_decision(&cfg, &good), AdminDecision::Allowed);
    assert_eq!(admin_decision(&cfg, &wrong), AdminDecision::Unauthorized);
    let unconfigured = ForwardAuthConfig::load(Some("prod"), None, None, None, None, None);
    assert!(!unconfigured.dev_open_admin);
    assert_eq!(admin_decision(&unconfigured, &good), AdminDecision::NotConfigured);
    let dev = ForwardAuthConfig::load(None, None, None, None, None, None);
    assert_eq!(admin_decision(&dev, &Vec::new()), AdminDecision::Allowed);
    let dev_configured = ForwardAuthConfig::load(None, Some("X-Auth"), Some("admin"), None, None, None);
    assert!(!dev_configured.dev_open_admin);
    assert_eq!(admin_decision(&dev_configured, &wrong), AdminDecision::Unauthorized);
    assert_eq!(admin_decision(&dev_configured, &Vec::new()), AdminDecision::Unauthorized);
    let dev_flagged = ForwardAuthConfig::load(None, Some("X-Auth"), Some("admin"), None, None, Some("1"));
    assert_eq!(admin_decision(&dev_flagged, &wrong), AdminDecision::Allowed);

    assert_eq!(csrf_decision("GET", None, true, None), CsrfDecision::Allowed);
    assert_eq!(csrf_decision("POST", None, true, None), CsrfDecision::MissingCsrf);
    assert_eq!(
        csrf_decision("POST", Some(" 1 "), false, Some("text/plain")),
        CsrfDecision::NotJson
    );
    assert_eq!(csrf_decision("DELETE", Some("1"), false, None), CsrfDecision::Allowed);
    assert_eq!(
        csrf_decision("POST", Some("1"), false, Some("Application/JSON; charset=utf-8")),
        CsrfDecision::Allowed
    );
    assert_eq!(public_base_url(Some(" https://x/ ")), Some(s("https://x")));
    assert_eq!(public_base_url(Some(" / ")), None);
}

#[test]
fn webhook_requests_are_decided() {
    let secret = "topsecret";
    let body = br#"{"action":"published"}"#;
    let sig = sign(secret, body);
    let path = "/github-package-update/demo";
    let payload: Result<Json, String> = Ok(demo_payload());
    match webhook_decision(
        "POST",
        Some(" topsecret\n"),
        Some(&sig),
        body,
        Some("package"),
        None,
        path,
        &payload,
    ) {
        WebhookDecision::Proceed(unit, image, event) => {
            assert_eq!(unit, "demo.service");
            assert_eq!(image, "ghcr.io/example/demo:main");
            assert_eq!(event, "package");
        }
        _ => panic!("expected the webhook to proceed"),
    }
    assert!(matches!(
        webhook_decision("GET", Some(secret), Some(&sig), body, None, None, path, &payload),
        WebhookDecision::MethodNotAllowed
    ));
    assert!(matches!(
        webhook_decision("POST", None, Some(&sig), body, None, None, path, &payload),
        WebhookDecision::MissingSecret
    ));
    assert!(matches!(
        webhook_decision("POST", Some(secret), None, body, None, None, path, &payload),
        WebhookDecision::MissingSignature
    ));
    assert!(matches!(
        webhook_decision("POST", Some("other"), Some(&sig), body, None, None, path, &payload),
        WebhookDecision::BadSignature(_)
    ));
    assert!(matches!(
        webhook_decision("POST", Some(secret), Some(&sig), body, Some("ping"), Some("package"), path, &payload),
        WebhookDecision::EventIgnored(e) if e == "ping"
    ));
    assert!(matches!(
        webhook_decision("POST", Some(secret), Some(&sig), body, None, None, "/github-package-update", &payload),
        WebhookDecision::NoUnit(e) if e == "unknown"
    ));
    let empty: Result<Json, String> = Err(s("empty-body"));
    assert!(matches!(
        webhook_decision("POST", Some(secret), Some(&sig), body, None, None, path, &empty),
        WebhookDecision::Skipped(r, _) if r == "empty-body"
    ));
    assert!(matches!(
        image_gate("a:1", Some(" a:1 "), None),
        ImageGate::Queue(d) if d == "unknown"
    ));
    assert!(matches!(
        image_gate("a:1", Some("a:2"), Some("d1")),
        ImageGate::TagMismatch(e) if e == "a:2"
    ));
}

#[test]
fn stop_requests_are_planned() {
    assert!(matches!(stop_plan("succeeded", true, &Ok(None), true), StopPlan::AlreadyFinished));
    assert!(matches!(stop_plan("running", false, &Ok(None), true), StopPlan::Unsupported));
    assert!(matches!(stop_plan("running", true, &Err(s("bad")), true), StopPlan::InvalidMeta));
    assert!(matches!(stop_plan("running", true, &Err(s("bad")), false), StopPlan::Stop(None)));
    assert!(matches!(stop_plan("running", true, &Ok(None), true), StopPlan::NoRunnerUnit));
    assert!(matches!(
        stop_plan("running", true, &Ok(Some(s("webhook-task-abc"))), true),
        StopPlan::Stop(Some(u)) if u == "webhook-task-abc"
    ));
    assert_eq!(
        stopped_summary(StopMode::Graceful, Some("Deploy")),
        "Deploy · cancelled by user"
    );
    let once = stopped_summary(StopMode::Graceful, None);
    assert_eq!(once, "Task · cancelled by user");
    assert_eq!(stopped_summary(StopMode::Graceful, Some(&once)), once);
    assert_eq!(stopped_summary(StopMode::Force, None), "Task · force-stopped");
    assert_eq!(stopped_status(StopMode::Force), "failed");
    assert_eq!(stopped_status(StopMode::Graceful), "cancelled");
}

#[test]
fn podman_entries_are_read() {
    assert!(container_is_running(&obj(vec![("State", text("Running"))])));
    assert!(!container_is_running(&obj(vec![("state", text("exited"))])));
    assert!(container_is_running(&obj(vec![("Exited", Json::Bool(false))])));
    assert!(container_is_running(&obj(vec![("Status", text("Up 3 hours"))])));
    assert!(!container_is_running(&obj(vec![])));
    assert_eq!(
        container_created_ts(&obj(vec![("Created", Json::Number(s("1700000000")))])),
        1_700_000_000
    );
    assert_eq!(container_created_ts(&obj(vec![("created", Json::Number(s("-5")))])), -5);
    assert_eq!(container_created_ts(&obj(vec![("Created", Json::Number(s("1.5")))])), 0);
    assert_eq!(
        container_image_id(&obj(vec![("ImageID", text(" abc "))])),
        Some(s("abc"))
    );
    assert_eq!(container_image_id(&obj(vec![("imageId", text(" "))])), None);
    assert_eq!(
        container_unit_label(&obj(vec![(
            "Labels",
            obj(vec![("PODMAN_SYSTEMD_UNIT", text("web.service"))])
        )])),
        Some(s("web.service"))
    );
}

#[test]
fn rate_limit_enforces_limits() {
    // PODUP_LIMIT1_COUNT=1, PODUP_LIMIT1_WINDOW=3600, PODUP_LIMIT2_COUNT=5,
    // PODUP_LIMIT2_WINDOW=3600; the store starts empty and the first
    // accepted request leaves one token in both windows.
    let windows = manual_rate_windows(Some("1"), Some("3600"), Some("5"), Some("3600")).unwrap();
    let first = rate_limit_verdict(&[0, 0], &windows);
    assert!(first.is_ok(), "first rate limit check failed: {:?}", first);
    let second = rate_limit_verdict(&[1, 1], &windows);
    assert!(
        matches!(second, Err(RateLimitError::Exceeded { .. })),
        "second check expected limit hit, got {:?}",
        second
    );
}

fn auth_doc(registry_key: &str, user: &str, pass: &str) -> Json {
    obj(vec![(
        "auths",
        obj(vec![(registry_key, obj(vec![("username", text(user)), ("password", text(pass))]))]),
    )])
}

#[test]
fn auth_json_username_password_and_scheme_key_supported() {
    let registry = "127.0.0.1:12345";
    let doc = auth_doc(&format!("https://{registry}"), "u1", "p1");
    let creds = credentials_for_registry(&auth_credentials(&doc), registry).unwrap();
    assert_eq!(creds.0, "u1");
    assert_eq!(creds.1, "p1");
}

#[test]
fn remote_digest_200_header_ok() {
    let digest = "sha256:deadbeef";
    let found = match manifest_head_outcome(200, Some(digest), &[]) {
        HeadOutcome::Done(Ok(d)) => d,
        _ => panic!("a 200 answer with a digest ends the lookup"),
    };
    let record = stored_record("127.0.0.1:5000/repo:tag", Some(&found), 100, RegistryDigestStatus::Succeeded, None);
    assert_eq!(record.status, RegistryDigestStatus::Succeeded);
    assert_eq!(record.digest.as_deref(), Some(digest));
    assert!(!record.stale);
}

#[test]
fn remote_digest_401_bearer_challenge_then_ok() {
    let addr = "127.0.0.1:5000";
    let challenge = format!(
        "Bearer realm=\"http://{addr}/token\",service=\"mock\",scope=\"repository:repo:pull\""
    );
    let header = match manifest_head_outcome(401, None, &[challenge.clone()]) {
        HeadOutcome::NeedBearer(h) => h,
        _ => panic!("a 401 with a bearer challenge asks for a token"),
    };
    let bearer = parse_www_authenticate_bearer(&header).unwrap();
    assert_eq!(bearer.realm, format!("http://{addr}/token"));
    assert_eq!(bearer.service.as_deref(), Some("mock"));
    assert_eq!(bearer.scope.as_deref(), Some("repository:repo:pull"));
    let creds = credentials_for_registry(&auth_credentials(&auth_doc(addr, "koha", "secret")), addr).unwrap();
    assert_eq!(creds, (s("koha"), s("secret")));
    let token = token_from_body(&obj(vec![("token", text("t123"))])).unwrap();
    assert_eq!(token, "t123");
    let digest = retry_outcome(200, Some("sha256:beadfeed")).unwrap();
    let record = stored_record("127.0.0.1:5000/repo:tag", Some(&digest), 100, RegistryDigestStatus::Succeeded, None);
    assert_eq!(record.status, RegistryDigestStatus::Succeeded);
    assert_eq!(record.digest.as_deref(), Some("sha256:beadfeed"));
    assert!(!record.stale);
}

#[test]
fn remote_digest_missing_auth_returns_auth_missing() {
    let challenge = s("Bearer realm=\"http://127.0.0.1/token\",service=\"mock\",scope=\"repository:repo:pull\"");
    assert!(matches!(manifest_head_outcome(401, None, &[challenge]), HeadOutcome::NeedBearer(_)));
    let err = credentials_for_registry(&Vec::new(), "127.0.0.1:5000").unwrap_err();
    assert_eq!(err, RegistryDigestError::AuthMissing);
    let record = failed_refresh_record("127.0.0.1:5000/repo:tag", None, 100, err);
    assert_eq!(record.status, RegistryDigestStatus::Failed);
    assert_eq!(record.error.as_deref(), Some("auth-missing"));
    assert!(record.stale);
}

#[test]
fn remote_digest_200_without_digest_header_returns_digest_missing() {
    let err = match manifest_head_outcome(200, None, &[]) {
        HeadOutcome::Done(Err(e)) => e,
        _ => panic!("a 200 answer without a digest fails"),
    };
    let record = failed_refresh_record("127.0.0.1:5000/repo:tag", None, 100, err);
    assert_eq!(record.status, RegistryDigestStatus::Failed);
    assert_eq!(record.error.as_deref(), Some("digest-missing"));
}

#[test]
fn cache_ttl_hit_expired_force_refresh_and_failure_fallback() {
    let image = "127.0.0.1:5000/repo:tag";
    let now = 10_000i64;
    let row = CacheRow {
        image: s(image),
        digest: Some(s("sha256:old")),
        checked_at: now,
        status: RegistryDigestStatus::Succeeded,
        error: None,
    };
    // A fresh entry answers without a lookup.
    assert!(use_cached(true, false));
    let record = cached_record(&row, now, 600);
    assert_eq!(record.status, RegistryDigestStatus::Succeeded);
    assert_eq!(record.digest.as_deref(), Some("sha256:old"));
    assert!(!record.stale);
    // Expired, without a forced refresh: the old digest, stale.
    let expired = CacheRow { checked_at: now - 601, ..row };
    let record = cached_record(&expired, now, 600);
    assert_eq!(record.digest.as_deref(), Some("sha256:old"));
    assert!(record.stale);
    // A forced refresh looks the digest up and stores the new one.
    assert!(!use_cached(true, true));
    let fresh = match manifest_head_outcome(200, Some("sha256:new"), &[]) {
        HeadOutcome::Done(Ok(d)) => d,
        _ => panic!("the refresh finds the digest"),
    };
    let record = stored_record(image, Some(&fresh), now, RegistryDigestStatus::Succeeded, None);
    assert_eq!(record.status, RegistryDigestStatus::Succeeded);
    assert_eq!(record.digest.as_deref(), Some("sha256:new"));
    assert!(!record.stale);
    // A failed forced refresh keeps the previous digest, stale, with the error code.
    let err = match manifest_head_outcome(200, None, &[]) {
        HeadOutcome::Done(Err(e)) => e,
        _ => panic!("the second refresh finds no digest"),
    };
    let record = failed_refresh_record(image, Some("sha256:new"), now, err);
    assert_eq!(record.status, RegistryDigestStatus::Failed);
    assert_eq!(record.digest.as_deref(), Some("sha256:new"));
    assert!(record.stale);
    assert_eq!(record.error.as_deref(), Some("digest-missing"));
    for forbidden in ["Authorization", "koha", "secret", "t123"] {
        assert!(!record.error.as_deref().unwrap_or_default().contains(forbidden));
    }
}
