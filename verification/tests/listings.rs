use podup::digests::{
    inspect_args, inspect_ids, inspected_image_digest, ps_failed_digests, running_digests,
    unit_image_choice, unit_image_choices, RunningDigestInfo,
};
use podup::json::Json;
use podup::registry::{RegistryDigestRecord, RegistryDigestStatus};
use podup::services::{
    merge_unit_lists, service_draft, service_slug, service_update, service_updates,
    update_images,
};
use podup::sorting::{sorted_unique, str_less};

fn s(x: &str) -> String {
    x.to_string()
}

fn strings(items: &[&str]) -> Vec<String> {
    items.iter().map(|x| x.to_string()).collect()
}

fn obj(members: Vec<(&str, Json)>) -> Json {
    Json::Object(members.into_iter().map(|(k, v)| (s(k), v)).collect())
}

fn text(x: &str) -> Json {
    Json::Str(s(x))
}

fn num(x: i64) -> Json {
    Json::Number(x.to_string())
}

fn container(unit: &str, state: &str, created: i64, image: &str) -> Json {
    obj(vec![
        ("Labels", obj(vec![("PODMAN_SYSTEMD_UNIT", text(unit))])),
        ("State", text(state)),
        ("Created", num(created)),
        ("ImageID", text(image)),
    ])
}

fn record(image: &str, digest: Option<&str>, checked_at: i64, stale: bool, error: Option<&str>) -> RegistryDigestRecord {
    RegistryDigestRecord {
        image: s(image),
        digest: digest.map(s),
        checked_at,
        status: if digest.is_some() {
            RegistryDigestStatus::Succeeded
        } else {
            RegistryDigestStatus::Failed
        },
        error: error.map(s),
        stale,
        from_cache: false,
    }
}

fn info(digest: Option<&str>, reason: Option<&str>) -> RunningDigestInfo {
    RunningDigestInfo { digest: digest.map(s), reason: reason.map(s) }
}

#[test]
fn strings_sort_and_lose_repeats() {
    let out = sorted_unique(&strings(&["b", "a", "b", "c", "", "ab"]));
    assert_eq!(out, strings(&["", "a", "ab", "b", "c"]));
    assert!(str_less("a", "b"));
    assert!(str_less("a", "ab"));
    assert!(!str_less("ab", "a"));
    assert!(!str_less("b", "b"));
    assert!(!str_less("\u{e9}", "z"));
    let mut expected = strings(&["zeta", "Alpha", "beta", "alpha", "beta"]);
    expected.sort();
    expected.dedup();
    assert_eq!(sorted_unique(&strings(&["zeta", "Alpha", "beta", "alpha", "beta"])), expected);
}

#[test]
fn containers_are_chosen_per_unit() {
    let ps = Json::Array(vec![
        container("app.service", "exited", 300, "img-old-exited"),
        container("app.service", "running", 100, "img-run-1"),
        container("app.service", "running", 200, "img-run-2"),
        container("app.service", "running", 200, "img-run-3"),
        container("db.service", "exited", 50, "img-db-a"),
        container("db.service", "exited", 70, "img-db-b"),
        obj(vec![
            ("Labels", obj(vec![("PODMAN_SYSTEMD_UNIT", text("noimg.service"))])),
            ("State", text("running")),
        ]),
    ]);
    assert_eq!(unit_image_choice(&ps, "app.service"), Some(Some(s("img-run-2"))));
    assert_eq!(unit_image_choice(&ps, "db.service"), Some(Some(s("img-db-b"))));
    assert_eq!(unit_image_choice(&ps, "noimg.service"), Some(None));
    assert_eq!(unit_image_choice(&ps, "missing.service"), None);
    assert_eq!(unit_image_choice(&text("not an array"), "app.service"), None);

    let units = strings(&["db.service", "app.service", "missing.service", "noimg.service"]);
    let choices = unit_image_choices(&ps, &units);
    assert_eq!(inspect_ids(&choices), strings(&["img-db-b", "img-run-2"]));
    assert_eq!(inspect_args(&strings(&[])), None);
    assert_eq!(
        inspect_args(&strings(&[" a ", "", "b"])),
        Some(strings(&["image", "inspect", "a", "b"]))
    );

    let inspect = Json::Array(vec![
        obj(vec![
            ("Id", text(" img-db-b ")),
            ("RepoDigests", Json::Array(vec![
                text("no-at-sign"),
                text("ghcr.io/acme/db@md5:abc"),
                text("ghcr.io/acme/db@ sha256:db1 "),
            ])),
        ]),
        obj(vec![("ID", text("img-run-2")), ("Digest", text("sha256:run2"))]),
        obj(vec![("Id", text("img-other")), ("Digest", text("md5:nope"))]),
    ]);
    assert_eq!(
        inspected_image_digest(&obj(vec![("Id", text("x")), ("Digest", text(" sha256:d "))])),
        Some((s("x"), s("sha256:d")))
    );
    assert_eq!(inspected_image_digest(&obj(vec![("Id", text("  ")), ("Digest", text("sha256:d"))])), None);

    let infos = running_digests(&choices, Some(&inspect));
    assert_eq!(infos.len(), 4);
    assert_eq!(infos[0].digest.as_deref(), Some("sha256:db1"));
    assert_eq!(infos[0].reason, None);
    assert_eq!(infos[1].digest.as_deref(), Some("sha256:run2"));
    assert_eq!(infos[2].digest, None);
    assert_eq!(infos[2].reason.as_deref(), Some("container-not-found"));
    assert_eq!(infos[3].reason.as_deref(), Some("image-id-missing"));

    let failed = running_digests(&choices, None);
    assert_eq!(failed[0].reason.as_deref(), Some("podman-image-inspect-failed"));
    assert_eq!(failed[2].reason.as_deref(), Some("container-not-found"));

    let empty_inspect = Json::Array(vec![]);
    let none_found = running_digests(&choices, Some(&empty_inspect));
    assert_eq!(none_found[0].reason.as_deref(), Some("digest-missing"));

    let ps_failed = ps_failed_digests(2);
    assert_eq!(ps_failed.len(), 2);
    assert_eq!(ps_failed[1].reason.as_deref(), Some("podman-ps-failed"));
}

#[test]
fn services_are_listed_with_update_state() {
    assert_eq!(service_slug(" /app.service.service/ "), "app");
    assert_eq!(service_slug("db"), "db");

    let discovered = strings(&["app.service"]);
    let d = service_draft("app.service", Some(s("ghcr.io/acme/app:1.2")), &discovered, "podman-auto-update.service");
    assert_eq!(d.slug, "app");
    assert_eq!(d.github_path, "/github-package-update/app");
    assert_eq!(d.source, "discovered");
    assert!(!d.is_auto_update);
    let p = d.update_image.as_ref().unwrap();
    assert_eq!(p.tag, "1.2");
    assert_eq!(p.image_tag, "ghcr.io/acme/app:1.2");
    assert_eq!(p.image_latest.as_deref(), Some("ghcr.io/acme/app:latest"));

    let missing = service_draft("podman-auto-update.service", None, &discovered, "podman-auto-update.service");
    assert_eq!(missing.source, "manual");
    assert!(missing.is_auto_update);
    assert_eq!(missing.update_image.as_ref().err().map(|e| e.as_str()), Some("image-missing"));

    let latest = service_draft("web.service", Some(s("ghcr.io/acme/web:LATEST")), &discovered, "x");
    let drafts = vec![d, missing, latest];
    assert_eq!(
        update_images(&drafts),
        strings(&["ghcr.io/acme/app:1.2", "ghcr.io/acme/app:latest", "ghcr.io/acme/web:LATEST"])
    );

    let running = vec![
        (s("app.service"), info(Some("sha256:old"), None)),
        (s("web.service"), info(Some("sha256:w"), None)),
    ];
    let records = vec![
        (s("ghcr.io/acme/app:1.2"), record("ghcr.io/acme/app:1.2", Some("sha256:new"), 100, false, None)),
        (s("ghcr.io/acme/app:latest"), record("ghcr.io/acme/app:latest", Some("sha256:new"), 120, true, None)),
        (s("ghcr.io/acme/web:LATEST"), record("ghcr.io/acme/web:LATEST", Some("sha256:w"), 90, false, None)),
    ];
    let ups = service_updates(&drafts, &running, &records, false);
    assert_eq!(ups[0].status, "tag_update_available");
    assert_eq!(ups[0].reason, "tag-digest-changed");
    assert_eq!(ups[0].tag.as_deref(), Some("1.2"));
    assert_eq!(ups[0].running_digest.as_deref(), Some("sha256:old"));
    assert_eq!(ups[0].remote_tag_digest.as_deref(), Some("sha256:new"));
    assert_eq!(ups[0].remote_latest_digest.as_deref(), Some("sha256:new"));
    assert_eq!(ups[0].checked_at, Some(120));
    assert_eq!(ups[0].stale, Some(true));
    assert_eq!(ups[1].status, "unknown");
    assert_eq!(ups[1].reason, "image-missing");
    assert_eq!(ups[1].tag, None);
    assert_eq!(ups[2].status, "up_to_date");
    assert_eq!(ups[2].reason, "up-to-date");
    assert_eq!(ups[2].checked_at, Some(90));
    assert_eq!(ups[2].stale, Some(false));

    let ahead_running = vec![(s("app.service"), info(Some("sha256:new"), None))];
    let ahead_records = vec![
        (s("ghcr.io/acme/app:1.2"), record("ghcr.io/acme/app:1.2", Some("sha256:new"), 100, false, None)),
        (s("ghcr.io/acme/app:latest"), record("ghcr.io/acme/app:latest", Some("sha256:newer"), 50, false, None)),
    ];
    let ahead = service_update(&drafts[0], &ahead_running, &ahead_records, false);
    assert_eq!(ahead.status, "latest_ahead");
    assert_eq!(ahead.reason, "latest-digest-ahead");
    assert_eq!(ahead.checked_at, Some(100));

    let no_running = service_update(&drafts[0], &[], &records, false);
    assert_eq!(no_running.status, "unknown");
    assert_eq!(no_running.reason, "container-not-found");
    let db_down = service_update(&drafts[0], &[], &records, true);
    assert_eq!(db_down.reason, "db-unavailable");
    let remote_error = vec![(s("ghcr.io/acme/app:1.2"), record("ghcr.io/acme/app:1.2", None, 10, false, Some("auth-failed")))];
    let remote = service_update(&drafts[0], &ahead_running, &remote_error, false);
    assert_eq!(remote.reason, "auth-failed");
    assert_eq!(remote.checked_at, Some(10));
    let no_remote = service_update(&drafts[0], &ahead_running, &[], false);
    assert_eq!(no_remote.reason, "remote-unavailable");
    assert_eq!(no_remote.checked_at, None);

    assert_eq!(
        merge_unit_lists(&strings(&["a.service", "b.service", "a.service"]), &strings(&["b.service", "c.service", "c.service"])),
        strings(&["a.service", "b.service", "a.service", "c.service"])
    );
}
