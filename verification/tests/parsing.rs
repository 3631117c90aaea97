use podup::http::{
    body_framing, content_type_for, frontend_asset, parse_chunk_size_line, parse_header_line,
    parse_request_line, query_flag, route_request, sanitize_frontend_path, BodyFraming, ChunkLine,
    HeaderLine, Route,
};
use podup::json::{json_pointer, Json};
use podup::quadlet::{
    autoupdate_enabled, fallback_container_file, quadlet_unit_name, unit_definition_path_from_show,
};
use podup::ratelimit::{
    github_image_windows, manual_rate_windows, max_window, rate_cutoffs, rate_limit_verdict,
    RateLimitError, RateWindow,
};
use podup::systemd::{
    evaluate_unit_health, parse_systemctl_show_properties, prop_lookup, unit_state_summary,
    UnitHealthVerdict,
};

fn s(x: &str) -> String {
    x.to_string()
}

#[test]
fn show_properties_are_parsed_last_value_wins() {
    let props = parse_systemctl_show_properties(
        "ActiveState=active\nSubState=running\n=x\nnoeq\nResult= success \nSubState=exited\n",
    );
    assert_eq!(props.len(), 4);
    assert_eq!(props[0], (s("ActiveState"), s("active")));
    assert_eq!(prop_lookup(&props, "Result"), Some(s("success")));
    assert_eq!(prop_lookup(&props, "SubState"), Some(s("exited")));
    assert_eq!(prop_lookup(&props, "Type"), None);
}

#[test]
fn state_summary_keeps_informative_values() {
    let props = parse_systemctl_show_properties(
        "Type=n/a\nActiveState=active\nSubState=running\nResult=success\nExecMainStatus=-\n",
    );
    assert_eq!(
        unit_state_summary(&props),
        "ActiveState=active SubState=running Result=success"
    );
    assert_eq!(unit_state_summary(&Vec::new()), "");
}

#[test]
fn unit_health_verdicts() {
    let p = |t: &str| parse_systemctl_show_properties(t);
    assert_eq!(
        evaluate_unit_health(&p("ActiveState=failed\n")),
        UnitHealthVerdict::Failed
    );
    assert_eq!(
        evaluate_unit_health(&p("ActiveState=active\nResult=exit-code\n")),
        UnitHealthVerdict::Failed
    );
    assert_eq!(
        evaluate_unit_health(&p("Type=simple\nActiveState=inactive\nResult=success\n")),
        UnitHealthVerdict::Degraded
    );
    assert_eq!(
        evaluate_unit_health(&p("Type=oneshot\nActiveState=inactive\nResult=success\n")),
        UnitHealthVerdict::Healthy
    );
    assert_eq!(evaluate_unit_health(&Vec::new()), UnitHealthVerdict::Healthy);
    assert_eq!(UnitHealthVerdict::Healthy.task_status(), "succeeded");
    assert_eq!(UnitHealthVerdict::Unknown.task_status(), "unknown");
    assert_eq!(UnitHealthVerdict::Degraded.log_level(), "warning");
    assert_eq!(UnitHealthVerdict::Failed.log_level(), "error");
}

#[test]
fn quadlet_files_name_services() {
    assert_eq!(
        quadlet_unit_name("/etc/containers/systemd/web.container"),
        Some(s("web.service"))
    );
    assert_eq!(quadlet_unit_name("x.service"), Some(s("x.service")));
    assert_eq!(quadlet_unit_name("a.kube"), Some(s("a.service")));
    assert_eq!(quadlet_unit_name("a.image"), Some(s("a.service")));
    assert_eq!(quadlet_unit_name("a.txt"), None);
    assert_eq!(quadlet_unit_name(".container"), None);
    assert_eq!(quadlet_unit_name("dir/"), None);
    assert_eq!(quadlet_unit_name("a/.."), None);
}

#[test]
fn autoupdate_setting_is_read() {
    assert!(autoupdate_enabled("[Container]\nAutoUpdate=registry\n"));
    assert!(!autoupdate_enabled("[Container]\nAutoUpdate = false\n"));
    assert!(autoupdate_enabled("# AutoUpdate=false\n"));
    assert!(autoupdate_enabled(""));
    assert!(!autoupdate_enabled("autoupdate=NONE\n"));
    assert!(!autoupdate_enabled("AutoUpdate=\n"));
}

#[test]
fn unit_definition_paths() {
    let p = unit_definition_path_from_show(
        "SourcePath=/etc/a.container\nFragmentPath=/run/a.service\n",
    )
    .unwrap();
    assert_eq!(p.as_str(), "/etc/a.container");
    let q = unit_definition_path_from_show("SourcePath=n/a\nFragmentPath=/run/a.service\n").unwrap();
    assert_eq!(q.as_str(), "/run/a.service");
    assert!(unit_definition_path_from_show("SourcePath=relative\n").is_none());
    assert!(unit_definition_path_from_show("").is_none());
    assert_eq!(fallback_container_file("web.service"), Some(s("web.container")));
    assert_eq!(fallback_container_file("x.service.service"), Some(s("x.container")));
    assert_eq!(fallback_container_file(".service"), None);
}

#[test]
fn request_and_header_lines() {
    assert_eq!(parse_request_line("GET /x HTTP/1.1"), (s("GET"), s("/x")));
    assert_eq!(parse_request_line(""), (s(""), s("")));
    assert_eq!(parse_request_line("  POST   "), (s("POST"), s("")));
    match parse_header_line("Content-Type:  text/plain \r\n") {
        HeaderLine::Field(n, v) => {
            assert_eq!(n, "content-type");
            assert_eq!(v, "text/plain");
        }
        _ => panic!("expected a header field"),
    }
    assert!(matches!(parse_header_line("\r\n"), HeaderLine::End));
    assert!(matches!(parse_header_line("junk\r\n"), HeaderLine::Skip));
}

#[test]
fn body_framing_and_chunks() {
    assert!(matches!(body_framing(Some("12"), None), BodyFraming::Length(12)));
    assert!(matches!(
        body_framing(Some("x"), Some("gzip, Chunked")),
        BodyFraming::Chunked
    ));
    assert!(matches!(body_framing(None, None), BodyFraming::NoBody));
    assert!(matches!(parse_chunk_size_line("1a\r\n"), ChunkLine::Size(26)));
    assert!(matches!(parse_chunk_size_line("0"), ChunkLine::Size(0)));
    assert!(matches!(parse_chunk_size_line("  \r\n"), ChunkLine::Blank));
    match parse_chunk_size_line("zz") {
        ChunkLine::Invalid(m) => {
            assert_eq!(m, "invalid chunk size 'zz': invalid digit found in string")
        }
        _ => panic!("expected an invalid chunk size"),
    }
    match parse_chunk_size_line("ffffffffffffffffff") {
        ChunkLine::Invalid(m) => assert!(m.ends_with("number too large to fit in target type")),
        _ => panic!("expected an overflow"),
    }
}

#[test]
fn query_flags() {
    assert!(query_flag(Some("dry_run=1&x=2"), &["dry_run"]));
    assert!(query_flag(Some("DRY=yes"), &["dry"]));
    assert!(query_flag(Some("dry"), &["dry"]));
    assert!(!query_flag(Some("dry=0"), &["dry"]));
    assert!(!query_flag(None, &["dry"]));
    assert!(query_flag(Some("a=1&force=on"), &["all", "force"]));
}

#[test]
fn frontend_paths_and_types() {
    assert_eq!(sanitize_frontend_path("/assets/app.js"), Some(s("assets/app.js")));
    assert_eq!(sanitize_frontend_path("/assets/../x"), None);
    assert_eq!(sanitize_frontend_path("/"), Some(s("index.html")));
    assert_eq!(sanitize_frontend_path("/./a//b"), Some(s("a/b")));
    assert_eq!(
        content_type_for("assets/app.JS"),
        "application/javascript; charset=utf-8"
    );
    assert_eq!(content_type_for("x"), "application/octet-stream");
    assert_eq!(content_type_for("a.jpeg"), "image/jpeg");
    assert_eq!(frontend_asset("GET", "/tasks"), Some(s("index.html")));
    assert_eq!(frontend_asset("POST", "/"), None);
    assert_eq!(frontend_asset("HEAD", "/favicon.ico"), Some(s("favicon.ico")));
    assert_eq!(frontend_asset("GET", "/assets/x.css"), Some(s("assets/x.css")));
    assert_eq!(frontend_asset("GET", "/unknown"), None);
}

#[test]
fn requests_are_routed() {
    assert_eq!(route_request("GET", "/health"), Route::Health);
    assert_eq!(route_request("POST", "/health"), Route::Frontend);
    assert_eq!(
        route_request("POST", "/github-package-update/x"),
        Route::GithubWebhook
    );
    assert_eq!(route_request("GET", "/api/tasks/1"), Route::TasksApi);
    assert_eq!(route_request("POST", "/auto-update"), Route::ManualAutoUpdate);
    assert_eq!(route_request("GET", "/api/manual/services"), Route::ManualApi);
}

#[test]
fn rate_limit_verdicts() {
    let windows = [
        RateWindow {
            limit: 1,
            window: 3600,
        },
        RateWindow {
            limit: 5,
            window: 3600,
        },
    ];
    assert!(rate_limit_verdict(&[0, 0], &windows).is_ok());
    match rate_limit_verdict(&[1, 1], &windows) {
        Err(RateLimitError::Exceeded { c1, l1, c2, l2 }) => {
            assert_eq!((c1, l1, c2, l2), (1, 1, 1, 5));
        }
        other => panic!("expected exceeded, got {other:?}"),
    }
    match rate_limit_verdict(&[], &[RateWindow { limit: 0, window: 1 }]) {
        Err(RateLimitError::Exceeded { c1, l1, c2, l2 }) => {
            assert_eq!((c1, l1, c2, l2), (0, 0, 0, 0));
        }
        other => panic!("expected exceeded, got {other:?}"),
    }
    assert_eq!(rate_cutoffs(100, &windows), vec![0, 0]);
    assert_eq!(
        rate_cutoffs(
            100,
            &[
                RateWindow {
                    limit: 1,
                    window: 30
                },
                RateWindow {
                    limit: 1,
                    window: 300
                }
            ]
        ),
        vec![70, 0]
    );
    assert_eq!(max_window(&windows), 3600);
    assert_eq!(max_window(&[]), 0);
}

#[test]
fn rate_windows_from_settings() {
    let w = manual_rate_windows(None, None, None, None).unwrap();
    assert_eq!(
        w,
        vec![
            RateWindow {
                limit: 2,
                window: 600
            },
            RateWindow {
                limit: 10,
                window: 18_000
            }
        ]
    );
    match manual_rate_windows(Some("x"), None, None, None) {
        Err(RateLimitError::Io(e)) => assert_eq!(e, "invalid PODUP_LIMIT1_COUNT"),
        other => panic!("expected an io error, got {other:?}"),
    }
    assert_eq!(
        github_image_windows(),
        vec![RateWindow {
            limit: 60,
            window: 3600
        }]
    );
}

#[test]
fn json_pointers_follow_members_and_indexes() {
    let doc = Json::Object(vec![(
        s("a"),
        Json::Object(vec![(
            s("b/c"),
            Json::Array(vec![
                Json::Number(s("1")),
                Json::Object(vec![(s("d"), Json::Str(s("x")))]),
            ]),
        )]),
    )]);
    assert!(matches!(json_pointer(&doc, "/a/b~1c/1/d"), Some(Json::Str(v)) if v == "x"));
    assert!(json_pointer(&doc, "/a/b~1c/01").is_none());
    assert!(matches!(json_pointer(&doc, ""), Some(Json::Object(_))));
    assert!(json_pointer(&doc, "a").is_none());
    assert!(json_pointer(&doc, "/a/missing").is_none());
}
