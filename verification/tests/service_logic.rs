use std::collections::HashSet;

use hmac::{Hmac, Mac};
use podup::github::{
    compare_versions, extract_container_image_value, latest_release_from_response,
    CurrentVersion, GitHubReleaseResponse, LatestRelease,
};
use podup::ids::next_task_id;
use podup::json::Json;
use podup::quadlet::parse_container_image_contents;
use podup::signature::verify_github_signature;
use podup::units::{build_systemd_run_args, images_match};

const TASK_ID_ALPHABET: [char; 23] = [
    '3', '4', '7', '9', 'A', 'C', 'D', 'E', 'F', 'H', 'J', 'K', 'M', 'N', 'P', 'Q', 'R', 'T', 'U',
    'V', 'W', 'X', 'Y',
];
const TASK_ID_LEN: usize = 16;

fn to_json(v: &serde_json::Value) -> Json {
    match v {
        serde_json::Value::Null => Json::Null,
        serde_json::Value::Bool(b) => Json::Bool(*b),
        serde_json::Value::Number(n) => Json::Number(n.to_string()),
        serde_json::Value::String(s) => Json::Str(s.clone()),
        serde_json::Value::Array(a) => Json::Array(a.iter().map(to_json).collect()),
        serde_json::Value::Object(m) => {
            Json::Object(m.iter().map(|(k, x)| (k.clone(), to_json(x))).collect())
        }
    }
}

fn parse_payload(text: &str) -> Json {
    let value: serde_json::Value = serde_json::from_str(text).unwrap();
    to_json(&value)
}

fn release_response(raw_json: &str) -> GitHubReleaseResponse {
    let value: serde_json::Value = serde_json::from_str(raw_json).unwrap();
    GitHubReleaseResponse {
        tag_name: value
            .get("tag_name")
            .and_then(|v| v.as_str())
            .map(String::from),
        published_at: value
            .get("published_at")
            .and_then(|v| v.as_str())
            .map(String::from),
    }
}

#[test]
fn task_id_generation_is_ocr_friendly() {
    let allowed: HashSet<char> = TASK_ID_ALPHABET.into_iter().collect();

    for prefix in ["tsk", "retry"] {
        let task_id = next_task_id(prefix);
        let expected_prefix = format!("{prefix}_");
        assert!(
            task_id.starts_with(&expected_prefix),
            "task_id must start with {expected_prefix}, got {task_id}"
        );

        let suffix = task_id
            .strip_prefix(&expected_prefix)
            .expect("prefix must exist");
        assert_eq!(suffix.chars().count(), TASK_ID_LEN);
        assert!(
            suffix.chars().all(|c| allowed.contains(&c)),
            "task_id suffix must only contain OCR-friendly characters, got {suffix}"
        );
    }
}

#[test]
fn task_id_generation_has_no_collisions_in_smoke_check() {
    let mut seen = HashSet::new();
    for _ in 0..1000 {
        let task_id = next_task_id("tsk");
        assert!(seen.insert(task_id), "task_id collision detected");
    }
}

#[test]
fn compare_versions_semver_update_detection() {
    let current = CurrentVersion {
        package: "0.1.0".to_string(),
        release_tag: Some("v0.1.0".to_string()),
    };
    let latest = LatestRelease {
        release_tag: "v0.2.0".to_string(),
        published_at: None,
    };

    let result = compare_versions(&current, &latest, 0);
    assert_eq!(result.has_update, Some(true));
    assert_eq!(result.reason, "semver");
}

#[test]
fn compare_versions_semver_no_update_or_downgrade() {
    let current_same = CurrentVersion {
        package: "0.2.0".to_string(),
        release_tag: Some("v0.2.0".to_string()),
    };
    let latest_same = LatestRelease {
        release_tag: "v0.2.0".to_string(),
        published_at: None,
    };
    let res_same = compare_versions(&current_same, &latest_same, 0);
    assert_eq!(res_same.has_update, Some(false));
    assert_eq!(res_same.reason, "semver");

    let current_newer = CurrentVersion {
        package: "0.3.0".to_string(),
        release_tag: Some("v0.3.0".to_string()),
    };
    let latest_older = LatestRelease {
        release_tag: "v0.2.0".to_string(),
        published_at: None,
    };
    let res_downgrade = compare_versions(&current_newer, &latest_older, 0);
    assert_eq!(res_downgrade.has_update, Some(false));
    assert_eq!(res_downgrade.reason, "semver");
}

#[test]
fn compare_versions_uncomparable_on_invalid_input() {
    let current = CurrentVersion {
        package: "not-a-version".to_string(),
        release_tag: Some("vX".to_string()),
    };
    let latest = LatestRelease {
        release_tag: "v0.2.0".to_string(),
        published_at: None,
    };

    let result = compare_versions(&current, &latest, 0);
    assert_eq!(result.has_update, None);
    assert_eq!(result.reason, "uncomparable");

    let current_valid = CurrentVersion {
        package: "0.1.0".to_string(),
        release_tag: Some("v0.1.0".to_string()),
    };
    let latest_invalid = LatestRelease {
        release_tag: "release-x".to_string(),
        published_at: None,
    };
    let result_invalid_latest = compare_versions(&current_valid, &latest_invalid, 0);
    assert_eq!(result_invalid_latest.has_update, None);
    assert_eq!(result_invalid_latest.reason, "uncomparable");
}

#[test]
fn github_latest_release_response_parses() {
    let raw_json = r#"
        {
            "tag_name": "v1.2.3",
            "published_at": "2025-02-01T11:22:33Z"
        }
        "#;

    let raw = release_response(raw_json);
    let latest = latest_release_from_response(raw).expect("should parse");

    assert_eq!(latest.release_tag, "v1.2.3");
    assert_eq!(latest.published_at.as_deref(), Some("2025-02-01T11:22:33Z"));
}

#[test]
fn github_latest_release_missing_tag_is_error() {
    let raw_json = r#"{ "published_at": "2025-02-01T11:22:33Z" }"#;
    let raw = release_response(raw_json);
    let err = latest_release_from_response(raw).unwrap_err();
    assert!(err.contains("tag"), "expected missing tag error, got {err}");
}

#[test]
fn parse_container_image_finds_image() {
    let contents = format!(
        "{}\n",
        "[Unit]\nDescription=demo\n\n[Container]\nImage=ghcr.io/example/service:latest\n\n[Service]\nRestart=always\n"
    );
    let image = parse_container_image_contents(&contents).expect("image expected");
    assert_eq!(image, "ghcr.io/example/service:latest");
}

#[test]
fn extract_container_image_requires_tag() {
    let payload = parse_payload(
        r#"{
            "package": {
                "name": "demo",
                "namespace": "example",
                "package_type": "CONTAINER"
            },
            "registry": { "host": "ghcr.io" },
            "package_version": {
                "metadata": { "container": { "tags": [] } }
            }
        }"#,
    );

    let err = extract_container_image_value(&payload).unwrap_err();
    assert_eq!(err, "missing-tag");
}

#[test]
fn images_match_normalizes_whitespace() {
    assert!(images_match(
        "ghcr.io/example/app:latest",
        " ghcr.io/example/app:latest "
    ));
    assert!(!images_match(
        "ghcr.io/example/app:latest",
        "ghcr.io/example/app:v1"
    ));
}

#[test]
fn github_payload_builds_full_image() {
    let payload = parse_payload(
        r#"{
            "package": {
                "name": "demo",
                "namespace": "Example",
                "package_type": "CONTAINER"
            },
            "registry": { "host": "ghcr.io" },
            "package_version": {
                "metadata": { "container": { "tags": ["main"] } }
            }
        }"#,
    );

    let image = extract_container_image_value(&payload).unwrap();
    assert_eq!(image, "ghcr.io/example/demo:main");
}

#[test]
fn systemd_run_args_match_expected() {
    let args = build_systemd_run_args("webhook-task-demo", "/usr/bin/webhook", "tsk_demo_task");

    assert_eq!(args[0], "--user");
    assert_eq!(args[1], "--collect");
    assert_eq!(args[2], "--quiet");
    assert_eq!(args[3], "--unit=webhook-task-demo");
    assert_eq!(args[4], "/usr/bin/webhook");
    assert_eq!(args[5], "--run-task");
    assert_eq!(args[6], "tsk_demo_task");
}

#[test]
fn github_signature_validates() {
    let body = br#"{"action":"published"}"#;
    let secret = "topsecret";

    // Compute a correct signature for the given body/secret.
    let mut mac = Hmac::<sha2::Sha256>::new_from_slice(secret.as_bytes()).unwrap();
    mac.update(body);
    let sig = format!("sha256={:x}", mac.finalize().into_bytes());

    let result = verify_github_signature(&sig, secret, body).unwrap();
    assert!(result.valid, "expected signature to be valid");
    assert_eq!(result.provided, sig.to_string());
    assert_eq!(result.expected.len(), 64);
    assert!(result.payload_dump.is_none());
}
