use podup::host::{validate_ssh_target, validate_systemd_unit_name, HostAbsPath, SshHostBackend};

#[test]
fn validate_unit_name_allows_common_units() {
    assert!(validate_systemd_unit_name("podup-e2e-noop.service").is_ok());
    assert!(validate_systemd_unit_name("svc-alpha@1.service").is_ok());
    assert!(validate_systemd_unit_name("a_b-c.d.service").is_ok());
}

#[test]
fn validate_unit_name_rejects_unsafe_units() {
    assert!(validate_systemd_unit_name("").is_err());
    assert!(validate_systemd_unit_name("not-a-service.timer").is_err());
    assert!(validate_systemd_unit_name("bad;rm -rf /.service").is_err());
    assert!(validate_systemd_unit_name("bad name.service").is_err());
    assert!(validate_systemd_unit_name("a/b.service").is_err());
}

#[test]
fn validate_abs_path_basic() {
    assert!(HostAbsPath::parse("/home/ivan/.local/share/podman-auto-update/logs").is_ok());
    assert!(HostAbsPath::parse("relative/path").is_err());
    assert!(HostAbsPath::parse("/tmp/has space").is_err());
    assert!(HostAbsPath::parse("/tmp/evil;rm").is_err());
    assert!(HostAbsPath::parse("/tmp/..").is_err());
}

#[test]
fn ssh_command_includes_required_options() {
    let backend = SshHostBackend::new("podup-test".to_string()).unwrap();
    let remote = vec!["podman".to_string(), "--version".to_string()];
    let argv = backend.ssh_argv_for_test(&remote).unwrap();

    assert!(argv.iter().any(|a| a == "-oBatchMode=yes"));
    assert!(argv.iter().any(|a| a == "-oStrictHostKeyChecking=accept-new"));
    assert!(argv.iter().any(|a| a == "-oConnectTimeout=5"));
    assert!(argv.iter().any(|a| a == "-oConnectionAttempts=1"));
    assert!(argv.iter().any(|a| a == "podup-test"));
    assert!(argv.iter().any(|a| a == "podman"));
}

#[test]
fn validate_ssh_target_rejects_unsafe() {
    assert!(validate_ssh_target("podup-test").is_ok());
    assert!(validate_ssh_target("ivan@192.168.31.15").is_ok());
    assert!(validate_ssh_target("ivan@192.168.31.15:2222").is_ok());
    assert!(validate_ssh_target("ssh://ivan@192.168.31.15:2222").is_ok());
    assert!(validate_ssh_target("-oProxyCommand=sh").is_err());
    assert!(validate_ssh_target("bad target").is_err());
    assert!(validate_ssh_target("bad;rm -rf /").is_err());
}
