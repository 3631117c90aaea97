//! The directories the service reads on the host: quadlet definitions,
//! `podman auto-update` logs and self-update reports. With an SSH target
//! set, nothing is inferred from the local home directory.

use vstd::prelude::*;
use crate::text::{trim, trim_str, owned};
use crate::host::{HostAbsPath, host_path_parse};
use crate::config::opt_str;
use crate::frontend::{join_path, join_path_spec};

verus! {

/// A setting, trimmed, when not blank.
pub open spec fn nonblank(raw: Option<Seq<char>>) -> Option<Seq<char>> {
    match raw {
        Some(v) => if trim(v).len() > 0 {
            Some(trim(v))
        } else {
            None
        },
        None => None,
    }
}

/// A setting, trimmed, when not blank.
fn nonblank_str(raw: Option<&str>) -> (r: Option<&str>)
    ensures
        opt_str(r) == nonblank(opt_str(raw)),
{
    match raw {
        Some(v) => {
            let t = trim_str(v);
            if t.unicode_len() > 0 {
                Some(t)
            } else {
                None
            }
        },
        None => None,
    }
}

/// The view of a parsed host path.
pub open spec fn parsed_view(r: Result<HostAbsPath, String>) -> Result<Seq<char>, Seq<char>> {
    match r {
        Ok(p) => Ok(p@),
        Err(e) => Err(e@),
    }
}

/// The quadlet directory used when nothing else applies.
pub open spec fn default_container_dir() -> Seq<char> {
    "/srv/pod-upgrade-trigger/containers/systemd"@
}

/// The error when an SSH target is set and the quadlet directory is not.
pub open spec fn container_dir_missing() -> Seq<char> {
    "PODUP_CONTAINER_DIR-missing (required when PODUP_SSH_TARGET is set)"@
}

/// The Quadlet directory: the configured directory; with an SSH target
/// and none configured, an error; else `~/.config/containers/systemd` when
/// a home directory is known, else the default. The path is validated.
pub open spec fn container_dir_spec(raw: Option<Seq<char>>, ssh_configured: bool, home: Option<Seq<char>>) -> Result<Seq<char>, Seq<char>> {
    match nonblank(raw) {
        Some(t) => host_path_parse(t),
        None => if ssh_configured {
            Err(container_dir_missing())
        } else {
            match nonblank(home) {
                Some(h) => host_path_parse(join_path_spec(h, ".config/containers/systemd"@)),
                None => host_path_parse(default_container_dir()),
            }
        },
    }
}

/// The quadlet directory from its setting, whether an SSH target is set,
/// and the home directory.
pub fn container_systemd_dir(raw: Option<&str>, ssh_configured: bool, home: Option<&str>) -> (r: Result<
    HostAbsPath,
    String,
>)
    ensures
        parsed_view(r) == container_dir_spec(opt_str(raw), ssh_configured, opt_str(home)),
{
    match nonblank_str(raw) {
        Some(t) => HostAbsPath::parse(t),
        None => if ssh_configured {
            Err(owned("PODUP_CONTAINER_DIR-missing (required when PODUP_SSH_TARGET is set)"))
        } else {
            match nonblank_str(home) {
                Some(h) => {
                    let p = join_path(h, ".config/containers/systemd");
                    HostAbsPath::parse(p.as_str())
                },
                None => HostAbsPath::parse("/srv/pod-upgrade-trigger/containers/systemd"),
            }
        },
    }
}

/// The auto-update log directory: the configured directory if it is a valid path;
/// with an SSH target and none configured, none; else
/// `~/.local/share/podman-auto-update/logs` when a home directory is known
/// and the path is valid.
pub open spec fn log_dir_spec(raw: Option<Seq<char>>, ssh_configured: bool, home: Option<Seq<char>>) -> Option<Seq<char>> {
    let parsed = match nonblank(raw) {
        Some(t) => host_path_parse(t),
        None => if ssh_configured {
            Err(Seq::<char>::empty())
        } else {
            match home {
                Some(h) => if trim(h).len() > 0 {
                    host_path_parse(join_path_spec(h, ".local/share/podman-auto-update/logs"@))
                } else {
                    Err(Seq::<char>::empty())
                },
                None => Err(Seq::<char>::empty()),
            }
        },
    };
    match parsed {
        Ok(p) => Some(p),
        Err(_) => None,
    }
}

/// The directory of `podman auto-update` logs, if one is known.
pub fn auto_update_log_dir(raw: Option<&str>, ssh_configured: bool, home: Option<&str>) -> (r: Option<
    HostAbsPath,
>)
    ensures
        match r {
            Some(p) => log_dir_spec(opt_str(raw), ssh_configured, opt_str(home)) == Some(p@),
            None => log_dir_spec(opt_str(raw), ssh_configured, opt_str(home)) is None,
        },
{
    let parsed = match nonblank_str(raw) {
        Some(t) => HostAbsPath::parse(t),
        None => if ssh_configured {
            return None;
        } else {
            match home {
                Some(h) => if trim_str(h).unicode_len() > 0 {
                    let p = join_path(h, ".local/share/podman-auto-update/logs");
                    HostAbsPath::parse(p.as_str())
                } else {
                    return None;
                },
                None => {
                    return None;
                },
            }
        },
    };
    match parsed {
        Ok(p) => Some(p),
        Err(_) => None,
    }
}

/// The self-update report directory: the configured directory, trimmed, else
/// `self-update-reports` under the state directory (by default
/// `/srv/pod-upgrade-trigger`).
pub open spec fn report_dir_spec(raw: Option<Seq<char>>, state_dir: Option<Seq<char>>) -> Seq<char> {
    match nonblank(raw) {
        Some(t) => t,
        None => join_path_spec(
            match state_dir {
                Some(s) => s,
                None => "/srv/pod-upgrade-trigger"@,
            },
            "self-update-reports"@,
        ),
    }
}

/// The directory self-update reports are read from.
pub fn self_update_report_dir(raw: Option<&str>, state_dir: Option<&str>) -> (r: String)
    ensures
        r@ == report_dir_spec(opt_str(raw), opt_str(state_dir)),
{
    match nonblank_str(raw) {
        Some(t) => owned(t),
        None => {
            let base = match state_dir {
                Some(s) => s,
                None => "/srv/pod-upgrade-trigger",
            };
            join_path(base, "self-update-reports")
        },
    }
}

/// With an SSH target set, no host directory is inferred from the local
/// home directory: the quadlet directory and the log directory depend only
/// on their own settings.
pub proof fn lemma_ssh_ignores_local_home(
    raw: Option<Seq<char>>,
    home1: Option<Seq<char>>,
    home2: Option<Seq<char>>,
)
    ensures
        container_dir_spec(raw, true, home1) == container_dir_spec(raw, true, home2),
        log_dir_spec(raw, true, home1) == log_dir_spec(raw, true, home2),
{
}

} // verus!
