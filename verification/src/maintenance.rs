//! State pruning: the cutoffs before which entries are removed, which tasks
//! may go, and the lines that report a prune.

use vstd::prelude::*;
use crate::text::{nat_decimal, u64_to_string, owned, views};

verus! {

/// The counts of one prune (or of what a dry run would remove).
#[derive(Clone, Copy, Debug, PartialEq, Eq, Structural)]
pub struct StatePruneReport {
    pub tokens_removed: u64,
    pub locks_removed: u64,
    pub legacy_dirs_removed: u64,
    pub tasks_removed: u64,
}

/// `a - b`, or 0 below zero.
pub open spec fn sat_sub(a: u64, b: u64) -> u64 {
    if a >= b {
        (a - b) as u64
    } else {
        0
    }
}

/// The cutoff of rate-limit tokens and tasks: `now` less the retention,
/// which counts as at least one second.
pub open spec fn prune_cutoff_spec(now: u64, retention_secs: u64) -> u64 {
    sat_sub(now, if retention_secs < 1 { 1 } else { retention_secs })
}

/// The cutoff before which rate-limit tokens and finished tasks are pruned.
pub fn prune_cutoff(now: u64, retention_secs: u64) -> (r: u64)
    ensures
        r == prune_cutoff_spec(now, retention_secs),
{
    let keep = if retention_secs < 1 { 1 } else { retention_secs };
    now.saturating_sub(keep)
}

/// The cutoff before which image locks are pruned: `now` less the
/// retention, or the epoch.
pub fn lock_cutoff(now: u64, retention_secs: u64) -> (r: u64)
    ensures
        r == sat_sub(now, retention_secs),
{
    now.saturating_sub(retention_secs)
}

/// Nothing stamped at or after `now` is older than the cutoff, and a longer
/// retention never moves the cutoff later.
pub proof fn lemma_prune_keeps_recent(now: u64, retention_secs: u64, longer: u64, ts: u64)
    requires
        ts >= now,
        longer >= retention_secs,
    ensures
        !(ts < prune_cutoff_spec(now, retention_secs)),
        prune_cutoff_spec(now, longer) <= prune_cutoff_spec(now, retention_secs),
        !(ts < sat_sub(now, retention_secs)),
{
}

/// The statuses of finished tasks that pruning removes.
pub open spec fn prunable_status_spec(status: Seq<char>) -> bool {
    status == "succeeded"@ || status == "failed"@ || status == "cancelled"@ || status == "skipped"@
}

/// Whether a finished task in this status may be pruned.
pub fn prunable_task_status(status: &str) -> (r: bool)
    ensures
        r == prunable_status_spec(status@),
{
    crate::text::str_eq(status, "succeeded") || crate::text::str_eq(status, "failed")
        || crate::text::str_eq(status, "cancelled") || crate::text::str_eq(status, "skipped")
}

/// A finished task goes when it finished before the cutoff in a final
/// status.
pub open spec fn task_prunable_spec(finished_at: Option<i64>, status: Seq<char>, cutoff: u64) -> bool {
    &&& finished_at matches Some(f) && f < cutoff
    &&& prunable_status_spec(status)
}

/// Whether pruning removes a task with this finish time and status.
pub fn task_prunable(finished_at: Option<i64>, status: &str, cutoff: u64) -> (r: bool)
    ensures
        r == task_prunable_spec(finished_at, status@, cutoff),
{
    match finished_at {
        Some(f) => (f < 0 || (f as u64) < cutoff) && prunable_task_status(status),
        None => false,
    }
}

/// The entries of older releases under the state directory that a prune
/// removes.
pub open spec fn legacy_entries_spec() -> Seq<Seq<char>> {
    seq!["github-image-limits"@, "github-image-locks"@, "ratelimit.db"@, "ratelimit.lock"@]
}

/// The legacy state entries, in the order they are removed.
pub fn legacy_state_entries() -> (r: Vec<String>)
    ensures
        views(r@) == legacy_entries_spec(),
{
    let mut v: Vec<String> = Vec::new();
    v.push(owned("github-image-limits"));
    v.push(owned("github-image-locks"));
    v.push(owned("ratelimit.db"));
    v.push(owned("ratelimit.lock"));
    proof {
        assert(views(v@) =~= legacy_entries_spec());
    }
    v
}

/// `true` or `false`.
pub open spec fn bool_word(b: bool) -> Seq<char> {
    if b {
        "true"@
    } else {
        "false"@
    }
}

/// The task summary of a prune.
pub open spec fn prune_summary_spec(r: StatePruneReport, dry_run: bool) -> Seq<char> {
    (if dry_run {
        "State prune dry-run completed: tokens="@
    } else {
        "State prune completed: tokens="@
    }) + nat_decimal(r.tokens_removed as nat) + " locks="@ + nat_decimal(r.locks_removed as nat)
        + " legacy_dirs="@ + nat_decimal(r.legacy_dirs_removed as nat) + " tasks="@ + nat_decimal(
        r.tasks_removed as nat,
    )
}

/// The summary a prune task records.
pub fn prune_summary(r: &StatePruneReport, dry_run: bool) -> (s: String)
    ensures
        s@ == prune_summary_spec(*r, dry_run),
{
    let mut s = if dry_run {
        owned("State prune dry-run completed: tokens=")
    } else {
        owned("State prune completed: tokens=")
    };
    s.append(u64_to_string(r.tokens_removed).as_str());
    s.append(" locks=");
    s.append(u64_to_string(r.locks_removed).as_str());
    s.append(" legacy_dirs=");
    s.append(u64_to_string(r.legacy_dirs_removed).as_str());
    s.append(" tasks=");
    s.append(u64_to_string(r.tasks_removed).as_str());
    s
}

/// The line `prune-state` prints when it is done.
pub open spec fn prune_cli_line_spec(r: StatePruneReport, dry_run: bool) -> Seq<char> {
    "Removed tokens="@ + nat_decimal(r.tokens_removed as nat) + " legacy_entries="@ + nat_decimal(
        r.legacy_dirs_removed as nat,
    ) + " stale_locks="@ + nat_decimal(r.locks_removed as nat) + " tasks_pruned="@ + nat_decimal(
        r.tasks_removed as nat,
    ) + " dry_run="@ + bool_word(dry_run)
}

/// The report line of the `prune-state` command.
pub fn prune_cli_line(r: &StatePruneReport, dry_run: bool) -> (s: String)
    ensures
        s@ == prune_cli_line_spec(*r, dry_run),
{
    let mut s = owned("Removed tokens=");
    s.append(u64_to_string(r.tokens_removed).as_str());
    s.append(" legacy_entries=");
    s.append(u64_to_string(r.legacy_dirs_removed).as_str());
    s.append(" stale_locks=");
    s.append(u64_to_string(r.locks_removed).as_str());
    s.append(" tasks_pruned=");
    s.append(u64_to_string(r.tasks_removed).as_str());
    s.append(" dry_run=");
    s.append(if dry_run { "true" } else { "false" });
    s
}

} // verus!
