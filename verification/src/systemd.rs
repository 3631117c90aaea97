//! Reading `systemctl show` output: unit properties, the state summary shown
//! to users, and the health verdict after an operation.

use vstd::prelude::*;
use crate::text::{
    trim, trim_str, lower, to_ascii_lowercase, str_eq, concat, owned, lines, lines_of, views,
    split_once, split_once_char, join, join_strings, push_str_owned, opt_view,
};

verus! {

/// Unit properties in the order `systemctl show` printed them: each line
/// with an `=` gives the trimmed key (when not empty) and the trimmed value.
pub open spec fn show_props(ls: Seq<Seq<char>>) -> Seq<(Seq<char>, Seq<char>)>
    decreases ls.len(),
{
    if ls.len() == 0 {
        Seq::<(Seq<char>, Seq<char>)>::empty()
    } else {
        let p = show_props(ls.drop_last());
        match split_once(ls.last(), '=') {
            Some((k, v)) => if trim(k).len() == 0 {
                p
            } else {
                p.push((trim(k), trim(v)))
            },
            None => p,
        }
    }
}

/// The value of `key`: the one given last, as a map filled in order keeps it.
pub open spec fn prop_get(props: Seq<(Seq<char>, Seq<char>)>, key: Seq<char>) -> Option<Seq<char>>
    decreases props.len(),
{
    if props.len() == 0 {
        None
    } else if props.last().0 == key {
        Some(props.last().1)
    } else {
        prop_get(props.drop_last(), key)
    }
}

/// The views of owned key/value pairs.
pub open spec fn pair_views(v: Seq<(String, String)>) -> Seq<(Seq<char>, Seq<char>)> {
    v.map_values(|p: (String, String)| (p.0@, p.1@))
}

/// `parse_systemctl_show_properties`: the properties of `stdout`, in order;
/// look a key up with `prop_lookup`.
pub fn parse_systemctl_show_properties(stdout: &str) -> (r: Vec<(String, String)>)
    ensures
        pair_views(r@) == show_props(lines(stdout@)),
{
    let ls = lines_of(stdout);
    let ghost lv = views(ls@);
    let mut out: Vec<(String, String)> = Vec::new();
    let mut i: usize = 0;
    proof {
        assert(lv.take(0) =~= Seq::<Seq<char>>::empty());
        assert(pair_views(out@) =~= Seq::<(Seq<char>, Seq<char>)>::empty());
    }
    while i < ls.len()
        invariant
            i <= ls@.len(),
            lv == views(ls@),
            lv == lines(stdout@),
            pair_views(out@) == show_props(lv.take(i as int)),
        decreases ls@.len() - i,
    {
        proof {
            assert(lv.take(i + 1).drop_last() =~= lv.take(i as int));
            assert(lv.take(i + 1).last() == ls@[i as int]@);
        }
        match split_once_char(ls[i].as_str(), '=') {
            Some((k, v)) => {
                let key = trim_str(k.as_str());
                if key.unicode_len() != 0 {
                    let ghost prev = out@;
                    out.push((owned(key), owned(trim_str(v.as_str()))));
                    proof {
                        assert(pair_views(out@) =~= pair_views(prev).push((trim(k@), trim(v@))));
                    }
                }
            },
            None => {},
        }
        i = i + 1;
    }
    proof {
        assert(lv.take(ls@.len() as int) =~= lv);
    }
    out
}

/// The value of `key` in parsed properties (the last one given).
pub fn prop_lookup(props: &Vec<(String, String)>, key: &str) -> (r: Option<String>)
    ensures
        r matches Some(v) ==> prop_get(pair_views(props@), key@) == Some(v@),
        r is None ==> prop_get(pair_views(props@), key@) is None,
{
    let ghost pv = pair_views(props@);
    let mut j: usize = props.len();
    proof {
        assert(pv.take(pv.len() as int) =~= pv);
    }
    while j > 0
        invariant
            j <= props@.len(),
            pv == pair_views(props@),
            prop_get(pv, key@) == prop_get(pv.take(j as int), key@),
        decreases j,
    {
        proof {
            assert(pv.take(j as int).drop_last() =~= pv.take(j - 1));
            assert(pv.take(j as int).last() == (props@[j - 1].0@, props@[j - 1].1@));
        }
        if str_eq(props[j - 1].0.as_str(), key) {
            return Some(owned(props[j - 1].1.as_str()));
        }
        j = j - 1;
    }
    None
}

/// The values that carry no information in a state summary.
pub open spec fn blank_value(t: Seq<char>) -> bool {
    t.len() == 0 || t == "n/a"@ || t == "-"@
}

/// The `key=value` part of a state summary, when the trimmed value says
/// something.
pub open spec fn state_part(props: Seq<(Seq<char>, Seq<char>)>, key: Seq<char>) -> Option<Seq<char>> {
    match prop_get(props, key) {
        Some(v) => if blank_value(trim(v)) {
            None
        } else {
            Some(key + "="@ + trim(v))
        },
        None => None,
    }
}

/// The present values, in order.
pub open spec fn somes(s: Seq<Option<Seq<char>>>) -> Seq<Seq<char>>
    decreases s.len(),
{
    if s.len() == 0 {
        Seq::<Seq<char>>::empty()
    } else {
        match s.last() {
            Some(x) => somes(s.drop_last()).push(x),
            None => somes(s.drop_last()),
        }
    }
}

/// The keys reported in a state summary, in order.
pub open spec fn summary_keys() -> Seq<Seq<char>> {
    seq!["ActiveState"@, "SubState"@, "Result"@, "Type"@, "ExecMainStatus"@]
}

/// `unit_state_summary`: the informative `key=value` parts of the summary
/// keys, joined with spaces.
pub open spec fn state_summary_spec(props: Seq<(Seq<char>, Seq<char>)>) -> Seq<char> {
    join(somes(summary_keys().map_values(|k: Seq<char>| state_part(props, k))), " "@)
}

/// Appends the summary part of `key`, when there is one.
fn push_state_part(parts: &mut Vec<String>, props: &Vec<(String, String)>, key: &str)
    ensures
        views(final(parts)@) == (match state_part(pair_views(props@), key@) {
            Some(x) => views(old(parts)@).push(x),
            None => views(old(parts)@),
        }),
{
    match prop_lookup(props, key) {
        Some(v) => {
            let t = trim_str(v.as_str());
            if !(t.unicode_len() == 0 || str_eq(t, "n/a") || str_eq(t, "-")) {
                let a = concat(key, "=");
                let part = concat(a.as_str(), t);
                push_str_owned(parts, part.as_str());
            }
        },
        None => {},
    }
}

/// A one-line summary of a unit's state properties.
pub fn unit_state_summary(props: &Vec<(String, String)>) -> (r: String)
    ensures
        r@ == state_summary_spec(pair_views(props@)),
{
    let ghost pv = pair_views(props@);
    let ghost s = summary_keys().map_values(|k: Seq<char>| state_part(pv, k));
    let mut parts: Vec<String> = Vec::new();
    proof {
        assert(views(parts@) =~= Seq::<Seq<char>>::empty());
        assert(s.take(0) =~= Seq::<Option<Seq<char>>>::empty());
        assert(somes(s.take(0)) =~= Seq::<Seq<char>>::empty());
    }
    push_state_part(&mut parts, props, "ActiveState");
    proof {
        assert(s.take(1).drop_last() =~= s.take(0));
        assert(s.take(1).last() == s[0]);
        assert(views(parts@) == somes(s.take(1)));
    }
    push_state_part(&mut parts, props, "SubState");
    proof {
        assert(s.take(2).drop_last() =~= s.take(1));
        assert(s.take(2).last() == s[1]);
        assert(views(parts@) == somes(s.take(2)));
    }
    push_state_part(&mut parts, props, "Result");
    proof {
        assert(s.take(3).drop_last() =~= s.take(2));
        assert(s.take(3).last() == s[2]);
        assert(views(parts@) == somes(s.take(3)));
    }
    push_state_part(&mut parts, props, "Type");
    proof {
        assert(s.take(4).drop_last() =~= s.take(3));
        assert(s.take(4).last() == s[3]);
        assert(views(parts@) == somes(s.take(4)));
    }
    push_state_part(&mut parts, props, "ExecMainStatus");
    proof {
        assert(s.take(5).drop_last() =~= s.take(4));
        assert(s.take(5).last() == s[4]);
        assert(s.take(5) =~= s);
        assert(views(parts@) == somes(s));
    }
    join_strings(&parts, " ")
}

/// The health of a unit after an operation.
#[derive(Clone, Copy, Debug, PartialEq, Eq, Structural)]
pub enum UnitHealthVerdict {
    Healthy,
    Degraded,
    Failed,
    Unknown,
}

/// The task status a verdict maps to.
pub open spec fn verdict_task_status(v: UnitHealthVerdict) -> Seq<char> {
    match v {
        UnitHealthVerdict::Healthy => "succeeded"@,
        UnitHealthVerdict::Degraded | UnitHealthVerdict::Unknown => "unknown"@,
        UnitHealthVerdict::Failed => "failed"@,
    }
}

/// The log level a verdict is reported at.
pub open spec fn verdict_log_level(v: UnitHealthVerdict) -> Seq<char> {
    match v {
        UnitHealthVerdict::Healthy => "info"@,
        UnitHealthVerdict::Degraded | UnitHealthVerdict::Unknown => "warning"@,
        UnitHealthVerdict::Failed => "error"@,
    }
}

impl UnitHealthVerdict {
    /// The task status of the verdict.
    pub fn task_status(self) -> (r: &'static str)
        ensures
            r@ == verdict_task_status(self),
    {
        match self {
            UnitHealthVerdict::Healthy => "succeeded",
            UnitHealthVerdict::Degraded | UnitHealthVerdict::Unknown => "unknown",
            UnitHealthVerdict::Failed => "failed",
        }
    }

    /// The log level of the verdict.
    pub fn log_level(self) -> (r: &'static str)
        ensures
            r@ == verdict_log_level(self),
    {
        match self {
            UnitHealthVerdict::Healthy => "info",
            UnitHealthVerdict::Degraded | UnitHealthVerdict::Unknown => "warning",
            UnitHealthVerdict::Failed => "error",
        }
    }
}

/// A property, trimmed and lowercased.
pub open spec fn norm_prop(props: Seq<(Seq<char>, Seq<char>)>, key: Seq<char>) -> Option<Seq<char>> {
    match prop_get(props, key) {
        Some(v) => Some(lower(trim(v))),
        None => None,
    }
}

/// `evaluate_unit_health`: a failed active state or a result other than
/// `success` is a failure; a non-oneshot unit that is not active is
/// degraded; anything else is healthy.
pub open spec fn health_spec(props: Seq<(Seq<char>, Seq<char>)>) -> UnitHealthVerdict {
    let active = norm_prop(props, "ActiveState"@);
    let result = norm_prop(props, "Result"@);
    let ty = norm_prop(props, "Type"@);
    if active == Some("failed"@) {
        UnitHealthVerdict::Failed
    } else if result matches Some(r) && r.len() > 0 && r != "success"@ {
        UnitHealthVerdict::Failed
    } else if ty matches Some(t) && t != "oneshot"@ && (active matches Some(a) && a.len() > 0 && a
        != "active"@) {
        UnitHealthVerdict::Degraded
    } else {
        UnitHealthVerdict::Healthy
    }
}

/// Looks a property up, trimmed and lowercased.
fn norm_lookup(props: &Vec<(String, String)>, key: &str) -> (r: Option<String>)
    ensures
        opt_view(r) == norm_prop(pair_views(props@), key@),
{
    match prop_lookup(props, key) {
        Some(v) => Some(to_ascii_lowercase(trim_str(v.as_str()))),
        None => None,
    }
}

/// The health verdict on a unit from its state properties.
pub fn evaluate_unit_health(props: &Vec<(String, String)>) -> (r: UnitHealthVerdict)
    ensures
        r == health_spec(pair_views(props@)),
{
    let active = norm_lookup(props, "ActiveState");
    match &active {
        Some(a) => {
            if str_eq(a.as_str(), "failed") {
                return UnitHealthVerdict::Failed;
            }
        },
        None => {},
    }
    let result = norm_lookup(props, "Result");
    match &result {
        Some(r) => {
            if r.unicode_len() != 0 && !str_eq(r.as_str(), "success") {
                return UnitHealthVerdict::Failed;
            }
        },
        None => {},
    }
    let ty = norm_lookup(props, "Type");
    match &ty {
        Some(t) => {
            if !str_eq(t.as_str(), "oneshot") {
                match &active {
                    Some(a) => {
                        if a.unicode_len() != 0 && !str_eq(a.as_str(), "active") {
                            return UnitHealthVerdict::Degraded;
                        }
                    },
                    None => {},
                }
            }
        },
        None => {},
    }
    UnitHealthVerdict::Healthy
}

/// A unit that is not oneshot, whose active state is set and is neither
/// `active` nor `failed`, and whose result is empty or `success`, is
/// degraded (never healthy), whatever its service type.
pub proof fn lemma_inactive_service_degraded(
    props: Seq<(Seq<char>, Seq<char>)>,
    ty: Seq<char>,
    active: Seq<char>,
)
    requires
        prop_get(props, "Type"@) == Some(ty),
        lower(trim(ty)) != "oneshot"@,
        prop_get(props, "ActiveState"@) == Some(active),
        lower(trim(active)).len() > 0,
        lower(trim(active)) != "active"@,
        lower(trim(active)) != "failed"@,
        match prop_get(props, "Result"@) {
            Some(r) => lower(trim(r)).len() == 0 || lower(trim(r)) == "success"@,
            None => true,
        },
    ensures
        health_spec(props) == UnitHealthVerdict::Degraded,
{
}

/// A `failed` active state, or a non-empty result other than `success`, is
/// a failure; an `active` unit with an empty or `success` result is healthy.
pub proof fn lemma_health_failed_or_healthy(props: Seq<(Seq<char>, Seq<char>)>)
    ensures
        (prop_get(props, "ActiveState"@) matches Some(a) && lower(trim(a)) == "failed"@)
            ==> health_spec(props) == UnitHealthVerdict::Failed,
        (prop_get(props, "Result"@) matches Some(r) && lower(trim(r)).len() > 0 && lower(trim(r))
            != "success"@) ==> health_spec(props) == UnitHealthVerdict::Failed,
        (prop_get(props, "ActiveState"@) matches Some(a) && lower(trim(a)) == "active"@ && match prop_get(
            props,
            "Result"@,
        ) {
            Some(r) => lower(trim(r)).len() == 0 || lower(trim(r)) == "success"@,
            None => true,
        }) ==> health_spec(props) == UnitHealthVerdict::Healthy,
{
    reveal_strlit("active");
    reveal_strlit("failed");
    assert("active"@[0] != "failed"@[0]);
}

/// The arguments of `systemctl --user` that read a unit's health.
pub open spec fn health_args_spec(unit: Seq<char>) -> Seq<Seq<char>> {
    seq![
        "show"@,
        unit,
        "--property=ActiveState"@,
        "--property=SubState"@,
        "--property=Result"@,
        "--property=Type"@,
        "--property=ExecMainStatus"@,
    ]
}

/// The `systemctl show` arguments that read a unit's health properties.
pub fn health_check_args(unit: &str) -> (r: Vec<String>)
    ensures
        views(r@) == health_args_spec(unit@),
{
    let mut v: Vec<String> = Vec::new();
    push_str_owned(&mut v, "show");
    push_str_owned(&mut v, unit);
    push_str_owned(&mut v, "--property=ActiveState");
    push_str_owned(&mut v, "--property=SubState");
    push_str_owned(&mut v, "--property=Result");
    push_str_owned(&mut v, "--property=Type");
    push_str_owned(&mut v, "--property=ExecMainStatus");
    proof {
        assert(views(v@) =~= health_args_spec(unit@));
    }
    v
}

/// A non-oneshot unit that is neither active nor failed is still settling
/// after a restart: its health is read again until 20 seconds have passed.
pub open spec fn keep_polling_spec(props: Seq<(Seq<char>, Seq<char>)>, elapsed_ms: u64) -> bool {
    let active = match norm_prop(props, "ActiveState"@) {
        Some(a) => a,
        None => Seq::<char>::empty(),
    };
    let ty = match norm_prop(props, "Type"@) {
        Some(t) => t,
        None => Seq::<char>::empty(),
    };
    ty != "oneshot"@ && active != "active"@ && active != "failed"@ && elapsed_ms < 20000
}

/// Whether to read the unit's health again.
pub fn keep_polling(props: &Vec<(String, String)>, elapsed_ms: u64) -> (r: bool)
    ensures
        r == keep_polling_spec(pair_views(props@), elapsed_ms),
{
    let active = match norm_lookup(props, "ActiveState") {
        Some(a) => a,
        None => String::new(),
    };
    let ty = match norm_lookup(props, "Type") {
        Some(t) => t,
        None => String::new(),
    };
    !str_eq(ty.as_str(), "oneshot") && !str_eq(active.as_str(), "active") && !str_eq(active.as_str(), "failed")
        && elapsed_ms < 20000
}

/// The word a verdict is reported with in the health summary.
pub open spec fn verdict_word(v: UnitHealthVerdict) -> Seq<char> {
    match v {
        UnitHealthVerdict::Healthy => "OK"@,
        UnitHealthVerdict::Degraded => "degraded"@,
        UnitHealthVerdict::Failed => "FAILED"@,
        UnitHealthVerdict::Unknown => "unavailable"@,
    }
}

/// The status a verdict is recorded as.
pub open spec fn verdict_result(v: UnitHealthVerdict) -> Seq<char> {
    match v {
        UnitHealthVerdict::Healthy => "healthy"@,
        UnitHealthVerdict::Degraded => "degraded"@,
        UnitHealthVerdict::Failed => "failed"@,
        UnitHealthVerdict::Unknown => "unknown"@,
    }
}

/// The summary of a health check: the verdict, then the unit's state when
/// there is one to tell.
pub open spec fn health_summary_spec(v: UnitHealthVerdict, state: Seq<char>) -> Seq<char> {
    if state.len() == 0 {
        "Unit health check: "@ + verdict_word(v)
    } else {
        "Unit health check: "@ + verdict_word(v) + " · "@ + state
    }
}

/// The summary logged for a health verdict.
pub fn health_summary(v: UnitHealthVerdict, state: &str) -> (r: String)
    ensures
        r@ == health_summary_spec(v, state@),
{
    let word = match v {
        UnitHealthVerdict::Healthy => "OK",
        UnitHealthVerdict::Degraded => "degraded",
        UnitHealthVerdict::Failed => "FAILED",
        UnitHealthVerdict::Unknown => "unavailable",
    };
    let head = concat("Unit health check: ", word);
    if state.unicode_len() == 0 {
        head
    } else {
        let a = concat(head.as_str(), " · ");
        concat(a.as_str(), state)
    }
}

/// The result word logged for a health verdict.
pub fn health_result(v: UnitHealthVerdict) -> (r: &'static str)
    ensures
        r@ == verdict_result(v),
{
    match v {
        UnitHealthVerdict::Healthy => "healthy",
        UnitHealthVerdict::Degraded => "degraded",
        UnitHealthVerdict::Failed => "failed",
        UnitHealthVerdict::Unknown => "unknown",
    }
}

/// The verdict of a finished health read: from the properties when the
/// command succeeded and printed some, else unknown.
pub fn health_verdict(success: bool, props: &Vec<(String, String)>) -> (r: UnitHealthVerdict)
    ensures
        r == (if success && props@.len() > 0 {
            health_spec(pair_views(props@))
        } else {
            UnitHealthVerdict::Unknown
        }),
{
    if success && props.len() > 0 {
        evaluate_unit_health(props)
    } else {
        UnitHealthVerdict::Unknown
    }
}

/// The summary when the health could not be read.
pub fn health_error_summary(err: &str) -> (r: String)
    ensures
        r@ == "Unit health check: unavailable ("@ + err@ + ")"@,
{
    let a = concat("Unit health check: unavailable (", err);
    concat(a.as_str(), ")")
}

/// The arguments of `systemctl --user` that show a failed unit's status.
pub open spec fn diagnose_status_args_spec(unit: Seq<char>) -> Seq<Seq<char>> {
    seq!["status"@, unit, "--no-pager"@, "--full"@]
}

/// The `systemctl status` arguments run when a unit failed.
pub fn diagnose_status_args(unit: &str) -> (r: Vec<String>)
    ensures
        views(r@) == diagnose_status_args_spec(unit@),
{
    let mut v: Vec<String> = Vec::new();
    push_str_owned(&mut v, "status");
    push_str_owned(&mut v, unit);
    push_str_owned(&mut v, "--no-pager");
    push_str_owned(&mut v, "--full");
    proof {
        assert(views(v@) =~= diagnose_status_args_spec(unit@));
    }
    v
}

/// The arguments of `journalctl --user` that show a failed unit's last
/// `lines` log lines.
pub open spec fn diagnose_journal_args_spec(unit: Seq<char>, lines: i64) -> Seq<Seq<char>> {
    seq!["-u"@, unit, "-n"@, crate::text::int_decimal(lines as int), "--no-pager"@, "--output=short-precise"@]
}

/// The `journalctl` arguments run when a unit failed.
pub fn diagnose_journal_args(unit: &str, lines: i64) -> (r: Vec<String>)
    ensures
        views(r@) == diagnose_journal_args_spec(unit@, lines),
{
    let n = crate::text::i64_to_string(lines);
    let mut v: Vec<String> = Vec::new();
    push_str_owned(&mut v, "-u");
    push_str_owned(&mut v, unit);
    push_str_owned(&mut v, "-n");
    push_str_owned(&mut v, n.as_str());
    push_str_owned(&mut v, "--no-pager");
    push_str_owned(&mut v, "--output=short-precise");
    proof {
        assert(views(v@) =~= diagnose_journal_args_spec(unit@, lines));
    }
    v
}

/// The log entry of one diagnostic command: level and status from whether
/// it succeeded, action and summary from which command it was.
pub open spec fn diagnostic_entry_spec(journal: bool, ok: bool) -> (Seq<char>, Seq<char>, Seq<char>, Seq<char>) {
    (
        if ok { "info"@ } else { "warning"@ },
        if journal { "unit-diagnose-journal"@ } else { "unit-diagnose-status"@ },
        if ok { "succeeded"@ } else { "failed"@ },
        if journal { "Unit diagnostics: journalctl"@ } else { "Unit diagnostics: systemctl status"@ },
    )
}

/// `diagnostic_entry_spec`: level, action, status, summary.
pub fn diagnostic_entry(journal: bool, ok: bool) -> (r: (&'static str, &'static str, &'static str, &'static str))
    ensures
        (r.0@, r.1@, r.2@, r.3@) == diagnostic_entry_spec(journal, ok),
{
    (
        if ok { "info" } else { "warning" },
        if journal { "unit-diagnose-journal" } else { "unit-diagnose-status" },
        if ok { "succeeded" } else { "failed" },
        if journal { "Unit diagnostics: journalctl" } else { "Unit diagnostics: systemctl status" },
    )
}

} // verus!
