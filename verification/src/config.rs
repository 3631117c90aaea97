//! Settings read from the environment, the self-update schedule, the rate
//! limit verdict and the lists of units the service manages.

use vstd::prelude::*;
use crate::text::{
    trim, trim_str, lower, to_ascii_lowercase, str_eq, str_starts_with, owned, views,
    split_whitespace, words, parse_u64, parse_u64_str, starts_with, push_str_owned, concat,
    push_char, trim_start_char, trim_start_matches_char, opt_view,
};
use crate::host::{unit_name_error, validate_systemd_unit_name};
use crate::units::{resolve_unit_spec, resolve_unit_identifier, dedup, contains_string};

verus! {

/// The values of a boolean setting that mean "on".
pub open spec fn flag_on(raw: Option<Seq<char>>) -> bool {
    match raw {
        Some(v) => {
            let t = lower(trim(v));
            t == "1"@ || t == "true"@ || t == "yes"@ || t == "on"@
        },
        None => false,
    }
}

/// The optional view of an optional string slice.
pub open spec fn opt_str(o: Option<&str>) -> Option<Seq<char>> {
    match o {
        Some(s) => Some(s@),
        None => None,
    }
}

/// `env_flag` / `parse_env_bool` from the raw value of the variable.
pub fn env_flag_value(raw: Option<&str>) -> (r: bool)
    ensures
        r == flag_on(opt_str(raw)),
{
    match raw {
        Some(v) => {
            let t = to_ascii_lowercase(trim_str(v));
            let s = t.as_str();
            str_eq(s, "1") || str_eq(s, "true") || str_eq(s, "yes") || str_eq(s, "on")
        },
        None => false,
    }
}

/// `env_u64` from the raw value: the default when unset, the trimmed value
/// when it parses, else `invalid <name>`.
pub open spec fn env_u64_spec(raw: Option<Seq<char>>, name: Seq<char>, default: u64) -> Result<
    u64,
    Seq<char>,
> {
    match raw {
        None => Ok(default),
        Some(v) => match parse_u64(trim(v)) {
            Some(n) => Ok(n),
            None => Err("invalid "@ + name),
        },
    }
}

/// `env_u64`.
pub fn env_u64_value(raw: Option<&str>, name: &str, default: u64) -> (r: Result<u64, String>)
    ensures
        r matches Ok(n) ==> env_u64_spec(opt_str(raw), name@, default) == Ok::<u64, Seq<char>>(n),
        r matches Err(e) ==> env_u64_spec(opt_str(raw), name@, default) == Err::<u64, Seq<char>>(
            e@,
        ),
{
    match raw {
        None => Ok(default),
        Some(v) => match parse_u64_str(trim_str(v)) {
            Some(n) => Ok(n),
            None => Err(concat("invalid ", name)),
        },
    }
}

/// A value parsed from the trimmed setting, when it parses.
pub open spec fn parsed_setting(raw: Option<Seq<char>>) -> Option<u64> {
    match raw {
        Some(v) => parse_u64(trim(v)),
        None => None,
    }
}

/// Parses a trimmed setting.
pub(crate) fn parse_setting(raw: Option<&str>) -> (r: Option<u64>)
    ensures
        r == parsed_setting(opt_str(raw)),
{
    match raw {
        Some(v) => parse_u64_str(trim_str(v)),
        None => None,
    }
}

/// The task retention: the setting, else a day; at least one.
pub open spec fn retention_secs_spec(raw: Option<Seq<char>>) -> u64 {
    let v = match parsed_setting(raw) {
        Some(n) => n,
        None => 86_400,
    };
    if v < 1 {
        1
    } else {
        v
    }
}

/// The task retention from the raw value.
pub fn task_retention_secs(raw: Option<&str>) -> (r: u64)
    ensures
        r == retention_secs_spec(opt_str(raw)),
{
    let v = match parse_setting(raw) {
        Some(n) => n,
        None => 86_400,
    };
    if v < 1 {
        1
    } else {
        v
    }
}

/// The scheduler's sleep in seconds: the interval, but no less than the
/// minimum setting (60 when unset or invalid).
pub open spec fn scheduler_sleep_spec(interval_secs: u64, min_raw: Option<Seq<char>>) -> u64 {
    let min = match parsed_setting(min_raw) {
        Some(n) => n,
        None => 60,
    };
    if interval_secs >= min {
        interval_secs
    } else {
        min
    }
}

/// The scheduler's sleep from the raw minimum setting.
pub fn scheduler_sleep_secs(interval_secs: u64, min_raw: Option<&str>) -> (r: u64)
    ensures
        r == scheduler_sleep_spec(interval_secs, opt_str(min_raw)),
{
    let min = match parse_setting(min_raw) {
        Some(n) => n,
        None => 60,
    };
    if interval_secs >= min {
        interval_secs
    } else {
        min
    }
}

/// `str::parse::<i64>` followed by the filter `> 0`: only an optional `+`
/// and digits of a value up to `i64::MAX` give a positive number.
pub open spec fn positive_i64(t: Seq<char>) -> Option<i64> {
    match parse_u64(t) {
        Some(n) => if 0 < n && n <= i64::MAX {
            Some(n as i64)
        } else {
            None
        },
        None => None,
    }
}

/// The number of journal lines in diagnostics: a positive setting, else 100,
/// kept within 1..=1000.
pub open spec fn journal_lines_spec(raw: Option<Seq<char>>) -> i64 {
    let t = match raw {
        Some(v) => trim(v),
        None => Seq::<char>::empty(),
    };
    let lines = match positive_i64(t) {
        Some(n) => n,
        None => 100,
    };
    if lines > 1000 {
        1000
    } else {
        lines
    }
}

/// The number of journal lines in diagnostics from the raw value.
pub fn journal_lines(raw: Option<&str>) -> (r: i64)
    ensures
        r == journal_lines_spec(opt_str(raw)),
        1 <= r <= 1000,
{
    let t = match raw {
        Some(v) => trim_str(v),
        None => "",
    };
    proof {
        reveal_strlit("");
    }
    let parsed: Option<i64> = match parse_u64_str(t) {
        Some(n) => if 0 < n && n <= i64::MAX as u64 {
            Some(n as i64)
        } else {
            None
        },
        None => None,
    };
    let lines = match parsed {
        Some(n) => n,
        None => 100,
    };
    if lines > 1000 {
        1000
    } else {
        lines
    }
}

/// The unit triggered by manual auto-update requests: the trimmed setting
/// when it is a valid unit name, else `podman-auto-update.service`.
pub open spec fn manual_unit_spec(raw: Option<Seq<char>>) -> Seq<char> {
    let t = match raw {
        Some(v) => trim(v),
        None => trim("podman-auto-update.service"@),
    };
    if unit_name_error(t) is None {
        t
    } else {
        "podman-auto-update.service"@
    }
}

/// `manual_auto_update_unit` from the raw value of the variable.
pub fn manual_auto_update_unit(raw: Option<&str>) -> (r: String)
    ensures
        r@ == manual_unit_spec(opt_str(raw)),
{
    let t = match raw {
        Some(v) => trim_str(v),
        None => trim_str("podman-auto-update.service"),
    };
    match validate_systemd_unit_name(t) {
        Ok(()) => owned(t),
        Err(_) => String::from_str("podman-auto-update.service"),
    }
}

/// A separator of the manual unit list.
pub open spec fn is_list_sep(c: char) -> bool {
    c == ',' || c == '\n'
}

/// The pieces of `s` between `,` and newline characters.
pub open spec fn split_list(s: Seq<char>) -> Seq<Seq<char>>
    decreases s.len(),
{
    if s.len() == 0 {
        seq![Seq::<char>::empty()]
    } else {
        let p = split_list(s.drop_last());
        if is_list_sep(s.last()) {
            p.push(Seq::<char>::empty())
        } else {
            p.update(p.len() - 1, p.last().push(s.last()))
        }
    }
}

/// `split_list` always yields a piece.
proof fn lemma_split_list_nonempty(s: Seq<char>)
    ensures
        split_list(s).len() >= 1,
    decreases s.len(),
{
    if s.len() > 0 {
        lemma_split_list_nonempty(s.drop_last());
    }
}

/// Splits `s` at `,` and newline characters.
pub fn split_unit_list(s: &str) -> (r: Vec<String>)
    ensures
        views(r@) == split_list(s@),
{
    let n = s.unicode_len();
    let mut done: Vec<String> = Vec::new();
    let mut cur = String::new();
    let mut i: usize = 0;
    proof {
        assert(s@.take(0) =~= Seq::<char>::empty());
        assert(views(done@).push(cur@) =~= seq![Seq::<char>::empty()]);
    }
    while i < n
        invariant
            i <= n,
            n == s@.len(),
            views(done@).push(cur@) == split_list(s@.take(i as int)),
        decreases n - i,
    {
        let c = s.get_char(i);
        proof {
            assert(s@.take(i + 1).drop_last() =~= s@.take(i as int));
            assert(s@.take(i + 1).last() == c);
            lemma_split_list_nonempty(s@.take(i as int));
        }
        if c == ',' || c == '\n' {
            let ghost prev = views(done@);
            let ghost pc = cur@;
            done.push(cur);
            cur = String::new();
            proof {
                assert(views(done@) =~= prev.push(pc));
                assert(views(done@).push(cur@) =~= prev.push(pc).push(Seq::<char>::empty()));
            }
        } else {
            let ghost prev = views(done@);
            let ghost pc = cur@;
            push_char(&mut cur, c);
            proof {
                assert(views(done@).push(cur@) =~= prev.push(pc).update(prev.len() as int, pc.push(c)));
            }
        }
        i = i + 1;
    }
    proof {
        assert(s@.take(n as int) =~= s@);
    }
    let ghost prev = views(done@);
    let ghost pc = cur@;
    done.push(cur);
    proof {
        assert(views(done@) =~= prev.push(pc));
    }
    done
}

/// The resolved units of list entries, unresolvable ones left out.
pub open spec fn resolved_units(entries: Seq<Seq<char>>) -> Seq<Seq<char>>
    decreases entries.len(),
{
    if entries.len() == 0 {
        Seq::<Seq<char>>::empty()
    } else {
        match resolve_unit_spec(entries.last()) {
            Some(u) => resolved_units(entries.drop_last()).push(u),
            None => resolved_units(entries.drop_last()),
        }
    }
}

/// `manual_env_unit_list`: the manual auto-update unit first, then the
/// resolved entries of the unit list setting, each unit once.
pub open spec fn manual_env_units_spec(manual: Seq<char>, raw: Option<Seq<char>>) -> Seq<Seq<char>> {
    let entries = match raw {
        Some(v) => resolved_units(split_list(v)),
        None => Seq::<Seq<char>>::empty(),
    };
    dedup(seq![manual] + entries)
}

/// `manual_env_unit_list` on the manual unit and the raw list setting.
pub fn manual_env_unit_list(manual: &str, raw: Option<&str>) -> (r: Vec<String>)
    ensures
        views(r@) == manual_env_units_spec(manual@, opt_str(raw)),
{
    let mut units: Vec<String> = Vec::new();
    proof {
        assert(views(units@) =~= Seq::<Seq<char>>::empty());
    }
    push_str_owned(&mut units, manual);
    proof {
        assert(seq![manual@].drop_last() =~= Seq::<Seq<char>>::empty());
        assert(dedup(seq![manual@]) == dedup(Seq::<Seq<char>>::empty()).push(manual@));
        assert(views(units@) == dedup(seq![manual@]));
    }
    let v = match raw {
        Some(v) => v,
        None => {
            proof {
                assert(seq![manual@] + Seq::<Seq<char>>::empty() =~= seq![manual@]);
            }
            return units;
        },
    };
    let entries = split_unit_list(v);
    let ghost ev = views(entries@);
    let mut i: usize = 0;
    proof {
        assert(ev.take(0) =~= Seq::<Seq<char>>::empty());
        assert(seq![manual@] + resolved_units(ev.take(0)) =~= seq![manual@]);
    }
    while i < entries.len()
        invariant
            i <= entries@.len(),
            ev == views(entries@),
            views(units@) == dedup(seq![manual@] + resolved_units(ev.take(i as int))),
        decreases entries@.len() - i,
    {
        proof {
            assert(ev.take(i + 1).drop_last() =~= ev.take(i as int));
            assert(ev.take(i + 1).last() == entries@[i as int]@);
        }
        match resolve_unit_identifier(entries[i].as_str()) {
            Some(unit) => {
                proof {
                    let a = seq![manual@] + resolved_units(ev.take(i as int));
                    assert((seq![manual@] + resolved_units(ev.take(i + 1))).drop_last() =~= a);
                }
                if !contains_string(&units, unit.as_str()) {
                    push_str_owned(&mut units, unit.as_str());
                }
            },
            None => {},
        }
        i = i + 1;
    }
    proof {
        assert(ev.take(entries@.len() as int) =~= ev);
    }
    units
}

/// A self-update schedule: every `n` minutes or every `n` hours.
#[derive(Clone, Copy, Debug, PartialEq, Eq, Structural)]
pub enum SelfUpdateSchedule {
    EveryMinutes(u64),
    EveryHours(u64),
}

/// The interval parsed from `*/<n>`, if the field has that form.
pub open spec fn step_field(f: Seq<char>) -> Option<Option<u64>> {
    if starts_with(f, "*/"@) {
        Some(parse_u64(f.skip(2)))
    } else {
        None
    }
}

/// `parse_self_update_cron`: five fields; day of month, month and weekday
/// must be `*`; `*/n * * * *` runs every `n` minutes and `0 */n * * *` every
/// `n` hours, for `n > 0`.
pub open spec fn cron_spec(expr: Seq<char>) -> Result<SelfUpdateSchedule, Seq<char>> {
    let parts = words(expr);
    if parts.len() != 5 {
        Err("invalid-field-count"@)
    } else if parts[2] != "*"@ || parts[3] != "*"@ || parts[4] != "*"@ {
        Err("unsupported-fields"@)
    } else if parts[1] == "*"@ && step_field(parts[0]) is Some {
        match step_field(parts[0]) {
            Some(Some(n)) => if n == 0 {
                Err("minute-interval-zero"@)
            } else {
                Ok(SelfUpdateSchedule::EveryMinutes(n))
            },
            _ => Err("invalid-minute-interval"@),
        }
    } else if parts[0] == "0"@ && step_field(parts[1]) is Some {
        match step_field(parts[1]) {
            Some(Some(n)) => if n == 0 {
                Err("hour-interval-zero"@)
            } else {
                Ok(SelfUpdateSchedule::EveryHours(n))
            },
            _ => Err("invalid-hour-interval"@),
        }
    } else {
        Err("unsupported-cron-pattern"@)
    }
}

/// Reads a `*/<n>` field.
fn parse_step_field(f: &str) -> (r: Option<Option<u64>>)
    ensures
        r == step_field(f@),
{
    if str_starts_with(f, "*/") {
        proof {
            reveal_strlit("*/");
        }
        let rest = f.substring_char(2, f.unicode_len());
        proof {
            assert(rest@ =~= f@.skip(2));
        }
        Some(parse_u64_str(rest))
    } else {
        None
    }
}

/// Parses a self-update cron expression into a schedule, or the reason it
/// is refused.
pub fn parse_self_update_cron(expr: &str) -> (r: Result<SelfUpdateSchedule, String>)
    ensures
        r matches Ok(s) ==> cron_spec(expr@) == Ok::<SelfUpdateSchedule, Seq<char>>(s),
        r matches Err(e) ==> cron_spec(expr@) == Err::<SelfUpdateSchedule, Seq<char>>(e@),
{
    let parts = split_whitespace(expr);
    if parts.len() != 5 {
        return Err(String::from_str("invalid-field-count"));
    }
    proof {
        assert(views(parts@)[0] == parts@[0]@);
        assert(views(parts@)[1] == parts@[1]@);
        assert(views(parts@)[2] == parts@[2]@);
        assert(views(parts@)[3] == parts@[3]@);
        assert(views(parts@)[4] == parts@[4]@);
    }
    let minute = parts[0].as_str();
    let hour = parts[1].as_str();
    if !str_eq(parts[2].as_str(), "*") || !str_eq(parts[3].as_str(), "*") || !str_eq(
        parts[4].as_str(),
        "*",
    ) {
        return Err(String::from_str("unsupported-fields"));
    }
    if str_eq(hour, "*") {
        match parse_step_field(minute) {
            Some(Some(n)) => {
                if n == 0 {
                    return Err(String::from_str("minute-interval-zero"));
                }
                return Ok(SelfUpdateSchedule::EveryMinutes(n));
            },
            Some(None) => {
                return Err(String::from_str("invalid-minute-interval"));
            },
            None => {},
        }
    }
    if str_eq(minute, "0") {
        match parse_step_field(hour) {
            Some(Some(n)) => {
                if n == 0 {
                    return Err(String::from_str("hour-interval-zero"));
                }
                return Ok(SelfUpdateSchedule::EveryHours(n));
            },
            Some(None) => {
                return Err(String::from_str("invalid-hour-interval"));
            },
            None => {},
        }
    }
    Err(String::from_str("unsupported-cron-pattern"))
}

/// `a * b`, or `u64::MAX` when that does not fit (`u64::saturating_mul`).
pub open spec fn saturating_mul_spec(a: u64, b: u64) -> u64 {
    if a * b > u64::MAX {
        u64::MAX
    } else {
        (a * b) as u64
    }
}

/// The seconds between two self-update runs: the schedule's interval in
/// seconds (saturating), at least one.
pub open spec fn schedule_interval_spec(s: SelfUpdateSchedule) -> u64 {
    let secs = match s {
        SelfUpdateSchedule::EveryMinutes(n) => saturating_mul_spec(n, 60),
        SelfUpdateSchedule::EveryHours(n) => saturating_mul_spec(n, 3600),
    };
    if secs < 1 {
        1
    } else {
        secs
    }
}

/// `u64::saturating_mul`.
pub fn saturating_mul(a: u64, b: u64) -> (r: u64)
    ensures
        r == saturating_mul_spec(a, b),
{
    match a.checked_mul(b) {
        Some(v) => v,
        None => u64::MAX,
    }
}

/// The interval of the self-update loop, in seconds.
pub fn schedule_interval_secs(s: SelfUpdateSchedule) -> (r: u64)
    ensures
        r == schedule_interval_spec(s),
        r >= 1,
{
    let secs = match s {
        SelfUpdateSchedule::EveryMinutes(n) => saturating_mul(n, 60),
        SelfUpdateSchedule::EveryHours(n) => saturating_mul(n, 3600),
    };
    if secs < 1 {
        1
    } else {
        secs
    }
}

/// `normalize_command`: leading dashes removed, then lowercased.
pub open spec fn normalize_command_spec(raw: Seq<char>) -> Seq<char> {
    crate::text::unicode_lower(trim_start_char(raw, '-'))
}

/// A subcommand name with leading dashes removed, lowercased.
pub fn normalize_command(raw: &str) -> (r: String)
    ensures
        r@ == normalize_command_spec(raw@),
{
    crate::text::str_to_lowercase(trim_start_matches_char(raw, '-'))
}

/// The self-update schedule setting: missing when unset or blank, else
/// the schedule its trimmed text parses to, or the reason it does not.
pub enum CronSetting {
    Missing,
    Invalid(String),
    Schedule(SelfUpdateSchedule),
}

/// The cron setting as the self-update scheduler reads it.
pub fn self_update_cron_setting(raw: Option<&str>) -> (r: CronSetting)
    ensures
        match raw {
            Some(v) if trim(v@).len() > 0 => match cron_spec(trim(v@)) {
                Ok(s) => r matches CronSetting::Schedule(x) && x == s,
                Err(e) => r matches CronSetting::Invalid(x) && x@ == e,
            },
            _ => r is Missing,
        },
{
    match raw {
        Some(v) => {
            let t = trim_str(v);
            if t.unicode_len() == 0 {
                CronSetting::Missing
            } else {
                match parse_self_update_cron(t) {
                    Ok(s) => CronSetting::Schedule(s),
                    Err(e) => CronSetting::Invalid(e),
                }
            }
        },
        None => CronSetting::Missing,
    }
}

/// Whether a secret setting is configured: present and not blank.
pub open spec fn configured_spec(raw: Option<Seq<char>>) -> bool {
    raw matches Some(v) && trim(v).len() > 0
}

/// Whether a secret setting (the webhook token, the GitHub secret) is set.
pub fn setting_configured(raw: Option<&str>) -> (r: bool)
    ensures
        r == configured_spec(opt_str(raw)),
{
    match raw {
        Some(v) => trim_str(v).unicode_len() > 0,
        None => false,
    }
}

/// The database address used when none is set.
pub open spec fn default_db_url() -> Seq<char> {
    "sqlite://data/pod-upgrade-trigger.db"@
}

/// The database address: the setting when not blank, else the default.
pub open spec fn db_url_spec(raw: Option<Seq<char>>) -> Seq<char> {
    match raw {
        Some(v) => if trim(v).len() > 0 {
            v
        } else {
            default_db_url()
        },
        None => default_db_url(),
    }
}

/// The database address from its raw setting.
pub fn db_url_setting(raw: Option<&str>) -> (r: String)
    ensures
        r@ == db_url_spec(opt_str(raw)),
{
    match raw {
        Some(v) => if trim_str(v).unicode_len() > 0 {
            owned(v)
        } else {
            owned("sqlite://data/pod-upgrade-trigger.db")
        },
        None => owned("sqlite://data/pod-upgrade-trigger.db"),
    }
}

/// Only SQLite addresses are supported: after trimming they start with
/// `sqlite://` or `sqlite::`.
pub open spec fn db_url_supported_spec(url: Seq<char>) -> bool {
    starts_with(trim(url), "sqlite://"@) || starts_with(trim(url), "sqlite::"@)
}

/// Whether the service can open the database at `url`.
pub fn db_url_supported(url: &str) -> (r: bool)
    ensures
        r == db_url_supported_spec(url@),
{
    let t = trim_str(url);
    str_starts_with(t, "sqlite://") || str_starts_with(t, "sqlite::")
}

/// The file of a `sqlite://` address: what follows the prefix.
pub open spec fn sqlite_file_spec(url: Seq<char>) -> Option<Seq<char>> {
    if starts_with(url, "sqlite://"@) {
        Some(url.skip(9))
    } else {
        None
    }
}

/// The database file of a `sqlite://` address, if it is one.
pub fn sqlite_file_path(url: &str) -> (r: Option<String>)
    ensures
        opt_view(r) == sqlite_file_spec(url@),
{
    proof {
        reveal_strlit("sqlite://");
    }
    if str_starts_with(url, "sqlite://") {
        let rest = url.substring_char(9, url.unicode_len());
        proof {
            assert(rest@ =~= url@.skip(9));
        }
        Some(owned(rest))
    } else {
        None
    }
}

} // verus!
