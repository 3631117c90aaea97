//! Command-line options of the `trigger`, `prune-state` and `scheduler`
//! commands, and the scheduler's loop.

use vstd::prelude::*;
use crate::text::{
    trim, trim_str, str_eq, str_starts_with, starts_with, concat, owned, views, split, split_char,
    nonempty, drop_empty, parse_u64, parse_u64_str, opt_view, extend_strings, push_str_owned,
};
use crate::units::{resolve_unit_spec, resolve_unit_identifier};
use crate::queries::sat_mul;

verus! {

/// The pieces of a comma-separated list, trimmed, without empty ones.
pub open spec fn comma_list(raw: Seq<char>) -> Seq<Seq<char>> {
    nonempty(split(raw, ',').map_values(|x: Seq<char>| trim(x)))
}

/// The comma-separated entries of an argument, trimmed, blank ones left
/// out.
pub fn comma_list_of(raw: &str) -> (r: Vec<String>)
    ensures
        views(r@) == comma_list(raw@),
{
    let parts = split_char(raw, ',');
    let mut trimmed: Vec<String> = Vec::new();
    let mut i: usize = 0;
    while i < parts.len()
        invariant
            i <= parts@.len(),
            views(parts@) == split(raw@, ','),
            views(trimmed@) == split(raw@, ',').take(i as int).map_values(|x: Seq<char>| trim(x)),
        decreases parts@.len() - i,
    {
        let ghost prev = trimmed@;
        trimmed.push(owned(trim_str(parts[i].as_str())));
        proof {
            assert(views(parts@)[i as int] == parts@[i as int]@);
            assert(views(trimmed@) =~= views(prev).push(trim(parts@[i as int]@)));
            assert(split(raw@, ',').take(i + 1).map_values(|x: Seq<char>| trim(x)) =~= split(
                raw@,
                ',',
            ).take(i as int).map_values(|x: Seq<char>| trim(x)).push(trim(split(raw@, ',')[i as int])));
        }
        i = i + 1;
    }
    proof {
        assert(split(raw@, ',').take(parts@.len() as int) =~= split(raw@, ','));
    }
    drop_empty(&trimmed)
}

/// The position after an option and its value (the end when the value
/// is missing).
fn past_value(idx: usize, len: usize) -> (r: usize)
    requires
        idx < len,
    ensures
        r == (if idx + 1 < len {
            idx + 2
        } else {
            len as int
        }),
{
    if idx + 1 < len {
        idx + 2
    } else {
        len
    }
}

/// The options of `trigger`.
pub struct TriggerOptions {
    pub units: Vec<String>,
    pub all: bool,
    pub dry_run: bool,
    pub caller: Option<String>,
    pub reason: Option<String>,
}

/// `TriggerOptions` with texts as character sequences.
pub struct TriggerOptionsView {
    pub units: Seq<Seq<char>>,
    pub all: bool,
    pub dry_run: bool,
    pub caller: Option<Seq<char>>,
    pub reason: Option<Seq<char>>,
}

impl TriggerOptions {
    /// The options with texts as character sequences.
    pub open spec fn view_of(self) -> TriggerOptionsView {
        TriggerOptionsView {
            units: views(self.units@),
            all: self.all,
            dry_run: self.dry_run,
            caller: opt_view(self.caller),
            reason: opt_view(self.reason),
        }
    }
}

/// The argument after position `i`, if there is one.
pub open spec fn next_arg(args: Seq<Seq<char>>, i: int) -> Option<Seq<char>> {
    if 0 <= i + 1 < args.len() {
        Some(args[i + 1])
    } else {
        None
    }
}

/// The arguments of `trigger` read from position `i` on: `--all`,
/// `--dry-run`, `--caller <text>`, `--reason <text>`, `--units <list>`;
/// other words starting with `-` are refused (the error is the word);
/// anything else names a unit.
pub open spec fn trigger_parse(args: Seq<Seq<char>>, i: int, o: TriggerOptionsView) -> Result<TriggerOptionsView, Seq<char>>
    decreases args.len() + 1 - i,
{
    if i < 0 || i >= args.len() {
        Ok(o)
    } else {
        let a = args[i];
        if a == "--all"@ {
            trigger_parse(args, i + 1, TriggerOptionsView { all: true, ..o })
        } else if a == "--dry-run"@ {
            trigger_parse(args, i + 1, TriggerOptionsView { dry_run: true, ..o })
        } else if a == "--caller"@ {
            trigger_parse(args, i + 2, TriggerOptionsView { caller: next_arg(args, i), ..o })
        } else if a == "--reason"@ {
            trigger_parse(args, i + 2, TriggerOptionsView { reason: next_arg(args, i), ..o })
        } else if a == "--units"@ {
            let units = match next_arg(args, i) {
                Some(raw) => o.units + comma_list(raw),
                None => o.units,
            };
            trigger_parse(args, i + 2, TriggerOptionsView { units, ..o })
        } else if starts_with(a, "-"@) {
            Err(a)
        } else {
            trigger_parse(args, i + 1, TriggerOptionsView { units: o.units.push(a), ..o })
        }
    }
}

/// The options of `trigger` from its arguments (`force_all` for the form
/// that always targets every unit), or the unknown option.
pub open spec fn trigger_options_spec(args: Seq<Seq<char>>, force_all: bool) -> Result<TriggerOptionsView, Seq<char>> {
    trigger_parse(
        args,
        0,
        TriggerOptionsView {
            units: Seq::<Seq<char>>::empty(),
            all: force_all,
            dry_run: false,
            caller: None,
            reason: None,
        },
    )
}

/// A copy of the argument after position `i`.
fn arg_after(args: &[String], i: usize) -> (r: Option<String>)
    ensures
        opt_view(r) == next_arg(views(args@), i as int),
{
    if i < args.len() && i + 1 < args.len() {
        Some(owned(args[i + 1].as_str()))
    } else {
        None
    }
}

/// Reads the options of `trigger`; an unknown option is returned as the
/// error.
pub fn parse_trigger_args(args: &[String], force_all: bool) -> (r: Result<TriggerOptions, String>)
    ensures
        match r {
            Ok(o) => trigger_options_spec(views(args@), force_all) == Ok::<TriggerOptionsView, Seq<char>>(o.view_of()),
            Err(e) => trigger_options_spec(views(args@), force_all) == Err::<TriggerOptionsView, Seq<char>>(e@),
        },
{
    let ghost av = views(args@);
    let mut o = TriggerOptions { units: Vec::new(), all: force_all, dry_run: false, caller: None, reason: None };
    let mut idx: usize = 0;
    proof {
        assert(o.view_of().units =~= Seq::<Seq<char>>::empty());
    }
    while idx < args.len()
        invariant
            av == views(args@),
            idx <= args@.len() + 1,
            trigger_options_spec(av, force_all) == trigger_parse(av, idx as int, o.view_of()),
        decreases args@.len() + 1 - idx,
    {
        let a = args[idx].as_str();
        let ghost i0 = idx as int;
        proof {
            assert(av[idx as int] == a@);
        }
        if str_eq(a, "--all") {
            o.all = true;
            idx = idx + 1;
        } else if str_eq(a, "--dry-run") {
            o.dry_run = true;
            idx = idx + 1;
        } else if str_eq(a, "--caller") {
            o.caller = arg_after(args, idx);
            idx = past_value(idx, args.len());
            proof {
                if i0 + 1 >= av.len() {
                    assert(trigger_parse(av, i0 + 2, o.view_of()) == Ok::<TriggerOptionsView, Seq<char>>(o.view_of()));
                    assert(trigger_parse(av, idx as int, o.view_of()) == Ok::<TriggerOptionsView, Seq<char>>(o.view_of()));
                }
            }
        } else if str_eq(a, "--reason") {
            o.reason = arg_after(args, idx);
            idx = past_value(idx, args.len());
            proof {
                if i0 + 1 >= av.len() {
                    assert(trigger_parse(av, i0 + 2, o.view_of()) == Ok::<TriggerOptionsView, Seq<char>>(o.view_of()));
                    assert(trigger_parse(av, idx as int, o.view_of()) == Ok::<TriggerOptionsView, Seq<char>>(o.view_of()));
                }
            }
        } else if str_eq(a, "--units") {
            let ghost before = o.view_of();
            if idx + 1 < args.len() {
                let more = comma_list_of(args[idx + 1].as_str());
                extend_strings(&mut o.units, more.as_slice());
                proof {
                    assert(av[idx + 1] == args@[idx + 1]@);
                    assert(o.view_of() == TriggerOptionsView {
                        units: before.units + comma_list(av[idx + 1]),
                        ..before
                    });
                }
            } else {
                proof {
                    assert(o.view_of() == TriggerOptionsView { units: before.units, ..before });
                }
            }
            idx = past_value(idx, args.len());
        } else if str_starts_with(a, "-") {
            return Err(owned(a));
        } else {
            push_str_owned(&mut o.units, a);
            idx = idx + 1;
        }
    }
    Ok(o)
}

/// The units `trigger` names that resolve, in order, and those that do not
/// (each reported as unknown).
pub open spec fn resolve_cli_units(entries: Seq<Seq<char>>) -> (Seq<Seq<char>>, Seq<Seq<char>>)
    decreases entries.len(),
{
    if entries.len() == 0 {
        (Seq::<Seq<char>>::empty(), Seq::<Seq<char>>::empty())
    } else {
        let (ok, bad) = resolve_cli_units(entries.drop_last());
        match resolve_unit_spec(entries.last()) {
            Some(u) => (ok.push(u), bad),
            None => (ok, bad.push(entries.last())),
        }
    }
}

/// Resolves the units named on the command line.
pub fn resolve_cli_unit_list(entries: &[String]) -> (r: (Vec<String>, Vec<String>))
    ensures
        (views(r.0@), views(r.1@)) == resolve_cli_units(views(entries@)),
{
    let mut ok: Vec<String> = Vec::new();
    let mut bad: Vec<String> = Vec::new();
    let mut i: usize = 0;
    proof {
        assert(views(entries@).take(0) =~= Seq::<Seq<char>>::empty());
        assert(views(ok@) =~= Seq::<Seq<char>>::empty());
        assert(views(bad@) =~= Seq::<Seq<char>>::empty());
    }
    while i < entries.len()
        invariant
            i <= entries@.len(),
            (views(ok@), views(bad@)) == resolve_cli_units(views(entries@).take(i as int)),
        decreases entries@.len() - i,
    {
        proof {
            assert(views(entries@).take(i + 1).drop_last() =~= views(entries@).take(i as int));
            assert(views(entries@).take(i + 1).last() == entries@[i as int]@);
        }
        match resolve_unit_identifier(entries[i].as_str()) {
            Some(u) => {
                push_str_owned(&mut ok, u.as_str());
            },
            None => {
                push_str_owned(&mut bad, entries[i].as_str());
            },
        }
        i = i + 1;
    }
    proof {
        assert(views(entries@).take(entries@.len() as int) =~= views(entries@));
    }
    (ok, bad)
}

/// `parse_u64_arg`: the trimmed value as a number, or `missing <label>` /
/// `invalid <label>`.
pub open spec fn u64_arg_spec(value: Option<Seq<char>>, label: Seq<char>) -> Result<u64, Seq<char>> {
    match value {
        None => Err("missing "@ + label),
        Some(v) => match parse_u64(trim(v)) {
            Some(n) => Ok(n),
            None => Err("invalid "@ + label),
        },
    }
}

/// `parse_u64_arg`.
pub fn parse_u64_arg(value: Option<&str>, label: &str) -> (r: Result<u64, String>)
    ensures
        match r {
            Ok(n) => u64_arg_spec(crate::config::opt_str(value), label@) == Ok::<u64, Seq<char>>(n),
            Err(e) => u64_arg_spec(crate::config::opt_str(value), label@) == Err::<u64, Seq<char>>(e@),
        },
{
    match value {
        None => Err(concat("missing ", label)),
        Some(v) => match parse_u64_str(trim_str(v)) {
            Some(n) => Ok(n),
            None => Err(concat("invalid ", label)),
        },
    }
}

/// The arguments of `prune-state` read from position `i` on, with the
/// retention so far: `--max-age-hours <n>` sets it to `n` hours, `--dry-run`
/// only reports; anything else is refused. The error is the message
/// printed.
pub open spec fn prune_parse(args: Seq<Seq<char>>, i: int, retention: u64, dry_run: bool) -> Result<(u64, bool), Seq<char>>
    decreases args.len() + 1 - i,
{
    if i < 0 || i >= args.len() {
        Ok((retention, dry_run))
    } else {
        let a = args[i];
        if a == "--max-age-hours"@ {
            match u64_arg_spec(next_arg(args, i), "max-age-hours"@) {
                Ok(h) => prune_parse(args, i + 2, sat_mul(h, 3600), dry_run),
                Err(e) => Err(e),
            }
        } else if a == "--dry-run"@ {
            prune_parse(args, i + 1, retention, true)
        } else {
            Err("unknown prune option: "@ + a)
        }
    }
}

/// The retention of `prune-state` (one day unless given, at least one
/// second), its whole hours, and whether it only reports.
pub open spec fn prune_options_spec(args: Seq<Seq<char>>) -> Result<(u64, u64, bool), Seq<char>> {
    match prune_parse(args, 0, 86400, false) {
        Ok((ret, dry)) => {
            let ret = if ret >= 1 {
                ret
            } else {
                1u64
            };
            Ok((ret, ret / 3600, dry))
        },
        Err(e) => Err(e),
    }
}

/// The argument after position `i`, borrowed.
fn arg_ref(args: &[String], i: usize) -> (r: Option<&str>)
    ensures
        crate::config::opt_str(r) == next_arg(views(args@), i as int),
{
    if i < args.len() && i + 1 < args.len() {
        Some(args[i + 1].as_str())
    } else {
        None
    }
}

/// Reads the options of `prune-state`: retention seconds, whole hours and
/// the dry-run flag, or the message of the error.
pub fn parse_prune_args(args: &[String]) -> (r: Result<(u64, u64, bool), String>)
    ensures
        match r {
            Ok(v) => prune_options_spec(views(args@)) == Ok::<(u64, u64, bool), Seq<char>>(v),
            Err(e) => prune_options_spec(views(args@)) == Err::<(u64, u64, bool), Seq<char>>(e@),
        },
{
    let ghost av = views(args@);
    let mut retention: u64 = 86400;
    let mut dry_run = false;
    let mut idx: usize = 0;
    while idx < args.len()
        invariant
            av == views(args@),
            idx <= args@.len() + 1,
            prune_parse(av, 0, 86400, false) == prune_parse(av, idx as int, retention, dry_run),
        decreases args@.len() + 1 - idx,
    {
        let a = args[idx].as_str();
        proof {
            assert(av[idx as int] == a@);
        }
        if str_eq(a, "--max-age-hours") {
            match parse_u64_arg(arg_ref(args, idx), "max-age-hours") {
                Ok(h) => {
                    retention = match h.checked_mul(3600) {
                        Some(x) => x,
                        None => u64::MAX,
                    };
                },
                Err(e) => {
                    return Err(e);
                },
            }
            idx = past_value(idx, args.len());
        } else if str_eq(a, "--dry-run") {
            dry_run = true;
            idx = idx + 1;
        } else {
            return Err(concat("unknown prune option: ", a));
        }
    }
    let retention = if retention >= 1 {
        retention
    } else {
        1
    };
    Ok((retention, retention / 3600, dry_run))
}

/// The arguments of `scheduler` read from position `i` on, with the
/// interval and iteration limit so far: `--interval` or `--interval-secs`
/// and `--max-iterations` take numbers; anything else is refused. The
/// error is the message printed.
pub open spec fn scheduler_parse(args: Seq<Seq<char>>, i: int, interval: u64, max: Option<u64>) -> Result<(u64, Option<u64>), Seq<char>>
    decreases args.len() + 1 - i,
{
    if i < 0 || i >= args.len() {
        Ok((interval, max))
    } else {
        let a = args[i];
        if a == "--interval"@ || a == "--interval-secs"@ {
            match u64_arg_spec(next_arg(args, i), "interval"@) {
                Ok(v) => scheduler_parse(args, i + 2, v, max),
                Err(e) => Err(e),
            }
        } else if a == "--max-iterations"@ {
            match u64_arg_spec(next_arg(args, i), "max-iterations"@) {
                Ok(v) => scheduler_parse(args, i + 2, interval, Some(v)),
                Err(e) => Err(e),
            }
        } else {
            Err("unknown scheduler option: "@ + a)
        }
    }
}

/// Reads the options of `scheduler` over the defaults taken from the
/// environment: the interval and the iteration limit.
pub fn parse_scheduler_args(args: &[String], interval: u64, max_iterations: Option<u64>) -> (r: Result<(u64, Option<u64>), String>)
    ensures
        match r {
            Ok(v) => scheduler_parse(views(args@), 0, interval, max_iterations) == Ok::<(u64, Option<u64>), Seq<char>>(v),
            Err(e) => scheduler_parse(views(args@), 0, interval, max_iterations) == Err::<(u64, Option<u64>), Seq<char>>(e@),
        },
{
    let ghost av = views(args@);
    let ghost start = scheduler_parse(av, 0, interval, max_iterations);
    let mut cur_interval = interval;
    let mut cur_max = max_iterations;
    let mut idx: usize = 0;
    while idx < args.len()
        invariant
            av == views(args@),
            idx <= args@.len() + 1,
            start == scheduler_parse(av, 0, interval, max_iterations),
            start == scheduler_parse(av, idx as int, cur_interval, cur_max),
        decreases args@.len() + 1 - idx,
    {
        let a = args[idx].as_str();
        proof {
            assert(av[idx as int] == a@);
        }
        if str_eq(a, "--interval") || str_eq(a, "--interval-secs") {
            match parse_u64_arg(arg_ref(args, idx), "interval") {
                Ok(v) => {
                    cur_interval = v;
                },
                Err(e) => {
                    return Err(e);
                },
            }
            idx = past_value(idx, args.len());
        } else if str_eq(a, "--max-iterations") {
            match parse_u64_arg(arg_ref(args, idx), "max-iterations") {
                Ok(v) => {
                    cur_max = Some(v);
                },
                Err(e) => {
                    return Err(e);
                },
            }
            idx = past_value(idx, args.len());
        } else {
            return Err(concat("unknown scheduler option: ", a));
        }
    }
    Ok((cur_interval, cur_max))
}

/// The iteration count after one more tick, capped at `u64::MAX`.
pub open spec fn scheduler_next(iterations: u64) -> u64 {
    if iterations == u64::MAX {
        u64::MAX
    } else {
        (iterations + 1) as u64
    }
}

/// Whether the scheduler stops once its count reached `count`.
pub open spec fn scheduler_stops(count: u64, max_iterations: Option<u64>) -> bool {
    max_iterations matches Some(limit) && count >= limit
}

/// The iteration count after `k` ticks from a fresh start.
pub open spec fn count_after(k: nat) -> u64
    decreases k,
{
    if k == 0 {
        0
    } else {
        scheduler_next(count_after((k - 1) as nat))
    }
}

/// Up to `u64::MAX` ticks, the count is the number of ticks.
pub proof fn lemma_count_after(k: nat)
    requires
        k <= u64::MAX,
    ensures
        count_after(k) == k,
    decreases k,
{
    if k > 0 {
        lemma_count_after((k - 1) as nat);
    }
}

/// A bounded run: with `--max-iterations n` the scheduler stops after tick
/// `k` exactly when `k` reached `n`, and never before its first tick, so it
/// runs `max(n, 1)` ticks; without a limit it never stops.
pub proof fn lemma_bounded_run(max_iterations: Option<u64>, k: nat)
    requires
        1 <= k <= u64::MAX,
    ensures
        scheduler_stops(count_after(k), max_iterations) <==> (match max_iterations {
            Some(n) => k >= (if n == 0 { 1 } else { n as nat }),
            None => false,
        }),
{
    lemma_count_after(k);
}

/// One tick of the scheduler: the iteration count goes up (capped at
/// `u64::MAX`), and the loop stops once it reaches the limit, if any.
pub fn scheduler_tick(iterations: u64, max_iterations: Option<u64>) -> (r: (u64, bool))
    ensures
        r.0 == scheduler_next(iterations),
        r.1 == scheduler_stops(r.0, max_iterations),
{
    let next = iterations.saturating_add(1);
    let stop = match max_iterations {
        Some(limit) => next >= limit,
        None => false,
    };
    (next, stop)
}

} // verus!
