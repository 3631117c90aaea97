//! Unit identifiers and routes: webhook paths, unit resolution, image keys,
//! the transient runner invocation and the outcome of unit operations.

use vstd::prelude::*;
use crate::text::{
    trim, trim_str, starts_with, ends_with, str_eq, str_starts_with, str_ends_with, concat,
    owned, push_char, split, split_char, nonempty, drop_empty, views, push_str_owned,
    trim_start_char, trim_end_char, trim_start_matches_char, trim_end_matches_char, is_alnum,
    char_is_alnum, ascii_lower, char_ascii_lower, int_decimal, i64_to_string, opt_view,
};
use crate::host::{unit_name_error, validate_systemd_unit_name, CommandExecResult};

verus! {

/// The route prefix of package webhooks.
pub open spec fn route_prefix() -> Seq<char> {
    "github-package-update"@
}

/// Whether `path` addresses the package webhook route (`/prefix` or a path
/// below it).
pub open spec fn is_github_route_spec(path: Seq<char>) -> bool {
    path.len() > 0 && path[0] == '/' && {
        let rest = path.drop_first();
        rest == route_prefix() || starts_with(rest, route_prefix().push('/'))
    }
}

/// Whether a request path belongs to the GitHub webhook routes.
pub fn is_github_route(path: &str) -> (r: bool)
    ensures
        r == is_github_route_spec(path@),
{
    let n = path.unicode_len();
    if n == 0 || path.get_char(0) != '/' {
        return false;
    }
    let rest = path.substring_char(1, n);
    proof {
        assert(rest@ =~= path@.drop_first());
        reveal_strlit("github-package-update");
        reveal_strlit("github-package-update/");
        assert("github-package-update/"@ =~= route_prefix().push('/'));
    }
    if str_eq(rest, "github-package-update") {
        return true;
    }
    str_starts_with(rest, "github-package-update/")
}

/// The unit named by a webhook path: `/prefix/<unit>` or
/// `/prefix/<unit>/redeploy`, empty segments ignored, gives `<unit>.service`.
pub open spec fn lookup_unit_spec(path: Seq<char>) -> Option<Seq<char>> {
    let segs = nonempty(split(path, '/'));
    if segs.len() >= 2 && segs[0] == route_prefix() && (segs.len() == 2 || (segs.len() == 3
        && segs[2] == "redeploy"@)) {
        Some(segs[1] + ".service"@)
    } else {
        None
    }
}

/// The unit a webhook path names (`/<prefix>/<unit>`, optionally followed
/// by `/redeploy`).
pub fn lookup_unit_from_path(path: &str) -> (r: Option<String>)
    ensures
        r matches Some(u) ==> lookup_unit_spec(path@) == Some(u@),
        r is None ==> lookup_unit_spec(path@) is None,
{
    let pieces = split_char(path, '/');
    let segs = drop_empty(&pieces);
    let ghost g = nonempty(split(path@, '/'));
    assert(views(segs@) == g);
    let n = segs.len();
    if n < 2 || n > 3 {
        return None;
    }
    proof {
        assert(views(segs@)[0] == segs@[0]@);
        assert(views(segs@)[1] == segs@[1]@);
    }
    if !str_eq(segs[0].as_str(), "github-package-update") {
        return None;
    }
    if n == 3 {
        proof {
            assert(views(segs@)[2] == segs@[2]@);
        }
        if !str_eq(segs[2].as_str(), "redeploy") {
            return None;
        }
    }
    Some(concat(segs[1].as_str(), ".service"))
}

/// `s` with `c` removed from both ends (`str::trim_matches` for a char).
pub open spec fn trim_matches_char(s: Seq<char>, c: char) -> Seq<char> {
    trim_end_char(trim_start_char(s, c), c)
}

/// How a raw unit identifier resolves: a trimmed `.service` name must pass
/// the unit-name rule; anything else is read as a webhook slug.
pub open spec fn resolve_unit_spec(raw: Seq<char>) -> Option<Seq<char>> {
    let t = trim_matches_char(trim(raw), '/');
    if t.len() == 0 {
        None
    } else if ends_with(t, ".service"@) {
        if unit_name_error(t) is None {
            Some(t)
        } else {
            None
        }
    } else {
        let slug = if starts_with(t, route_prefix()) {
            t
        } else {
            route_prefix() + "/"@ + t
        };
        match lookup_unit_spec("/"@ + slug) {
            Some(u) => if unit_name_error(u) is None {
                Some(u)
            } else {
                None
            },
            None => None,
        }
    }
}

/// The valid unit name an identifier resolves to: a `.service` name as it
/// is, any other name through its webhook route.
pub fn resolve_unit_identifier(raw: &str) -> (r: Option<String>)
    ensures
        r matches Some(u) ==> resolve_unit_spec(raw@) == Some(u@),
        r is None ==> resolve_unit_spec(raw@) is None,
{
    let t0 = trim_str(raw);
    let t1 = trim_start_matches_char(t0, '/');
    let t = trim_end_matches_char(t1, '/');
    if t.unicode_len() == 0 {
        return None;
    }
    if str_ends_with(t, ".service") {
        return match validate_systemd_unit_name(t) {
            Ok(()) => Some(owned(t)),
            Err(_) => None,
        };
    }
    let slug = if str_starts_with(t, "github-package-update") {
        owned(t)
    } else {
        let p = concat("github-package-update", "/");
        concat(p.as_str(), t)
    };
    let synthetic = concat("/", slug.as_str());
    match lookup_unit_from_path(synthetic.as_str()) {
        Some(unit) => match validate_systemd_unit_name(unit.as_str()) {
            Ok(()) => Some(unit),
            Err(_) => None,
        },
        None => None,
    }
}

/// Whether two image references name the same image, ignoring surrounding
/// whitespace.
pub open spec fn images_match_spec(left: Seq<char>, right: Seq<char>) -> bool {
    trim(left) == trim(right)
}

/// Whether two image references name the same image, ignoring
/// surrounding whitespace.
pub fn images_match(left: &str, right: &str) -> (r: bool)
    ensures
        r == images_match_spec(left@, right@),
{
    str_eq(trim_str(left), trim_str(right))
}

/// Image matching is reflexive and symmetric.
pub proof fn lemma_images_match_equivalence(a: Seq<char>, b: Seq<char>)
    ensures
        images_match_spec(a, a),
        images_match_spec(a, b) == images_match_spec(b, a),
{
}

/// The arguments of the transient `systemd-run` invocation for a task.
pub open spec fn systemd_run_args_spec(unit_name: Seq<char>, exe: Seq<char>, task_id: Seq<char>) -> Seq<
    Seq<char>,
> {
    seq![
        "--user"@,
        "--collect"@,
        "--quiet"@,
        "--unit="@ + unit_name,
        exe,
        "--run-task"@,
        task_id,
    ]
}

/// The `systemd-run` arguments that start a task in its own transient unit.
pub fn build_systemd_run_args(unit_name: &str, exe: &str, task_id: &str) -> (r: Vec<String>)
    ensures
        views(r@) == systemd_run_args_spec(unit_name@, exe@, task_id@),
{
    let mut out: Vec<String> = Vec::new();
    proof {
        assert(views(out@) =~= Seq::<Seq<char>>::empty());
    }
    push_str_owned(&mut out, "--user");
    push_str_owned(&mut out, "--collect");
    push_str_owned(&mut out, "--quiet");
    let unit_arg = concat("--unit=", unit_name);
    push_str_owned(&mut out, unit_arg.as_str());
    push_str_owned(&mut out, exe);
    push_str_owned(&mut out, "--run-task");
    push_str_owned(&mut out, task_id);
    proof {
        assert(views(out@) =~= systemd_run_args_spec(unit_name@, exe@, task_id@));
    }
    out
}


/// How one character of an image reference appears in its key.
pub open spec fn key_char(c: char) -> char {
    if is_alnum(c) {
        ascii_lower(c)
    } else if c == '.' || c == '-' || c == '_' {
        c
    } else {
        '_'
    }
}

/// Characters that may appear in an image key.
pub open spec fn is_key_char(c: char) -> bool {
    ('a' <= c && c <= 'z') || ('0' <= c && c <= '9') || c == '.' || c == '-' || c == '_'
}

/// The bucket key of an image reference: lowercase ASCII letters and digits,
/// `.`, `-` and `_` kept, every other character turned into `_`, then `_`
/// trimmed from both ends; `default` when nothing is left.
pub open spec fn image_key_spec(image: Seq<char>) -> Seq<char> {
    let t = trim_matches_char(image.map_values(|c: char| key_char(c)), '_');
    if t.len() == 0 {
        "default"@
    } else {
        t
    }
}

/// An image reference turned into a lock and rate-limit key: safe
/// characters only, no `_` at either end.
pub fn sanitize_image_key(image: &str) -> (r: String)
    ensures
        r@ == image_key_spec(image@),
{
    let n = image.unicode_len();
    let mut key = String::new();
    let mut i: usize = 0;
    while i < n
        invariant
            i <= n,
            n == image@.len(),
            key@ == image@.take(i as int).map_values(|c: char| key_char(c)),
        decreases n - i,
    {
        let ch = image.get_char(i);
        let mapped = if char_is_alnum(ch) {
            char_ascii_lower(ch)
        } else if ch == '.' || ch == '-' || ch == '_' {
            ch
        } else {
            '_'
        };
        push_char(&mut key, mapped);
        proof {
            assert(image@.take(i + 1).map_values(|c: char| key_char(c)) =~= image@.take(
                i as int,
            ).map_values(|c: char| key_char(c)).push(mapped));
        }
        i = i + 1;
    }
    proof {
        assert(image@.take(n as int) =~= image@);
    }
    let t1 = trim_start_matches_char(key.as_str(), '_');
    let t = trim_end_matches_char(t1, '_');
    if t.unicode_len() == 0 {
        String::from_str("default")
    } else {
        owned(t)
    }
}

/// `trim_start_char` leaves a suffix that does not begin with `c`.
proof fn lemma_trim_start_char_suffix(s: Seq<char>, c: char)
    ensures
        trim_start_char(s, c).len() <= s.len(),
        trim_start_char(s, c) == s.skip(s.len() - trim_start_char(s, c).len()),
        trim_start_char(s, c).len() > 0 ==> trim_start_char(s, c)[0] != c,
    decreases s.len(),
{
    if s.len() > 0 && s[0] == c {
        lemma_trim_start_char_suffix(s.drop_first(), c);
        let r = trim_start_char(s.drop_first(), c);
        assert(s.drop_first().skip(s.drop_first().len() - r.len()) =~= s.skip(s.len() - r.len()));
    } else {
        assert(s.skip(0) =~= s);
    }
}

/// `trim_end_char` leaves a prefix that does not end with `c`.
proof fn lemma_trim_end_char_prefix(s: Seq<char>, c: char)
    ensures
        trim_end_char(s, c).len() <= s.len(),
        trim_end_char(s, c) == s.take(trim_end_char(s, c).len() as int),
        trim_end_char(s, c).len() > 0 ==> trim_end_char(s, c).last() != c,
    decreases s.len(),
{
    if s.len() > 0 && s.last() == c {
        lemma_trim_end_char_prefix(s.drop_last(), c);
        let r = trim_end_char(s.drop_last(), c);
        assert(s.drop_last().take(r.len() as int) =~= s.take(r.len() as int));
    } else {
        assert(s.take(s.len() as int) =~= s);
    }
}

/// An image key is non-empty, made of key characters, and neither begins nor
/// ends with `_`.
pub proof fn lemma_image_key_shape(image: Seq<char>)
    ensures
        image_key_spec(image).len() > 0,
        forall|i: int|
            0 <= i < image_key_spec(image).len() ==> is_key_char(#[trigger] image_key_spec(image)[i]),
        image_key_spec(image)[0] != '_',
        image_key_spec(image).last() != '_',
{
    let m = image.map_values(|c: char| key_char(c));
    assert forall|i: int| 0 <= i < m.len() implies is_key_char(#[trigger] m[i]) by {
        assert(m[i] == key_char(image[i]));
    }
    let u = trim_start_char(m, '_');
    lemma_trim_start_char_suffix(m, '_');
    assert forall|i: int| 0 <= i < u.len() implies is_key_char(#[trigger] u[i]) by {
        assert(u[i] == m[m.len() - u.len() + i]);
    }
    let t = trim_end_char(u, '_');
    lemma_trim_end_char_prefix(u, '_');
    assert forall|i: int| 0 <= i < t.len() implies is_key_char(#[trigger] t[i]) by {
        assert(t[i] == u[i]);
    }
    if t.len() == 0 {
        reveal_strlit("default");
    } else {
        assert(t[0] == u[0]);
    }
}

/// Sanitising a key gives the same key back: `image_key_spec` is idempotent.
pub proof fn lemma_image_key_idempotent(image: Seq<char>)
    ensures
        image_key_spec(image_key_spec(image)) == image_key_spec(image),
{
    let k = image_key_spec(image);
    lemma_image_key_shape(image);
    let m = k.map_values(|c: char| key_char(c));
    assert(m =~= k) by {
        assert forall|i: int| 0 <= i < k.len() implies m[i] == k[i] by {
            assert(is_key_char(k[i]));
        }
    }
    assert(trim_start_char(k, '_') == k);
    assert(trim_end_char(k, '_') == k);
}

/// The units with repeats removed, each kept where it first occurs.
pub open spec fn dedup(s: Seq<Seq<char>>) -> Seq<Seq<char>>
    decreases s.len(),
{
    if s.len() == 0 {
        Seq::<Seq<char>>::empty()
    } else {
        let d = dedup(s.drop_last());
        if d.contains(s.last()) {
            d
        } else {
            d.push(s.last())
        }
    }
}

/// No value occurs twice in `s`.
pub open spec fn no_repeats(s: Seq<Seq<char>>) -> bool {
    forall|i: int, j: int| 0 <= i < j < s.len() ==> s[i] != s[j]
}

/// `dedup` keeps exactly the values of its input, each once.
pub proof fn lemma_dedup(s: Seq<Seq<char>>)
    ensures
        no_repeats(dedup(s)),
        forall|x: Seq<char>| dedup(s).contains(x) <==> s.contains(x),
        dedup(s).len() <= s.len(),
    decreases s.len(),
{
    if s.len() > 0 {
        let p = s.drop_last();
        lemma_dedup(p);
        let d = dedup(p);
        assert forall|x: Seq<char>| dedup(s).contains(x) <==> s.contains(x) by {
            if s.contains(x) && x != s.last() {
                let k = choose|k: int| 0 <= k < s.len() && s[k] == x;
                assert(p[k] == x);
            }
            if p.contains(x) {
                let k = choose|k: int| 0 <= k < p.len() && p[k] == x;
                assert(s[k] == x);
            }
            if !d.contains(s.last()) {
                assert(d.push(s.last())[d.len() as int] == s.last());
                if d.contains(x) {
                    let k = choose|k: int| 0 <= k < d.len() && d[k] == x;
                    assert(d.push(s.last())[k] == x);
                }
                if d.push(s.last()).contains(x) && x != s.last() {
                    let k = choose|k: int| 0 <= k < d.len() + 1 && d.push(s.last())[k] == x;
                    assert(d[k] == x);
                }
            }
            assert(s[s.len() - 1] == s.last());
        }
    }
}

/// Removing repeats twice changes nothing more: a sequence without repeats
/// is its own `dedup`.
pub proof fn lemma_dedup_no_repeats(s: Seq<Seq<char>>)
    requires
        no_repeats(s),
    ensures
        dedup(s) == s,
    decreases s.len(),
{
    if s.len() > 0 {
        let p = s.drop_last();
        assert(no_repeats(p)) by {
            assert forall|i: int, j: int| 0 <= i < j < p.len() implies p[i] != p[j] by {
                assert(p[i] == s[i] && p[j] == s[j]);
            }
        }
        lemma_dedup_no_repeats(p);
        lemma_dedup(p);
        if p.contains(s.last()) {
            let k = choose|k: int| 0 <= k < p.len() && p[k] == s.last();
            assert(s[k] == s[s.len() - 1]);
        }
        assert(p.push(s.last()) =~= s);
    }
}

/// Whether `v` holds a string equal to `s`.
pub fn contains_string(v: &Vec<String>, s: &str) -> (r: bool)
    ensures
        r == views(v@).contains(s@),
{
    let mut i: usize = 0;
    while i < v.len()
        invariant
            i <= v@.len(),
            forall|k: int| 0 <= k < i ==> views(v@)[k] != s@,
        decreases v@.len() - i,
    {
        if str_eq(v[i].as_str(), s) {
            proof {
                assert(views(v@)[i as int] == s@);
            }
            return true;
        }
        i = i + 1;
    }
    false
}

/// The units in order of first occurrence, each once (the order in which
/// a batch of units is triggered).
pub fn dedup_units(units: &[String]) -> (r: Vec<String>)
    ensures
        views(r@) == dedup(views(units@)),
{
    let mut out: Vec<String> = Vec::new();
    let mut i: usize = 0;
    proof {
        assert(views(units@).take(0) =~= Seq::<Seq<char>>::empty());
        assert(views(out@) =~= Seq::<Seq<char>>::empty());
    }
    while i < units.len()
        invariant
            i <= units@.len(),
            views(out@) == dedup(views(units@).take(i as int)),
        decreases units@.len() - i,
    {
        proof {
            assert(views(units@).take(i + 1).drop_last() =~= views(units@).take(i as int));
            assert(views(units@).take(i + 1).last() == units@[i as int]@);
        }
        if !contains_string(&out, units[i].as_str()) {
            push_str_owned(&mut out, units[i].as_str());
        }
        i = i + 1;
    }
    proof {
        assert(views(units@).take(units@.len() as int) =~= views(units@));
    }
    out
}


/// The first `n` characters of `s` (all of `s` when it is shorter).
pub open spec fn take_chars(s: Seq<char>, n: nat) -> Seq<char> {
    if s.len() <= n {
        s
    } else {
        s.take(n as int)
    }
}

/// An owned copy of the first `n` characters of `s`.
pub fn take_chars_str(s: &str, n: usize) -> (r: String)
    ensures
        r@ == take_chars(s@, n as nat),
{
    let len = s.unicode_len();
    if len <= n {
        owned(s)
    } else {
        let t = s.substring_char(0, n);
        proof {
            assert(t@ =~= s@.take(n as int));
        }
        owned(t)
    }
}

/// The longest error summary kept for a unit, in characters.
pub open spec fn unit_error_summary_max() -> nat {
    1024
}

/// `truncate_unit_error_summary`: at most 1024 characters of `text`.
pub fn truncate_unit_error_summary(text: &str) -> (r: String)
    ensures
        r@ == take_chars(text@, unit_error_summary_max()),
{
    take_chars_str(text, 1024)
}

/// How an exit status is reported: its code, or `signal` when the process
/// was ended by a signal.
pub open spec fn exit_code_text(code: Option<i32>) -> Seq<char> {
    match code {
        Some(c) => int_decimal(c as int),
        None => "signal"@,
    }
}

/// An exit code as text, `signal` when there is none.
pub fn exit_code_string(code: Option<i32>) -> (r: String)
    ensures
        r@ == exit_code_text(code),
{
    match code {
        Some(c) => i64_to_string(c as i64),
        None => String::from_str("signal"),
    }
}

/// The detail line of a failed command: `exit=<code>`, then ` stderr=<text>`
/// when it wrote to stderr.
pub open spec fn failure_detail(exit_code: Option<i32>, stderr: Seq<char>) -> Seq<char> {
    if stderr.len() > 0 {
        "exit="@ + exit_code_text(exit_code) + " stderr="@ + stderr
    } else {
        "exit="@ + exit_code_text(exit_code)
    }
}

/// Builds `failure_detail` for a command result.
pub fn command_failure_detail(result: &CommandExecResult) -> (r: String)
    ensures
        r@ == failure_detail(result.exit_code, result.stderr@),
{
    let code = exit_code_string(result.exit_code);
    let detail = concat("exit=", code.as_str());
    if result.stderr.unicode_len() > 0 {
        let with_label = concat(detail.as_str(), " stderr=");
        concat(with_label.as_str(), result.stderr.as_str())
    } else {
        detail
    }
}

/// A text, or nothing when it is empty.
pub open spec fn nonempty_text(s: Seq<char>) -> Option<Seq<char>> {
    if s.len() == 0 {
        None
    } else {
        Some(s)
    }
}

/// `unit_error_summary_from_command_result`: nothing for a success, else the
/// failure detail cut to the summary length.
pub fn unit_error_summary_from_command_result(result: &CommandExecResult) -> (r: Option<String>)
    ensures
        result.exit_code == Some(0i32) ==> r is None,
        result.exit_code != Some(0i32) ==> opt_view(r) == nonempty_text(
            take_chars(failure_detail(result.exit_code, result.stderr@), unit_error_summary_max()),
        ),
{
    if result.success() {
        return None;
    }
    let detail = command_failure_detail(result);
    let cut = truncate_unit_error_summary(detail.as_str());
    if cut.unicode_len() == 0 {
        None
    } else {
        Some(cut)
    }
}

/// `unit_error_summary_from_exec_error`: the trimmed error cut to the summary
/// length, or nothing when that is empty.
pub fn unit_error_summary_from_exec_error(err: &str) -> (r: Option<String>)
    ensures
        opt_view(r) == nonempty_text(take_chars(trim(err@), unit_error_summary_max())),
{
    let cut = truncate_unit_error_summary(trim_str(err));
    if cut.unicode_len() == 0 {
        None
    } else {
        Some(cut)
    }
}

/// The outcome of an action on one unit.
#[derive(Clone, Debug)]
pub struct UnitActionResult {
    pub unit: String,
    pub status: String,
    pub message: Option<String>,
}

/// `unit_action_result_from_operation`: `triggered` for a successful command,
/// `failed` with the cut failure summary for a failed one, `error` with the
/// cut error text when the command could not run.
pub fn unit_action_result_from_operation(
    unit: &str,
    outcome: &Result<CommandExecResult, String>,
) -> (r: UnitActionResult)
    ensures
        r.unit@ == unit@,
        outcome matches Ok(res) && res.exit_code == Some(0i32) ==> r.status@ == "triggered"@
            && r.message is None,
        (match outcome {
            Ok(res) => res.exit_code != Some(0i32) ==> r.status@ == "failed"@ && opt_view(
                r.message,
            ) == nonempty_text(
                take_chars(failure_detail(res.exit_code, res.stderr@), unit_error_summary_max()),
            ),
            Err(_) => true,
        }),
        outcome matches Err(e) ==> r.status@ == "error"@ && opt_view(r.message) == Some(
            take_chars(e@, unit_error_summary_max()),
        ),
{
    match outcome {
        Ok(result) => {
            if result.success() {
                UnitActionResult {
                    unit: owned(unit),
                    status: String::from_str("triggered"),
                    message: None,
                }
            } else {
                let detail = unit_error_summary_from_command_result(result);
                UnitActionResult {
                    unit: owned(unit),
                    status: String::from_str("failed"),
                    message: detail,
                }
            }
        },
        Err(err) => UnitActionResult {
            unit: owned(unit),
            status: String::from_str("error"),
            message: Some(truncate_unit_error_summary(err.as_str())),
        },
    }
}

/// The result recorded for a unit skipped by a dry run.
pub fn dry_run_unit_result(unit: &str) -> (r: UnitActionResult)
    ensures
        r.unit@ == unit@,
        r.status@ == "dry-run"@,
        opt_view(r.message) == Some("skipped by dry run"@),
{
    UnitActionResult {
        unit: owned(unit),
        status: String::from_str("dry-run"),
        message: Some(String::from_str("skipped by dry run")),
    }
}

/// The result of triggering one unit: `triggered` on success, `failed` with
/// the full failure detail, or `error` with the error text.
pub fn trigger_unit_result(unit: &str, outcome: &Result<CommandExecResult, String>) -> (r:
    UnitActionResult)
    ensures
        r.unit@ == unit@,
        outcome matches Ok(res) && res.exit_code == Some(0i32) ==> r.status@ == "triggered"@
            && r.message is None,
        (match outcome {
            Ok(res) => res.exit_code != Some(0i32) ==> r.status@ == "failed"@ && opt_view(
                r.message,
            ) == Some(failure_detail(res.exit_code, res.stderr@)),
            Err(_) => true,
        }),
        outcome matches Err(e) ==> r.status@ == "error"@ && opt_view(r.message) == Some(e@),
{
    match outcome {
        Ok(result) => {
            if result.success() {
                UnitActionResult {
                    unit: owned(unit),
                    status: String::from_str("triggered"),
                    message: None,
                }
            } else {
                UnitActionResult {
                    unit: owned(unit),
                    status: String::from_str("failed"),
                    message: Some(command_failure_detail(result)),
                }
            }
        },
        Err(err) => UnitActionResult {
            unit: owned(unit),
            status: String::from_str("error"),
            message: Some(owned(err.as_str())),
        },
    }
}

/// A status that counts as a unit action that went through.
pub open spec fn ok_status(s: Seq<char>) -> bool {
    s == "triggered"@ || s == "dry-run"@ || s == "pending"@
}

/// `all_units_ok`: every result is triggered, a dry run, or pending.
pub fn all_units_ok(results: &[UnitActionResult]) -> (r: bool)
    ensures
        r == (forall|i: int| 0 <= i < results@.len() ==> ok_status(#[trigger] results@[i].status@)),
{
    let mut i: usize = 0;
    while i < results.len()
        invariant
            i <= results@.len(),
            forall|k: int| 0 <= k < i ==> ok_status(#[trigger] results@[k].status@),
        decreases results@.len() - i,
    {
        let s = results[i].status.as_str();
        if !(str_eq(s, "triggered") || str_eq(s, "dry-run") || str_eq(s, "pending")) {
            return false;
        }
        i = i + 1;
    }
    true
}

/// What is asked of systemd for a unit.
#[derive(Clone, Copy, Debug, PartialEq, Eq, Structural)]
pub enum UnitOperationPurpose {
    Start,
    Restart,
}

/// The `systemctl` verb of a purpose.
pub open spec fn purpose_verb(p: UnitOperationPurpose) -> Seq<char> {
    match p {
        UnitOperationPurpose::Start => "start"@,
        UnitOperationPurpose::Restart => "restart"@,
    }
}

/// The systemd manager method of a purpose.
pub open spec fn purpose_method(p: UnitOperationPurpose) -> Seq<char> {
    match p {
        UnitOperationPurpose::Start => "StartUnit"@,
        UnitOperationPurpose::Restart => "RestartUnit"@,
    }
}

impl UnitOperationPurpose {
    /// The `systemctl` verb.
    pub fn as_str(self) -> (r: &'static str)
        ensures
            r@ == purpose_verb(self),
    {
        match self {
            UnitOperationPurpose::Start => "start",
            UnitOperationPurpose::Restart => "restart",
        }
    }

    /// The systemd manager method.
    pub fn busctl_method(self) -> (r: &'static str)
        ensures
            r@ == purpose_method(self),
    {
        match self {
            UnitOperationPurpose::Start => "StartUnit",
            UnitOperationPurpose::Restart => "RestartUnit",
        }
    }
}

/// The purpose used to trigger a unit: the auto-update unit is started,
/// any other unit restarted.
pub fn trigger_purpose(unit: &str, auto_update_unit: &str) -> (r: UnitOperationPurpose)
    ensures
        r == (if unit@ == auto_update_unit@ {
            UnitOperationPurpose::Start
        } else {
            UnitOperationPurpose::Restart
        }),
{
    if str_eq(unit, auto_update_unit) {
        UnitOperationPurpose::Start
    } else {
        UnitOperationPurpose::Restart
    }
}

/// The `busctl --user` arguments that ask the systemd manager for `purpose`
/// on `unit`.
pub open spec fn busctl_unit_args_spec(purpose: UnitOperationPurpose, unit: Seq<char>) -> Seq<
    Seq<char>,
> {
    seq![
        "call"@,
        "org.freedesktop.systemd1"@,
        "/org/freedesktop/systemd1"@,
        "org.freedesktop.systemd1.Manager"@,
        purpose_method(purpose),
        "ss"@,
        unit,
        "replace"@,
    ]
}

/// Builds `busctl_unit_args_spec`.
pub fn busctl_unit_args(purpose: UnitOperationPurpose, unit: &str) -> (r: Vec<String>)
    ensures
        views(r@) == busctl_unit_args_spec(purpose, unit@),
{
    let mut out: Vec<String> = Vec::new();
    proof {
        assert(views(out@) =~= Seq::<Seq<char>>::empty());
    }
    push_str_owned(&mut out, "call");
    push_str_owned(&mut out, "org.freedesktop.systemd1");
    push_str_owned(&mut out, "/org/freedesktop/systemd1");
    push_str_owned(&mut out, "org.freedesktop.systemd1.Manager");
    push_str_owned(&mut out, purpose.busctl_method());
    push_str_owned(&mut out, "ss");
    push_str_owned(&mut out, unit);
    push_str_owned(&mut out, "replace");
    proof {
        assert(views(out@) =~= busctl_unit_args_spec(purpose, unit@));
    }
    out
}

/// The `systemctl --user` arguments for `purpose` on `unit`, the fallback
/// when the manager cannot be reached over D-Bus.
pub fn systemctl_unit_args(purpose: UnitOperationPurpose, unit: &str) -> (r: Vec<String>)
    ensures
        views(r@) == seq![purpose_verb(purpose), unit@],
{
    let mut out: Vec<String> = Vec::new();
    proof {
        assert(views(out@) =~= Seq::<Seq<char>>::empty());
    }
    push_str_owned(&mut out, purpose.as_str());
    push_str_owned(&mut out, unit);
    proof {
        assert(views(out@) =~= seq![purpose_verb(purpose), unit@]);
    }
    out
}

/// The command line recorded for a unit operation.
pub fn unit_operation_command(purpose: UnitOperationPurpose, unit: &str) -> (r: String)
    ensures
        r@ == "systemctl --user "@ + purpose_verb(purpose) + " "@ + unit@,
{
    let a = concat("systemctl --user ", purpose.as_str());
    let b = concat(a.as_str(), " ");
    concat(b.as_str(), unit)
}

/// The `busctl` command line recorded when the D-Bus path ran.
pub fn busctl_runner_command(purpose: UnitOperationPurpose, unit: &str) -> (r: String)
    ensures
        r@ == "busctl --user call org.freedesktop.systemd1 /org/freedesktop/systemd1 org.freedesktop.systemd1.Manager "@
            + purpose_method(purpose) + " ss "@ + unit@ + " replace"@,
{
    let a = concat(
        "busctl --user call org.freedesktop.systemd1 /org/freedesktop/systemd1 org.freedesktop.systemd1.Manager ",
        purpose.busctl_method(),
    );
    let b = concat(a.as_str(), " ss ");
    let c = concat(b.as_str(), unit);
    concat(c.as_str(), " replace")
}


/// How many of `s` equal `x`.
pub open spec fn count_eq(s: Seq<Seq<char>>, x: Seq<char>) -> nat
    decreases s.len(),
{
    if s.len() == 0 {
        0
    } else {
        count_eq(s.drop_last(), x) + if s.last() == x {
            1nat
        } else {
            0nat
        }
    }
}

/// Per-status counts of the units of a task.
#[derive(Clone, Copy, Debug, PartialEq, Eq, Structural)]
pub struct TaskSummaryCounts {
    pub total_units: usize,
    pub succeeded: usize,
    pub failed: usize,
    pub cancelled: usize,
    pub running: usize,
    pub pending: usize,
    pub skipped: usize,
}

/// The summary counts of unit statuses: the total, and how many have each
/// known status; other statuses are only in the total.
pub open spec fn summary_spec(statuses: Seq<Seq<char>>, c: TaskSummaryCounts) -> bool {
    &&& c.total_units == statuses.len()
    &&& c.succeeded == count_eq(statuses, "succeeded"@)
    &&& c.failed == count_eq(statuses, "failed"@)
    &&& c.cancelled == count_eq(statuses, "cancelled"@)
    &&& c.running == count_eq(statuses, "running"@)
    &&& c.pending == count_eq(statuses, "pending"@)
    &&& c.skipped == count_eq(statuses, "skipped"@)
}

/// The six status counts together never exceed the number of statuses.
pub open spec fn counted(statuses: Seq<Seq<char>>) -> nat {
    count_eq(statuses, "succeeded"@) + count_eq(statuses, "failed"@) + count_eq(
        statuses,
        "cancelled"@,
    ) + count_eq(statuses, "running"@) + count_eq(statuses, "pending"@) + count_eq(
        statuses,
        "skipped"@,
    )
}

/// A status is at most one of the six known ones, so the per-status counts
/// add up to no more than the total.
pub proof fn lemma_summary_within_total(statuses: Seq<Seq<char>>)
    ensures
        counted(statuses) <= statuses.len(),
    decreases statuses.len(),
{
    if statuses.len() > 0 {
        lemma_summary_within_total(statuses.drop_last());
        reveal_strlit("succeeded");
        reveal_strlit("failed");
        reveal_strlit("cancelled");
        reveal_strlit("running");
        reveal_strlit("pending");
        reveal_strlit("skipped");
        let x = statuses.last();
        if x == "succeeded"@ {
            assert(x[0] == 's' && x[1] == 'u');
        }
        if x == "skipped"@ {
            assert(x[0] == 's' && x[1] == 'k');
        }
        if x == "running"@ {
            assert(x[0] == 'r');
        }
        if x == "pending"@ {
            assert(x[0] == 'p');
        }
        if x == "failed"@ {
            assert(x[0] == 'f');
        }
        if x == "cancelled"@ {
            assert(x[0] == 'c');
        }
    }
}

/// The known task statuses are distinct.
proof fn lemma_statuses_distinct()
    ensures
        "succeeded"@ != "failed"@,
        "succeeded"@ != "cancelled"@,
        "succeeded"@ != "running"@,
        "succeeded"@ != "pending"@,
        "succeeded"@ != "skipped"@,
        "failed"@ != "cancelled"@,
        "failed"@ != "running"@,
        "failed"@ != "pending"@,
        "failed"@ != "skipped"@,
        "cancelled"@ != "running"@,
        "cancelled"@ != "pending"@,
        "cancelled"@ != "skipped"@,
        "running"@ != "pending"@,
        "running"@ != "skipped"@,
        "pending"@ != "skipped"@,
{
    reveal_strlit("succeeded");
    reveal_strlit("failed");
    reveal_strlit("cancelled");
    reveal_strlit("running");
    reveal_strlit("pending");
    reveal_strlit("skipped");
    assert("succeeded"@[0] == 's' && "failed"@[0] == 'f' && "cancelled"@[0] == 'c');
    assert("running"@[0] == 'r' && "pending"@[0] == 'p' && "skipped"@[0] == 's');
    assert("succeeded"@[1] == 'u' && "skipped"@[1] == 'k');
}

/// `summarize_task_units` over the statuses of the units.
pub fn summarize_task_units(statuses: &[String]) -> (r: TaskSummaryCounts)
    ensures
        summary_spec(views(statuses@), r),
{
    let ghost sv = views(statuses@);
    let mut c = TaskSummaryCounts {
        total_units: statuses.len(),
        succeeded: 0,
        failed: 0,
        cancelled: 0,
        running: 0,
        pending: 0,
        skipped: 0,
    };
    let mut i: usize = 0;
    proof {
        assert(sv.take(0) =~= Seq::<Seq<char>>::empty());
    }
    while i < statuses.len()
        invariant
            i <= statuses@.len(),
            sv == views(statuses@),
            c.total_units == statuses@.len(),
            c.succeeded == count_eq(sv.take(i as int), "succeeded"@),
            c.failed == count_eq(sv.take(i as int), "failed"@),
            c.cancelled == count_eq(sv.take(i as int), "cancelled"@),
            c.running == count_eq(sv.take(i as int), "running"@),
            c.pending == count_eq(sv.take(i as int), "pending"@),
            c.skipped == count_eq(sv.take(i as int), "skipped"@),
            counted(sv.take(i as int)) <= i,
        decreases statuses@.len() - i,
    {
        proof {
            assert(sv.take(i + 1).drop_last() =~= sv.take(i as int));
            assert(sv.take(i + 1).last() == statuses@[i as int]@);
            lemma_summary_within_total(sv.take(i + 1));
            lemma_statuses_distinct();
        }
        let st = statuses[i].as_str();
        if str_eq(st, "succeeded") {
            c.succeeded = c.succeeded + 1;
        } else if str_eq(st, "failed") {
            c.failed = c.failed + 1;
        } else if str_eq(st, "cancelled") {
            c.cancelled = c.cancelled + 1;
        } else if str_eq(st, "running") {
            c.running = c.running + 1;
        } else if str_eq(st, "pending") {
            c.pending = c.pending + 1;
        } else if str_eq(st, "skipped") {
            c.skipped = c.skipped + 1;
        }
        i = i + 1;
    }
    proof {
        assert(sv.take(statuses@.len() as int) =~= sv);
    }
    c
}

/// The transient unit a webhook task runs in: `webhook-task-` and the key of
/// its delivery id.
pub open spec fn runner_unit_spec(delivery: Seq<char>) -> Seq<char> {
    "webhook-task-"@ + image_key_spec(delivery)
}

/// The runner unit of a webhook task, from its delivery id.
pub fn runner_unit_for_delivery(delivery: &str) -> (r: String)
    ensures
        r@ == runner_unit_spec(delivery@),
{
    let key = sanitize_image_key(delivery);
    concat("webhook-task-", key.as_str())
}

/// The runner unit of a task once the task's metadata is read: only
/// webhook tasks with a delivery id run in a named unit.
pub fn task_runner_unit_for_task(kind: &str, delivery: Option<&str>) -> (r: Option<String>)
    ensures
        r matches Some(u) ==> kind@ == "github-webhook"@ && (delivery matches Some(d) && u@
            == runner_unit_spec(d@)),
        r is None ==> kind@ != "github-webhook"@ || delivery is None,
{
    if !str_eq(kind, "github-webhook") {
        return None;
    }
    match delivery {
        Some(d) => Some(runner_unit_for_delivery(d)),
        None => None,
    }
}


/// The runner unit of a stored task from its kind and its metadata as read:
/// `None` when the task has none, else the metadata's parse result
/// (`Ok(Some(delivery))` for webhook metadata, `Ok(None)` for any other
/// kind of metadata, `Err` with the parser's message when it does not
/// parse). Only webhook tasks run in a named unit; unreadable metadata of a
/// webhook task is an error.
pub open spec fn runner_from_meta_spec(kind: Seq<char>, meta: Option<Result<Option<Seq<char>>, Seq<char>>>) -> Result<Option<Seq<char>>, Seq<char>> {
    if kind != "github-webhook"@ {
        Ok(None)
    } else {
        match meta {
            None => Ok(None),
            Some(Err(e)) => Err("invalid task meta for kind=github-webhook: "@ + e),
            Some(Ok(Some(d))) => Ok(Some(runner_unit_spec(d))),
            Some(Ok(None)) => Ok(None),
        }
    }
}

/// The view of parsed task metadata.
pub open spec fn meta_read_view(meta: &Option<Result<Option<String>, String>>) -> Option<Result<Option<Seq<char>>, Seq<char>>> {
    match meta {
        None => None,
        Some(Err(e)) => Some(Err(e@)),
        Some(Ok(d)) => Some(Ok(opt_view(*d))),
    }
}

/// The runner unit of a task on the task's kind and parsed metadata.
pub fn task_runner_unit_from_meta(kind: &str, meta: &Option<Result<Option<String>, String>>) -> (r: Result<Option<String>, String>)
    ensures
        match r {
            Ok(u) => runner_from_meta_spec(kind@, meta_read_view(meta)) == Ok::<Option<Seq<char>>, Seq<char>>(opt_view(u)),
            Err(e) => runner_from_meta_spec(kind@, meta_read_view(meta)) == Err::<Option<Seq<char>>, Seq<char>>(e@),
        },
{
    if !str_eq(kind, "github-webhook") {
        return Ok(None);
    }
    match meta {
        None => Ok(None),
        Some(Err(e)) => Err(concat("invalid task meta for kind=github-webhook: ", e.as_str())),
        Some(Ok(Some(d))) => Ok(Some(runner_unit_for_delivery(d.as_str()))),
        Some(Ok(None)) => Ok(None),
    }
}

/// The units a manual trigger targets: every managed unit when asked for all
/// or when none is named; else the named units that resolve.
pub open spec fn trigger_targets_spec(all: bool, requested: Seq<Seq<char>>, managed: Seq<Seq<char>>) -> Seq<Seq<char>> {
    if all || requested.len() == 0 {
        managed
    } else {
        crate::config::resolved_units(requested)
    }
}

/// Picks the units of a manual trigger request.
pub fn trigger_targets(all: bool, requested: &[String], managed: &[String]) -> (r: Vec<String>)
    ensures
        views(r@) == trigger_targets_spec(all, views(requested@), views(managed@)),
{
    let mut out: Vec<String> = Vec::new();
    proof {
        assert(views(out@) =~= Seq::<Seq<char>>::empty());
    }
    if all || requested.len() == 0 {
        crate::text::extend_strings(&mut out, managed);
        proof {
            assert(Seq::<Seq<char>>::empty() + views(managed@) =~= views(managed@));
        }
        return out;
    }
    let ghost rv = views(requested@);
    let mut i: usize = 0;
    proof {
        assert(rv.take(0) =~= Seq::<Seq<char>>::empty());
    }
    while i < requested.len()
        invariant
            i <= requested@.len(),
            rv == views(requested@),
            views(out@) == crate::config::resolved_units(rv.take(i as int)),
        decreases requested@.len() - i,
    {
        proof {
            assert(rv.take(i + 1).drop_last() =~= rv.take(i as int));
            assert(rv.take(i + 1).last() == requested@[i as int]@);
        }
        match resolve_unit_identifier(requested[i].as_str()) {
            Some(u) => push_str_owned(&mut out, u.as_str()),
            None => {},
        }
        i = i + 1;
    }
    proof {
        assert(rv.take(requested@.len() as int) =~= rv);
    }
    out
}

/// The results reported for units handed to a task: each pending.
pub fn pending_results(units: &[String]) -> (r: Vec<UnitActionResult>)
    ensures
        r@.len() == units@.len(),
        forall|i: int|
            0 <= i < units@.len() ==> (#[trigger] r@[i]).unit@ == units@[i]@ && r@[i].status@
                == "pending"@ && opt_view(r@[i].message) == Some("scheduled via task"@),
{
    let mut out: Vec<UnitActionResult> = Vec::new();
    let mut i: usize = 0;
    while i < units.len()
        invariant
            i <= units@.len(),
            out@.len() == i,
            forall|k: int|
                0 <= k < i ==> (#[trigger] out@[k]).unit@ == units@[k]@ && out@[k].status@
                    == "pending"@ && opt_view(out@[k].message) == Some("scheduled via task"@),
        decreases units@.len() - i,
    {
        out.push(
            UnitActionResult {
                unit: owned(units[i].as_str()),
                status: String::from_str("pending"),
                message: Some(String::from_str("scheduled via task")),
            },
        );
        i = i + 1;
    }
    out
}

/// The results of a dry-run trigger: each distinct unit, in order, skipped.
pub fn dry_run_results(units: &[String]) -> (r: Vec<UnitActionResult>)
    ensures
        r@.len() == dedup(views(units@)).len(),
        forall|i: int|
            0 <= i < r@.len() ==> (#[trigger] r@[i]).unit@ == dedup(views(units@))[i]
                && r@[i].status@ == "dry-run"@ && opt_view(r@[i].message) == Some(
                "skipped by dry run"@,
            ),
{
    let distinct = dedup_units(units);
    let mut out: Vec<UnitActionResult> = Vec::new();
    let mut i: usize = 0;
    while i < distinct.len()
        invariant
            i <= distinct@.len(),
            views(distinct@) == dedup(views(units@)),
            out@.len() == i,
            forall|k: int|
                0 <= k < i ==> (#[trigger] out@[k]).unit@ == views(distinct@)[k] && out@[k].status@
                    == "dry-run"@ && opt_view(out@[k].message) == Some("skipped by dry run"@),
        decreases distinct@.len() - i,
    {
        out.push(dry_run_unit_result(distinct[i].as_str()));
        i = i + 1;
    }
    out
}

/// `s` without the entries equal to `x`, in order.
pub open spec fn without(s: Seq<Seq<char>>, x: Seq<char>) -> Seq<Seq<char>>
    decreases s.len(),
{
    if s.len() == 0 {
        Seq::<Seq<char>>::empty()
    } else if s.last() == x {
        without(s.drop_last(), x)
    } else {
        without(s.drop_last(), x).push(s.last())
    }
}

/// The units a manual deploy considers: the managed units other than the
/// auto-update unit, each once.
pub open spec fn deploy_candidates_spec(managed: Seq<Seq<char>>, auto_unit: Seq<char>) -> Seq<Seq<char>> {
    dedup(without(managed, auto_unit))
}

/// The units other than `auto_unit`, in order.
fn without_unit(managed: &[String], auto_unit: &str) -> (r: Vec<String>)
    ensures
        views(r@) == without(views(managed@), auto_unit@),
{
    let ghost mv = views(managed@);
    let mut out: Vec<String> = Vec::new();
    let mut i: usize = 0;
    proof {
        assert(mv.take(0) =~= Seq::<Seq<char>>::empty());
        assert(views(out@) =~= Seq::<Seq<char>>::empty());
    }
    while i < managed.len()
        invariant
            i <= managed@.len(),
            mv == views(managed@),
            views(out@) == without(mv.take(i as int), auto_unit@),
        decreases managed@.len() - i,
    {
        proof {
            assert(mv.take(i + 1).drop_last() =~= mv.take(i as int));
            assert(mv.take(i + 1).last() == managed@[i as int]@);
        }
        if !str_eq(managed[i].as_str(), auto_unit) {
            push_str_owned(&mut out, managed[i].as_str());
        }
        i = i + 1;
    }
    proof {
        assert(mv.take(managed@.len() as int) =~= mv);
    }
    out
}

/// The units a manual deploy looks up images for.
pub fn deploy_candidates(managed: &[String], auto_unit: &str) -> (r: Vec<String>)
    ensures
        views(r@) == deploy_candidates_spec(views(managed@), auto_unit@),
{
    let others = without_unit(managed, auto_unit);
    dedup_units(others.as_slice())
}


/// The units with a configured image, paired with it, in order.
pub open spec fn deploy_pairs(c: Seq<Seq<char>>, im: Seq<Option<Seq<char>>>) -> Seq<(Seq<char>, Seq<char>)>
    decreases c.len(),
{
    if c.len() == 0 || im.len() == 0 {
        Seq::<(Seq<char>, Seq<char>)>::empty()
    } else {
        match im.last() {
            Some(img) => deploy_pairs(c.drop_last(), im.drop_last()).push((c.last(), img)),
            None => deploy_pairs(c.drop_last(), im.drop_last()),
        }
    }
}

/// The units without a configured image, in order.
pub open spec fn image_missing(c: Seq<Seq<char>>, im: Seq<Option<Seq<char>>>) -> Seq<Seq<char>>
    decreases c.len(),
{
    if c.len() == 0 || im.len() == 0 {
        Seq::<Seq<char>>::empty()
    } else {
        match im.last() {
            Some(_) => image_missing(c.drop_last(), im.drop_last()),
            None => image_missing(c.drop_last(), im.drop_last()).push(c.last()),
        }
    }
}

/// The views of optional owned strings.
pub open spec fn opt_views(v: Seq<Option<String>>) -> Seq<Option<Seq<char>>> {
    v.map_values(|o: Option<String>| opt_view(o))
}

/// The views of unit/image pairs.
pub open spec fn pair_views2(v: Seq<(String, String)>) -> Seq<(Seq<char>, Seq<char>)> {
    v.map_values(|p: (String, String)| (p.0@, p.1@))
}

/// A manual deploy: units to pull and restart, and units skipped.
pub struct DeployPlan {
    pub deploying: Vec<(String, String)>,
    pub skipped: Vec<UnitActionResult>,
}

/// Plans a manual deploy from the candidate units and their configured
/// images: the auto-update unit is always skipped first, then each unit
/// without an image; the others are deployed with their image.
pub fn deploy_plan(auto_unit: &str, candidates: &[String], images: &[Option<String>]) -> (r: DeployPlan)
    requires
        candidates@.len() == images@.len(),
    ensures
        pair_views2(r.deploying@) == deploy_pairs(views(candidates@), opt_views(images@)),
        r.skipped@.len() == 1 + image_missing(views(candidates@), opt_views(images@)).len(),
        r.skipped@[0].unit@ == auto_unit@,
        r.skipped@[0].status@ == "skipped"@,
        opt_view(r.skipped@[0].message) == Some("auto-update-unit"@),
        forall|k: int|
            1 <= k < r.skipped@.len() ==> (#[trigger] r.skipped@[k]).unit@ == image_missing(
                views(candidates@),
                opt_views(images@),
            )[k - 1] && r.skipped@[k].status@ == "skipped"@ && opt_view(r.skipped@[k].message)
                == Some("image-missing"@),
{
    let ghost cv = views(candidates@);
    let ghost iv = opt_views(images@);
    let mut deploying: Vec<(String, String)> = Vec::new();
    let mut skipped: Vec<UnitActionResult> = Vec::new();
    skipped.push(
        UnitActionResult {
            unit: owned(auto_unit),
            status: String::from_str("skipped"),
            message: Some(String::from_str("auto-update-unit")),
        },
    );
    let mut i: usize = 0;
    proof {
        assert(cv.take(0) =~= Seq::<Seq<char>>::empty());
        assert(iv.take(0) =~= Seq::<Option<Seq<char>>>::empty());
        assert(pair_views2(deploying@) =~= Seq::<(Seq<char>, Seq<char>)>::empty());
    }
    while i < candidates.len()
        invariant
            i <= candidates@.len(),
            candidates@.len() == images@.len(),
            cv == views(candidates@),
            iv == opt_views(images@),
            pair_views2(deploying@) == deploy_pairs(cv.take(i as int), iv.take(i as int)),
            skipped@.len() == 1 + image_missing(cv.take(i as int), iv.take(i as int)).len(),
            skipped@[0].unit@ == auto_unit@,
            skipped@[0].status@ == "skipped"@,
            opt_view(skipped@[0].message) == Some("auto-update-unit"@),
            forall|k: int|
                1 <= k < skipped@.len() ==> (#[trigger] skipped@[k]).unit@ == image_missing(
                    cv.take(i as int),
                    iv.take(i as int),
                )[k - 1] && skipped@[k].status@ == "skipped"@ && opt_view(skipped@[k].message)
                    == Some("image-missing"@),
        decreases candidates@.len() - i,
    {
        proof {
            assert(cv.take(i + 1).drop_last() =~= cv.take(i as int));
            assert(iv.take(i + 1).drop_last() =~= iv.take(i as int));
            assert(cv.take(i + 1).last() == candidates@[i as int]@);
            assert(iv.take(i + 1).last() == opt_view(images@[i as int]));
        }
        match &images[i] {
            Some(img) => {
                let ghost prev = deploying@;
                deploying.push((owned(candidates[i].as_str()), owned(img.as_str())));
                proof {
                    assert(pair_views2(deploying@) =~= pair_views2(prev).push(
                        (candidates@[i as int]@, img@),
                    ));
                }
            },
            None => {
                let ghost prev_missing = image_missing(cv.take(i as int), iv.take(i as int));
                skipped.push(
                    UnitActionResult {
                        unit: owned(candidates[i].as_str()),
                        status: String::from_str("skipped"),
                        message: Some(String::from_str("image-missing")),
                    },
                );
                proof {
                    assert(image_missing(cv.take(i + 1), iv.take(i + 1)) == prev_missing.push(
                        candidates@[i as int]@,
                    ));
                }
            },
        }
        i = i + 1;
    }
    proof {
        assert(cv.take(candidates@.len() as int) =~= cv);
        assert(iv.take(candidates@.len() as int) =~= iv);
    }
    DeployPlan { deploying, skipped }
}


/// `truncate_command_output`: text of at most 32768 bytes is kept whole;
/// longer text is cut to its first 32768 characters and flagged.
pub fn truncate_command_output(text: &str) -> (r: (String, bool))
    ensures
        crate::text::utf8_len(text@) <= 32768 ==> r.0@ == text@ && !r.1,
        crate::text::utf8_len(text@) > 32768 ==> r.0@ == take_chars(text@, 32768) && r.1,
{
    if text.len() <= 32768 {
        (owned(text), false)
    } else {
        (take_chars_str(text, 32768), true)
    }
}


/// Whether the slice holds a string equal to `s`.
pub fn contains_string_slice(v: &[String], s: &str) -> (r: bool)
    ensures
        r == views(v@).contains(s@),
{
    let mut i: usize = 0;
    while i < v.len()
        invariant
            i <= v@.len(),
            forall|k: int| 0 <= k < i ==> views(v@)[k] != s@,
        decreases v@.len() - i,
    {
        if str_eq(v[i].as_str(), s) {
            proof {
                assert(views(v@)[i as int] == s@);
            }
            return true;
        }
        i = i + 1;
    }
    false
}

} // verus!
