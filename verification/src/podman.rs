//! Reading `podman ps --format json` entries: running state, creation time,
//! image id and the systemd unit a container belongs to.

use vstd::prelude::*;
use crate::text::{trim, trim_str, lower, to_ascii_lowercase, str_eq, owned, all_digits, digits_value, is_digit, concat};
use crate::http::{contains_seq, str_contains_str};
use crate::json::{Json, obj_get, obj_lookup};

verus! {

/// The member named `a`, else the one named `b`, of an object.
pub open spec fn member2(j: Json, a: Seq<char>, b: Seq<char>) -> Option<Json> {
    match j {
        Json::Object(m) => match obj_get(m@, a) {
            Some(v) => Some(v),
            None => obj_get(m@, b),
        },
        _ => None,
    }
}

/// Looks up the member `a`, else `b`.
pub fn get2<'a>(j: &'a Json, a: &str, b: &str) -> (r: Option<&'a Json>)
    ensures
        r matches Some(v) ==> member2(*j, a@, b@) == Some(*v),
        r is None ==> member2(*j, a@, b@) is None,
{
    match j {
        Json::Object(m) => match obj_lookup(m, a) {
            Some(v) => Some(v),
            None => obj_lookup(m, b),
        },
        _ => None,
    }
}

/// The text of a string value.
pub open spec fn as_str_spec(v: Option<Json>) -> Option<Seq<char>> {
    match v {
        Some(Json::Str(s)) => Some(s@),
        _ => None,
    }
}

/// `container_is_running`: by `State` (running, or exited/stopped/dead),
/// else by `Exited`, else by `Status` (mentions `up`, or exited/dead);
/// not running when nothing tells.
pub open spec fn running_spec(item: Json) -> bool {
    let state = match as_str_spec(member2(item, "State"@, "state"@)) {
        Some(s) => Some(lower(trim(s))),
        None => None,
    };
    let status = match as_str_spec(member2(item, "Status"@, "status"@)) {
        Some(s) => Some(lower(trim(s))),
        None => None,
    };
    if state == Some("running"@) {
        true
    } else if state == Some("exited"@) || state == Some("stopped"@) || state == Some("dead"@) {
        false
    } else {
        match member2(item, "Exited"@, "exited"@) {
            Some(Json::Bool(b)) => !b,
            _ => status matches Some(s) && contains_seq(s, "up"@),
        }
    }
}

/// Whether a `podman ps` entry describes a running container.
pub fn container_is_running(item: &Json) -> (r: bool)
    ensures
        r == running_spec(*item),
{
    match get2(item, "State", "state") {
        Some(Json::Str(s)) => {
            let l = to_ascii_lowercase(trim_str(s.as_str()));
            if str_eq(l.as_str(), "running") {
                return true;
            }
            if str_eq(l.as_str(), "exited") || str_eq(l.as_str(), "stopped") || str_eq(
                l.as_str(),
                "dead",
            ) {
                return false;
            }
        },
        _ => {},
    }
    match get2(item, "Exited", "exited") {
        Some(Json::Bool(b)) => {
            return !*b;
        },
        _ => {},
    }
    match get2(item, "Status", "status") {
        Some(Json::Str(s)) => {
            let l = to_ascii_lowercase(trim_str(s.as_str()));
            if str_contains_str(l.as_str(), "up") {
                return true;
            }
        },
        _ => {},
    }
    false
}

/// `Value::as_i64` on a number's text: an integer within `i64`.
pub open spec fn number_i64(t: Seq<char>) -> Option<i64> {
    if t.len() > 0 && t[0] == '-' {
        let d = t.drop_first();
        if d.len() > 0 && all_digits(d) && digits_value(d) <= 0x8000_0000_0000_0000 {
            Some((-digits_value(d)) as i64)
        } else {
            None
        }
    } else if t.len() > 0 && all_digits(t) && digits_value(t) <= i64::MAX {
        Some(digits_value(t) as i64)
    } else {
        None
    }
}

/// The value of a digit string, when it does not exceed `limit`.
fn digits_up_to(t: &str, start: usize, limit: u64) -> (r: Option<u64>)
    requires
        start <= t@.len(),
        limit >= 9,
    ensures
        r matches Some(v) ==> t@.skip(start as int).len() > 0 && all_digits(t@.skip(start as int))
            && digits_value(t@.skip(start as int)) == v && v <= limit,
        r is None ==> !(t@.skip(start as int).len() > 0 && all_digits(t@.skip(start as int))
            && digits_value(t@.skip(start as int)) <= limit),
{
    let n = t.unicode_len();
    let ghost d = t@.skip(start as int);
    if start >= n {
        return None;
    }
    let mut v: u64 = 0;
    let mut i: usize = start;
    while i < n
        invariant
            start <= i <= n,
            n == t@.len(),
            d == t@.skip(start as int),
            all_digits(t@.subrange(start as int, i as int)),
            digits_value(t@.subrange(start as int, i as int)) == v as int,
            v <= limit,
            limit >= 9,
        decreases n - i,
    {
        let c = t.get_char(i);
        let ghost pre = t@.subrange(start as int, i as int);
        let ghost cur = t@.subrange(start as int, i + 1);
        proof {
            assert(cur.drop_last() =~= pre);
            assert(cur.last() == c);
        }
        if !('0' <= c && c <= '9') {
            proof {
                assert(d[i - start] == c);
                assert(!is_digit(d[i - start]));
            }
            return None;
        }
        let dv: u64 = ((c as u32) - 48) as u64;
        if v > (limit - dv) / 10 {
            proof {
                assert((v as int) * 10 + dv > limit) by (nonlinear_arith)
                    requires
                        v > (limit - dv) / 10,
                        dv <= limit,
                ;
                assert(all_digits(cur)) by {
                    assert forall|k: int| 0 <= k < cur.len() implies is_digit(#[trigger] cur[k]) by {
                        if k < pre.len() {
                            assert(cur[k] == pre[k]);
                        }
                    }
                }
                assert(d.take(i + 1 - start) =~= cur);
                assert(digits_value(cur) == digits_value(pre) * 10 + dv);
                lemma_digit_prefix_grows(d, i + 1 - start, limit);
            }
            return None;
        }
        proof {
            assert((v as int) * 10 + dv <= limit) by (nonlinear_arith)
                requires
                    v <= (limit - dv) / 10,
                    dv <= limit,
            ;
            assert(all_digits(cur)) by {
                assert forall|k: int| 0 <= k < cur.len() implies is_digit(#[trigger] cur[k]) by {
                    if k < pre.len() {
                        assert(cur[k] == pre[k]);
                    }
                }
            }
        }
        v = v * 10 + dv;
        i = i + 1;
    }
    proof {
        assert(t@.subrange(start as int, n as int) =~= d);
    }
    Some(v)
}

/// A digit string is worth at least any of its prefixes.
proof fn lemma_digit_prefix_grows(d: Seq<char>, k: int, limit: u64)
    requires
        0 <= k <= d.len(),
        all_digits(d.take(k)),
        digits_value(d.take(k)) > limit,
    ensures
        !(d.len() > 0 && all_digits(d) && digits_value(d) <= limit),
    decreases d.len() - k,
{
    if k < d.len() && all_digits(d) {
        let e = d.take(k + 1);
        assert(e.drop_last() =~= d.take(k));
        assert(is_digit(d[k]));
        assert(all_digits(e)) by {
            assert forall|m: int| 0 <= m < e.len() implies is_digit(#[trigger] e[m]) by {
                assert(e[m] == d[m]);
            }
        }
        lemma_digit_prefix_grows(d, k + 1, limit);
    } else if k == d.len() {
        assert(d.take(k) =~= d);
    }
}

/// Reads a number's text as an `i64`.
pub fn parse_number_i64(t: &str) -> (r: Option<i64>)
    ensures
        r == number_i64(t@),
{
    let n = t.unicode_len();
    if n > 0 && t.get_char(0) == '-' {
        proof {
            assert(t@.skip(1) =~= t@.drop_first());
        }
        match digits_up_to(t, 1, 0x8000_0000_0000_0000u64) {
            Some(v) => {
                if v == 0x8000_0000_0000_0000u64 {
                    Some(i64::MIN)
                } else {
                    Some(-(v as i64))
                }
            },
            None => None,
        }
    } else {
        proof {
            assert(t@.skip(0) =~= t@);
        }
        match digits_up_to(t, 0, i64::MAX as u64) {
            Some(v) => Some(v as i64),
            None => None,
        }
    }
}

/// `str::parse::<i64>`: an optional sign, then decimal digits within `i64`.
pub open spec fn parse_i64(t: Seq<char>) -> Option<i64> {
    if t.len() > 0 && t[0] == '+' {
        let d = t.drop_first();
        if d.len() > 0 && all_digits(d) && digits_value(d) <= i64::MAX {
            Some(digits_value(d) as i64)
        } else {
            None
        }
    } else {
        number_i64(t)
    }
}

/// `str::parse::<i64>`.
pub fn parse_i64_str(t: &str) -> (r: Option<i64>)
    ensures
        r == parse_i64(t@),
{
    if t.unicode_len() > 0 && t.get_char(0) == '+' {
        proof {
            assert(t@.skip(1) =~= t@.drop_first());
        }
        match digits_up_to(t, 1, i64::MAX as u64) {
            Some(v) => Some(v as i64),
            None => None,
        }
    } else {
        parse_number_i64(t)
    }
}

/// `container_created_ts`: `Created` (or `created`) as an integer, else 0.
pub open spec fn created_spec(item: Json) -> i64 {
    match member2(item, "Created"@, "created"@) {
        Some(Json::Number(t)) => match number_i64(t@) {
            Some(v) => v,
            None => 0,
        },
        _ => 0,
    }
}

/// The creation time of a `podman ps` entry, in seconds (0 when unknown).
pub fn container_created_ts(item: &Json) -> (r: i64)
    ensures
        r == created_spec(*item),
{
    match get2(item, "Created", "created") {
        Some(Json::Number(t)) => match parse_number_i64(t.as_str()) {
            Some(v) => v,
            None => 0,
        },
        _ => 0,
    }
}

/// A trimmed, non-empty text.
pub open spec fn filled(s: Option<Seq<char>>) -> Option<Seq<char>> {
    match s {
        Some(x) => if trim(x).len() > 0 {
            Some(trim(x))
        } else {
            None
        },
        None => None,
    }
}

/// Trims a text and keeps it when not empty.
fn filled_str(s: Option<&str>) -> (r: Option<String>)
    ensures
        r matches Some(x) ==> filled(crate::config::opt_str(s)) == Some(x@),
        r is None ==> filled(crate::config::opt_str(s)) is None,
{
    match s {
        Some(x) => {
            let t = trim_str(x);
            if t.unicode_len() > 0 {
                Some(owned(t))
            } else {
                None
            }
        },
        None => None,
    }
}

/// The text of a string value.
pub fn value_str(v: Option<&Json>) -> (r: Option<&str>)
    ensures
        crate::config::opt_str(r) == as_str_spec(
            match v {
                Some(x) => Some(*x),
                None => None,
            },
        ),
{
    match v {
        Some(Json::Str(s)) => Some(s.as_str()),
        _ => None,
    }
}

/// `container_image_id`: the first present of `ImageID`, `ImageId`,
/// `imageID`, `imageId`, when a non-blank string.
pub open spec fn image_id_spec(item: Json) -> Option<Seq<char>> {
    let v = match member2(item, "ImageID"@, "ImageId"@) {
        Some(x) => Some(x),
        None => member2(item, "imageID"@, "imageId"@),
    };
    filled(as_str_spec(v))
}

/// The image id of a `podman ps` entry, when it is not blank.
pub fn container_image_id(item: &Json) -> (r: Option<String>)
    ensures
        r matches Some(x) ==> image_id_spec(*item) == Some(x@),
        r is None ==> image_id_spec(*item) is None,
{
    let v = match get2(item, "ImageID", "ImageId") {
        Some(x) => Some(x),
        None => get2(item, "imageID", "imageId"),
    };
    filled_str(value_str(v))
}

/// `podman_systemd_unit_label`: the first present of
/// `io.podman.systemd.unit`, `PODMAN_SYSTEMD_UNIT`,
/// `io.containers.autoupdate.unit`, when a non-blank string.
pub open spec fn unit_label_spec(labels: Json) -> Option<Seq<char>> {
    let v = match member2(labels, "io.podman.systemd.unit"@, "PODMAN_SYSTEMD_UNIT"@) {
        Some(x) => Some(x),
        None => member2(labels, "io.containers.autoupdate.unit"@, "io.containers.autoupdate.unit"@),
    };
    filled(as_str_spec(v))
}

/// The systemd unit a container's labels name, when one does.
pub fn podman_systemd_unit_label(labels: &Json) -> (r: Option<String>)
    ensures
        r matches Some(x) ==> unit_label_spec(*labels) == Some(x@),
        r is None ==> unit_label_spec(*labels) is None,
{
    let v = match get2(labels, "io.podman.systemd.unit", "PODMAN_SYSTEMD_UNIT") {
        Some(x) => Some(x),
        None => get2(labels, "io.containers.autoupdate.unit", "io.containers.autoupdate.unit"),
    };
    filled_str(value_str(v))
}

/// `container_unit_label`: the unit label of the container's `Labels` (or
/// `labels`) object.
pub open spec fn container_unit_spec(item: Json) -> Option<Seq<char>> {
    match member2(item, "Labels"@, "labels"@) {
        Some(l) => match l {
            Json::Object(_) => unit_label_spec(l),
            _ => None,
        },
        None => None,
    }
}

/// The systemd unit a `podman ps` entry's labels name, when one does.
pub fn container_unit_label(item: &Json) -> (r: Option<String>)
    ensures
        r matches Some(x) ==> container_unit_spec(*item) == Some(x@),
        r is None ==> container_unit_spec(*item) is None,
{
    match get2(item, "Labels", "labels") {
        Some(l) => match l {
            Json::Object(_) => podman_systemd_unit_label(l),
            _ => None,
        },
        None => None,
    }
}

/// Whether the podman check is skipped: the setting is `1`, or `true` in
/// any case.
pub open spec fn skip_podman_spec(raw: Option<Seq<char>>) -> bool {
    raw matches Some(v) && (v == "1"@ || lower(v) == "true"@)
}

/// Whether the podman check is skipped, from its raw setting.
pub fn skip_podman_check(raw: Option<&str>) -> (r: bool)
    ensures
        r == skip_podman_spec(crate::config::opt_str(raw)),
{
    match raw {
        Some(v) => str_eq(v, "1") || str_eq(to_ascii_lowercase(v).as_str(), "true"),
        None => false,
    }
}

/// The error of a failed podman check, from the exit status or the error
/// of the run.
pub fn podman_unavailable(detail: &str) -> (r: String)
    ensures
        r@ == "podman unavailable: "@ + detail@,
{
    concat("podman unavailable: ", detail)
}

} // verus!
