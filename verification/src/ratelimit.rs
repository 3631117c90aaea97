//! Rate limiting: the windows that apply, their cutoffs, and the verdict on
//! the token counts found in each window.

use vstd::prelude::*;
use crate::config::{env_u64_spec, env_u64_value, opt_str};

verus! {

/// At most `limit` accepted requests within the last `window` seconds.
#[derive(Clone, Copy, Debug, PartialEq, Eq, Structural)]
pub struct RateWindow {
    pub limit: u64,
    pub window: u64,
}

/// Why a rate-limited request was refused.
#[derive(Clone, Debug)]
pub enum RateLimitError {
    /// The image lock could not be taken in time.
    LockTimeout,
    /// A window is full: the counts and limits of the first two windows.
    Exceeded { c1: u64, l1: u64, c2: u64, l2: u64 },
    /// The limits could not be read or stored.
    Io(String),
}

/// The count found for window `i` (zero when none was counted).
pub open spec fn count_at(counts: Seq<u64>, i: int) -> u64 {
    if 0 <= i < counts.len() {
        counts[i]
    } else {
        0
    }
}

/// Some window has reached its limit.
pub open spec fn limit_reached(counts: Seq<u64>, windows: Seq<RateWindow>) -> bool {
    exists|i: int| 0 <= i < windows.len() && count_at(counts, i) >= (#[trigger] windows[i]).limit
}

/// The report of a refusal: the first count and limit, and the second ones,
/// which fall back to the first where there is no second window.
pub open spec fn exceeded_report(counts: Seq<u64>, windows: Seq<RateWindow>) -> (u64, u64, u64, u64) {
    let c1 = count_at(counts, 0);
    let l1 = if windows.len() > 0 {
        windows[0].limit
    } else {
        0
    };
    let c2 = if counts.len() > 1 {
        counts[1]
    } else {
        c1
    };
    let l2 = if windows.len() > 1 {
        windows[1].limit
    } else {
        l1
    };
    (c1, l1, c2, l2)
}

/// The verdict of the rate limit on the counts of tokens inside each
/// window: refused exactly when some window has reached its limit.
pub fn rate_limit_verdict(counts: &[u64], windows: &[RateWindow]) -> (r: Result<(), RateLimitError>)
    ensures
        r is Ok <==> !limit_reached(counts@, windows@),
        r is Err ==> (r matches Err(RateLimitError::Exceeded { c1, l1, c2, l2 }) && (c1, l1, c2, l2)
            == exceeded_report(counts@, windows@)),
{
    let mut i: usize = 0;
    while i < windows.len()
        invariant
            i <= windows@.len(),
            forall|k: int| 0 <= k < i ==> count_at(counts@, k) < (#[trigger] windows@[k]).limit,
        decreases windows@.len() - i,
    {
        let c: u64 = if i < counts.len() {
            counts[i]
        } else {
            0
        };
        if c >= windows[i].limit {
            let c1: u64 = if counts.len() > 0 {
                counts[0]
            } else {
                0
            };
            let l1: u64 = if windows.len() > 0 {
                windows[0].limit
            } else {
                0
            };
            let c2: u64 = if counts.len() > 1 {
                counts[1]
            } else {
                c1
            };
            let l2: u64 = if windows.len() > 1 {
                windows[1].limit
            } else {
                l1
            };
            proof {
                assert(count_at(counts@, i as int) >= windows@[i as int].limit);
            }
            return Err(RateLimitError::Exceeded { c1, l1, c2, l2 });
        }
        i = i + 1;
    }
    Ok(())
}

/// The oldest timestamp that still counts for a window (`now - window`,
/// floored at zero).
pub open spec fn cutoff_spec(now: u64, window: u64) -> u64 {
    if window > now {
        0
    } else {
        (now - window) as u64
    }
}

/// The cutoff of each window.
pub fn rate_cutoffs(now: u64, windows: &[RateWindow]) -> (r: Vec<u64>)
    ensures
        r@.len() == windows@.len(),
        forall|i: int| 0 <= i < windows@.len() ==> r@[i] == cutoff_spec(now, #[trigger] windows@[i].window),
{
    let mut out: Vec<u64> = Vec::new();
    let mut i: usize = 0;
    while i < windows.len()
        invariant
            i <= windows@.len(),
            out@.len() == i,
            forall|k: int| 0 <= k < i ==> out@[k] == cutoff_spec(now, #[trigger] windows@[k].window),
        decreases windows@.len() - i,
    {
        out.push(now.saturating_sub(windows[i].window));
        i = i + 1;
    }
    out
}

/// The widest window, or zero when there is none; tokens older than this are
/// purged.
pub fn max_window(windows: &[RateWindow]) -> (r: u64)
    ensures
        forall|i: int| 0 <= i < windows@.len() ==> (#[trigger] windows@[i]).window <= r,
        windows@.len() == 0 ==> r == 0,
        windows@.len() > 0 ==> exists|i: int| 0 <= i < windows@.len() && (#[trigger] windows@[i]).window == r,
{
    let mut best: u64 = 0;
    let mut i: usize = 0;
    while i < windows.len()
        invariant
            i <= windows@.len(),
            forall|k: int| 0 <= k < i ==> (#[trigger] windows@[k]).window <= best,
            i == 0 ==> best == 0,
            i > 0 ==> exists|k: int| 0 <= k < i && (#[trigger] windows@[k]).window == best,
        decreases windows@.len() - i,
    {
        if i == 0 || windows[i].window > best {
            best = windows[i].window;
        }
        i = i + 1;
    }
    best
}

/// The windows of the manual trigger: the four settings, each defaulting to
/// 2 per 600 s and 10 per 18000 s; an invalid one is an `Io` error naming it.
pub open spec fn manual_windows_spec(
    l1_count: Option<Seq<char>>,
    l1_window: Option<Seq<char>>,
    l2_count: Option<Seq<char>>,
    l2_window: Option<Seq<char>>,
) -> Result<Seq<RateWindow>, Seq<char>> {
    match env_u64_spec(l1_count, "PODUP_LIMIT1_COUNT"@, 2) {
        Err(e) => Err(e),
        Ok(a) => match env_u64_spec(l1_window, "PODUP_LIMIT1_WINDOW"@, 600) {
            Err(e) => Err(e),
            Ok(b) => match env_u64_spec(l2_count, "PODUP_LIMIT2_COUNT"@, 10) {
                Err(e) => Err(e),
                Ok(c) => match env_u64_spec(l2_window, "PODUP_LIMIT2_WINDOW"@, 18_000) {
                    Err(e) => Err(e),
                    Ok(d) => Ok(
                        seq![RateWindow { limit: a, window: b }, RateWindow { limit: c, window: d }],
                    ),
                },
            },
        },
    }
}

/// The manual rate-limit windows from the raw settings.
pub fn manual_rate_windows(
    l1_count: Option<&str>,
    l1_window: Option<&str>,
    l2_count: Option<&str>,
    l2_window: Option<&str>,
) -> (r: Result<Vec<RateWindow>, RateLimitError>)
    ensures
        r matches Ok(w) ==> manual_windows_spec(
            opt_str(l1_count),
            opt_str(l1_window),
            opt_str(l2_count),
            opt_str(l2_window),
        ) == Ok::<Seq<RateWindow>, Seq<char>>(w@),
        r is Err ==> (r matches Err(RateLimitError::Io(e)) && manual_windows_spec(
            opt_str(l1_count),
            opt_str(l1_window),
            opt_str(l2_count),
            opt_str(l2_window),
        ) == Err::<Seq<RateWindow>, Seq<char>>(e@)),
{
    let a = match env_u64_value(l1_count, "PODUP_LIMIT1_COUNT", 2) {
        Ok(v) => v,
        Err(e) => {
            return Err(RateLimitError::Io(e));
        },
    };
    let b = match env_u64_value(l1_window, "PODUP_LIMIT1_WINDOW", 600) {
        Ok(v) => v,
        Err(e) => {
            return Err(RateLimitError::Io(e));
        },
    };
    let c = match env_u64_value(l2_count, "PODUP_LIMIT2_COUNT", 10) {
        Ok(v) => v,
        Err(e) => {
            return Err(RateLimitError::Io(e));
        },
    };
    let d = match env_u64_value(l2_window, "PODUP_LIMIT2_WINDOW", 18_000) {
        Ok(v) => v,
        Err(e) => {
            return Err(RateLimitError::Io(e));
        },
    };
    let mut w: Vec<RateWindow> = Vec::new();
    w.push(RateWindow { limit: a, window: b });
    w.push(RateWindow { limit: c, window: d });
    proof {
        assert(w@ =~= seq![RateWindow { limit: a, window: b }, RateWindow { limit: c, window: d }]);
    }
    Ok(w)
}

/// The window of webhook tasks per image: 60 per hour.
pub fn github_image_windows() -> (r: Vec<RateWindow>)
    ensures
        r@ == seq![RateWindow { limit: 60, window: 3600 }],
{
    let mut w: Vec<RateWindow> = Vec::new();
    w.push(RateWindow { limit: 60, window: 3600 });
    proof {
        assert(w@ =~= seq![RateWindow { limit: 60, window: 3600 }]);
    }
    w
}

/// A request that finds a window full is refused, and one that finds room in
/// every window is let through; after a let-through request is recorded,
/// each count grows by one, so a window with limit one refuses the next.
pub proof fn lemma_limit_one_refuses_second(window: RateWindow, counts: Seq<u64>)
    requires
        window.limit == 1,
        counts.len() == 1,
        counts[0] == 0,
    ensures
        !limit_reached(counts, seq![window]),
        limit_reached(seq![(counts[0] + 1) as u64], seq![window]),
{
    assert(seq![window][0] == window);
    if limit_reached(counts, seq![window]) {
        let i = choose|i: int| 0 <= i < 1 && count_at(counts, i) >= (#[trigger] seq![window][i]).limit;
        assert(i == 0);
    }
}

/// How long an image lock has been held: the time since it was taken,
/// clamped to `i64`, and never negative.
pub open spec fn lock_age_spec(now: i64, acquired_at: i64) -> i64 {
    let d = now - acquired_at;
    if d > i64::MAX {
        i64::MAX
    } else if d < 0 {
        0
    } else {
        d as i64
    }
}

/// How long an image lock has been held, in seconds (never negative).
pub fn lock_age_secs(now: i64, acquired_at: i64) -> (r: i64)
    ensures
        r == lock_age_spec(now, acquired_at),
{
    match now.checked_sub(acquired_at) {
        Some(d) => if d < 0 {
            0
        } else {
            d
        },
        None => if acquired_at < 0 {
            i64::MAX
        } else {
            0
        },
    }
}

/// What a request under `/api/image-locks` asks for.
pub enum LockRequest {
    List,
    /// Release the lock of this bucket.
    Release(String),
    /// 400: no bucket named.
    MissingName,
    /// Anything else.
    NotAllowed,
}

/// The plain shape of a lock request.
pub enum LockRequestView {
    List,
    Release(Seq<char>),
    MissingName,
    NotAllowed,
}

/// The view of a lock request.
pub open spec fn lock_request_view(r: LockRequest) -> LockRequestView {
    match r {
        LockRequest::List => LockRequestView::List,
        LockRequest::Release(b) => LockRequestView::Release(b@),
        LockRequest::MissingName => LockRequestView::MissingName,
        LockRequest::NotAllowed => LockRequestView::NotAllowed,
    }
}

/// `GET /api/image-locks` lists the locks; `DELETE /api/image-locks/<bucket>`
/// releases one (the bucket trimmed of `/` must not be empty).
pub open spec fn lock_request_spec(method: Seq<char>, path: Seq<char>) -> LockRequestView {
    if method == "GET"@ && path == "/api/image-locks"@ {
        LockRequestView::List
    } else if method == "DELETE"@ {
        if crate::text::starts_with(path, "/api/image-locks/"@) {
            let b = crate::text::trim_end_char(crate::text::trim_start_char(path.skip(17), '/'), '/');
            if b.len() == 0 {
                LockRequestView::MissingName
            } else {
                LockRequestView::Release(b)
            }
        } else {
            LockRequestView::MissingName
        }
    } else {
        LockRequestView::NotAllowed
    }
}

/// The request under `/api/image-locks`.
pub fn lock_request(method: &str, path: &str) -> (r: LockRequest)
    ensures
        lock_request_view(r) == lock_request_spec(method@, path@),
{
    if crate::text::str_eq(method, "GET") && crate::text::str_eq(path, "/api/image-locks") {
        return LockRequest::List;
    }
    if !crate::text::str_eq(method, "DELETE") {
        return LockRequest::NotAllowed;
    }
    if !crate::text::str_starts_with(path, "/api/image-locks/") {
        return LockRequest::MissingName;
    }
    proof {
        reveal_strlit("/api/image-locks/");
    }
    let rest = path.substring_char(17, path.unicode_len());
    proof {
        assert(rest@ =~= path@.skip(17));
    }
    let b = crate::text::trim_end_matches_char(crate::text::trim_start_matches_char(rest, '/'), '/');
    if b.unicode_len() == 0 {
        LockRequest::MissingName
    } else {
        LockRequest::Release(crate::text::owned(b))
    }
}

/// The retention of a state prune asked for through the API: the hours
/// given (a day when none), in seconds, at least one; and its whole hours.
pub fn api_prune_retention(max_age_hours: Option<u64>) -> (r: (u64, u64))
    ensures
        r.0 == (if crate::queries::sat_mul(
            match max_age_hours {
                Some(h) => h,
                None => 24,
            },
            3600,
        ) >= 1 {
            crate::queries::sat_mul(
                match max_age_hours {
                    Some(h) => h,
                    None => 24,
                },
                3600,
            )
        } else {
            1
        }),
        r.1 == r.0 / 3600,
{
    let h = match max_age_hours {
        Some(h) => h,
        None => 24,
    };
    let secs = match h.checked_mul(3600) {
        Some(x) => x,
        None => u64::MAX,
    };
    let secs = if secs >= 1 {
        secs
    } else {
        1
    };
    (secs, secs / 3600)
}

/// What taking an image lock does after one attempt.
#[derive(Clone, Copy, Debug, PartialEq, Eq, Structural)]
pub enum LockStep {
    /// The lock row was inserted: the lock is held.
    Acquired,
    /// Someone holds it and the deadline has passed: give up.
    TimedOut,
    /// Someone holds it: wait `wait_ms` and try again.
    Retry { wait_ms: u64 },
}

/// The time allowed to take an image lock.
pub open spec fn lock_timeout_ms() -> u64 {
    2000
}

/// The decision on an image lock after an insert attempt made
/// `elapsed_ms` after the first one.
pub open spec fn lock_step_spec(inserted: bool, elapsed_ms: u64) -> LockStep {
    if inserted {
        LockStep::Acquired
    } else if elapsed_ms >= lock_timeout_ms() {
        LockStep::TimedOut
    } else {
        LockStep::Retry { wait_ms: 50 }
    }
}

/// The step after an attempt to insert the lock row.
pub fn lock_step(inserted: bool, elapsed_ms: u64) -> (r: LockStep)
    ensures
        r == lock_step_spec(inserted, elapsed_ms),
{
    if inserted {
        LockStep::Acquired
    } else if elapsed_ms >= 2000 {
        LockStep::TimedOut
    } else {
        LockStep::Retry { wait_ms: 50 }
    }
}

} // verus!
