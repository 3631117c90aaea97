//! The webhook status page: for each unit, the latest webhook deliveries
//! recorded for it, and the addresses its webhooks are sent to.

use vstd::prelude::*;
use crate::text::{concat, owned, views, opt_view, str_eq};
use crate::json::{Json, member_str, get_member_str};
use crate::units::{dedup, lookup_unit_spec, lookup_unit_from_path, route_prefix};
use crate::services::{slug_spec, service_slug};
use crate::sorting::{str_lt, str_less, lemma_str_lt_transitive, lemma_str_lt_irreflexive};

verus! {

/// A recorded webhook delivery: when, its response status, its path, its
/// request id and its metadata.
pub struct WebhookEvent {
    pub ts: i64,
    pub status: i64,
    pub path: Option<String>,
    pub request_id: String,
    pub meta: Json,
}

/// The unit a delivery was for: the metadata's `unit`, else the unit its
/// path names.
pub open spec fn event_unit(e: WebhookEvent) -> Option<Seq<char>> {
    match member_str(e.meta, "unit"@) {
        Some(u) => Some(u),
        None => match e.path {
            Some(p) => lookup_unit_spec(p@),
            None => None,
        },
    }
}

/// The units named by the first `n` deliveries, in order.
pub open spec fn event_units(events: Seq<WebhookEvent>, n: int) -> Seq<Seq<char>>
    decreases n,
{
    if n <= 0 {
        Seq::<Seq<char>>::empty()
    } else {
        match event_unit(events[n - 1]) {
            Some(u) => event_units(events, n - 1).push(u),
            None => event_units(events, n - 1),
        }
    }
}

/// The units listed: those configured and those deliveries name, each once.
pub open spec fn status_units(configured: Seq<Seq<char>>, events: Seq<WebhookEvent>) -> Seq<Seq<char>> {
    dedup(configured + event_units(events, events.len() as int))
}

/// What the deliveries of a unit tell.
pub struct WebhookStats {
    pub last_ts: Option<i64>,
    pub last_status: Option<i64>,
    pub last_request_id: Option<Seq<char>>,
    pub last_success_ts: Option<i64>,
    pub last_failure_ts: Option<i64>,
    pub last_hmac_error_ts: Option<i64>,
    pub last_hmac_error_reason: Option<Seq<char>>,
}

/// No delivery seen.
pub open spec fn no_stats() -> WebhookStats {
    WebhookStats {
        last_ts: None,
        last_status: None,
        last_request_id: None,
        last_success_ts: None,
        last_failure_ts: None,
        last_hmac_error_ts: None,
        last_hmac_error_reason: None,
    }
}

/// A time is newer than the one recorded (or none is recorded).
pub open spec fn newer(cur: Option<i64>, ts: i64) -> bool {
    match cur {
        None => true,
        Some(c) => ts > c,
    }
}

/// One delivery taken into account: the newest decides the last status and
/// request; a 202 is a success, 400 and above a failure; a 401 with a
/// `reason` is a signature error.
pub open spec fn stats_step(a: WebhookStats, e: WebhookEvent) -> WebhookStats {
    let a1 = if newer(a.last_ts, e.ts) {
        WebhookStats {
            last_ts: Some(e.ts),
            last_status: Some(e.status),
            last_request_id: Some(e.request_id@),
            ..a
        }
    } else {
        a
    };
    let a2 = if e.status == 202 {
        if newer(a1.last_success_ts, e.ts) {
            WebhookStats { last_success_ts: Some(e.ts), ..a1 }
        } else {
            a1
        }
    } else if e.status >= 400 {
        if newer(a1.last_failure_ts, e.ts) {
            WebhookStats { last_failure_ts: Some(e.ts), ..a1 }
        } else {
            a1
        }
    } else {
        a1
    };
    if e.status == 401 && member_str(e.meta, "reason"@) is Some && newer(a2.last_hmac_error_ts, e.ts) {
        WebhookStats {
            last_hmac_error_ts: Some(e.ts),
            last_hmac_error_reason: member_str(e.meta, "reason"@),
            ..a2
        }
    } else {
        a2
    }
}

/// The deliveries among the first `n` that name `unit`, taken into account
/// in order.
pub open spec fn unit_stats(events: Seq<WebhookEvent>, unit: Seq<char>, n: int) -> WebhookStats
    decreases n,
{
    if n <= 0 {
        no_stats()
    } else {
        let prev = unit_stats(events, unit, n - 1);
        if event_unit(events[n - 1]) == Some(unit) {
            stats_step(prev, events[n - 1])
        } else {
            prev
        }
    }
}

/// The status of one unit's webhook.
pub struct WebhookUnitStatus {
    pub unit: String,
    pub slug: String,
    pub last_ts: Option<i64>,
    pub last_status: Option<i64>,
    pub last_request_id: Option<String>,
    pub last_success_ts: Option<i64>,
    pub last_failure_ts: Option<i64>,
    pub last_hmac_error_ts: Option<i64>,
    pub last_hmac_error_reason: Option<String>,
}

impl WebhookUnitStatus {
    /// The delivery facts of the status.
    pub open spec fn stats(self) -> WebhookStats {
        WebhookStats {
            last_ts: self.last_ts,
            last_status: self.last_status,
            last_request_id: opt_view(self.last_request_id),
            last_success_ts: self.last_success_ts,
            last_failure_ts: self.last_failure_ts,
            last_hmac_error_ts: self.last_hmac_error_ts,
            last_hmac_error_reason: opt_view(self.last_hmac_error_reason),
        }
    }
}

/// The unit a delivery was for.
pub fn event_unit_of(e: &WebhookEvent) -> (r: Option<String>)
    ensures
        opt_view(r) == event_unit(*e),
{
    match get_member_str(&e.meta, "unit") {
        Some(u) => Some(owned(u)),
        None => match &e.path {
            Some(p) => lookup_unit_from_path(p.as_str()),
            None => None,
        },
    }
}

/// `stats_step` on a unit's status.
fn take_event(st: &mut WebhookUnitStatus, e: &WebhookEvent)
    ensures
        final(st).stats() == stats_step(old(st).stats(), *e),
        final(st).unit == old(st).unit,
        final(st).slug == old(st).slug,
{
    let take = match st.last_ts {
        None => true,
        Some(c) => e.ts > c,
    };
    if take {
        st.last_ts = Some(e.ts);
        st.last_status = Some(e.status);
        st.last_request_id = Some(owned(e.request_id.as_str()));
    }
    if e.status == 202 {
        let newer_success = match st.last_success_ts {
            None => true,
            Some(c) => e.ts > c,
        };
        if newer_success {
            st.last_success_ts = Some(e.ts);
        }
    } else if e.status >= 400 {
        let newer_failure = match st.last_failure_ts {
            None => true,
            Some(c) => e.ts > c,
        };
        if newer_failure {
            st.last_failure_ts = Some(e.ts);
        }
    }
    if e.status == 401 {
        if let Some(reason) = get_member_str(&e.meta, "reason") {
            let newer_error = match st.last_hmac_error_ts {
                None => true,
                Some(c) => e.ts > c,
            };
            if newer_error {
                st.last_hmac_error_ts = Some(e.ts);
                st.last_hmac_error_reason = Some(owned(reason));
            }
        }
    }
}

/// The units the deliveries name.
fn units_of_events(events: &[WebhookEvent]) -> (r: Vec<Option<String>>)
    ensures
        r@.len() == events@.len(),
        forall|k: int| 0 <= k < events@.len() ==> opt_view(#[trigger] r@[k]) == event_unit(events@[k]),
{
    let mut out: Vec<Option<String>> = Vec::new();
    let mut i: usize = 0;
    while i < events.len()
        invariant
            i <= events@.len(),
            out@.len() == i,
            forall|k: int| 0 <= k < i ==> opt_view(#[trigger] out@[k]) == event_unit(events@[k]),
        decreases events@.len() - i,
    {
        out.push(event_unit_of(&events[i]));
        i = i + 1;
    }
    out
}

/// The status of one unit from all deliveries.
fn status_of(unit: &str, events: &[WebhookEvent], named: &Vec<Option<String>>) -> (r: WebhookUnitStatus)
    requires
        named@.len() == events@.len(),
        forall|k: int| 0 <= k < events@.len() ==> opt_view(#[trigger] named@[k]) == event_unit(events@[k]),
    ensures
        r.unit@ == unit@,
        r.slug@ == slug_spec(unit@),
        r.stats() == unit_stats(events@, unit@, events@.len() as int),
{
    let mut st = WebhookUnitStatus {
        unit: owned(unit),
        slug: service_slug(unit),
        last_ts: None,
        last_status: None,
        last_request_id: None,
        last_success_ts: None,
        last_failure_ts: None,
        last_hmac_error_ts: None,
        last_hmac_error_reason: None,
    };
    let mut i: usize = 0;
    while i < events.len()
        invariant
            i <= events@.len(),
            named@.len() == events@.len(),
            forall|k: int| 0 <= k < events@.len() ==> opt_view(#[trigger] named@[k]) == event_unit(events@[k]),
            st.unit@ == unit@,
            st.slug@ == slug_spec(unit@),
            st.stats() == unit_stats(events@, unit@, i as int),
        decreases events@.len() - i,
    {
        let is_unit = match &named[i] {
            Some(u) => str_eq(u.as_str(), unit),
            None => false,
        };
        proof {
            assert(opt_view(named@[i as int]) == event_unit(events@[i as int]));
        }
        if is_unit {
            take_event(&mut st, &events[i]);
        }
        i = i + 1;
    }
    st
}

/// Slugs never decrease along `order`.
pub open spec fn ordered_by_slug(slugs: Seq<Seq<char>>, order: Seq<usize>) -> bool {
    forall|p: int, q: int| 0 <= p < q < order.len() ==> !str_lt(slugs[order[q] as int], slugs[order[p] as int])
}

/// Among equal slugs, `order` keeps the listing order.
pub open spec fn stable_ties(slugs: Seq<Seq<char>>, order: Seq<usize>) -> bool {
    forall|p: int, q: int|
        0 <= p < q < order.len() && slugs[order[p] as int] == slugs[order[q] as int] ==> order[p] < order[q]
}

/// `order` lists each of `0..n` once.
pub open spec fn is_permutation(order: Seq<usize>, n: int) -> bool {
    &&& order.len() == n
    &&& forall|p: int| 0 <= p < order.len() ==> order[p] < n
    &&& forall|p: int, q: int| 0 <= p < q < order.len() ==> order[p] != order[q]
}

/// The positions of the statuses in the order of their slugs (among equal
/// slugs, in listing order).
pub fn slug_order(statuses: &Vec<WebhookUnitStatus>) -> (r: Vec<usize>)
    ensures
        is_permutation(r@, statuses@.len() as int),
        ordered_by_slug(statuses@.map_values(|s: WebhookUnitStatus| s.slug@), r@),
        stable_ties(statuses@.map_values(|s: WebhookUnitStatus| s.slug@), r@),
{
    let ghost slugs = statuses@.map_values(|s: WebhookUnitStatus| s.slug@);
    let mut order: Vec<usize> = Vec::new();
    let mut i: usize = 0;
    while i < statuses.len()
        invariant
            i <= statuses@.len(),
            slugs == statuses@.map_values(|s: WebhookUnitStatus| s.slug@),
            is_permutation(order@, i as int),
            ordered_by_slug(slugs, order@),
            stable_ties(slugs, order@),
        decreases statuses@.len() - i,
    {
        let x = statuses[i].slug.as_str();
        proof {
            assert(slugs[i as int] == x@);
        }
        let mut j: usize = 0;
        while j < order.len()
            invariant
                j <= order@.len(),
                is_permutation(order@, i as int),
                i < statuses@.len(),
                slugs == statuses@.map_values(|s: WebhookUnitStatus| s.slug@),
                slugs[i as int] == x@,
                forall|k: int| 0 <= k < j ==> !str_lt(x@, #[trigger] slugs[order@[k] as int]),
            ensures
                j <= order@.len(),
                forall|k: int| 0 <= k < j ==> !str_lt(x@, #[trigger] slugs[order@[k] as int]),
                j < order@.len() ==> str_lt(x@, slugs[order@[j as int] as int]),
            decreases order@.len() - j,
        {
            let o = order[j];
            proof {
                assert(slugs[o as int] == statuses@[o as int].slug@);
            }
            if str_less(x, statuses[o].slug.as_str()) {
                break;
            }
            j = j + 1;
        }
        let ghost old_order = order@;
        order.insert(j, i);
        proof {
            let t = order@;
            assert(t =~= old_order.insert(j as int, i));
            assert forall|p: int, q: int| 0 <= p < q < t.len() implies !str_lt(
                slugs[t[q] as int],
                slugs[t[p] as int],
            ) by {
                if q < j {
                    assert(t[p] == old_order[p] && t[q] == old_order[q]);
                } else if q == j {
                    assert(t[p] == old_order[p] && t[q] == i);
                } else if p < j {
                    assert(t[p] == old_order[p] && t[q] == old_order[q - 1]);
                } else if p == j {
                    assert(t[p] == i && t[q] == old_order[q - 1]);
                    let a = x@;
                    let b = slugs[old_order[j as int] as int];
                    let c = slugs[old_order[q - 1] as int];
                    if q - 1 > j {
                        assert(!str_lt(c, b));
                    }
                    if str_lt(c, a) {
                        lemma_str_lt_transitive(c, a, b);
                        lemma_str_lt_irreflexive(b);
                    }
                } else {
                    assert(t[p] == old_order[p - 1] && t[q] == old_order[q - 1]);
                }
            }
            assert forall|p: int, q: int|
                0 <= p < q < t.len() && slugs[t[p] as int] == slugs[t[q] as int] implies t[p] < t[q] by {
                if q < j {
                    assert(t[p] == old_order[p] && t[q] == old_order[q]);
                } else if q == j {
                    assert(t[p] == old_order[p] && t[q] == i);
                } else if p < j {
                    assert(t[p] == old_order[p] && t[q] == old_order[q - 1]);
                } else if p == j {
                    assert(t[p] == i && t[q] == old_order[q - 1]);
                    let b = slugs[old_order[j as int] as int];
                    let c = slugs[old_order[q - 1] as int];
                    if q - 1 > j {
                        assert(!str_lt(c, b));
                    }
                    assert(str_lt(x@, b));
                    if c == x@ {
                        if q - 1 == j {
                            lemma_str_lt_irreflexive(b);
                        }
                    }
                    assert(c != x@);
                } else {
                    assert(t[p] == old_order[p - 1] && t[q] == old_order[q - 1]);
                }
            }
            assert forall|p: int| 0 <= p < t.len() implies t[p] < i + 1 by {
                if p < j {
                    assert(t[p] == old_order[p]);
                } else if p > j {
                    assert(t[p] == old_order[p - 1]);
                }
            }
            assert forall|p: int, q: int| 0 <= p < q < t.len() implies t[p] != t[q] by {
                if q < j {
                    assert(t[p] == old_order[p] && t[q] == old_order[q]);
                } else if q == j {
                    assert(t[p] == old_order[p]);
                } else if p < j {
                    assert(t[p] == old_order[p] && t[q] == old_order[q - 1]);
                } else if p == j {
                    assert(t[q] == old_order[q - 1]);
                } else {
                    assert(t[p] == old_order[p - 1] && t[q] == old_order[q - 1]);
                }
            }
        }
        i = i + 1;
    }
    order
}

/// The units of the deliveries, for the listing.
fn named_units(named: &Vec<Option<String>>, events: &[WebhookEvent]) -> (r: Vec<String>)
    requires
        named@.len() == events@.len(),
        forall|k: int| 0 <= k < events@.len() ==> opt_view(#[trigger] named@[k]) == event_unit(events@[k]),
    ensures
        views(r@) == event_units(events@, events@.len() as int),
{
    let mut out: Vec<String> = Vec::new();
    let mut i: usize = 0;
    proof {
        assert(views(out@) =~= event_units(events@, 0));
    }
    while i < named.len()
        invariant
            i <= named@.len(),
            named@.len() == events@.len(),
            forall|k: int| 0 <= k < events@.len() ==> opt_view(#[trigger] named@[k]) == event_unit(events@[k]),
            views(out@) == event_units(events@, i as int),
        decreases named@.len() - i,
    {
        proof {
            assert(opt_view(named@[i as int]) == event_unit(events@[i as int]));
        }
        match &named[i] {
            Some(u) => {
                crate::text::push_str_owned(&mut out, u.as_str());
            },
            None => {},
        }
        i = i + 1;
    }
    out
}

/// The webhook status of every unit configured or named by a delivery,
/// each once, and the order in which they are listed (by slug).
pub fn webhook_statuses(configured: &[String], events: &[WebhookEvent]) -> (r: (Vec<WebhookUnitStatus>, Vec<usize>))
    ensures
        r.0@.len() == status_units(views(configured@), events@).len(),
        forall|k: int|
            0 <= k < r.0@.len() ==> (#[trigger] r.0@[k]).unit@ == status_units(views(configured@), events@)[k]
                && r.0@[k].slug@ == slug_spec(r.0@[k].unit@) && r.0@[k].stats() == unit_stats(
                events@,
                r.0@[k].unit@,
                events@.len() as int,
            ),
        is_permutation(r.1@, r.0@.len() as int),
        ordered_by_slug(r.0@.map_values(|s: WebhookUnitStatus| s.slug@), r.1@),
        stable_ties(r.0@.map_values(|s: WebhookUnitStatus| s.slug@), r.1@),
{
    let named = units_of_events(events);
    let mut all: Vec<String> = Vec::new();
    crate::text::extend_strings(&mut all, configured);
    let from_events = named_units(&named, events);
    crate::text::extend_strings(&mut all, from_events.as_slice());
    proof {
        assert(views(all@) =~= views(configured@) + event_units(events@, events@.len() as int));
    }
    let keys = crate::units::dedup_units(all.as_slice());
    let mut statuses: Vec<WebhookUnitStatus> = Vec::new();
    let mut i: usize = 0;
    while i < keys.len()
        invariant
            i <= keys@.len(),
            views(keys@) == status_units(views(configured@), events@),
            named@.len() == events@.len(),
            forall|k: int| 0 <= k < events@.len() ==> opt_view(#[trigger] named@[k]) == event_unit(events@[k]),
            statuses@.len() == i,
            forall|k: int|
                0 <= k < i ==> (#[trigger] statuses@[k]).unit@ == views(keys@)[k] && statuses@[k].slug@
                    == slug_spec(statuses@[k].unit@) && statuses@[k].stats() == unit_stats(
                    events@,
                    statuses@[k].unit@,
                    events@.len() as int,
                ),
        decreases keys@.len() - i,
    {
        proof {
            assert(views(keys@)[i as int] == keys@[i as int]@);
        }
        let st = status_of(keys[i].as_str(), events, &named);
        statuses.push(st);
        i = i + 1;
    }
    let order = slug_order(&statuses);
    (statuses, order)
}

/// The addresses of a unit's webhooks: its path, its redeploy path, and
/// both under the public base address when there is one.
pub open spec fn webhook_links_spec(slug: Seq<char>, base: Option<Seq<char>>) -> (Seq<char>, Seq<char>, Seq<char>, Seq<char>) {
    let path = "/"@ + route_prefix() + "/"@ + slug;
    let redeploy = path + "/redeploy"@;
    match base {
        Some(b) => (path, redeploy, b + path, b + redeploy),
        None => (path, redeploy, path, redeploy),
    }
}

/// The webhook and redeploy URLs of a unit's slug, relative and absolute.
pub fn webhook_links(slug: &str, base: Option<&str>) -> (r: (String, String, String, String))
    ensures
        (r.0@, r.1@, r.2@, r.3@) == webhook_links_spec(slug@, crate::config::opt_str(base)),
{
    let path = concat("/github-package-update/", slug);
    proof {
        reveal_strlit("/github-package-update/");
        reveal_strlit("/");
        reveal_strlit("github-package-update");
        assert("/github-package-update/"@ =~= "/"@ + route_prefix() + "/"@);
    }
    let redeploy = concat(path.as_str(), "/redeploy");
    match base {
        Some(b) => {
            let u1 = concat(b, path.as_str());
            let u2 = concat(b, redeploy.as_str());
            (path, redeploy, u1, u2)
        },
        None => {
            let u1 = owned(path.as_str());
            let u2 = owned(redeploy.as_str());
            (path, redeploy, u1, u2)
        },
    }
}

} // verus!
