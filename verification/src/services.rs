//! The list of manually managed services: each unit's slug, webhook path,
//! origin and image, and whether a newer image is available for it.

use vstd::prelude::*;
use crate::text::{
    trim, trim_str, lower, to_ascii_lowercase, str_eq, concat, owned, views, opt_view,
    trim_start_matches_char, trim_end_matches_char,
};
use crate::units::{route_prefix, trim_matches_char, contains_string_slice};
use crate::quadlet::{trim_end_str, trim_end_service};
use crate::images::{ParsedManualUpdateImage, manual_image_spec, parse_manual_update_image};
use crate::registry::RegistryDigestRecord;
use crate::digests::RunningDigestInfo;
use crate::sorting::{sorted_strictly, sorted_unique};

verus! {

/// A service's slug: the unit name trimmed, without surrounding `/` and
/// without its `.service` suffixes.
pub open spec fn slug_spec(unit: Seq<char>) -> Seq<char> {
    trim_end_str(trim_matches_char(trim(unit), '/'), ".service"@)
}

/// The images a manual update of a service compares: from its configured
/// image, or `image-missing` when it has none.
pub open spec fn update_image_spec(default_image: Option<Seq<char>>) -> Result<(Seq<char>, Seq<char>, Option<Seq<char>>), Seq<char>> {
    match default_image {
        None => Err("image-missing"@),
        Some(i) => manual_image_spec(i),
    }
}

/// The view of a parsed update image, or of its error.
pub open spec fn parsed_view(p: Result<ParsedManualUpdateImage, String>) -> Result<(Seq<char>, Seq<char>, Option<Seq<char>>), Seq<char>> {
    match p {
        Ok(x) => Ok((x.tag@, x.image_tag@, opt_view(x.image_latest))),
        Err(e) => Err(e@),
    }
}

/// A service as listed, before its update state is known.
pub struct ServiceDraft {
    pub slug: String,
    pub unit: String,
    pub display_name: String,
    pub default_image: Option<String>,
    pub github_path: String,
    pub source: String,
    pub is_auto_update: bool,
    pub update_image: Result<ParsedManualUpdateImage, String>,
}

/// A service's slug.
pub fn service_slug(unit: &str) -> (r: String)
    ensures
        r@ == slug_spec(unit@),
{
    let t = trim_str(unit);
    let a = trim_start_matches_char(t, '/');
    let b = trim_end_matches_char(a, '/');
    owned(trim_end_service(b))
}

/// The listing of one unit: its slug, webhook path, whether discovery found
/// it, whether it is the auto-update unit, and its update images.
pub fn service_draft(unit: &str, default_image: Option<String>, discovered: &[String], auto_update_unit: &str) -> (r: ServiceDraft)
    ensures
        r.slug@ == slug_spec(unit@),
        r.unit@ == unit@,
        r.display_name@ == unit@,
        opt_view(r.default_image) == opt_view(default_image),
        r.github_path@ == "/"@ + route_prefix() + "/"@ + slug_spec(unit@),
        r.source@ == (if views(discovered@).contains(unit@) {
            "discovered"@
        } else {
            "manual"@
        }),
        r.is_auto_update == (unit@ == auto_update_unit@),
        parsed_view(r.update_image) == update_image_spec(opt_view(default_image)),
{
    let slug = service_slug(unit);
    let head = concat("/github-package-update/", slug.as_str());
    proof {
        reveal_strlit("/github-package-update/");
        reveal_strlit("/");
        reveal_strlit("github-package-update");
        assert("/github-package-update/"@ =~= "/"@ + route_prefix() + "/"@);
    }
    let source = if contains_string_slice(discovered, unit) {
        String::from_str("discovered")
    } else {
        String::from_str("manual")
    };
    let update_image = match &default_image {
        None => Err(String::from_str("image-missing")),
        Some(img) => parse_manual_update_image(img.as_str()),
    };
    ServiceDraft {
        slug,
        unit: owned(unit),
        display_name: owned(unit),
        default_image,
        github_path: head,
        source,
        is_auto_update: str_eq(unit, auto_update_unit),
        update_image,
    }
}

/// The images whose remote digests the listing needs: each parsed
/// service's tagged image and, where there is one, its `latest` image.
pub open spec fn draft_images(ds: Seq<ServiceDraft>) -> Seq<Seq<char>>
    decreases ds.len(),
{
    if ds.len() == 0 {
        Seq::<Seq<char>>::empty()
    } else {
        let prev = draft_images(ds.drop_last());
        match ds.last().update_image {
            Ok(p) => match p.image_latest {
                Some(l) => prev.push(p.image_tag@).push(l@),
                None => prev.push(p.image_tag@),
            },
            Err(_) => prev,
        }
    }
}

/// The images to resolve, sorted, each once.
pub fn update_images(drafts: &[ServiceDraft]) -> (r: Vec<String>)
    ensures
        sorted_strictly(views(r@)),
        forall|x: Seq<char>| views(r@).contains(x) <==> draft_images(drafts@).contains(x),
{
    let mut all: Vec<String> = Vec::new();
    let mut i: usize = 0;
    proof {
        assert(drafts@.take(0) =~= Seq::<ServiceDraft>::empty());
        assert(views(all@) =~= draft_images(drafts@.take(0)));
    }
    while i < drafts.len()
        invariant
            i <= drafts@.len(),
            views(all@) == draft_images(drafts@.take(i as int)),
        decreases drafts@.len() - i,
    {
        proof {
            assert(drafts@.take(i + 1).drop_last() =~= drafts@.take(i as int));
        }
        match &drafts[i].update_image {
            Ok(p) => {
                let ghost prev = views(all@);
                all.push(owned(p.image_tag.as_str()));
                match &p.image_latest {
                    Some(l) => {
                        all.push(owned(l.as_str()));
                        proof {
                            assert(views(all@) =~= prev.push(p.image_tag@).push(l@));
                        }
                    },
                    None => {
                        proof {
                            assert(views(all@) =~= prev.push(p.image_tag@));
                        }
                    },
                }
            },
            Err(_) => {},
        }
        i = i + 1;
    }
    proof {
        assert(drafts@.take(drafts@.len() as int) =~= drafts@);
    }
    sorted_unique(all.as_slice())
}

/// The value stored under `key` in a list of entries read as a map built
/// by inserting them in order: the last entry with that key.
pub open spec fn last_value<V>(entries: Seq<(String, V)>, key: Seq<char>) -> Option<V>
    decreases entries.len(),
{
    if entries.len() == 0 {
        None
    } else if entries.last().0@ == key {
        Some(entries.last().1)
    } else {
        last_value(entries.drop_last(), key)
    }
}

/// Looks up the index of the entry `last_value` reads.
pub fn last_index_of_key<V>(entries: &[(String, V)], key: &str) -> (r: Option<usize>)
    ensures
        match r {
            Some(i) => i < entries@.len() && last_value(entries@, key@) == Some(entries@[i as int].1),
            None => last_value(entries@, key@) is None,
        },
{
    let mut i: usize = entries.len();
    proof {
        assert(entries@.take(i as int) =~= entries@);
    }
    while i > 0
        invariant
            i <= entries@.len(),
            last_value(entries@, key@) == last_value(entries@.take(i as int), key@),
        decreases i,
    {
        proof {
            assert(entries@.take(i as int).last() == entries@[i - 1]);
            assert(entries@.take(i as int).drop_last() =~= entries@.take(i - 1));
        }
        if str_eq(entries[i - 1].0.as_str(), key) {
            return Some(i - 1);
        }
        i = i - 1;
    }
    None
}

/// The digest a registry record found, if any.
pub open spec fn rec_digest(r: Option<RegistryDigestRecord>) -> Option<Seq<char>> {
    match r {
        Some(x) => opt_view(x.digest),
        None => None,
    }
}

/// Status and reason of a service's update state from the tag of its
/// image, its running digest (or the reason there is none), the registry
/// records for its tagged and `latest` images, and whether the database is
/// down.
pub open spec fn update_status(
    tag: Seq<char>,
    running: Option<Seq<char>>,
    running_reason: Option<Seq<char>>,
    tag_rec: Option<RegistryDigestRecord>,
    latest_rec: Option<RegistryDigestRecord>,
    db_unavailable: bool,
) -> (Seq<char>, Seq<char>) {
    let tag_d = rec_digest(tag_rec);
    let latest_d = rec_digest(latest_rec);
    if running is Some && tag_d is Some {
        if running != tag_d {
            ("tag_update_available"@, "tag-digest-changed"@)
        } else if lower(tag) != "latest"@ && latest_d is Some && latest_d != tag_d {
            ("latest_ahead"@, "latest-digest-ahead"@)
        } else {
            ("up_to_date"@, "up-to-date"@)
        }
    } else {
        (
            "unknown"@,
            if db_unavailable {
                "db-unavailable"@
            } else if running is None {
                match running_reason {
                    Some(x) => x,
                    None => "digest-missing"@,
                }
            } else if tag_rec is Some {
                match opt_view(tag_rec->0.error) {
                    Some(e) => e,
                    None => "digest-missing"@,
                }
            } else {
                "remote-unavailable"@
            },
        )
    }
}

/// The later of the records' check times.
pub open spec fn checked_at_of(tag_rec: Option<RegistryDigestRecord>, latest_rec: Option<RegistryDigestRecord>) -> Option<i64> {
    match (tag_rec, latest_rec) {
        (Some(t), Some(l)) => Some(if t.checked_at >= l.checked_at {
            t.checked_at
        } else {
            l.checked_at
        }),
        (Some(t), None) => Some(t.checked_at),
        (None, Some(l)) => Some(l.checked_at),
        (None, None) => None,
    }
}

/// Whether either record is stale.
pub open spec fn stale_of(tag_rec: Option<RegistryDigestRecord>, latest_rec: Option<RegistryDigestRecord>) -> Option<bool> {
    match (tag_rec, latest_rec) {
        (Some(t), Some(l)) => Some(t.stale || l.stale),
        (Some(t), None) => Some(t.stale),
        (None, Some(l)) => Some(l.stale),
        (None, None) => None,
    }
}

/// The update state of a listed service.
pub struct ServiceUpdate {
    pub status: String,
    pub reason: String,
    pub tag: Option<String>,
    pub running_digest: Option<String>,
    pub remote_tag_digest: Option<String>,
    pub remote_latest_digest: Option<String>,
    pub checked_at: Option<i64>,
    pub stale: Option<bool>,
}

/// The running digest a unit is listed with: the one resolved for it, else
/// none because no container was found.
pub open spec fn running_of(running: Seq<(String, RunningDigestInfo)>, unit: Seq<char>) -> (Option<Seq<char>>, Option<Seq<char>>) {
    match last_value(running, unit) {
        Some(info) => (opt_view(info.digest), opt_view(info.reason)),
        None => (None, Some("container-not-found"@)),
    }
}

/// The update state of a service from the running digests by unit and the
/// registry records by image.
pub open spec fn service_update_spec(
    d: ServiceDraft,
    running: Seq<(String, RunningDigestInfo)>,
    records: Seq<(String, RegistryDigestRecord)>,
    db_unavailable: bool,
) -> ServiceUpdateView {
    match d.update_image {
        Err(e) => ServiceUpdateView {
            status: "unknown"@,
            reason: e@,
            tag: None,
            running_digest: None,
            remote_tag_digest: None,
            remote_latest_digest: None,
            checked_at: None,
            stale: None,
        },
        Ok(p) => {
            let (rd, rr) = running_of(running, d.unit@);
            let tag_rec = last_value(records, p.image_tag@);
            let latest_rec = match p.image_latest {
                Some(l) => last_value(records, l@),
                None => None,
            };
            let (status, reason) = update_status(p.tag@, rd, rr, tag_rec, latest_rec, db_unavailable);
            ServiceUpdateView {
                status,
                reason,
                tag: Some(p.tag@),
                running_digest: rd,
                remote_tag_digest: rec_digest(tag_rec),
                remote_latest_digest: rec_digest(latest_rec),
                checked_at: checked_at_of(tag_rec, latest_rec),
                stale: stale_of(tag_rec, latest_rec),
            }
        },
    }
}

/// A `ServiceUpdate` in terms of character sequences.
pub struct ServiceUpdateView {
    pub status: Seq<char>,
    pub reason: Seq<char>,
    pub tag: Option<Seq<char>>,
    pub running_digest: Option<Seq<char>>,
    pub remote_tag_digest: Option<Seq<char>>,
    pub remote_latest_digest: Option<Seq<char>>,
    pub checked_at: Option<i64>,
    pub stale: Option<bool>,
}

impl ServiceUpdate {
    /// The update state with texts as character sequences.
    pub open spec fn view_of(self) -> ServiceUpdateView {
        ServiceUpdateView {
            status: self.status@,
            reason: self.reason@,
            tag: opt_view(self.tag),
            running_digest: opt_view(self.running_digest),
            remote_tag_digest: opt_view(self.remote_tag_digest),
            remote_latest_digest: opt_view(self.remote_latest_digest),
            checked_at: self.checked_at,
            stale: self.stale,
        }
    }
}

/// A copy of an optional string.
fn copy_opt(o: &Option<String>) -> (r: Option<String>)
    ensures
        opt_view(r) == opt_view(*o),
{
    match o {
        Some(s) => Some(owned(s.as_str())),
        None => None,
    }
}

/// The update state of one listed service.
pub fn service_update(
    d: &ServiceDraft,
    running: &[(String, RunningDigestInfo)],
    records: &[(String, RegistryDigestRecord)],
    db_unavailable: bool,
) -> (r: ServiceUpdate)
    ensures
        r.view_of() == service_update_spec(*d, running@, records@, db_unavailable),
{
    let p = match &d.update_image {
        Err(e) => {
            return ServiceUpdate {
                status: String::from_str("unknown"),
                reason: owned(e.as_str()),
                tag: None,
                running_digest: None,
                remote_tag_digest: None,
                remote_latest_digest: None,
                checked_at: None,
                stale: None,
            };
        },
        Ok(p) => p,
    };
    let (rd, rr) = match last_index_of_key(running, d.unit.as_str()) {
        Some(k) => (copy_opt(&running[k].1.digest), copy_opt(&running[k].1.reason)),
        None => (None, Some(String::from_str("container-not-found"))),
    };
    let tag_rec: Option<&RegistryDigestRecord> = match last_index_of_key(records, p.image_tag.as_str()) {
        Some(k) => Some(&records[k].1),
        None => None,
    };
    let latest_rec: Option<&RegistryDigestRecord> = match &p.image_latest {
        Some(l) => match last_index_of_key(records, l.as_str()) {
            Some(k) => Some(&records[k].1),
            None => None,
        },
        None => None,
    };
    let ghost tr = match tag_rec {
        Some(x) => Some(*x),
        None => None,
    };
    let ghost lr = match latest_rec {
        Some(x) => Some(*x),
        None => None,
    };
    let tag_d: Option<String> = match tag_rec {
        Some(x) => copy_opt(&x.digest),
        None => None,
    };
    let latest_d: Option<String> = match latest_rec {
        Some(x) => copy_opt(&x.digest),
        None => None,
    };
    let (status, reason) = match (&rd, &tag_d) {
        (Some(running_digest), Some(tag_digest)) => {
            if !str_eq(running_digest.as_str(), tag_digest.as_str()) {
                (String::from_str("tag_update_available"), String::from_str("tag-digest-changed"))
            } else {
                let low = to_ascii_lowercase(p.tag.as_str());
                let latest_differs = match &latest_d {
                    Some(ld) => !str_eq(ld.as_str(), tag_digest.as_str()),
                    None => false,
                };
                if !str_eq(low.as_str(), "latest") && latest_differs {
                    (String::from_str("latest_ahead"), String::from_str("latest-digest-ahead"))
                } else {
                    (String::from_str("up_to_date"), String::from_str("up-to-date"))
                }
            }
        },
        _ => {
            let reason = if db_unavailable {
                String::from_str("db-unavailable")
            } else if rd.is_none() {
                match &rr {
                    Some(x) => owned(x.as_str()),
                    None => String::from_str("digest-missing"),
                }
            } else {
                match tag_rec {
                    Some(t) => match &t.error {
                        Some(e) => owned(e.as_str()),
                        None => String::from_str("digest-missing"),
                    },
                    None => String::from_str("remote-unavailable"),
                }
            };
            (String::from_str("unknown"), reason)
        },
    };
    let checked_at = match (tag_rec, latest_rec) {
        (Some(t), Some(l)) => Some(if t.checked_at >= l.checked_at {
            t.checked_at
        } else {
            l.checked_at
        }),
        (Some(t), None) => Some(t.checked_at),
        (None, Some(l)) => Some(l.checked_at),
        (None, None) => None,
    };
    let stale = match (tag_rec, latest_rec) {
        (Some(t), Some(l)) => Some(t.stale || l.stale),
        (Some(t), None) => Some(t.stale),
        (None, Some(l)) => Some(l.stale),
        (None, None) => None,
    };
    proof {
        assert(tr == last_value(records@, p.image_tag@));
        assert(rec_digest(tr) == opt_view(tag_d));
        assert(rec_digest(lr) == opt_view(latest_d));
    }
    ServiceUpdate {
        status,
        reason,
        tag: Some(owned(p.tag.as_str())),
        running_digest: rd,
        remote_tag_digest: tag_d,
        remote_latest_digest: latest_d,
        checked_at,
        stale,
    }
}

/// The update state of every listed service, in order.
pub fn service_updates(
    drafts: &[ServiceDraft],
    running: &[(String, RunningDigestInfo)],
    records: &[(String, RegistryDigestRecord)],
    db_unavailable: bool,
) -> (r: Vec<ServiceUpdate>)
    ensures
        r@.len() == drafts@.len(),
        forall|k: int|
            0 <= k < drafts@.len() ==> (#[trigger] r@[k]).view_of() == service_update_spec(
                drafts@[k],
                running@,
                records@,
                db_unavailable,
            ),
{
    let mut out: Vec<ServiceUpdate> = Vec::new();
    let mut i: usize = 0;
    while i < drafts.len()
        invariant
            i <= drafts@.len(),
            out@.len() == i,
            forall|k: int|
                0 <= k < i ==> (#[trigger] out@[k]).view_of() == service_update_spec(
                    drafts@[k],
                    running@,
                    records@,
                    db_unavailable,
                ),
        decreases drafts@.len() - i,
    {
        let u = service_update(&drafts[i], running, records, db_unavailable);
        out.push(u);
        i = i + 1;
    }
    out
}

/// The units the service manages: those configured, in order, then each
/// discovered unit not yet listed.
pub open spec fn merge_units(configured: Seq<Seq<char>>, discovered: Seq<Seq<char>>) -> Seq<Seq<char>>
    decreases discovered.len(),
{
    if discovered.len() == 0 {
        configured
    } else {
        let m = merge_units(configured, discovered.drop_last());
        if m.contains(discovered.last()) {
            m
        } else {
            m.push(discovered.last())
        }
    }
}

/// The managed units from the configured and the discovered units.
pub fn merge_unit_lists(configured: &[String], discovered: &[String]) -> (r: Vec<String>)
    ensures
        views(r@) == merge_units(views(configured@), views(discovered@)),
{
    let mut out: Vec<String> = Vec::new();
    crate::text::extend_strings(&mut out, configured);
    let mut i: usize = 0;
    proof {
        assert(views(out@) =~= views(configured@));
        assert(views(discovered@).take(0) =~= Seq::<Seq<char>>::empty());
    }
    while i < discovered.len()
        invariant
            i <= discovered@.len(),
            views(out@) == merge_units(views(configured@), views(discovered@).take(i as int)),
        decreases discovered@.len() - i,
    {
        proof {
            assert(views(discovered@).take(i + 1).drop_last() =~= views(discovered@).take(i as int));
            assert(views(discovered@).take(i + 1).last() == discovered@[i as int]@);
        }
        if !crate::units::contains_string(&out, discovered[i].as_str()) {
            crate::text::push_str_owned(&mut out, discovered[i].as_str());
        }
        i = i + 1;
    }
    proof {
        assert(views(discovered@).take(discovered@.len() as int) =~= views(discovered@));
    }
    out
}

} // verus!
