//! The digest of the image each unit's container runs: the container is
//! chosen from `podman ps -a --format json`, its image id looked up in
//! `podman image inspect`.

use vstd::prelude::*;
use crate::text::{trim, trim_str, starts_with, str_starts_with, owned, views, opt_view, split_once, split_once_char};
use crate::json::{Json, obj_get, obj_lookup};
use crate::podman::{
    member2, as_str_spec, get2, value_str, running_spec, created_spec, image_id_spec,
    container_unit_spec, container_is_running, container_created_ts, container_image_id,
    container_unit_label,
};
use crate::sorting::{sorted_strictly, sorted_unique};

verus! {

/// What is known of the image a unit's container runs: its digest, or the
/// reason there is none.
pub struct RunningDigestInfo {
    pub digest: Option<String>,
    pub reason: Option<String>,
}

/// The items of a JSON array (none for anything else).
pub open spec fn array_items(j: Json) -> Seq<Json> {
    match j {
        Json::Array(v) => v@,
        _ => Seq::<Json>::empty(),
    }
}

/// The index of the newest container of `unit` among the first `n` items
/// (only running ones when `running_only`); the first wins among equally
/// new ones.
pub open spec fn newest_container(items: Seq<Json>, unit: Seq<char>, running_only: bool, n: int) -> Option<int>
    decreases n,
{
    if n <= 0 {
        None
    } else {
        let prev = newest_container(items, unit, running_only, n - 1);
        let e = items[n - 1];
        if container_unit_spec(e) == Some(unit) && (!running_only || running_spec(e)) {
            match prev {
                Some(p) => if created_spec(e) > created_spec(items[p]) {
                    Some(n - 1)
                } else {
                    Some(p)
                },
                None => Some(n - 1),
            }
        } else {
            prev
        }
    }
}

/// The container chosen for a unit: the newest running one, else the newest
/// of any state; `None` when the unit has no container, else the chosen
/// container's image id (if it names one).
pub open spec fn unit_choice(ps: Json, unit: Seq<char>) -> Option<Option<Seq<char>>> {
    let items = array_items(ps);
    match newest_container(items, unit, false, items.len() as int) {
        None => None,
        Some(a) => {
            let c = match newest_container(items, unit, true, items.len() as int) {
                Some(r) => r,
                None => a,
            };
            Some(image_id_spec(items[c]))
        },
    }
}

/// `newest_container` stays among the items it reads.
proof fn lemma_newest_container_in_range(items: Seq<Json>, unit: Seq<char>, running_only: bool, n: int)
    requires
        0 <= n <= items.len(),
    ensures
        newest_container(items, unit, running_only, n) matches Some(i) ==> 0 <= i < n,
    decreases n,
{
    if n > 0 {
        lemma_newest_container_in_range(items, unit, running_only, n - 1);
    }
}

/// The container choice for one unit.
pub fn unit_image_choice(ps: &Json, unit: &str) -> (r: Option<Option<String>>)
    ensures
        match r {
            None => unit_choice(*ps, unit@) is None,
            Some(id) => unit_choice(*ps, unit@) == Some(opt_view(id)),
        },
{
    let items = match ps {
        Json::Array(v) => v,
        _ => {
            return None;
        },
    };
    let ghost it = items@;
    let mut best_any: Option<usize> = None;
    let mut best_running: Option<usize> = None;
    let mut any_created: i64 = 0;
    let mut running_created: i64 = 0;
    let mut i: usize = 0;
    while i < items.len()
        invariant
            i <= items@.len(),
            it == items@,
            it == array_items(*ps),
            best_any == (match newest_container(it, unit@, false, i as int) {
                Some(k) => Some(k as usize),
                None => None::<usize>,
            }),
            best_running == (match newest_container(it, unit@, true, i as int) {
                Some(k) => Some(k as usize),
                None => None::<usize>,
            }),
            newest_container(it, unit@, false, i as int) matches Some(k) ==> 0 <= k < i && any_created
                == created_spec(it[k]),
            newest_container(it, unit@, true, i as int) matches Some(k) ==> 0 <= k < i
                && running_created == created_spec(it[k]),
        decreases items@.len() - i,
    {
        let e = &items[i];
        let matches_unit = match container_unit_label(e) {
            Some(u) => crate::text::str_eq(u.as_str(), unit),
            None => false,
        };
        if matches_unit {
            let created = container_created_ts(e);
            let take_any = match best_any {
                Some(_) => created > any_created,
                None => true,
            };
            if take_any {
                best_any = Some(i);
                any_created = created;
            }
            if container_is_running(e) {
                let take_running = match best_running {
                    Some(_) => created > running_created,
                    None => true,
                };
                if take_running {
                    best_running = Some(i);
                    running_created = created;
                }
            }
        }
        i = i + 1;
    }
    proof {
        lemma_newest_container_in_range(it, unit@, false, it.len() as int);
        lemma_newest_container_in_range(it, unit@, true, it.len() as int);
    }
    match best_any {
        None => None,
        Some(a) => {
            let c = match best_running {
                Some(r) => r,
                None => a,
            };
            Some(container_image_id(&items[c]))
        },
    }
}

/// The choice made for each unit, in order.
pub fn unit_image_choices(ps: &Json, units: &[String]) -> (r: Vec<Option<Option<String>>>)
    ensures
        r@.len() == units@.len(),
        forall|k: int|
            0 <= k < units@.len() ==> match #[trigger] r@[k] {
                None => unit_choice(*ps, units@[k]@) is None,
                Some(id) => unit_choice(*ps, units@[k]@) == Some(opt_view(id)),
            },
{
    let mut out: Vec<Option<Option<String>>> = Vec::new();
    let mut i: usize = 0;
    while i < units.len()
        invariant
            i <= units@.len(),
            out@.len() == i,
            forall|k: int|
                0 <= k < i ==> match #[trigger] out@[k] {
                    None => unit_choice(*ps, units@[k]@) is None,
                    Some(id) => unit_choice(*ps, units@[k]@) == Some(opt_view(id)),
                },
        decreases units@.len() - i,
    {
        let c = unit_image_choice(ps, units[i].as_str());
        out.push(c);
        i = i + 1;
    }
    out
}

/// The image ids chosen for some unit.
pub open spec fn chosen_ids(choices: Seq<Option<Option<String>>>) -> Seq<Seq<char>>
    decreases choices.len(),
{
    if choices.len() == 0 {
        Seq::<Seq<char>>::empty()
    } else {
        let prev = chosen_ids(choices.drop_last());
        match choices.last() {
            Some(Some(id)) => prev.push(id@),
            _ => prev,
        }
    }
}

/// The image ids to inspect: those chosen, sorted, each once.
pub fn inspect_ids(choices: &[Option<Option<String>>]) -> (r: Vec<String>)
    ensures
        sorted_strictly(views(r@)),
        forall|x: Seq<char>| views(r@).contains(x) <==> chosen_ids(choices@).contains(x),
{
    let mut ids: Vec<String> = Vec::new();
    let mut i: usize = 0;
    proof {
        assert(choices@.take(0) =~= Seq::<Option<Option<String>>>::empty());
        assert(views(ids@) =~= chosen_ids(choices@.take(0)));
    }
    while i < choices.len()
        invariant
            i <= choices@.len(),
            views(ids@) == chosen_ids(choices@.take(i as int)),
        decreases choices@.len() - i,
    {
        proof {
            assert(choices@.take(i + 1).drop_last() =~= choices@.take(i as int));
        }
        match &choices[i] {
            Some(Some(id)) => {
                let ghost prev = ids@;
                ids.push(owned(id.as_str()));
                proof {
                    assert(views(ids@) =~= views(prev).push(id@));
                }
            },
            _ => {},
        }
        i = i + 1;
    }
    proof {
        assert(choices@.take(choices@.len() as int) =~= choices@);
    }
    sorted_unique(ids.as_slice())
}

/// The arguments of `podman image inspect` for the ids (blank ones left
/// out); nothing to run when there is no id.
pub open spec fn inspect_args_spec(ids: Seq<Seq<char>>) -> Option<Seq<Seq<char>>> {
    if ids.len() == 0 {
        None
    } else {
        Some(seq!["image"@, "inspect"@] + crate::text::nonempty(ids.map_values(|x: Seq<char>| trim(x))))
    }
}

/// `podman image inspect`'s command line.
pub fn inspect_args(ids: &[String]) -> (r: Option<Vec<String>>)
    ensures
        match r {
            None => inspect_args_spec(views(ids@)) is None,
            Some(a) => inspect_args_spec(views(ids@)) == Some(views(a@)),
        },
{
    if ids.len() == 0 {
        return None;
    }
    let mut trimmed: Vec<String> = Vec::new();
    let mut i: usize = 0;
    while i < ids.len()
        invariant
            i <= ids@.len(),
            views(trimmed@) == views(ids@).take(i as int).map_values(|x: Seq<char>| trim(x)),
        decreases ids@.len() - i,
    {
        let ghost prev = trimmed@;
        trimmed.push(owned(trim_str(ids[i].as_str())));
        proof {
            assert(views(trimmed@) =~= views(prev).push(trim(ids@[i as int]@)));
            assert(views(ids@).take(i + 1).map_values(|x: Seq<char>| trim(x)) =~= views(ids@).take(
                i as int,
            ).map_values(|x: Seq<char>| trim(x)).push(trim(ids@[i as int]@)));
        }
        i = i + 1;
    }
    let kept = crate::text::drop_empty(&trimmed);
    let mut args: Vec<String> = Vec::new();
    args.push(String::from_str("image"));
    args.push(String::from_str("inspect"));
    proof {
        reveal_strlit("image");
        reveal_strlit("inspect");
        assert(views(ids@).take(ids@.len() as int) =~= views(ids@));
        assert(views(args@) =~= seq!["image"@, "inspect"@]);
    }
    crate::text::extend_strings(&mut args, kept.as_slice());
    Some(args)
}

/// The digest named by one `RepoDigests` entry: the part after `@`,
/// trimmed, when it is a `sha256:` digest.
pub open spec fn repo_digest(entry: Json) -> Option<Seq<char>> {
    match entry {
        Json::Str(raw) => match split_once(raw@, '@') {
            Some((_, d)) => if starts_with(trim(d), "sha256:"@) {
                Some(trim(d))
            } else {
                None
            },
            None => None,
        },
        _ => None,
    }
}

/// The first digest among the first `n` `RepoDigests` entries.
pub open spec fn first_repo_digest(entries: Seq<Json>, n: int) -> Option<Seq<char>>
    decreases n,
{
    if n <= 0 {
        None
    } else {
        match first_repo_digest(entries, n - 1) {
            Some(d) => Some(d),
            None => repo_digest(entries[n - 1]),
        }
    }
}

/// The first digest named in an image's `RepoDigests`.
pub open spec fn image_repo_digest(image: Json) -> Option<Seq<char>> {
    match image {
        Json::Object(m) => match obj_get(m@, "RepoDigests"@) {
            Some(Json::Array(es)) => first_repo_digest(es@, es@.len() as int),
            _ => None,
        },
        _ => None,
    }
}

/// An image's `Digest`, trimmed, when it is a `sha256:` digest.
pub open spec fn image_plain_digest(image: Json) -> Option<Seq<char>> {
    match image {
        Json::Object(m) => match obj_get(m@, "Digest"@) {
            Some(Json::Str(s)) => if starts_with(trim(s@), "sha256:"@) {
                Some(trim(s@))
            } else {
                None
            },
            _ => None,
        },
        _ => None,
    }
}

/// The id of an inspected image and its digest: `Id` (else `ID`) trimmed
/// and not blank; the digest from `RepoDigests`, else from `Digest`.
pub open spec fn inspected_image(image: Json) -> Option<(Seq<char>, Seq<char>)> {
    match crate::podman::filled(as_str_spec(member2(image, "Id"@, "ID"@))) {
        None => None,
        Some(id) => {
            let digest = match image_repo_digest(image) {
                Some(d) => Some(d),
                None => image_plain_digest(image),
            };
            match digest {
                Some(d) => Some((id, d)),
                None => None,
            }
        },
    }
}

/// The digest of one `RepoDigests` entry.
fn repo_digest_of(entry: &Json) -> (r: Option<String>)
    ensures
        opt_view(r) == repo_digest(*entry),
{
    match entry {
        Json::Str(raw) => match split_once_char(raw.as_str(), '@') {
            Some((_, d)) => {
                let t = trim_str(d.as_str());
                if str_starts_with(t, "sha256:") {
                    Some(owned(t))
                } else {
                    None
                }
            },
            None => None,
        },
        _ => None,
    }
}

/// The first `sha256:` digest named in an image's `RepoDigests`.
fn repo_digests_first(image: &Json) -> (r: Option<String>)
    ensures
        opt_view(r) == image_repo_digest(*image),
{
    let m = match image {
        Json::Object(m) => m,
        _ => {
            return None;
        },
    };
    let es = match obj_lookup(m, "RepoDigests") {
        Some(Json::Array(es)) => es,
        _ => {
            return None;
        },
    };
    let mut i: usize = 0;
    let mut found: Option<String> = None;
    while i < es.len()
        invariant_except_break
            found is None,
            first_repo_digest(es@, i as int) is None,
        invariant
            i <= es@.len(),
        ensures
            opt_view(found) == first_repo_digest(es@, es@.len() as int),
        decreases es@.len() - i,
    {
        let d = repo_digest_of(&es[i]);
        if d.is_some() {
            proof {
                lemma_first_repo_digest_stays(es@, i + 1, es@.len() as int);
            }
            found = d;
            break;
        }
        i = i + 1;
    }
    found
}

/// An image's `Digest` field, trimmed, when it is a `sha256:` digest.
fn plain_digest(image: &Json) -> (r: Option<String>)
    ensures
        opt_view(r) == image_plain_digest(*image),
{
    match image {
        Json::Object(m) => match obj_lookup(m, "Digest") {
            Some(Json::Str(s)) => {
                let t = trim_str(s.as_str());
                if str_starts_with(t, "sha256:") {
                    Some(owned(t))
                } else {
                    None
                }
            },
            _ => None,
        },
        _ => None,
    }
}

/// The id and digest of an inspected image.
pub fn inspected_image_digest(image: &Json) -> (r: Option<(String, String)>)
    ensures
        match r {
            Some((id, d)) => inspected_image(*image) == Some((id@, d@)),
            None => inspected_image(*image) is None,
        },
{
    let id = match value_str(get2(image, "Id", "ID")) {
        Some(x) => {
            let t = trim_str(x);
            if t.unicode_len() > 0 {
                owned(t)
            } else {
                return None;
            }
        },
        None => {
            return None;
        },
    };
    let from_repo = repo_digests_first(image);
    let digest = match from_repo {
        Some(d) => Some(d),
        None => plain_digest(image),
    };
    match digest {
        Some(d) => Some((id, d)),
        None => None,
    }
}

/// Once found, the first digest stays the same as more entries are read.
proof fn lemma_first_repo_digest_stays(entries: Seq<Json>, m: int, n: int)
    requires
        0 < m <= n,
        first_repo_digest(entries, m) is Some,
    ensures
        first_repo_digest(entries, n) == first_repo_digest(entries, m),
    decreases n - m,
{
    if n > m {
        lemma_first_repo_digest_stays(entries, m, n - 1);
    }
}

/// The digest recorded for an image id: that of the last inspected image
/// with this id, as later entries replace earlier ones.
pub open spec fn digest_for(images: Seq<Json>, id: Seq<char>, n: int) -> Option<Seq<char>>
    decreases n,
{
    if n <= 0 {
        None
    } else {
        match inspected_image(images[n - 1]) {
            Some((i, d)) => if i == id {
                Some(d)
            } else {
                digest_for(images, id, n - 1)
            },
            None => digest_for(images, id, n - 1),
        }
    }
}

/// The running digest of a unit from its container choice and the inspect
/// output (`None` when the inspect failed): the reasons are
/// `container-not-found`, `podman-image-inspect-failed`, `image-id-missing`
/// and `digest-missing`.
pub open spec fn running_info(choice: Option<Option<Seq<char>>>, inspect: Option<Json>) -> (Option<Seq<char>>, Option<Seq<char>>) {
    match choice {
        None => (None, Some("container-not-found"@)),
        Some(id) => match inspect {
            None => (None, Some("podman-image-inspect-failed"@)),
            Some(j) => match id {
                None => (None, Some("image-id-missing"@)),
                Some(i) => {
                    let imgs = array_items(j);
                    match digest_for(imgs, i, imgs.len() as int) {
                        Some(d) => (Some(d), None),
                        None => (None, Some("digest-missing"@)),
                    }
                },
            },
        },
    }
}

/// A digest found for an image id comes from an inspected image with that
/// id.
proof fn lemma_digest_for_source(images: Seq<Json>, id: Seq<char>, n: int)
    requires
        n <= images.len(),
        digest_for(images, id, n) is Some,
    ensures
        exists|k: int| 0 <= k < n && #[trigger] inspected_image(images[k]) == Some((id, digest_for(images, id, n)->0)),
    decreases n,
{
    if n > 0 {
        match inspected_image(images[n - 1]) {
            Some((i, d)) => if i == id {
                assert(inspected_image(images[n - 1]) == Some((id, digest_for(images, id, n)->0)));
            } else {
                lemma_digest_for_source(images, id, n - 1);
            },
            None => {
                lemma_digest_for_source(images, id, n - 1);
            },
        }
    }
}

/// Each unit gets exactly one of a running digest and a reason for its
/// absence; a digest is reported only for a unit whose container was found
/// with an image id, when the inspect output lists that image with that
/// digest.
pub proof fn lemma_running_digest_sources(choice: Option<Option<Seq<char>>>, inspect: Option<Json>)
    ensures
        (running_info(choice, inspect).0 is Some) != (running_info(choice, inspect).1 is Some),
        running_info(choice, inspect).0 matches Some(d) ==> (choice matches Some(Some(i)) && (inspect matches Some(
            j,
        ) && exists|k: int|
            0 <= k < array_items(j).len() && #[trigger] inspected_image(array_items(j)[k]) == Some((i, d)))),
{
    match (choice, inspect) {
        (Some(Some(i)), Some(j)) => {
            let imgs = array_items(j);
            if digest_for(imgs, i, imgs.len() as int) is Some {
                lemma_digest_for_source(imgs, i, imgs.len() as int);
            }
        },
        _ => {},
    }
}

/// A digest named in `RepoDigests` is a `sha256:` digest.
proof fn lemma_first_repo_digest_sha(entries: Seq<Json>, n: int)
    requires
        n <= entries.len(),
    ensures
        first_repo_digest(entries, n) matches Some(d) ==> starts_with(d, "sha256:"@),
    decreases n,
{
    if n > 0 {
        lemma_first_repo_digest_sha(entries, n - 1);
    }
}

/// The digest of an inspected image is a `sha256:` digest.
proof fn lemma_inspected_sha(image: Json)
    ensures
        inspected_image(image) matches Some((_, d)) ==> starts_with(d, "sha256:"@),
{
    match image {
        Json::Object(m) => match obj_get(m@, "RepoDigests"@) {
            Some(Json::Array(es)) => {
                lemma_first_repo_digest_sha(es@, es@.len() as int);
            },
            _ => {},
        },
        _ => {},
    }
}

/// The reasons a unit can be left without a running digest.
pub open spec fn digest_reason(r: Seq<char>) -> bool {
    ||| r == "podman-ps-failed"@
    ||| r == "container-not-found"@
    ||| r == "podman-image-inspect-failed"@
    ||| r == "image-id-missing"@
    ||| r == "digest-missing"@
}

/// A unit's entry: a `sha256:` digest or one of the reasons, never both.
pub open spec fn digest_entry_ok(e: (Option<Seq<char>>, Option<Seq<char>>)) -> bool {
    &&& (e.0 is Some) != (e.1 is Some)
    &&& (e.0 matches Some(d) ==> starts_with(d, "sha256:"@))
    &&& (e.1 matches Some(r) ==> digest_reason(r))
}

/// The running digests by unit on the `podman ps` output (`None`
/// when it failed) and the inspect output (`None` when it failed): one
/// entry per unit, in order.
pub open spec fn resolved_digests(units: Seq<Seq<char>>, ps: Option<Json>, inspect: Option<Json>) -> Seq<(Option<Seq<char>>, Option<Seq<char>>)> {
    Seq::new(
        units.len(),
        |k: int|
            match ps {
                None => (None::<Seq<char>>, Some("podman-ps-failed"@)),
                Some(p) => running_info(unit_choice(p, units[k]), inspect),
            },
    )
}

/// The running-digest law: every unit gets exactly one entry, which is a
/// `sha256:` digest of an inspected image or one of the five reasons, never
/// both; with no unit there is no entry and no image to inspect.
pub proof fn lemma_running_digests_law(units: Seq<Seq<char>>, ps: Option<Json>, inspect: Option<Json>)
    ensures
        resolved_digests(units, ps, inspect).len() == units.len(),
        forall|k: int| 0 <= k < units.len() ==> digest_entry_ok(#[trigger] resolved_digests(units, ps, inspect)[k]),
        inspect_args_spec(Seq::<Seq<char>>::empty()) is None,
{
    assert forall|k: int| 0 <= k < units.len() implies digest_entry_ok(
        #[trigger] resolved_digests(units, ps, inspect)[k],
    ) by {
        match ps {
            None => {},
            Some(p) => {
                let c = unit_choice(p, units[k]);
                lemma_running_digest_sources(c, inspect);
                match (c, inspect) {
                    (Some(Some(i)), Some(j)) => {
                        let imgs = array_items(j);
                        if digest_for(imgs, i, imgs.len() as int) is Some {
                            lemma_digest_for_source(imgs, i, imgs.len() as int);
                            let d = digest_for(imgs, i, imgs.len() as int)->0;
                            let kk = choose|kk: int| 0 <= kk < imgs.len() && #[trigger] inspected_image(imgs[kk]) == Some((i, d));
                            lemma_inspected_sha(imgs[kk]);
                        }
                    },
                    _ => {},
                }
            },
        }
    }
}

/// The digest looked up for an image id.
fn lookup_digest(images: &Vec<Json>, id: &str) -> (r: Option<String>)
    ensures
        opt_view(r) == digest_for(images@, id@, images@.len() as int),
{
    let mut i: usize = images.len();
    while i > 0
        invariant
            i <= images@.len(),
            digest_for(images@, id@, images@.len() as int) == digest_for(images@, id@, i as int),
        decreases i,
    {
        match inspected_image_digest(&images[i - 1]) {
            Some((k, d)) => {
                if crate::text::str_eq(k.as_str(), id) {
                    return Some(d);
                }
            },
            None => {},
        }
        i = i - 1;
    }
    None
}

/// The running digest of each unit from the choices made for them and the
/// inspect output (`None` when `podman image inspect` failed).
pub fn running_digests(choices: &[Option<Option<String>>], inspect: Option<&Json>) -> (r: Vec<RunningDigestInfo>)
    ensures
        r@.len() == choices@.len(),
        forall|k: int|
            0 <= k < choices@.len() ==> (opt_view(#[trigger] r@[k].digest), opt_view(r@[k].reason))
                == running_info(
                match choices@[k] {
                    None => None,
                    Some(id) => Some(opt_view(id)),
                },
                match inspect {
                    Some(j) => Some(*j),
                    None => None,
                },
            ),
{
    let empty: Vec<Json> = Vec::new();
    let images: &Vec<Json> = match inspect {
        Some(Json::Array(v)) => v,
        _ => &empty,
    };
    proof {
        if inspect is Some {
            assert(images@ == array_items(*inspect->0));
        }
    }
    let mut out: Vec<RunningDigestInfo> = Vec::new();
    let mut i: usize = 0;
    while i < choices.len()
        invariant
            i <= choices@.len(),
            out@.len() == i,
            inspect is Some ==> images@ == array_items(*inspect->0),
            forall|k: int|
                0 <= k < i ==> (opt_view(#[trigger] out@[k].digest), opt_view(out@[k].reason))
                    == running_info(
                    match choices@[k] {
                        None => None,
                        Some(id) => Some(opt_view(id)),
                    },
                    match inspect {
                        Some(j) => Some(*j),
                        None => None,
                    },
                ),
        decreases choices@.len() - i,
    {
        let info = match &choices[i] {
            None => RunningDigestInfo { digest: None, reason: Some(String::from_str("container-not-found")) },
            Some(id) => {
                if inspect.is_none() {
                    RunningDigestInfo {
                        digest: None,
                        reason: Some(String::from_str("podman-image-inspect-failed")),
                    }
                } else {
                    match id {
                        None => RunningDigestInfo {
                            digest: None,
                            reason: Some(String::from_str("image-id-missing")),
                        },
                        Some(image_id) => match lookup_digest(images, image_id.as_str()) {
                            Some(d) => RunningDigestInfo { digest: Some(d), reason: None },
                            None => RunningDigestInfo {
                                digest: None,
                                reason: Some(String::from_str("digest-missing")),
                            },
                        },
                    }
                }
            },
        };
        out.push(info);
        i = i + 1;
    }
    out
}

/// Every unit's digest is unknown because `podman ps` failed.
pub fn ps_failed_digests(n: usize) -> (r: Vec<RunningDigestInfo>)
    ensures
        r@.len() == n,
        forall|k: int|
            0 <= k < n ==> #[trigger] r@[k].digest is None && opt_view(r@[k].reason) == Some(
                "podman-ps-failed"@,
            ),
{
    let mut out: Vec<RunningDigestInfo> = Vec::new();
    let mut i: usize = 0;
    while i < n
        invariant
            i <= n,
            out@.len() == i,
            forall|k: int|
                0 <= k < i ==> #[trigger] out@[k].digest is None && opt_view(out@[k].reason) == Some(
                    "podman-ps-failed"@,
                ),
        decreases n - i,
    {
        out.push(RunningDigestInfo { digest: None, reason: Some(String::from_str("podman-ps-failed")) });
        i = i + 1;
    }
    out
}

/// The running digests by unit once `podman ps` and, when an image
/// was chosen, `podman image inspect` have run: one entry per unit, in
/// order, as `resolved_digests` states.
pub fn resolve_running_digests(units: &[String], ps: Option<&Json>, inspect: Option<&Json>) -> (r: Vec<
    RunningDigestInfo,
>)
    ensures
        r@.len() == units@.len(),
        forall|k: int|
            0 <= k < units@.len() ==> (opt_view(#[trigger] r@[k].digest), opt_view(r@[k].reason))
                == resolved_digests(
                views(units@),
                match ps {
                    Some(p) => Some(*p),
                    None => None,
                },
                match inspect {
                    Some(j) => Some(*j),
                    None => None,
                },
            )[k],
{
    match ps {
        None => ps_failed_digests(units.len()),
        Some(p) => {
            let choices = unit_image_choices(p, units);
            let out = running_digests(choices.as_slice(), inspect);
            proof {
                assert forall|k: int| 0 <= k < units@.len() implies (opt_view(#[trigger] out@[k].digest), opt_view(
                    out@[k].reason,
                )) == resolved_digests(
                    views(units@),
                    Some(*p),
                    match inspect {
                        Some(j) => Some(*j),
                        None => None,
                    },
                )[k] by {
                    assert(views(units@)[k] == units@[k]@);
                    match choices@[k] {
                        None => {},
                        Some(id) => {},
                    }
                }
            }
            out
        },
    }
}

} // verus!
