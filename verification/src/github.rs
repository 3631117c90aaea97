//! GitHub integration: the image named by a package webhook, the events
//! accepted, the latest release and the version comparison.

use vstd::prelude::*;
use crate::text::{trim, trim_str, lower, to_ascii_lowercase, str_eq, concat, owned, split, split_char, views, trim_start_char, trim_start_matches_char, unicode_lower, str_to_lowercase, opt_view};
use crate::json::{Json, pointer_spec, str_at, json_pointer, pointer_as_str};
use crate::images::{payload_registry_host_spec, payload_registry_host};

verus! {

/// The first tag of a tag list that is a non-blank string, trimmed.
pub open spec fn first_tag(tags: Seq<Json>) -> Option<Seq<char>>
    decreases tags.len(),
{
    if tags.len() == 0 {
        None
    } else {
        match tags[0] {
            Json::Str(s) => if trim(s@).len() > 0 {
                Some(trim(s@))
            } else {
                first_tag(tags.drop_first())
            },
            _ => first_tag(tags.drop_first()),
        }
    }
}

/// The first of two optional values that is present.
pub open spec fn or_else(a: Option<Seq<char>>, b: Option<Seq<char>>) -> Option<Seq<char>> {
    match a {
        Some(x) => Some(x),
        None => b,
    }
}

/// The tag found under one package-version node: the first non-blank entry
/// of `metadata/container/tags`, else the non-blank tag name.
pub open spec fn tag_from_base(j: Json, base: Seq<char>) -> Option<Seq<char>> {
    let from_list = match pointer_spec(j, base + "/metadata/container/tags"@) {
        Some(Json::Array(a)) => first_tag(a@),
        _ => None,
    };
    match from_list {
        Some(t) => Some(t),
        None => match or_else(
            str_at(j, base + "/container_metadata/tag/name"@),
            str_at(j, base + "/metadata/container/tag_name"@),
        ) {
            Some(n) => if trim(n).len() > 0 {
                Some(trim(n))
            } else {
                None
            },
            None => None,
        },
    }
}

/// `extract_primary_tag`: the tag under `/package_version`, else under
/// `/registry_package/package_version`.
pub open spec fn primary_tag_spec(j: Json) -> Option<Seq<char>> {
    or_else(tag_from_base(j, "/package_version"@), tag_from_base(j, "/registry_package/package_version"@))
}

/// The first non-blank string of a tag list.
fn first_tag_of(tags: &Vec<Json>) -> (r: Option<String>)
    ensures
        r matches Some(t) ==> first_tag(tags@) == Some(t@),
        r is None ==> first_tag(tags@) is None,
{
    let mut i: usize = 0;
    proof {
        assert(tags@.skip(0) =~= tags@);
    }
    while i < tags.len()
        invariant
            i <= tags@.len(),
            first_tag(tags@) == first_tag(tags@.skip(i as int)),
        decreases tags@.len() - i,
    {
        proof {
            assert(tags@.skip(i as int).drop_first() =~= tags@.skip(i + 1));
            assert(tags@.skip(i as int)[0] == tags@[i as int]);
        }
        match &tags[i] {
            Json::Str(s) => {
                let t = trim_str(s.as_str());
                if t.unicode_len() > 0 {
                    return Some(owned(t));
                }
            },
            _ => {},
        }
        i = i + 1;
    }
    None
}

/// The tag under one package-version node.
fn tag_under(j: &Json, base: &str) -> (r: Option<String>)
    ensures
        r matches Some(t) ==> tag_from_base(*j, base@) == Some(t@),
        r is None ==> tag_from_base(*j, base@) is None,
{
    let p1 = concat(base, "/metadata/container/tags");
    match json_pointer(j, p1.as_str()) {
        Some(Json::Array(a)) => match first_tag_of(a) {
            Some(t) => {
                return Some(t);
            },
            None => {},
        },
        _ => {},
    }
    let p2 = concat(base, "/container_metadata/tag/name");
    let p3 = concat(base, "/metadata/container/tag_name");
    let name = match pointer_as_str(j, p2.as_str()) {
        Some(n) => Some(n),
        None => pointer_as_str(j, p3.as_str()),
    };
    match name {
        Some(n) => {
            let t = trim_str(n);
            if t.unicode_len() > 0 {
                Some(owned(t))
            } else {
                None
            }
        },
        None => None,
    }
}

/// The first tag a package event names, read from `package_version`, else
/// from `registry_package.package_version`.
pub fn extract_primary_tag(j: &Json) -> (r: Option<String>)
    ensures
        r matches Some(t) ==> primary_tag_spec(*j) == Some(t@),
        r is None ==> primary_tag_spec(*j) is None,
{
    match tag_under(j, "/package_version") {
        Some(t) => Some(t),
        None => tag_under(j, "/registry_package/package_version"),
    }
}

/// The node that describes the package.
pub open spec fn package_base(j: Json) -> Option<Seq<char>> {
    if pointer_spec(j, "/package"@) is Some {
        Some("/package"@)
    } else if pointer_spec(j, "/registry_package"@) is Some {
        Some("/registry_package"@)
    } else {
        None
    }
}

/// The value, or the empty text.
pub open spec fn or_empty(a: Option<Seq<char>>) -> Seq<char> {
    match a {
        Some(x) => x,
        None => Seq::<char>::empty(),
    }
}

/// The container image of a package event from a parsed payload: the registry host, the
/// lowercased owner (when known) and package name, and the primary tag, as
/// `host/owner/name:tag`. Errors name the first thing missing.
pub open spec fn container_image_spec(j: Json) -> Result<Seq<char>, Seq<char>> {
    match package_base(j) {
        None => Err("missing-package-node"@),
        Some(base) => {
            let pt = or_empty(str_at(j, base + "/package_type"@));
            if lower(pt) != "container"@ {
                Err("unsupported-package-type:"@ + pt)
            } else {
                match str_at(j, base + "/name"@) {
                    None => Err("missing-package-name"@),
                    Some(name) => {
                        let owner = or_empty(
                            or_else(
                                str_at(j, base + "/owner/login"@),
                                or_else(
                                    str_at(j, base + "/repository/owner/login"@),
                                    or_else(
                                        str_at(j, base + "/namespace"@),
                                        str_at(j, "/repository/owner/login"@),
                                    ),
                                ),
                            ),
                        );
                        let host_raw = match or_else(
                            str_at(j, "/registry/host"@),
                            str_at(j, "/registry/url"@),
                        ) {
                            Some(h) => h,
                            None => "ghcr.io"@,
                        };
                        match primary_tag_spec(j) {
                            None => Err("missing-tag"@),
                            Some(tag) => Ok(
                                payload_registry_host_spec(host_raw) + "/"@ + (if owner.len() > 0 {
                                    unicode_lower(owner) + "/"@
                                } else {
                                    Seq::<char>::empty()
                                }) + unicode_lower(name) + ":"@ + tag,
                            ),
                        }
                    },
                }
            }
        },
    }
}

/// The first of two pointer strings that is present.
fn first_str_at<'a>(j: &'a Json, a: &str, b: &str) -> (r: Option<&'a str>)
    ensures
        r matches Some(s) ==> or_else(str_at(*j, a@), str_at(*j, b@)) == Some(s@),
        r is None ==> or_else(str_at(*j, a@), str_at(*j, b@)) is None,
{
    match pointer_as_str(j, a) {
        Some(s) => Some(s),
        None => pointer_as_str(j, b),
    }
}

/// The container image of a package event once the body is parsed.
pub fn extract_container_image_value(j: &Json) -> (r: Result<String, String>)
    ensures
        r matches Ok(img) ==> container_image_spec(*j) == Ok::<Seq<char>, Seq<char>>(img@),
        r matches Err(e) ==> container_image_spec(*j) == Err::<Seq<char>, Seq<char>>(e@),
{
    let base: &str = if json_pointer(j, "/package").is_some() {
        "/package"
    } else if json_pointer(j, "/registry_package").is_some() {
        "/registry_package"
    } else {
        return Err(String::from_str("missing-package-node"));
    };
    proof {
        reveal_strlit("/package");
        reveal_strlit("/registry_package");
        assert(package_base(*j) == Some(base@));
    }
    let pt_path = concat(base, "/package_type");
    let pt = match pointer_as_str(j, pt_path.as_str()) {
        Some(s) => s,
        None => "",
    };
    proof {
        reveal_strlit("");
    }
    let pt_low = to_ascii_lowercase(pt);
    proof {
        assert(pt@ == or_empty(str_at(*j, base@ + "/package_type"@)));
    }
    if !str_eq(pt_low.as_str(), "container") {
        let e = concat("unsupported-package-type:", pt);
        proof {
            assert(lower(pt@) != "container"@);
            assert(container_image_spec(*j) == Err::<Seq<char>, Seq<char>>(e@));
        }
        return Err(e);
    }
    let name_path = concat(base, "/name");
    let name = match pointer_as_str(j, name_path.as_str()) {
        Some(n) => n,
        None => {
            return Err(String::from_str("missing-package-name"));
        },
    };
    let o1 = concat(base, "/owner/login");
    let o2 = concat(base, "/repository/owner/login");
    let o3 = concat(base, "/namespace");
    let owner = match pointer_as_str(j, o1.as_str()) {
        Some(s) => s,
        None => match first_str_at(j, o2.as_str(), o3.as_str()) {
            Some(s) => s,
            None => match pointer_as_str(j, "/repository/owner/login") {
                Some(s) => s,
                None => "",
            },
        },
    };
    let host_raw = match first_str_at(j, "/registry/host", "/registry/url") {
        Some(h) => h,
        None => "ghcr.io",
    };
    let registry = payload_registry_host(host_raw);
    let tag = match extract_primary_tag(j) {
        Some(t) => t,
        None => {
            return Err(String::from_str("missing-tag"));
        },
    };
    let mut image = concat(registry.as_str(), "/");
    if owner.unicode_len() > 0 {
        let lo = str_to_lowercase(owner);
        image = concat(image.as_str(), lo.as_str());
        image = concat(image.as_str(), "/");
    }
    let ln = str_to_lowercase(name);
    image = concat(image.as_str(), ln.as_str());
    image = concat(image.as_str(), ":");
    image = concat(image.as_str(), tag.as_str());
    proof {
        let owner_part = if owner@.len() > 0 {
            unicode_lower(owner@) + "/"@
        } else {
            Seq::<char>::empty()
        };
        assert(image@ =~= payload_registry_host_spec(host_raw@) + "/"@ + owner_part
            + unicode_lower(name@) + ":"@ + tag@);
    }
    Ok(image)
}

/// Whether an event is accepted: every event when the allow list is blank,
/// else when some non-blank entry of the comma-separated list, trimmed and
/// lowercased, equals the lowercased event.
pub open spec fn event_allowed_spec(event: Seq<char>, filters: Option<Seq<char>>) -> bool {
    let f = match filters {
        Some(x) => x,
        None => Seq::<char>::empty(),
    };
    trim(f).len() == 0 || listed(f, event)
}

/// Some entry of the comma-separated list admits the event.
pub open spec fn listed(f: Seq<char>, event: Seq<char>) -> bool {
    exists|i: int| 0 <= i < split(f, ',').len() && #[trigger] entry_allows(split(f, ',')[i], event)
}

/// One allow-list entry admits the event.
pub open spec fn entry_allows(entry: Seq<char>, event: Seq<char>) -> bool {
    let a = unicode_lower(trim(entry));
    a.len() > 0 && a == unicode_lower(event)
}

/// Any entry of a comma-separated allow list admits the event it names
/// (compared trimmed and lowercased), the first entry as well as the others.
pub proof fn lemma_listed_event_allowed(event: Seq<char>, f: Seq<char>, i: int)
    requires
        0 <= i < split(f, ',').len(),
        unicode_lower(trim(split(f, ',')[i])).len() > 0,
        unicode_lower(trim(split(f, ',')[i])) == unicode_lower(event),
    ensures
        event_allowed_spec(event, Some(f)),
{
    assert(entry_allows(split(f, ',')[i], event));
}

/// A non-blank allow list refuses an event that none of its entries names.
pub proof fn lemma_unlisted_event_refused(event: Seq<char>, f: Seq<char>)
    requires
        trim(f).len() > 0,
        forall|i: int|
            0 <= i < split(f, ',').len() ==> unicode_lower(trim(#[trigger] split(f, ',')[i]))
                != unicode_lower(event) || unicode_lower(trim(split(f, ',')[i])).len() == 0,
    ensures
        !event_allowed_spec(event, Some(f)),
{
    assert forall|i: int| 0 <= i < split(f, ',').len() implies !#[trigger] entry_allows(
        split(f, ',')[i],
        event,
    ) by {}
}

/// A blank or missing allow list admits every event.
pub proof fn lemma_blank_list_allows_all(event: Seq<char>, filters: Option<Seq<char>>)
    requires
        match filters {
            Some(f) => trim(f).len() == 0,
            None => true,
        },
    ensures
        event_allowed_spec(event, filters),
{
    assert(trim(Seq::<char>::empty()) =~= Seq::<char>::empty()) by {
        crate::host::lemma_trim_no_ws(Seq::<char>::empty());
    }
}

/// `github_event_allowed` from the raw allow list setting.
#[verifier::loop_isolation(false)]
pub fn github_event_allowed(event: &str, filters: Option<&str>) -> (r: bool)
    ensures
        r == event_allowed_spec(
            event@,
            match filters {
                Some(x) => Some(x@),
                None => None,
            },
        ),
{
    let f = match filters {
        Some(x) => x,
        None => "",
    };
    proof {
        reveal_strlit("");
    }
    if trim_str(f).unicode_len() == 0 {
        return true;
    }
    let want = str_to_lowercase(event);
    let parts = split_char(f, ',');
    let ghost ps = split(f@, ',');
    let mut i: usize = 0;
    while i < parts.len()
        invariant
            i <= parts@.len(),
            views(parts@) == ps,
            ps == split(f@, ','),
            want@ == unicode_lower(event@),
            forall|k: int| 0 <= k < i ==> !#[trigger] entry_allows(ps[k], event@),
        decreases parts@.len() - i,
    {
        proof {
            assert(views(parts@)[i as int] == parts@[i as int]@);
        }
        let a = str_to_lowercase(trim_str(parts[i].as_str()));
        if a.unicode_len() > 0 && str_eq(a.as_str(), want.as_str()) {
            proof {
                assert(entry_allows(ps[i as int], event@));
                let fs: Option<Seq<char>> = match filters {
                    Some(x) => Some(x@),
                    None => None,
                };
                let ff = match fs {
                    Some(x) => x,
                    None => Seq::<char>::empty(),
                };
                assert(ff == f@);
                assert(entry_allows(split(ff, ',')[i as int], event@));
                assert(0 <= i < split(ff, ',').len());
                assert(trim(ff).len() != 0);
                assert(event_allowed_spec(event@, fs));
            }
            return true;
        }
        i = i + 1;
    }
    false
}

/// The release a GitHub API answer describes.
#[derive(Debug)]
pub struct GitHubReleaseResponse {
    pub tag_name: Option<String>,
    pub published_at: Option<String>,
}

/// The latest published release.
#[derive(Debug)]
pub struct LatestRelease {
    pub release_tag: String,
    pub published_at: Option<String>,
}

/// `latest_release_from_response`: the trimmed tag is required.
pub fn latest_release_from_response(raw: GitHubReleaseResponse) -> (r: Result<LatestRelease, String>)
    ensures
        r matches Ok(l) ==> raw.tag_name matches Some(t) && trim(t@).len() > 0 && l.release_tag@
            == trim(t@) && opt_view(l.published_at) == opt_view(raw.published_at),
        r matches Err(e) ==> e@ == "missing tag_name"@ && (raw.tag_name is None || trim(
            raw.tag_name->0@,
        ).len() == 0),
{
    let tag = match &raw.tag_name {
        Some(t) => trim_str(t.as_str()),
        None => {
            return Err(String::from_str("missing tag_name"));
        },
    };
    if tag.unicode_len() == 0 {
        return Err(String::from_str("missing tag_name"));
    }
    let release_tag = owned(tag);
    Ok(LatestRelease { release_tag, published_at: raw.published_at })
}

/// `normalize_version`: leading `v`s, then leading `V`s, removed, then
/// trimmed.
pub open spec fn normalize_version_spec(input: Seq<char>) -> Seq<char> {
    trim(trim_start_char(trim_start_char(input, 'v'), 'V'))
}

/// A version text with leading `v`/`V` removed and trimmed.
pub fn normalize_version(input: &str) -> (r: &str)
    ensures
        r@ == normalize_version_spec(input@),
{
    trim_str(trim_start_matches_char(trim_start_matches_char(input, 'v'), 'V'))
}

/// Whether `semver::Version::parse` accepts a text.
pub uninterp spec fn semver_valid(s: Seq<char>) -> bool;

/// Whether the version parsed from `a` has higher precedence than the one
/// parsed from `b` (`semver::Version`'s `>`).
pub uninterp spec fn semver_gt(a: Seq<char>, b: Seq<char>) -> bool;

/// Wraps `semver::Version::parse` on both texts and `>` on the results:
/// `None` unless both parse (named `semver_valid`), else whether `latest`
/// is the greater version (named `semver_gt`). `>` is the strict side of the
/// total order `Version` derives, so no version is greater than itself.
#[verifier::external_body]
fn semver_newer(latest: &str, current: &str) -> (r: Option<bool>)
    ensures
        r == (if semver_valid(latest@) && semver_valid(current@) {
            Some(semver_gt(latest@, current@))
        } else {
            None
        }),
        r != Some(true) || latest@ != current@,
{
    match (semver::Version::parse(latest), semver::Version::parse(current)) {
        (Ok(l), Ok(c)) => Some(l > c),
        _ => None,
    }
}

/// The version this build reports.
#[derive(Debug)]
pub struct CurrentVersion {
    pub package: String,
    pub release_tag: Option<String>,
}

/// The outcome of a version check.
#[derive(Debug)]
pub struct VersionComparison {
    pub current: CurrentVersion,
    pub latest: LatestRelease,
    pub has_update: Option<bool>,
    pub checked_at: i64,
    pub reason: String,
}

/// A copy of an optional string.
fn copy_opt(o: &Option<String>) -> (r: Option<String>)
    ensures
        opt_view(r) == opt_view(*o),
{
    match o {
        Some(s) => Some(owned(s.as_str())),
        None => None,
    }
}

/// The verdict of a comparison from whether the latest version is newer
/// (`None` when either does not parse): the update flag and the reason.
pub fn comparison_verdict(newer: Option<bool>) -> (r: (Option<bool>, String))
    ensures
        r.0 == newer,
        r.1@ == (if newer is Some {
            "semver"@
        } else {
            "uncomparable"@
        }),
{
    match newer {
        Some(b) => (Some(b), String::from_str("semver")),
        None => (None, String::from_str("uncomparable")),
    }
}

/// A build setting, trimmed, when not blank.
pub open spec fn build_setting(raw: Option<Seq<char>>) -> Option<Seq<char>> {
    match raw {
        Some(v) => if trim(v).len() > 0 {
            Some(trim(v))
        } else {
            None
        },
        None => None,
    }
}

/// The current version from the build's version and tag settings and the
/// package version: the package is the build version when set, else the
/// package version; the tag is the build tag when set, else `v` and the
/// package.
pub fn current_version(build_version: Option<&str>, pkg_version: &str, build_tag: Option<&str>) -> (r:
    CurrentVersion)
    ensures
        r.package@ == (match build_setting(crate::config::opt_str(build_version)) {
            Some(v) => v,
            None => pkg_version@,
        }),
        opt_view(r.release_tag) == Some(
            match build_setting(crate::config::opt_str(build_tag)) {
                Some(t) => t,
                None => "v"@ + r.package@,
            },
        ),
{
    let package = match build_version {
        Some(v) => {
            let t = trim_str(v);
            if t.unicode_len() > 0 {
                owned(t)
            } else {
                owned(pkg_version)
            }
        },
        None => owned(pkg_version),
    };
    let tag = match build_tag {
        Some(v) => {
            let t = trim_str(v);
            if t.unicode_len() > 0 {
                owned(t)
            } else {
                concat("v", package.as_str())
            }
        },
        None => concat("v", package.as_str()),
    };
    CurrentVersion { package, release_tag: Some(tag) }
}

/// `compare_versions` at time `now`: an update exists when both normalized
/// versions parse and the latest is greater; `uncomparable` when either
/// does not parse.
pub fn compare_versions(current: &CurrentVersion, latest: &LatestRelease, now: i64) -> (r:
    VersionComparison)
    ensures
        r.current.package@ == current.package@,
        opt_view(r.current.release_tag) == opt_view(current.release_tag),
        r.latest.release_tag@ == latest.release_tag@,
        opt_view(r.latest.published_at) == opt_view(latest.published_at),
        r.checked_at == now,
        ({
            let c = normalize_version_spec(current.package@);
            let l = normalize_version_spec(latest.release_tag@);
            if semver_valid(c) && semver_valid(l) {
                r.has_update == Some(semver_gt(l, c)) && r.reason@ == "semver"@
            } else {
                r.has_update is None && r.reason@ == "uncomparable"@
            }
        }),
        normalize_version_spec(current.package@) == normalize_version_spec(latest.release_tag@)
            ==> r.has_update != Some(true),
{
    let c = normalize_version(current.package.as_str());
    let l = normalize_version(latest.release_tag.as_str());
    let (has_update, reason) = comparison_verdict(semver_newer(l, c));
    VersionComparison {
        current: CurrentVersion {
            package: owned(current.package.as_str()),
            release_tag: copy_opt(&current.release_tag),
        },
        latest: LatestRelease {
            release_tag: owned(latest.release_tag.as_str()),
            published_at: copy_opt(&latest.published_at),
        },
        has_update,
        checked_at: now,
        reason,
    }
}

} // verus!
