//! Remote manifest digests: image references as the registry sees them,
//! authentication challenges, cache freshness and the records returned.

use vstd::prelude::*;
use vstd::utf8::{encode_utf8, valid_utf8, decode_utf8};
use base64::Engine;
use crate::text::{opt_view, trim, trim_str, lower, to_ascii_lowercase, starts_with, str_eq, str_starts_with, concat, owned, split, split_char, split_once, split_once_char, views, trim_start};
use crate::systemd::{prop_get, pair_views, prop_lookup};
use crate::images::{
    url_parse, parse_url, repo_tag_spec, split_repo_tag, registry_host_spec, registry_host,
    host_port, host_port_str,
};
use crate::config::{opt_str, parsed_setting};

verus! {

/// Whether the last digest lookup of an image worked.
#[derive(Clone, Copy, Debug, PartialEq, Eq, Structural)]
pub enum RegistryDigestStatus {
    Succeeded,
    Failed,
}

/// The stored name of a status.
pub open spec fn status_name(s: RegistryDigestStatus) -> Seq<char> {
    match s {
        RegistryDigestStatus::Succeeded => "ok"@,
        RegistryDigestStatus::Failed => "error"@,
    }
}

/// The status a stored value stands for: `ok` (any case, trimmed) or else an
/// error.
pub open spec fn status_from_db_spec(v: Seq<char>) -> RegistryDigestStatus {
    if lower(trim(v)) == "ok"@ {
        RegistryDigestStatus::Succeeded
    } else {
        RegistryDigestStatus::Failed
    }
}

impl RegistryDigestStatus {
    /// The stored name.
    pub fn as_str(self) -> (r: &'static str)
        ensures
            r@ == status_name(self),
    {
        match self {
            RegistryDigestStatus::Succeeded => "ok",
            RegistryDigestStatus::Failed => "error",
        }
    }

    /// Reads a stored status.
    pub fn from_db(value: &str) -> (r: Self)
        ensures
            r == status_from_db_spec(value@),
    {
        let v = to_ascii_lowercase(trim_str(value));
        if str_eq(v.as_str(), "ok") {
            RegistryDigestStatus::Succeeded
        } else {
            RegistryDigestStatus::Failed
        }
    }
}

/// Reading a status back from its stored name gives the status.
pub proof fn lemma_status_roundtrip(s: RegistryDigestStatus)
    ensures
        status_from_db_spec(status_name(s)) == s,
{
    reveal_strlit("ok");
    reveal_strlit("error");
    let n = status_name(s);
    assert(trim(n) == n) by {
        crate::host::lemma_trim_no_ws(n);
    }
    assert(lower(n) =~= n);
    if s == RegistryDigestStatus::Failed {
        assert(n.len() != 2);
    }
}

/// Why a digest lookup failed.
#[derive(Clone, Copy, Debug, PartialEq, Eq, Structural)]
pub enum RegistryDigestError {
    InvalidImage,
    Timeout,
    Unauthorized,
    AuthMissing,
    AuthParse,
    ChallengeParse,
    BadResponse,
    DigestMissing,
    Io,
    Json,
}

/// The code recorded for an error.
pub open spec fn error_code(e: RegistryDigestError) -> Seq<char> {
    match e {
        RegistryDigestError::InvalidImage => "invalid-image"@,
        RegistryDigestError::Timeout => "timeout"@,
        RegistryDigestError::Unauthorized => "unauthorized"@,
        RegistryDigestError::AuthMissing => "auth-missing"@,
        RegistryDigestError::AuthParse => "auth-parse"@,
        RegistryDigestError::ChallengeParse => "challenge-parse"@,
        RegistryDigestError::BadResponse => "bad-response"@,
        RegistryDigestError::DigestMissing => "digest-missing"@,
        RegistryDigestError::Io => "io-error"@,
        RegistryDigestError::Json => "json-error"@,
    }
}

impl RegistryDigestError {
    /// The code of the error.
    pub fn code(&self) -> (r: &'static str)
        ensures
            r@ == error_code(*self),
    {
        match self {
            RegistryDigestError::InvalidImage => "invalid-image",
            RegistryDigestError::Timeout => "timeout",
            RegistryDigestError::Unauthorized => "unauthorized",
            RegistryDigestError::AuthMissing => "auth-missing",
            RegistryDigestError::AuthParse => "auth-parse",
            RegistryDigestError::ChallengeParse => "challenge-parse",
            RegistryDigestError::BadResponse => "bad-response",
            RegistryDigestError::DigestMissing => "digest-missing",
            RegistryDigestError::Io => "io-error",
            RegistryDigestError::Json => "json-error",
        }
    }
}

/// The error for an HTTP status that is not a success: `unauthorized` for
/// 401 and 403, a bad response otherwise.
pub fn map_status_to_error(status: u16) -> (r: RegistryDigestError)
    ensures
        r == (if status == 401 || status == 403 {
            RegistryDigestError::Unauthorized
        } else {
            RegistryDigestError::BadResponse
        }),
{
    if status == 401 || status == 403 {
        RegistryDigestError::Unauthorized
    } else {
        RegistryDigestError::BadResponse
    }
}

/// `read_digest_header` on the header's text (when it is valid text): the
/// trimmed digest, or `digest-missing`.
pub fn read_digest_header(value: Option<&str>) -> (r: Result<String, RegistryDigestError>)
    ensures
        r matches Ok(d) ==> value matches Some(v) && d@ == trim(v@) && d@.len() > 0,
        r is Err ==> r == Err::<String, RegistryDigestError>(RegistryDigestError::DigestMissing)
            && (value is None || trim(opt_str(value)->0).len() == 0),
{
    match value {
        Some(v) => {
            let t = trim_str(v);
            if t.unicode_len() == 0 {
                Err(RegistryDigestError::DigestMissing)
            } else {
                Ok(owned(t))
            }
        },
        None => Err(RegistryDigestError::DigestMissing),
    }
}

/// The cache lifetime of a digest: the setting when it is a positive number,
/// else 600 seconds.
pub open spec fn cache_ttl_spec(raw: Option<Seq<char>>) -> u64 {
    match parsed_setting(raw) {
        Some(n) => if n > 0 {
            n
        } else {
            600
        },
        None => 600,
    }
}

/// `registry_digest_cache_ttl_secs` from the raw setting.
pub fn registry_digest_cache_ttl_secs(raw: Option<&str>) -> (r: u64)
    ensures
        r == cache_ttl_spec(opt_str(raw)),
        r > 0,
{
    let parsed = match raw {
        Some(v) => crate::text::parse_u64_str(trim_str(v)),
        None => None,
    };
    match parsed {
        Some(n) => if n > 0 {
            n
        } else {
            600
        },
        None => 600,
    }
}

/// The age of a cache entry in seconds: `now - checked_at`, within
/// `0..=i64::MAX`.
pub open spec fn age_spec(now: i64, checked_at: i64) -> int {
    let d = now - checked_at;
    if d <= 0 {
        0
    } else if d > i64::MAX {
        i64::MAX as int
    } else {
        d
    }
}

/// An entry older than its lifetime has expired.
pub open spec fn expired_spec(now: i64, checked_at: i64, ttl_secs: u64) -> bool {
    age_spec(now, checked_at) > ttl_secs
}

/// `is_expired` at time `now`.
pub fn is_expired(now: i64, checked_at: i64, ttl_secs: u64) -> (r: bool)
    ensures
        r == expired_spec(now, checked_at, ttl_secs),
{
    let age: u64 = if now <= checked_at {
        0
    } else {
        match now.checked_sub(checked_at) {
            Some(d) => d as u64,
            None => i64::MAX as u64,
        }
    };
    age > ttl_secs
}

/// A cached digest is stale when it expired or its lookup failed.
pub open spec fn stale_spec(now: i64, checked_at: i64, ttl_secs: u64, status: RegistryDigestStatus) -> bool {
    expired_spec(now, checked_at, ttl_secs) || status != RegistryDigestStatus::Succeeded
}

/// `compute_stale` at time `now`.
pub fn compute_stale(now: i64, checked_at: i64, ttl_secs: u64, status: RegistryDigestStatus) -> (r:
    bool)
    ensures
        r == stale_spec(now, checked_at, ttl_secs, status),
{
    is_expired(now, checked_at, ttl_secs) || status != RegistryDigestStatus::Succeeded
}

/// A failed lookup is always stale; a successful one is fresh exactly while
/// its age is within the lifetime.
pub proof fn lemma_stale_rules(now: i64, checked_at: i64, ttl_secs: u64, status: RegistryDigestStatus)
    ensures
        status == RegistryDigestStatus::Failed ==> stale_spec(now, checked_at, ttl_secs, status),
        status == RegistryDigestStatus::Succeeded ==> (stale_spec(now, checked_at, ttl_secs, status)
            <==> age_spec(now, checked_at) > ttl_secs),
        now <= checked_at ==> !expired_spec(now, checked_at, ttl_secs),
{
}

/// An image reference as the registry is asked about it.
pub struct ParsedImageRef {
    pub scheme: String,
    pub registry: String,
    pub repo: String,
    pub tag: String,
    pub normalized_image: String,
}

/// The view of a parsed image reference: scheme, registry, repository, tag
/// and normalized image.
pub open spec fn image_ref_view(p: ParsedImageRef) -> (Seq<char>, Seq<char>, Seq<char>, Seq<char>, Seq<char>) {
    (p.scheme@, p.registry@, p.repo@, p.tag@, p.normalized_image@)
}

/// `registry/repo:tag`.
pub open spec fn normalized_image_spec(registry: Seq<char>, repo: Seq<char>, tag: Seq<char>) -> Seq<char> {
    registry + "/"@ + repo + ":"@ + tag
}

/// `parse_image_ref`: a URL reference keeps its scheme and lowercased
/// `host[:port]`; any other reference is `registry/path` read over HTTPS.
/// The path splits into repository and tag.
pub open spec fn image_ref_spec(input: Seq<char>) -> Option<(Seq<char>, Seq<char>, Seq<char>, Seq<char>, Seq<char>)> {
    let raw = trim(input);
    if raw.len() == 0 {
        None
    } else if starts_with(raw, "http://"@) || starts_with(raw, "https://"@) {
        match url_parse(raw) {
            Ok((scheme, Some(h), port, path, _)) => {
                let registry = host_port(lower(h), port);
                match repo_tag_spec(crate::text::trim_start_char(path, '/')) {
                    Some((repo, tag)) => Some(
                        (scheme, registry, repo, tag, normalized_image_spec(registry, repo, tag)),
                    ),
                    None => None,
                }
            },
            _ => None,
        }
    } else {
        match split_once(raw, '/') {
            Some((reg_raw, rest)) => match registry_host_spec(reg_raw) {
                Some(registry) => match repo_tag_spec(rest) {
                    Some((repo, tag)) => Some(
                        ("https"@, registry, repo, tag, normalized_image_spec(registry, repo, tag)),
                    ),
                    None => None,
                },
                None => None,
            },
            None => None,
        }
    }
}

/// Builds `registry/repo:tag`.
fn normalized_image(registry: &str, repo: &str, tag: &str) -> (r: String)
    ensures
        r@ == normalized_image_spec(registry@, repo@, tag@),
{
    let a = concat(registry, "/");
    let b = concat(a.as_str(), repo);
    let c = concat(b.as_str(), ":");
    concat(c.as_str(), tag)
}

/// `parse_image_ref`; an unusable reference is `invalid-image`.
pub fn parse_image_ref(input: &str) -> (r: Result<ParsedImageRef, RegistryDigestError>)
    ensures
        r matches Ok(p) ==> image_ref_spec(input@) == Some(image_ref_view(p)),
        r is Err ==> (r matches Err(RegistryDigestError::InvalidImage) && image_ref_spec(input@) is None),
{
    let raw = trim_str(input);
    if raw.unicode_len() == 0 {
        return Err(RegistryDigestError::InvalidImage);
    }
    if str_starts_with(raw, "http://") || str_starts_with(raw, "https://") {
        let u = match parse_url(raw) {
            Ok(u) => u,
            Err(_) => {
                return Err(RegistryDigestError::InvalidImage);
            },
        };
        let host = match &u.host {
            Some(h) => to_ascii_lowercase(h.as_str()),
            None => {
                return Err(RegistryDigestError::InvalidImage);
            },
        };
        let registry = host_port_str(host.as_str(), u.port);
        let path = crate::text::trim_start_matches_char(u.path.as_str(), '/');
        let (repo, tag) = match split_repo_tag(path) {
            Some(x) => x,
            None => {
                return Err(RegistryDigestError::InvalidImage);
            },
        };
        let normalized = normalized_image(registry.as_str(), repo.as_str(), tag.as_str());
        return Ok(
            ParsedImageRef {
                scheme: u.scheme,
                registry,
                repo,
                tag,
                normalized_image: normalized,
            },
        );
    }
    let (registry_raw, rest) = match split_once_char(raw, '/') {
        Some(x) => x,
        None => {
            return Err(RegistryDigestError::InvalidImage);
        },
    };
    let registry = match registry_host(registry_raw.as_str()) {
        Some(r) => r,
        None => {
            return Err(RegistryDigestError::InvalidImage);
        },
    };
    let (repo, tag) = match split_repo_tag(rest.as_str()) {
        Some(x) => x,
        None => {
            return Err(RegistryDigestError::InvalidImage);
        },
    };
    let normalized = normalized_image(registry.as_str(), repo.as_str(), tag.as_str());
    Ok(
        ParsedImageRef {
            scheme: String::from_str("https"),
            registry,
            repo,
            tag,
            normalized_image: normalized,
        },
    )
}

/// The manifest URL of an image: `scheme://registry/v2/repo/manifests/tag`.
pub fn manifest_url(image: &ParsedImageRef) -> (r: String)
    ensures
        r@ == image.scheme@ + "://"@ + image.registry@ + "/v2/"@ + image.repo@ + "/manifests/"@
            + image.tag@,
{
    let a = concat(image.scheme.as_str(), "://");
    let b = concat(a.as_str(), image.registry.as_str());
    let c = concat(b.as_str(), "/v2/");
    let d = concat(c.as_str(), image.repo.as_str());
    let e = concat(d.as_str(), "/manifests/");
    concat(e.as_str(), image.tag.as_str())
}

/// A value with one pair of surrounding double quotes removed.
pub open spec fn unquote(v: Seq<char>) -> Seq<char> {
    if v.len() >= 2 && v[0] == '"' && v.last() == '"' {
        v.subrange(1, v.len() - 1)
    } else {
        v
    }
}

/// The `key=value` parameters of an authentication challenge, in order:
/// comma-separated, trimmed, keys lowercased, quotes removed from values;
/// pieces without `=` are skipped. Look a key up with `prop_get` (the last
/// one given counts).
pub open spec fn auth_params_spec(parts: Seq<Seq<char>>) -> Seq<(Seq<char>, Seq<char>)>
    decreases parts.len(),
{
    if parts.len() == 0 {
        Seq::<(Seq<char>, Seq<char>)>::empty()
    } else {
        let p = auth_params_spec(parts.drop_last());
        let part = trim(parts.last());
        if part.len() == 0 {
            p
        } else {
            match split_once(part, '=') {
                Some((k, v)) => p.push((lower(trim(k)), unquote(trim(v)))),
                None => p,
            }
        }
    }
}

/// Removes one pair of surrounding quotes.
fn unquote_str(v: &str) -> (r: &str)
    ensures
        r@ == unquote(v@),
{
    let n = v.unicode_len();
    if n >= 2 && v.get_char(0) == '"' && v.get_char(n - 1) == '"' {
        v.substring_char(1, n - 1)
    } else {
        proof {
            assert(v@.subrange(0, n as int) =~= v@);
        }
        v.substring_char(0, n)
    }
}

/// The `key=value` parameters of an authentication challenge, quotes
/// removed.
pub fn parse_auth_params(input: &str) -> (r: Vec<(String, String)>)
    ensures
        pair_views(r@) == auth_params_spec(split(input@, ',')),
{
    let parts = split_char(input, ',');
    let ghost pv = views(parts@);
    let mut out: Vec<(String, String)> = Vec::new();
    let mut i: usize = 0;
    proof {
        assert(pv.take(0) =~= Seq::<Seq<char>>::empty());
        assert(pair_views(out@) =~= Seq::<(Seq<char>, Seq<char>)>::empty());
    }
    while i < parts.len()
        invariant
            i <= parts@.len(),
            pv == views(parts@),
            pv == split(input@, ','),
            pair_views(out@) == auth_params_spec(pv.take(i as int)),
        decreases parts@.len() - i,
    {
        proof {
            assert(pv.take(i + 1).drop_last() =~= pv.take(i as int));
            assert(pv.take(i + 1).last() == parts@[i as int]@);
        }
        let part = trim_str(parts[i].as_str());
        if part.unicode_len() != 0 {
            match split_once_char(part, '=') {
                Some((k, v)) => {
                    let key = to_ascii_lowercase(trim_str(k.as_str()));
                    let value = owned(unquote_str(trim_str(v.as_str())));
                    let ghost prev = out@;
                    out.push((key, value));
                    proof {
                        assert(pair_views(out@) =~= pair_views(prev).push(
                            (lower(trim(k@)), unquote(trim(v@))),
                        ));
                    }
                },
                None => {},
            }
        }
        i = i + 1;
    }
    proof {
        assert(pv.take(parts@.len() as int) =~= pv);
    }
    out
}

/// A bearer challenge: where to ask for a token, and for what.
pub struct BearerChallenge {
    pub realm: String,
    pub service: Option<String>,
    pub scope: Option<String>,
}

/// A parameter value, when present and not empty.
pub open spec fn present(v: Option<Seq<char>>) -> Option<Seq<char>> {
    match v {
        Some(x) => if x.len() > 0 {
            Some(x)
        } else {
            None
        },
        None => None,
    }
}

/// The text after the first space of `s` (empty when there is none).
pub open spec fn after_first_space(s: Seq<char>) -> Seq<char> {
    match split_once(s, ' ') {
        Some((_, rest)) => rest,
        None => Seq::<char>::empty(),
    }
}

/// `parse_www_authenticate_bearer`: the parameters after the scheme word;
/// the realm is required.
pub open spec fn bearer_spec(header: Seq<char>) -> Option<(Seq<char>, Option<Seq<char>>, Option<Seq<char>>)> {
    let rest = trim(after_first_space(trim(header)));
    let params = auth_params_spec(split(rest, ','));
    match present(prop_get(params, "realm"@)) {
        Some(realm) => Some(
            (realm, present(prop_get(params, "service"@)), present(prop_get(params, "scope"@))),
        ),
        None => None,
    }
}

/// Looks a parameter up, keeping it only when not empty.
fn present_param(params: &Vec<(String, String)>, key: &str) -> (r: Option<String>)
    ensures
        opt_view(r) == present(prop_get(pair_views(params@), key@)),
{
    match prop_lookup(params, key) {
        Some(v) => if v.unicode_len() > 0 {
            Some(v)
        } else {
            None
        },
        None => None,
    }
}

/// `parse_www_authenticate_bearer`; without a realm it is `challenge-parse`.
pub fn parse_www_authenticate_bearer(header: &str) -> (r: Result<BearerChallenge, RegistryDigestError>)
    ensures
        r matches Ok(c) ==> bearer_spec(header@) == Some((c.realm@, opt_view(c.service), opt_view(c.scope))),
        r is Err ==> (r matches Err(RegistryDigestError::ChallengeParse) && bearer_spec(header@) is None),
{
    let trimmed = trim_str(header);
    let rest_owned = match split_once_char(trimmed, ' ') {
        Some((_, rest)) => rest,
        None => String::new(),
    };
    let rest = trim_str(rest_owned.as_str());
    let params = parse_auth_params(rest);
    let realm = match present_param(&params, "realm") {
        Some(r) => r,
        None => {
            return Err(RegistryDigestError::ChallengeParse);
        },
    };
    let service = present_param(&params, "service");
    let scope = present_param(&params, "scope");
    Ok(BearerChallenge { realm, service, scope })
}

/// How a registry asked for authentication.
pub enum Challenge {
    /// A bearer challenge, with its header text.
    Bearer(String),
    /// Basic authentication.
    Basic,
    /// No usable challenge.
    Missing,
}

/// The challenge header text starts with `scheme` (after leading whitespace,
/// any ASCII case).
pub open spec fn challenge_is(h: Seq<char>, scheme: Seq<char>) -> bool {
    starts_with(lower(trim_start(h)), scheme)
}

/// The challenge taken from the `WWW-Authenticate` headers: the first bearer
/// one; else basic if any header is basic; else none.
pub open spec fn challenge_spec(hs: Seq<Seq<char>>) -> Option<Option<Seq<char>>> {
    if exists|i: int| 0 <= i < hs.len() && challenge_is(#[trigger] hs[i], "bearer "@) {
        let i = choose|i: int|
            0 <= i < hs.len() && challenge_is(#[trigger] hs[i], "bearer "@) && forall|k: int|
                0 <= k < i ==> !challenge_is(#[trigger] hs[k], "bearer "@);
        Some(Some(hs[i]))
    } else if exists|i: int| 0 <= i < hs.len() && challenge_is(#[trigger] hs[i], "basic "@) {
        Some(None)
    } else {
        None
    }
}

/// Whether a header begins with the given scheme word.
fn header_is(h: &str, scheme: &str) -> (r: bool)
    ensures
        r == challenge_is(h@, scheme@),
{
    let t = crate::text::trim_start_ws(h);
    let low = to_ascii_lowercase(t);
    str_starts_with(low.as_str(), scheme)
}

/// Picks the challenge to answer.
pub fn select_challenge(headers: &[String]) -> (r: Challenge)
    ensures
        r matches Challenge::Bearer(h) ==> challenge_spec(views(headers@)) == Some(Some(h@)),
        r is Basic ==> challenge_spec(views(headers@)) == Some(None::<Seq<char>>),
        r is Missing ==> challenge_spec(views(headers@)) is None,
{
    let ghost hv = views(headers@);
    let mut i: usize = 0;
    while i < headers.len()
        invariant
            i <= headers@.len(),
            hv == views(headers@),
            forall|k: int| 0 <= k < i ==> !challenge_is(#[trigger] hv[k], "bearer "@),
        decreases headers@.len() - i,
    {
        proof {
            assert(hv[i as int] == headers@[i as int]@);
        }
        if header_is(headers[i].as_str(), "bearer ") {
            proof {
                let j = choose|j: int|
                    0 <= j < hv.len() && challenge_is(#[trigger] hv[j], "bearer "@) && forall|k: int|
                        0 <= k < j ==> !challenge_is(#[trigger] hv[k], "bearer "@);
                assert(0 <= i < hv.len() && challenge_is(hv[i as int], "bearer "@) && forall|k: int|
                    0 <= k < i ==> !challenge_is(#[trigger] hv[k], "bearer "@));
                if j < i {
                    assert(!challenge_is(hv[j], "bearer "@));
                }
                if i < j {
                    assert(!challenge_is(hv[i as int], "bearer "@));
                }
            }
            return Challenge::Bearer(owned(headers[i].as_str()));
        }
        i = i + 1;
    }
    let mut k: usize = 0;
    while k < headers.len()
        invariant
            k <= headers@.len(),
            hv == views(headers@),
            forall|m: int| 0 <= m < headers@.len() ==> !challenge_is(#[trigger] hv[m], "bearer "@),
            forall|m: int| 0 <= m < k ==> !challenge_is(#[trigger] hv[m], "basic "@),
        decreases headers@.len() - k,
    {
        proof {
            assert(hv[k as int] == headers@[k as int]@);
        }
        if header_is(headers[k].as_str(), "basic ") {
            return Challenge::Basic;
        }
        k = k + 1;
    }
    Challenge::Missing
}

/// What is known of an image's remote digest.
pub struct RegistryDigestRecord {
    pub image: String,
    pub digest: Option<String>,
    pub checked_at: i64,
    pub status: RegistryDigestStatus,
    pub error: Option<String>,
    pub stale: bool,
    pub from_cache: bool,
}

/// A stored cache entry.
pub struct CacheRow {
    pub image: String,
    pub digest: Option<String>,
    pub checked_at: i64,
    pub status: RegistryDigestStatus,
    pub error: Option<String>,
}

/// A copy of an optional string.
fn copy_opt(o: &Option<String>) -> (r: Option<String>)
    ensures
        opt_view(r) == opt_view(*o),
{
    match o {
        Some(s) => Some(owned(s.as_str())),
        None => None,
    }
}

/// The record for an image reference that cannot be used: the trimmed
/// input, no digest, the error code, stale.
pub fn invalid_image_record(image: &str, now: i64, err: RegistryDigestError) -> (r: RegistryDigestRecord)
    ensures
        r.image@ == trim(image@),
        r.digest is None,
        r.checked_at == now,
        r.status == RegistryDigestStatus::Failed,
        opt_view(r.error) == Some(error_code(err)),
        r.stale,
        !r.from_cache,
{
    RegistryDigestRecord {
        image: owned(trim_str(image)),
        digest: None,
        checked_at: now,
        status: RegistryDigestStatus::Failed,
        error: Some(String::from_str(err.code())),
        stale: true,
        from_cache: false,
    }
}

/// The record read from the cache at time `now`: the stored values, stale
/// when expired or failed.
pub fn cached_record(row: &CacheRow, now: i64, ttl_secs: u64) -> (r: RegistryDigestRecord)
    ensures
        r.image@ == row.image@,
        opt_view(r.digest) == opt_view(row.digest),
        r.checked_at == row.checked_at,
        r.status == row.status,
        opt_view(r.error) == opt_view(row.error),
        r.stale == stale_spec(now, row.checked_at, ttl_secs, row.status),
        r.from_cache,
{
    RegistryDigestRecord {
        image: owned(row.image.as_str()),
        digest: copy_opt(&row.digest),
        checked_at: row.checked_at,
        status: row.status,
        error: copy_opt(&row.error),
        stale: compute_stale(now, row.checked_at, ttl_secs, row.status),
        from_cache: true,
    }
}

/// The cache answers without a new lookup when there is an entry and no
/// refresh was asked for.
pub fn use_cached(has_row: bool, force_refresh: bool) -> (r: bool)
    ensures
        r == (has_row && !force_refresh),
{
    has_row && !force_refresh
}

/// The record of a digest just stored at time `now`: stale exactly when the
/// lookup failed.
pub fn stored_record(
    image: &str,
    digest: Option<&str>,
    now: i64,
    status: RegistryDigestStatus,
    error: Option<&str>,
) -> (r: RegistryDigestRecord)
    ensures
        r.image@ == image@,
        opt_view(r.digest) == opt_str(digest),
        r.checked_at == now,
        r.status == status,
        opt_view(r.error) == opt_str(error),
        r.stale == (status != RegistryDigestStatus::Succeeded),
        !r.from_cache,
{
    RegistryDigestRecord {
        image: owned(image),
        digest: match digest {
            Some(d) => Some(owned(d)),
            None => None,
        },
        checked_at: now,
        status,
        error: match error {
            Some(e) => Some(owned(e)),
            None => None,
        },
        stale: status != RegistryDigestStatus::Succeeded,
        from_cache: false,
    }
}

/// The record after a failed refresh: the previous digest kept, the error
/// code recorded, stale.
pub fn failed_refresh_record(
    image: &str,
    previous_digest: Option<&str>,
    now: i64,
    err: RegistryDigestError,
) -> (r: RegistryDigestRecord)
    ensures
        r.image@ == image@,
        opt_view(r.digest) == opt_str(previous_digest),
        r.checked_at == now,
        r.status == RegistryDigestStatus::Failed,
        opt_view(r.error) == Some(error_code(err)),
        r.stale,
        !r.from_cache,
{
    stored_record(image, previous_digest, now, RegistryDigestStatus::Failed, Some(err.code()))
}

/// What the manifest `HEAD` request leads to.
pub enum HeadOutcome {
    /// The lookup is over, with this result.
    Done(Result<String, RegistryDigestError>),
    /// A bearer token is needed; the challenge header.
    NeedBearer(String),
    /// Basic credentials are needed.
    NeedBasic,
}

/// The next step after the manifest `HEAD` answered with `status`: a
/// success reads the digest header; a status other than 401 fails; a 401 is
/// answered by its challenge, and fails as unauthorized without one.
pub fn manifest_head_outcome(status: u16, digest_header: Option<&str>, challenges: &[String]) -> (r:
    HeadOutcome)
    ensures
        200 <= status < 300 ==> (r matches HeadOutcome::Done(res) && (match res {
            Ok(d) => digest_header matches Some(v) && d@ == trim(v@) && d@.len() > 0,
            Err(e) => e == RegistryDigestError::DigestMissing && (digest_header is None || trim(
                opt_str(digest_header)->0,
            ).len() == 0),
        })),
        !(200 <= status < 300) && status != 401 ==> (r matches HeadOutcome::Done(res) && res
            == Err::<String, RegistryDigestError>(map_status_spec(status))),
        status == 401 ==> match challenge_spec(views(challenges@)) {
            Some(Some(h)) => (r matches HeadOutcome::NeedBearer(x) && x@ == h),
            Some(None) => r is NeedBasic,
            None => (r matches HeadOutcome::Done(res) && res == Err::<String, RegistryDigestError>(
                RegistryDigestError::Unauthorized,
            )),
        },
{
    if 200 <= status && status < 300 {
        return HeadOutcome::Done(read_digest_header(digest_header));
    }
    if status != 401 {
        return HeadOutcome::Done(Err(map_status_to_error(status)));
    }
    match select_challenge(challenges) {
        Challenge::Bearer(h) => HeadOutcome::NeedBearer(h),
        Challenge::Basic => HeadOutcome::NeedBasic,
        Challenge::Missing => HeadOutcome::Done(Err(RegistryDigestError::Unauthorized)),
    }
}

/// `map_status_to_error` as a function of the status.
pub open spec fn map_status_spec(status: u16) -> RegistryDigestError {
    if status == 401 || status == 403 {
        RegistryDigestError::Unauthorized
    } else {
        RegistryDigestError::BadResponse
    }
}

/// The result of the authenticated retry: the digest on success, else the
/// error of its status.
pub fn retry_outcome(status: u16, digest_header: Option<&str>) -> (r: Result<String, RegistryDigestError>)
    ensures
        200 <= status < 300 ==> (match r {
            Ok(d) => digest_header matches Some(v) && d@ == trim(v@) && d@.len() > 0,
            Err(e) => e == RegistryDigestError::DigestMissing,
        }),
        !(200 <= status < 300) ==> r == Err::<String, RegistryDigestError>(map_status_spec(status)),
{
    if 200 <= status && status < 300 {
        read_digest_header(digest_header)
    } else {
        Err(map_status_to_error(status))
    }
}

/// The token of a token endpoint's answer: `token`, else `access_token`,
/// as a string; trimmed and not empty.
pub open spec fn token_spec(body: crate::json::Json) -> Option<Seq<char>> {
    let t = match crate::json::member_str(body, "token"@) {
        Some(x) => Some(x),
        None => crate::json::member_str(body, "access_token"@),
    };
    match t {
        Some(x) => if trim(x).len() > 0 {
            Some(trim(x))
        } else {
            None
        },
        None => None,
    }
}

/// Reads the bearer token from the token endpoint's answer; without one the
/// answer is a bad response.
pub fn token_from_body(body: &crate::json::Json) -> (r: Result<String, RegistryDigestError>)
    ensures
        r matches Ok(t) ==> token_spec(*body) == Some(t@),
        r is Err ==> r == Err::<String, RegistryDigestError>(RegistryDigestError::BadResponse)
            && token_spec(*body) is None,
{
    let t = match crate::json::get_member_str(body, "token") {
        Some(x) => Some(x),
        None => crate::json::get_member_str(body, "access_token"),
    };
    match t {
        Some(x) => {
            let tt = trim_str(x);
            if tt.unicode_len() > 0 {
                Ok(owned(tt))
            } else {
                Err(RegistryDigestError::BadResponse)
            }
        },
        None => Err(RegistryDigestError::BadResponse),
    }
}

/// What `base64`'s standard engine decodes from the bytes, if they are
/// valid standard base64.
pub uninterp spec fn base64_standard_decode(b: Seq<u8>) -> Option<Seq<u8>>;

/// Wraps `base64::engine::general_purpose::STANDARD.decode`; the outcome is
/// named `base64_standard_decode`.
#[verifier::external_body]
fn base64_decode(b: &[u8]) -> (r: Option<Vec<u8>>)
    ensures
        r matches Some(v) ==> base64_standard_decode(b@) == Some(v@),
        r is None ==> base64_standard_decode(b@) is None,
{
    base64::engine::general_purpose::STANDARD.decode(b).ok()
}

/// Wraps `String::from_utf8`: the text when the bytes are valid UTF-8.
#[verifier::external_body]
fn utf8_string(b: Vec<u8>) -> (r: Option<String>)
    ensures
        r matches Some(s) ==> valid_utf8(b@) && s@ == decode_utf8(b@),
        r is None ==> !valid_utf8(b@),
{
    String::from_utf8(b).ok()
}

/// Credentials from an entry's `auth` field: base64 of UTF-8 `user:pass`
/// with a non-empty user.
pub open spec fn auth_field_creds(entry: crate::json::Json) -> Option<(Seq<char>, Seq<char>)> {
    match crate::json::member_str(entry, "auth"@) {
        Some(a) => match base64_standard_decode(encode_utf8(trim(a))) {
            Some(bytes) => if valid_utf8(bytes) {
                match split_once(decode_utf8(bytes), ':') {
                    Some((u, p)) => if u.len() > 0 {
                        Some((u, p))
                    } else {
                        None
                    },
                    None => None,
                }
            } else {
                None
            },
            None => None,
        },
        None => None,
    }
}

/// A trimmed, non-empty string member.
pub open spec fn filled_member(entry: crate::json::Json, k: Seq<char>) -> Option<Seq<char>> {
    match crate::json::member_str(entry, k) {
        Some(x) => if trim(x).len() > 0 {
            Some(trim(x))
        } else {
            None
        },
        None => None,
    }
}

/// The credentials of one `auths` entry: from `auth`, else from non-empty
/// `username` and `password`.
pub open spec fn entry_creds(entry: crate::json::Json) -> Option<(Seq<char>, Seq<char>)> {
    match entry {
        crate::json::Json::Object(_) => match auth_field_creds(entry) {
            Some(c) => Some(c),
            None => match (filled_member(entry, "username"@), filled_member(entry, "password"@)) {
                (Some(u), Some(p)) => Some((u, p)),
                _ => None,
            },
        },
        _ => None,
    }
}

/// A trimmed, non-empty string member.
fn filled(entry: &crate::json::Json, k: &str) -> (r: Option<String>)
    ensures
        opt_view(r) == filled_member(*entry, k@),
{
    match crate::json::get_member_str(entry, k) {
        Some(x) => {
            let t = trim_str(x);
            if t.unicode_len() > 0 {
                Some(owned(t))
            } else {
                None
            }
        },
        None => None,
    }
}

/// The credentials of one `auths` entry.
pub fn entry_credentials(entry: &crate::json::Json) -> (r: Option<(String, String)>)
    ensures
        r matches Some((u, p)) ==> entry_creds(*entry) == Some((u@, p@)),
        r is None ==> entry_creds(*entry) is None,
{
    match entry {
        crate::json::Json::Object(_) => {},
        _ => {
            return None;
        },
    }
    match crate::json::get_member_str(entry, "auth") {
        Some(a) => {
            let t = trim_str(a);
            match base64_decode(t.as_bytes()) {
                Some(bytes) => match utf8_string(bytes) {
                    Some(text) => match split_once_char(text.as_str(), ':') {
                        Some((u, p)) => {
                            if u.unicode_len() > 0 {
                                return Some((u, p));
                            }
                        },
                        None => {},
                    },
                    None => {},
                },
                None => {},
            }
        },
        None => {},
    }
    match (filled(entry, "username"), filled(entry, "password")) {
        (Some(u), Some(p)) => Some((u, p)),
        _ => None,
    }
}

/// The credentials of a containers `auth.json`, by registry, in the order of
/// its `auths` entries; keys that do not name a registry and entries without
/// credentials are skipped. Look one up with `creds_get` (the last counts).
pub open spec fn auth_list(entries: Seq<(String, crate::json::Json)>) -> Seq<(Seq<char>, (Seq<char>, Seq<char>))>
    decreases entries.len(),
{
    if entries.len() == 0 {
        Seq::<(Seq<char>, (Seq<char>, Seq<char>))>::empty()
    } else {
        let p = auth_list(entries.drop_last());
        let (k, e) = entries.last();
        match registry_host_spec(k@) {
            Some(reg) => match entry_creds(e) {
                Some(c) => p.push((reg, c)),
                None => p,
            },
            None => p,
        }
    }
}

/// The `auths` entries of an `auth.json` document.
pub open spec fn auths_of(doc: crate::json::Json) -> Seq<(String, crate::json::Json)> {
    match doc {
        crate::json::Json::Object(m) => match crate::json::obj_get(m@, "auths"@) {
            Some(crate::json::Json::Object(a)) => a@,
            _ => Seq::<(String, crate::json::Json)>::empty(),
        },
        _ => Seq::<(String, crate::json::Json)>::empty(),
    }
}

/// The credentials listed for a registry (the last entry counts).
pub open spec fn creds_get(l: Seq<(Seq<char>, (Seq<char>, Seq<char>))>, reg: Seq<char>) -> Option<(Seq<char>, Seq<char>)>
    decreases l.len(),
{
    if l.len() == 0 {
        None
    } else if l.last().0 == reg {
        Some(l.last().1)
    } else {
        creds_get(l.drop_last(), reg)
    }
}

/// The view of a credentials list.
pub open spec fn cred_views(v: Seq<(String, String, String)>) -> Seq<(Seq<char>, (Seq<char>, Seq<char>))> {
    v.map_values(|t: (String, String, String)| (t.0@, (t.1@, t.2@)))
}

/// The credentials a registry credentials document lists, by registry.
pub fn auth_credentials(doc: &crate::json::Json) -> (r: Vec<(String, String, String)>)
    ensures
        cred_views(r@) == auth_list(auths_of(*doc)),
{
    let mut out: Vec<(String, String, String)> = Vec::new();
    proof {
        assert(cred_views(out@) =~= Seq::<(Seq<char>, (Seq<char>, Seq<char>))>::empty());
    }
    let auths = match doc {
        crate::json::Json::Object(m) => match crate::json::obj_lookup(m, "auths") {
            Some(crate::json::Json::Object(a)) => a,
            _ => {
                return out;
            },
        },
        _ => {
            return out;
        },
    };
    let mut i: usize = 0;
    proof {
        assert(auths@.take(0) =~= Seq::<(String, crate::json::Json)>::empty());
    }
    while i < auths.len()
        invariant
            i <= auths@.len(),
            auths_of(*doc) == auths@,
            cred_views(out@) == auth_list(auths@.take(i as int)),
        decreases auths@.len() - i,
    {
        proof {
            assert(auths@.take(i + 1).drop_last() =~= auths@.take(i as int));
            assert(auths@.take(i + 1).last() == auths@[i as int]);
        }
        match registry_host(auths[i].0.as_str()) {
            Some(reg) => match entry_credentials(&auths[i].1) {
                Some((u, p)) => {
                    let ghost prev = out@;
                    out.push((reg, u, p));
                    proof {
                        assert(cred_views(out@) =~= cred_views(prev).push((reg@, (u@, p@))));
                    }
                },
                None => {},
            },
            None => {},
        }
        i = i + 1;
    }
    proof {
        assert(auths@.take(auths@.len() as int) =~= auths@);
    }
    out
}

/// The credentials of a registry, looked up in the loaded credentials: the
/// entry of the normalized registry, or `auth-missing`.
pub fn credentials_for_registry(creds: &Vec<(String, String, String)>, registry: &str) -> (r: Result<
    (String, String),
    RegistryDigestError,
>)
    ensures
        r matches Ok((u, p)) ==> (registry_host_spec(registry@) matches Some(reg) && creds_get(
            cred_views(creds@),
            reg,
        ) == Some((u@, p@))),
        r is Err ==> (r matches Err(RegistryDigestError::AuthMissing) && (match registry_host_spec(
            registry@,
        ) {
            Some(reg) => creds_get(cred_views(creds@), reg) is None,
            None => true,
        })),
{
    let reg = match registry_host(registry) {
        Some(r) => r,
        None => {
            return Err(RegistryDigestError::AuthMissing);
        },
    };
    let ghost cv = cred_views(creds@);
    let mut j: usize = creds.len();
    proof {
        assert(cv.take(cv.len() as int) =~= cv);
    }
    while j > 0
        invariant
            j <= creds@.len(),
            cv == cred_views(creds@),
            registry_host_spec(registry@) == Some(reg@),
            creds_get(cv, reg@) == creds_get(cv.take(j as int), reg@),
        decreases j,
    {
        proof {
            assert(cv.take(j as int).drop_last() =~= cv.take(j - 1));
            assert(cv.take(j as int).last() == (creds@[j - 1].0@, (creds@[j - 1].1@, creds@[j - 1].2@)));
        }
        if str_eq(creds[j - 1].0.as_str(), reg.as_str()) {
            return Ok((owned(creds[j - 1].1.as_str()), owned(creds[j - 1].2.as_str())));
        }
        j = j - 1;
    }
    Err(RegistryDigestError::AuthMissing)
}

} // verus!
