//! Image references and URLs: request targets, registry hosts, and the
//! repository/tag split of image references.

use vstd::prelude::*;
use crate::text::{trim, trim_str, lower, to_ascii_lowercase, starts_with, str_eq, str_starts_with, concat, owned, trim_start_char, trim_start_matches_char, trim_end_char, trim_end_matches_char, first_index_of, last_index_of, find_char, rfind_char, lemma_first_index_of, lemma_last_index_of, split_once, split_once_char, nat_decimal, u64_to_string, unicode_lower, str_to_lowercase};

verus! {

/// The parts of a parsed URL that are read here: scheme, host, port, path
/// and query.
pub struct UrlParts {
    pub scheme: String,
    pub host: Option<String>,
    pub port: Option<u16>,
    pub path: String,
    pub query: Option<String>,
}

/// The plain view of `UrlParts`.
pub open spec fn url_view(u: UrlParts) -> (Seq<char>, Option<Seq<char>>, Option<u16>, Seq<char>, Option<Seq<char>>) {
    (
        u.scheme@,
        match u.host {
            Some(h) => Some(h@),
            None => None,
        },
        u.port,
        u.path@,
        match u.query {
            Some(q) => Some(q@),
            None => None,
        },
    )
}

/// What `url::Url::parse` makes of a string: its scheme, host, port, path
/// and query, or the text of its parse error.
pub uninterp spec fn url_parse(s: Seq<char>) -> Result<
    (Seq<char>, Option<Seq<char>>, Option<u16>, Seq<char>, Option<Seq<char>>),
    Seq<char>,
>;

/// The successful parse outcome with the parts of `u`.
pub open spec fn url_ok(u: UrlParts) -> Result<
    (Seq<char>, Option<Seq<char>>, Option<u16>, Seq<char>, Option<Seq<char>>),
    Seq<char>,
> {
    Ok(url_view(u))
}

/// The failed parse outcome with error text `e`.
pub open spec fn url_err(e: Seq<char>) -> Result<
    (Seq<char>, Option<Seq<char>>, Option<u16>, Seq<char>, Option<Seq<char>>),
    Seq<char>,
> {
    Err(e)
}

/// Wraps `url::Url::parse` and reads `scheme`, `host_str`, `port`, `path` and
/// `query` of the result; the outcome is named `url_parse`. Nothing more is
/// claimed of the WHATWG parsing rules the crate implements.
#[verifier::external_body]
pub(crate) fn parse_url(s: &str) -> (r: Result<UrlParts, String>)
    ensures
        r matches Ok(u) ==> url_parse(s@) == url_ok(u),
        r matches Err(e) ==> url_parse(s@) == url_err(e@),
{
    match url::Url::parse(s) {
        Ok(u) => Ok(UrlParts {
            scheme: u.scheme().to_string(),
            host: u.host_str().map(|h| h.to_string()),
            port: u.port(),
            path: u.path().to_string(),
            query: u.query().map(|q| q.to_string()),
        }),
        Err(e) => Err(e.to_string()),
    }
}

/// The string a request target is parsed as: absolute targets as they are,
/// origin-form targets below a placeholder host.
pub open spec fn target_url_text(raw: Seq<char>) -> Seq<char> {
    if starts_with(raw, "http://"@) || starts_with(raw, "https://"@) {
        raw
    } else {
        "http://dummy"@ + raw
    }
}

/// `parse_target`: the path and query of a request target.
pub open spec fn parse_target_spec(raw: Seq<char>) -> Result<(Seq<char>, Option<Seq<char>>), Seq<char>> {
    if raw.len() == 0 {
        Err("empty target"@)
    } else {
        match url_parse(target_url_text(raw)) {
            Ok((_, _, _, path, query)) => Ok((path, query)),
            Err(e) => Err(e),
        }
    }
}

/// Splits a request target into its path and its query (without the `?`),
/// or the reason it cannot be read.
pub fn parse_target(raw_target: &str) -> (r: Result<(String, Option<String>), String>)
    ensures
        r matches Ok((p, q)) ==> parse_target_spec(raw_target@) == Ok::<_, Seq<char>>(
            (
                p@,
                match q {
                    Some(x) => Some(x@),
                    None => None,
                },
            ),
        ),
        r matches Err(e) ==> parse_target_spec(raw_target@) == Err::<
            (Seq<char>, Option<Seq<char>>),
            Seq<char>,
        >(e@),
{
    if raw_target.unicode_len() == 0 {
        return Err(String::from_str("empty target"));
    }
    let text = if str_starts_with(raw_target, "http://") || str_starts_with(raw_target, "https://") {
        owned(raw_target)
    } else {
        concat("http://dummy", raw_target)
    };
    match parse_url(text.as_str()) {
        Ok(u) => Ok((u.path, u.query)),
        Err(e) => Err(e),
    }
}

/// `s` with the prefix `p` removed as often as it begins `s`
/// (`str::trim_start_matches` for a string).
pub open spec fn trim_start_str(s: Seq<char>, p: Seq<char>) -> Seq<char>
    decreases s.len(),
{
    if p.len() > 0 && starts_with(s, p) {
        trim_start_str(s.skip(p.len() as int), p)
    } else {
        s
    }
}

/// Whether the text of `s` from position `i` begins with `p`.
fn rest_starts_with(s: &str, i: usize, p: &str) -> (r: bool)
    requires
        i <= s@.len(),
    ensures
        r == starts_with(s@.skip(i as int), p@),
{
    let rest = s.substring_char(i, s.unicode_len());
    proof {
        assert(rest@ =~= s@.skip(i as int));
    }
    str_starts_with(rest, p)
}

/// `str::trim_start_matches` for a string pattern (an empty pattern
/// removes nothing).
pub fn trim_start_matches_str<'a>(s: &'a str, p: &str) -> (r: &'a str)
    ensures
        r@ == trim_start_str(s@, p@),
{
    let n = s.unicode_len();
    let m = p.unicode_len();
    if m == 0 {
        return s;
    }
    let mut i: usize = 0;
    proof {
        assert(s@.skip(0) =~= s@);
    }
    while rest_starts_with(s, i, p)
        invariant
            i <= n,
            n == s@.len(),
            m == p@.len(),
            m > 0,
            trim_start_str(s@, p@) == trim_start_str(s@.skip(i as int), p@),
        decreases n - i,
    {
        proof {
            assert(s@.skip(i as int).skip(m as int) =~= s@.skip(i + m));
        }
        i = i + m;
    }
    let r = s.substring_char(i, n);
    proof {
        assert(r@ =~= s@.skip(i as int));
    }
    r
}

/// The repository and tag of an image path: leading `/` removed, split at
/// the last `:` after the last `/`, both sides trimmed and non-empty.
pub open spec fn repo_tag_spec(path: Seq<char>) -> Option<(Seq<char>, Seq<char>)> {
    let t = trim_start_char(trim(path), '/');
    let slash = last_index_of(t, '/');
    let colon = last_index_of(t, ':');
    if t.len() == 0 || colon < 0 || colon < slash {
        None
    } else {
        let repo = trim(t.take(colon));
        let tag = trim(t.skip(colon + 1));
        if repo.len() == 0 || tag.len() == 0 {
            None
        } else {
            Some((repo, tag))
        }
    }
}

/// Splits an image path into repository and tag (`split_repo_tag`).
pub fn split_repo_tag(path: &str) -> (r: Option<(String, String)>)
    ensures
        r matches Some((a, b)) ==> repo_tag_spec(path@) == Some((a@, b@)),
        r is None ==> repo_tag_spec(path@) is None,
{
    let t = trim_start_matches_char(trim_str(path), '/');
    let n = t.unicode_len();
    if n == 0 {
        return None;
    }
    let slash = rfind_char(t, '/');
    let colon = match rfind_char(t, ':') {
        Some(c) => c,
        None => {
            return None;
        },
    };
    match slash {
        Some(sl) => {
            if colon < sl {
                return None;
            }
        },
        None => {},
    }
    proof {
        lemma_last_index_of(t@, ':');
    }
    let left = t.substring_char(0, colon);
    let right = t.substring_char(colon + 1, n);
    proof {
        assert(left@ =~= t@.take(colon as int));
        assert(right@ =~= t@.skip(colon + 1));
    }
    let repo = owned(trim_str(left));
    let tag = owned(trim_str(right));
    if repo.unicode_len() == 0 || tag.unicode_len() == 0 {
        return None;
    }
    Some((repo, tag))
}

/// The text before the first `/` of `s` (all of `s` when there is none).
pub open spec fn before_slash(s: Seq<char>) -> Seq<char> {
    let i = first_index_of(s, '/');
    if i < 0 {
        s
    } else {
        s.take(i)
    }
}

/// The text before the first `/`.
pub fn before_slash_str(s: &str) -> (r: &str)
    ensures
        r@ == before_slash(s@),
{
    match find_char(s, '/') {
        Some(i) => {
            proof {
                lemma_first_index_of(s@, '/');
            }
            let r = s.substring_char(0, i);
            proof {
                assert(r@ =~= s@.take(i as int));
            }
            r
        },
        None => s,
    }
}

/// `host` or `host:port`.
pub open spec fn host_port(host: Seq<char>, port: Option<u16>) -> Seq<char> {
    match port {
        Some(p) => host + ":"@ + nat_decimal(p as nat),
        None => host,
    }
}

/// Builds `host_port`.
pub fn host_port_str(host: &str, port: Option<u16>) -> (r: String)
    ensures
        r@ == host_port(host@, port),
{
    match port {
        Some(p) => {
            let a = concat(host, ":");
            let d = u64_to_string(p as u64);
            concat(a.as_str(), d.as_str())
        },
        None => owned(host),
    }
}

/// The registry host named in a webhook payload: `ghcr.io` when empty; the
/// lowercased host when it parses as a URL with a host; else the text with
/// `https://`, `http://` and trailing `/` stripped, lowercased.
pub open spec fn payload_registry_host_spec(raw: Seq<char>) -> Seq<char> {
    let t = trim(raw);
    if t.len() == 0 {
        "ghcr.io"@
    } else {
        match url_parse(t) {
            Ok((_, Some(h), _, _, _)) => unicode_lower(h),
            _ => unicode_lower(
                trim_end_char(trim_start_str(trim_start_str(t, "https://"@), "http://"@), '/'),
            ),
        }
    }
}

/// `normalize_registry_host` of the webhook handler.
pub fn payload_registry_host(raw: &str) -> (r: String)
    ensures
        r@ == payload_registry_host_spec(raw@),
{
    let t = trim_str(raw);
    if t.unicode_len() == 0 {
        return String::from_str("ghcr.io");
    }
    match parse_url(t) {
        Ok(u) => match u.host {
            Some(h) => {
                return str_to_lowercase(h.as_str());
            },
            None => {},
        },
        Err(_) => {},
    }
    proof {
        reveal_strlit("https://");
        reveal_strlit("http://");
    }
    let a = trim_start_matches_str(t, "https://");
    let b = trim_start_matches_str(a, "http://");
    let c = trim_end_matches_char(b, '/');
    str_to_lowercase(c)
}

/// `normalize_registry_host` of the digest resolver: `None` for an empty
/// input; for a URL, its lowercased `host[:port]` (or, when it does not
/// parse with a host, the lowercased text between the scheme and the first
/// `/`); otherwise the lowercased text before the first `/`.
pub open spec fn registry_host_spec(input: Seq<char>) -> Option<Seq<char>> {
    let t = trim(input);
    if t.len() == 0 {
        None
    } else if starts_with(t, "http://"@) || starts_with(t, "https://"@) {
        match url_parse(t) {
            Ok((_, Some(h), port, _, _)) => Some(host_port(lower(h), port)),
            _ => {
                let without_scheme = if starts_with(t, "http://"@) {
                    t.skip(7)
                } else {
                    t.skip(8)
                };
                Some(lower(before_slash(without_scheme)))
            },
        }
    } else {
        Some(lower(before_slash(t)))
    }
}

/// `normalize_registry_host` of the digest resolver.
pub fn registry_host(input: &str) -> (r: Option<String>)
    ensures
        r matches Some(h) ==> registry_host_spec(input@) == Some(h@),
        r is None ==> registry_host_spec(input@) is None,
{
    let t = trim_str(input);
    let n = t.unicode_len();
    if n == 0 {
        return None;
    }
    let http = str_starts_with(t, "http://");
    if http || str_starts_with(t, "https://") {
        match parse_url(t) {
            Ok(u) => match &u.host {
                Some(h) => {
                    let low = to_ascii_lowercase(h.as_str());
                    return Some(host_port_str(low.as_str(), u.port));
                },
                None => {},
            },
            Err(_) => {},
        }
        proof {
            reveal_strlit("http://");
            reveal_strlit("https://");
        }
        let skip: usize = if http {
            7
        } else {
            8
        };
        let rest = t.substring_char(skip, n);
        proof {
            assert(rest@ =~= t@.skip(skip as int));
        }
        return Some(to_ascii_lowercase(before_slash_str(rest)));
    }
    Some(to_ascii_lowercase(before_slash_str(t)))
}

/// The images a manual service update pulls: the tagged image, and the
/// `latest` image of the same repository unless the tag already is
/// `latest` (any case).
pub struct ParsedManualUpdateImage {
    pub tag: String,
    pub image_tag: String,
    pub image_latest: Option<String>,
}

/// `prefix/repo:tag` and, unless the tag is `latest`, `prefix/repo:latest`.
pub open spec fn manual_images(prefix: Seq<char>, repo: Seq<char>, tag: Seq<char>) -> (Seq<char>, Seq<char>, Option<Seq<char>>) {
    (
        tag,
        prefix + "/"@ + repo + ":"@ + tag,
        if lower(tag) == "latest"@ {
            None
        } else {
            Some(prefix + "/"@ + repo + ":latest"@)
        },
    )
}

/// `parse_manual_update_image`: a URL keeps its scheme and lowercased
/// `host[:port]` as prefix; otherwise the trimmed text before the first `/`
/// is the registry. The rest splits into repository and tag.
pub open spec fn manual_image_spec(default_image: Seq<char>) -> Result<(Seq<char>, Seq<char>, Option<Seq<char>>), Seq<char>> {
    let raw = trim(default_image);
    if raw.len() == 0 {
        Err("image-missing"@)
    } else if starts_with(raw, "http://"@) || starts_with(raw, "https://"@) {
        match url_parse(raw) {
            Ok((scheme, Some(h), port, path, _)) => match repo_tag_spec(trim_start_char(path, '/')) {
                Some((repo, tag)) => Ok(
                    manual_images(scheme + "://"@ + host_port(lower(h), port), repo, tag),
                ),
                None => Err("invalid-image"@),
            },
            _ => Err("invalid-image"@),
        }
    } else {
        match split_once(raw, '/') {
            Some((reg, rest)) => if trim(reg).len() == 0 {
                Err("invalid-image"@)
            } else {
                match repo_tag_spec(rest) {
                    Some((repo, tag)) => Ok(manual_images(trim(reg), repo, tag)),
                    None => Err("invalid-image"@),
                }
            },
            None => Err("invalid-image"@),
        }
    }
}

/// Builds the images of a manual update from prefix, repository and tag.
fn manual_images_of(prefix: &str, repo: String, tag: String) -> (r: ParsedManualUpdateImage)
    ensures
        (r.tag@, r.image_tag@, match r.image_latest {
            Some(x) => Some(x@),
            None => None,
        }) == manual_images(prefix@, repo@, tag@),
{
    let a = concat(prefix, "/");
    let b = concat(a.as_str(), repo.as_str());
    let c = concat(b.as_str(), ":");
    let image_tag = concat(c.as_str(), tag.as_str());
    let low = to_ascii_lowercase(tag.as_str());
    let image_latest = if str_eq(low.as_str(), "latest") {
        None
    } else {
        Some(concat(b.as_str(), ":latest"))
    };
    ParsedManualUpdateImage { tag, image_tag, image_latest }
}

/// The tag, the tagged image and, unless the tag is `latest`, the `latest`
/// image of a manual update's default image.
pub fn parse_manual_update_image(default_image: &str) -> (r: Result<ParsedManualUpdateImage, String>)
    ensures
        r matches Ok(p) ==> manual_image_spec(default_image@) == Ok::<
            (Seq<char>, Seq<char>, Option<Seq<char>>),
            Seq<char>,
        >(
            (p.tag@, p.image_tag@, match p.image_latest {
                Some(x) => Some(x@),
                None => None,
            }),
        ),
        r matches Err(e) ==> manual_image_spec(default_image@) == Err::<
            (Seq<char>, Seq<char>, Option<Seq<char>>),
            Seq<char>,
        >(e@),
{
    let raw = trim_str(default_image);
    if raw.unicode_len() == 0 {
        return Err(String::from_str("image-missing"));
    }
    if str_starts_with(raw, "http://") || str_starts_with(raw, "https://") {
        let u = match parse_url(raw) {
            Ok(u) => u,
            Err(_) => {
                return Err(String::from_str("invalid-image"));
            },
        };
        let host = match &u.host {
            Some(h) => to_ascii_lowercase(h.as_str()),
            None => {
                return Err(String::from_str("invalid-image"));
            },
        };
        let hp = host_port_str(host.as_str(), u.port);
        let path = trim_start_matches_char(u.path.as_str(), '/');
        let (repo, tag) = match split_repo_tag(path) {
            Some(x) => x,
            None => {
                return Err(String::from_str("invalid-image"));
            },
        };
        let s1 = concat(u.scheme.as_str(), "://");
        let prefix = concat(s1.as_str(), hp.as_str());
        return Ok(manual_images_of(prefix.as_str(), repo, tag));
    }
    let (reg_raw, rest) = match split_once_char(raw, '/') {
        Some(x) => x,
        None => {
            return Err(String::from_str("invalid-image"));
        },
    };
    let registry = trim_str(reg_raw.as_str());
    if registry.unicode_len() == 0 {
        return Err(String::from_str("invalid-image"));
    }
    let (repo, tag) = match split_repo_tag(rest.as_str()) {
        Some(x) => x,
        None => {
            return Err(String::from_str("invalid-image"));
        },
    };
    Ok(manual_images_of(registry, repo, tag))
}

} // verus!
