//! Access control: the forward-auth configuration, admin checks and the
//! CSRF guard of side-effecting requests.

use vstd::prelude::*;
use crate::text::{opt_view, trim, trim_str, lower, to_ascii_lowercase, starts_with, str_eq, str_starts_with, owned, trim_end_char, trim_end_matches_char};
use crate::systemd::{prop_get, pair_views, prop_lookup};
use crate::config::opt_str;

verus! {

/// The forward-auth settings.
pub struct ForwardAuthConfig {
    pub header_name: Option<String>,
    pub admin_value: Option<String>,
    pub nickname_header: Option<String>,
    pub admin_mode_name: Option<String>,
    pub dev_open_admin: bool,
}

/// A trimmed setting, when not empty.
pub open spec fn setting(raw: Option<Seq<char>>) -> Option<Seq<char>> {
    match raw {
        Some(v) => if trim(v).len() > 0 {
            Some(trim(v))
        } else {
            None
        },
        None => None,
    }
}

/// A trimmed, lowercased setting, when not empty.
pub open spec fn lower_setting(raw: Option<Seq<char>>) -> Option<Seq<char>> {
    match raw {
        Some(v) => if lower(trim(v)).len() > 0 {
            Some(lower(trim(v)))
        } else {
            None
        },
        None => None,
    }
}

/// Whether admin access is open: the explicit flag (`1`, `true`, `yes`);
/// without the flag, open in the `dev`, `development` and `demo` profiles
/// (the profile defaults to `dev`) only while forward auth is not
/// configured, so a configured header and admin value are always enforced
/// unless the flag says otherwise.
pub open spec fn open_admin_spec(profile: Option<Seq<char>>, dev_open: Option<Seq<char>>, auth_configured: bool) -> bool {
    match dev_open {
        Some(v) => {
            let n = lower(trim(v));
            n == "1"@ || n == "true"@ || n == "yes"@
        },
        None => {
            let p = match profile {
                Some(x) => lower(x),
                None => "dev"@,
            };
            !auth_configured && (p == "dev"@ || p == "development"@ || p == "demo"@)
        },
    }
}

/// Reads a trimmed setting.
fn read_setting(raw: Option<&str>) -> (r: Option<String>)
    ensures
        opt_view(r) == setting(opt_str(raw)),
{
    match raw {
        Some(v) => {
            let t = trim_str(v);
            if t.unicode_len() > 0 {
                Some(owned(t))
            } else {
                None
            }
        },
        None => None,
    }
}

/// Reads a trimmed, lowercased setting.
fn read_lower_setting(raw: Option<&str>) -> (r: Option<String>)
    ensures
        opt_view(r) == lower_setting(opt_str(raw)),
{
    match raw {
        Some(v) => {
            let t = to_ascii_lowercase(trim_str(v));
            if t.unicode_len() > 0 {
                Some(t)
            } else {
                None
            }
        },
        None => None,
    }
}

impl ForwardAuthConfig {
    /// Loads the forward-auth configuration from the raw settings: header names are
    /// lowercased, values trimmed, empty settings absent.
    pub fn load(
        profile: Option<&str>,
        header_name: Option<&str>,
        admin_value: Option<&str>,
        nickname_header: Option<&str>,
        admin_mode_name: Option<&str>,
        dev_open_admin: Option<&str>,
    ) -> (r: Self)
        ensures
            opt_view(r.header_name) == lower_setting(opt_str(header_name)),
            opt_view(r.admin_value) == setting(opt_str(admin_value)),
            opt_view(r.nickname_header) == lower_setting(opt_str(nickname_header)),
            opt_view(r.admin_mode_name) == setting(opt_str(admin_mode_name)),
            r.dev_open_admin == open_admin_spec(
                opt_str(profile),
                opt_str(dev_open_admin),
                lower_setting(opt_str(header_name)) is Some && setting(opt_str(admin_value)) is Some,
            ),
    {
        let header = read_lower_setting(header_name);
        let value = read_setting(admin_value);
        let configured = header.is_some() && value.is_some();
        let open = match dev_open_admin {
            Some(v) => {
                let n = to_ascii_lowercase(trim_str(v));
                str_eq(n.as_str(), "1") || str_eq(n.as_str(), "true") || str_eq(n.as_str(), "yes")
            },
            None => {
                let p = match profile {
                    Some(x) => to_ascii_lowercase(x),
                    None => String::from_str("dev"),
                };
                !configured && (str_eq(p.as_str(), "dev") || str_eq(p.as_str(), "development")
                    || str_eq(p.as_str(), "demo"))
            },
        };
        ForwardAuthConfig {
            header_name: header,
            admin_value: value,
            nickname_header: read_lower_setting(nickname_header),
            admin_mode_name: read_setting(admin_mode_name),
            dev_open_admin: open,
        }
    }

    /// Whether admin access is open to everyone.
    pub fn open_mode(&self) -> (r: bool)
        ensures
            r == self.dev_open_admin,
    {
        self.dev_open_admin
    }
}

/// A request is from an admin in open mode, or when it carries the
/// configured header with exactly the admin value.
pub open spec fn is_admin_spec(cfg: ForwardAuthConfig, headers: Seq<(Seq<char>, Seq<char>)>) -> bool {
    cfg.dev_open_admin || match (opt_view(cfg.header_name), opt_view(cfg.admin_value)) {
        (Some(h), Some(v)) => prop_get(headers, h) == Some(v),
        _ => false,
    }
}

/// `is_admin_request` over the request's headers (lowercased names; the
/// last value given counts).
pub fn is_admin_request(cfg: &ForwardAuthConfig, headers: &Vec<(String, String)>) -> (r: bool)
    ensures
        r == is_admin_spec(*cfg, pair_views(headers@)),
{
    if cfg.open_mode() {
        return true;
    }
    let header = match &cfg.header_name {
        Some(h) => h,
        None => {
            return false;
        },
    };
    let expected = match &cfg.admin_value {
        Some(v) => v,
        None => {
            return false;
        },
    };
    match prop_lookup(headers, header.as_str()) {
        Some(v) => str_eq(v.as_str(), expected.as_str()),
        None => false,
    }
}

/// What an admin-only endpoint does with a request.
#[derive(Clone, Copy, Debug, PartialEq, Eq, Structural)]
pub enum AdminDecision {
    /// Go on.
    Allowed,
    /// 500: forward auth is not configured.
    NotConfigured,
    /// 401: not an admin.
    Unauthorized,
}

/// The admin check: open mode lets everything through; otherwise forward auth
/// must be configured and the request must come from an admin.
pub open spec fn admin_decision_spec(cfg: ForwardAuthConfig, headers: Seq<(Seq<char>, Seq<char>)>) -> AdminDecision {
    if cfg.dev_open_admin {
        AdminDecision::Allowed
    } else if cfg.header_name is None || cfg.admin_value is None {
        AdminDecision::NotConfigured
    } else if is_admin_spec(cfg, headers) {
        AdminDecision::Allowed
    } else {
        AdminDecision::Unauthorized
    }
}

/// The decision of the admin check.
pub fn admin_decision(cfg: &ForwardAuthConfig, headers: &Vec<(String, String)>) -> (r: AdminDecision)
    ensures
        r == admin_decision_spec(*cfg, pair_views(headers@)),
{
    if cfg.open_mode() {
        return AdminDecision::Allowed;
    }
    if cfg.header_name.is_none() || cfg.admin_value.is_none() {
        return AdminDecision::NotConfigured;
    }
    if is_admin_request(cfg, headers) {
        AdminDecision::Allowed
    } else {
        AdminDecision::Unauthorized
    }
}

/// How forward auth stands, as the settings page shows it.
#[derive(Clone, Copy, Debug, PartialEq, Eq, Structural)]
pub enum ForwardAuthMode {
    /// Open mode: every request is an admin.
    Open,
    /// Header and admin value configured.
    Protected,
    /// Neither open nor fully configured.
    Misconfigured,
}

/// The forward-auth mode of a configuration.
pub open spec fn forward_mode_spec(cfg: ForwardAuthConfig) -> ForwardAuthMode {
    if cfg.dev_open_admin {
        ForwardAuthMode::Open
    } else if cfg.header_name is Some && cfg.admin_value is Some {
        ForwardAuthMode::Protected
    } else {
        ForwardAuthMode::Misconfigured
    }
}

/// The settings page's forward-auth mode.
pub fn forward_mode(cfg: &ForwardAuthConfig) -> (r: ForwardAuthMode)
    ensures
        r == forward_mode_spec(*cfg),
{
    if cfg.open_mode() {
        ForwardAuthMode::Open
    } else if cfg.header_name.is_some() && cfg.admin_value.is_some() {
        ForwardAuthMode::Protected
    } else {
        ForwardAuthMode::Misconfigured
    }
}

impl ForwardAuthMode {
    /// The mode's name: `open`, `protected` or `misconfigured`.
    pub fn as_str(self) -> (r: &'static str)
        ensures
            r@ == (match self {
                ForwardAuthMode::Open => "open"@,
                ForwardAuthMode::Protected => "protected"@,
                ForwardAuthMode::Misconfigured => "misconfigured"@,
            }),
    {
        match self {
            ForwardAuthMode::Open => "open",
            ForwardAuthMode::Protected => "protected",
            ForwardAuthMode::Misconfigured => "misconfigured",
        }
    }
}

/// Outside open mode, only a request carrying the admin value in the
/// configured header is let into admin endpoints.
pub proof fn lemma_admin_needs_header(cfg: ForwardAuthConfig, headers: Seq<(Seq<char>, Seq<char>)>)
    requires
        !cfg.dev_open_admin,
        admin_decision_spec(cfg, headers) == AdminDecision::Allowed,
    ensures
        cfg.header_name matches Some(h) && (cfg.admin_value matches Some(v) && prop_get(
            headers,
            h@,
        ) == Some(v@)),
{
}

/// In open mode every request is let into admin endpoints, whatever its
/// headers.
pub proof fn lemma_open_mode_admits_all(cfg: ForwardAuthConfig, headers: Seq<(Seq<char>, Seq<char>)>)
    requires
        cfg.dev_open_admin,
    ensures
        is_admin_spec(cfg, headers),
        admin_decision_spec(cfg, headers) == AdminDecision::Allowed,
{
}

/// With the forward-auth header and admin value set and no dev-open flag,
/// the loaded configuration is not in open mode, whatever the profile: a
/// request without the admin value is answered 401.
pub proof fn lemma_configured_auth_enforced(
    profile: Option<Seq<char>>,
    header_name: Seq<char>,
    admin_value: Seq<char>,
)
    requires
        lower_setting(Some(header_name)) is Some,
        setting(Some(admin_value)) is Some,
    ensures
        !open_admin_spec(profile, None, lower_setting(Some(header_name)) is Some && setting(Some(admin_value)) is Some),
{
}

/// With forward auth configured and open mode off, a request whose header
/// is missing or holds another value is answered 401.
pub proof fn lemma_wrong_header_unauthorized(cfg: ForwardAuthConfig, headers: Seq<(Seq<char>, Seq<char>)>)
    requires
        !cfg.dev_open_admin,
        cfg.header_name matches Some(h) && (cfg.admin_value matches Some(v) && prop_get(
            headers,
            h@,
        ) != Some(v@)),
    ensures
        !is_admin_spec(cfg, headers),
        admin_decision_spec(cfg, headers) == AdminDecision::Unauthorized,
{
}

/// What the CSRF guard does with a request.
#[derive(Clone, Copy, Debug, PartialEq, Eq, Structural)]
pub enum CsrfDecision {
    /// Go on.
    Allowed,
    /// 403: the `x-podup-csrf: 1` header is missing.
    MissingCsrf,
    /// 403: a body that is not declared as JSON.
    NotJson,
}

/// The methods that change state.
pub open spec fn side_effect_method(m: Seq<char>) -> bool {
    m == "POST"@ || m == "PUT"@ || m == "PATCH"@ || m == "DELETE"@
}

/// The CSRF guard: state-changing requests need `x-podup-csrf: 1` (trimmed),
/// and a non-empty body sent with POST, PUT or PATCH must be declared as
/// `application/json` (any case).
pub open spec fn csrf_spec(
    method: Seq<char>,
    csrf: Option<Seq<char>>,
    body_empty: bool,
    content_type: Option<Seq<char>>,
) -> CsrfDecision {
    let c = csrf_value(csrf);
    let ct = csrf_value(content_type);
    if !side_effect_method(method) {
        CsrfDecision::Allowed
    } else if c != "1"@ {
        CsrfDecision::MissingCsrf
    } else if !body_empty && (method == "POST"@ || method == "PUT"@ || method == "PATCH"@)
        && !starts_with(lower(ct), "application/json"@) {
        CsrfDecision::NotJson
    } else {
        CsrfDecision::Allowed
    }
}

/// A trimmed header value, empty when the header is absent.
pub open spec fn csrf_value(v: Option<Seq<char>>) -> Seq<char> {
    match v {
        Some(x) => trim(x),
        None => Seq::<char>::empty(),
    }
}

/// The decision of the CSRF guard, from the method, the `x-podup-csrf` and
/// `content-type` header values, and whether the body is empty.
pub fn csrf_decision(
    method: &str,
    csrf: Option<&str>,
    body_empty: bool,
    content_type: Option<&str>,
) -> (r: CsrfDecision)
    ensures
        r == csrf_spec(method@, opt_str(csrf), body_empty, opt_str(content_type)),
{
    let post_like = str_eq(method, "POST") || str_eq(method, "PUT") || str_eq(method, "PATCH");
    if !(post_like || str_eq(method, "DELETE")) {
        return CsrfDecision::Allowed;
    }
    let value = match csrf {
        Some(v) => trim_str(v),
        None => "",
    };
    proof {
        reveal_strlit("");
    }
    proof {
        assert(side_effect_method(method@));
        assert(value@ == csrf_value(opt_str(csrf)));
    }
    if !str_eq(value, "1") {
        return CsrfDecision::MissingCsrf;
    }
    if !body_empty && post_like {
        let ct = match content_type {
            Some(c) => trim_str(c),
            None => "",
        };
        proof {
            reveal_strlit("");
            assert(ct@ == csrf_value(opt_str(content_type)));
        }
        let low = to_ascii_lowercase(ct);
        if !str_starts_with(low.as_str(), "application/json") {
            return CsrfDecision::NotJson;
        }
    }
    CsrfDecision::Allowed
}

/// A state-changing request without the CSRF header is never let through.
pub proof fn lemma_csrf_required(method: Seq<char>, body_empty: bool, content_type: Option<Seq<char>>)
    requires
        side_effect_method(method),
    ensures
        csrf_spec(method, None, body_empty, content_type) == CsrfDecision::MissingCsrf,
{
    reveal_strlit("1");
    assert(csrf_value(None) != "1"@) by {
        assert("1"@.len() == 1);
    }
}

/// `public_base_url` from the raw setting: trimmed, trailing `/` removed, when
/// anything is left.
pub open spec fn public_base_url_spec(raw: Option<Seq<char>>) -> Option<Seq<char>> {
    match raw {
        Some(v) => {
            let t = trim_end_char(trim(v), '/');
            if t.len() > 0 {
                Some(t)
            } else {
                None
            }
        },
        None => None,
    }
}

/// The public base URL from its raw setting: trimmed, trailing `/` removed,
/// absent when nothing is left.
pub fn public_base_url(raw: Option<&str>) -> (r: Option<String>)
    ensures
        opt_view(r) == public_base_url_spec(opt_str(raw)),
{
    match raw {
        Some(v) => {
            let t = trim_end_matches_char(trim_str(v), '/');
            if t.unicode_len() > 0 {
                Some(owned(t))
            } else {
                None
            }
        },
        None => None,
    }
}

} // verus!
