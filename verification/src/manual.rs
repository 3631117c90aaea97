//! Decisions of the manual API: which units a request targets, which
//! service a path names, and how its outcome is answered.

use vstd::prelude::*;
use crate::text::{str_eq, concat, owned, views, trim_start_matches_char, trim_end_matches_char, trim_start_char, trim_end_char};
use crate::units::{resolve_unit_spec, resolve_unit_identifier, ok_status, all_units_ok, UnitActionResult};
use crate::cli::{resolve_cli_units, resolve_cli_unit_list};

verus! {

/// The units a manual trigger targets: every managed unit when asked for
/// all or when none is named; otherwise the named ones that resolve (the
/// others are dropped).
pub open spec fn requested_units_spec(all: bool, requested: Seq<Seq<char>>, managed: Seq<Seq<char>>) -> Seq<Seq<char>> {
    if all || requested.len() == 0 {
        managed
    } else {
        resolve_cli_units(requested).0
    }
}

/// The units a manual request names: every managed unit when asked for all
/// or when none is named, else the named ones that resolve.
pub fn requested_units(all: bool, requested: &[String], managed: &[String]) -> (r: Vec<String>)
    ensures
        views(r@) == requested_units_spec(all, views(requested@), views(managed@)),
{
    if all || requested.len() == 0 {
        let mut out: Vec<String> = Vec::new();
        crate::text::extend_strings(&mut out, managed);
        proof {
            assert(views(out@) =~= views(managed@));
        }
        out
    } else {
        let (ok, _) = resolve_cli_unit_list(requested);
        ok
    }
}

/// The answer to a manual trigger: 202 when every unit was triggered, is a
/// dry run or is pending, else 207.
pub fn trigger_response_status(results: &[UnitActionResult]) -> (r: (u16, &'static str))
    ensures
        (forall|i: int| 0 <= i < results@.len() ==> ok_status(#[trigger] results@[i].status@)) ==> r.0 == 202
            && r.1@ == "Accepted"@,
        !(forall|i: int| 0 <= i < results@.len() ==> ok_status(#[trigger] results@[i].status@)) ==> r.0 == 207
            && r.1@ == "Multi-Status"@,
{
    if all_units_ok(results) {
        (202, "Accepted")
    } else {
        (207, "Multi-Status")
    }
}

/// The answer to a manual service request: 202 when its unit was
/// triggered, is a dry run or is pending, else 500.
pub fn service_response_status(status: &str) -> (r: (u16, &'static str))
    ensures
        ok_status(status@) ==> r.0 == 202 && r.1@ == "Accepted"@,
        !ok_status(status@) ==> r.0 == 500 && r.1@ == "InternalServerError"@,
{
    if str_eq(status, "triggered") || str_eq(status, "dry-run") || str_eq(status, "pending") {
        (202, "Accepted")
    } else {
        (500, "InternalServerError")
    }
}

/// Why a manual service path names no service.
pub enum ServiceTargetError {
    /// 400: nothing is left of the slug.
    MissingSlug,
    /// 404: the slug (trimmed of `/`) resolves to no unit.
    NotFound(String),
}

/// The unit a manual service path names: its slug trimmed of `/` must be
/// non-empty and resolve to a unit.
pub open spec fn service_target_spec(slug: Seq<char>) -> Result<Seq<char>, Option<Seq<char>>> {
    let t = trim_end_char(trim_start_char(slug, '/'), '/');
    if t.len() == 0 {
        Err(None)
    } else {
        match resolve_unit_spec(t) {
            Some(u) => Ok(u),
            None => Err(Some(t)),
        }
    }
}

/// The unit a manual service path names.
pub fn service_target(slug: &str) -> (r: Result<String, ServiceTargetError>)
    ensures
        match r {
            Ok(u) => service_target_spec(slug@) == Ok::<Seq<char>, Option<Seq<char>>>(u@),
            Err(ServiceTargetError::MissingSlug) => service_target_spec(slug@) == Err::<Seq<char>, Option<Seq<char>>>(None),
            Err(ServiceTargetError::NotFound(t)) => service_target_spec(slug@) == Err::<Seq<char>, Option<Seq<char>>>(Some(t@)),
        },
{
    let t = trim_end_matches_char(trim_start_matches_char(slug, '/'), '/');
    if t.unicode_len() == 0 {
        return Err(ServiceTargetError::MissingSlug);
    }
    match resolve_unit_identifier(t) {
        Some(u) => Ok(u),
        None => Err(ServiceTargetError::NotFound(owned(t))),
    }
}

/// The message of a unit in a dry-run deploy.
pub fn dry_run_deploy_message(image: &str, unit: &str) -> (r: String)
    ensures
        r@ == "Would pull "@ + image@ + " then restart "@ + unit@,
{
    let a = concat("Would pull ", image);
    let b = concat(a.as_str(), " then restart ");
    concat(b.as_str(), unit)
}

/// Where a request under `/api/manual` goes.
pub enum ManualRoute {
    ServicesList,
    MethodNotAllowed,
    AutoUpdateRun,
    Trigger,
    Deploy,
    /// One service, with the rest of its path.
    Service(String),
    NotFound,
}

/// The plain shape of a manual route.
pub enum ManualRouteView {
    ServicesList,
    MethodNotAllowed,
    AutoUpdateRun,
    Trigger,
    Deploy,
    Service(Seq<char>),
    NotFound,
}

/// The view of a manual route.
pub open spec fn manual_route_view(r: ManualRoute) -> ManualRouteView {
    match r {
        ManualRoute::ServicesList => ManualRouteView::ServicesList,
        ManualRoute::MethodNotAllowed => ManualRouteView::MethodNotAllowed,
        ManualRoute::AutoUpdateRun => ManualRouteView::AutoUpdateRun,
        ManualRoute::Trigger => ManualRouteView::Trigger,
        ManualRoute::Deploy => ManualRouteView::Deploy,
        ManualRoute::Service(s) => ManualRouteView::Service(s@),
        ManualRoute::NotFound => ManualRouteView::NotFound,
    }
}

/// The manual API's routes: the services list (any method), then only
/// `POST`: running auto-update, triggering, deploying, one service.
pub open spec fn manual_route_spec(method: Seq<char>, path: Seq<char>) -> ManualRouteView {
    if path == "/api/manual/services"@ || path == "/api/manual/services/"@ {
        ManualRouteView::ServicesList
    } else if method != "POST"@ {
        ManualRouteView::MethodNotAllowed
    } else if path == "/api/manual/auto-update/run"@ {
        ManualRouteView::AutoUpdateRun
    } else if path == "/api/manual/trigger"@ {
        ManualRouteView::Trigger
    } else if path == "/api/manual/deploy"@ {
        ManualRouteView::Deploy
    } else if crate::text::starts_with(path, "/api/manual/services/"@) {
        ManualRouteView::Service(path.skip(21))
    } else {
        ManualRouteView::NotFound
    }
}

/// The route of a request under `/api/manual`.
pub fn manual_route(method: &str, path: &str) -> (r: ManualRoute)
    ensures
        manual_route_view(r) == manual_route_spec(method@, path@),
{
    if str_eq(path, "/api/manual/services") || str_eq(path, "/api/manual/services/") {
        return ManualRoute::ServicesList;
    }
    if !str_eq(method, "POST") {
        return ManualRoute::MethodNotAllowed;
    }
    if str_eq(path, "/api/manual/auto-update/run") {
        return ManualRoute::AutoUpdateRun;
    }
    if str_eq(path, "/api/manual/trigger") {
        return ManualRoute::Trigger;
    }
    if str_eq(path, "/api/manual/deploy") {
        return ManualRoute::Deploy;
    }
    if crate::text::str_starts_with(path, "/api/manual/services/") {
        proof {
            reveal_strlit("/api/manual/services/");
        }
        let rest = path.substring_char(21, path.unicode_len());
        proof {
            assert(rest@ =~= path@.skip(21));
        }
        return ManualRoute::Service(owned(rest));
    }
    ManualRoute::NotFound
}

} // verus!
