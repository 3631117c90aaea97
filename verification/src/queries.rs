//! The query strings of the events and tasks listings: their filters and
//! pages, the SQL they turn into, and the routes under `/api/tasks`.

use vstd::prelude::*;
use crate::text::{
    parse_u64, parse_u64_str, str_eq, concat, owned, views, join, join_strings, unicode_lower,
    str_to_lowercase, trim_start_matches_char, trim_end_matches_char, str_contains_char,
    trim_start_char, trim_end_char, starts_with, ends_with,
};
use crate::podman::{parse_i64, parse_i64_str};
use crate::systemd::pair_views;

verus! {

/// What `url::form_urlencoded::parse` yields for a query: its `&`-separated
/// non-empty pieces split at the first `=`, each side with `+` read as a
/// space, percent-decoded and read as UTF-8 with invalid bytes replaced.
pub uninterp spec fn form_urlencoded_pairs(q: Seq<char>) -> Seq<(Seq<char>, Seq<char>)>;

/// Wraps `url::form_urlencoded::parse` on the query's bytes, collected into
/// owned pairs; the pairs are named `form_urlencoded_pairs`.
#[verifier::external_body]
pub(crate) fn form_pairs(q: &str) -> (r: Vec<(String, String)>)
    ensures
        pair_views(r@) == form_urlencoded_pairs(q@),
{
    url::form_urlencoded::parse(q.as_bytes()).into_owned().collect()
}

/// A positive decimal value.
pub open spec fn positive_u64(v: Seq<char>) -> Option<u64> {
    match parse_u64(v) {
        Some(x) => if x > 0 {
            Some(x)
        } else {
            None
        },
        None => None,
    }
}

/// The smaller of two values.
pub open spec fn min_u64(a: u64, b: u64) -> u64 {
    if a <= b {
        a
    } else {
        b
    }
}

/// A non-empty value replaces the current one; an empty one is ignored.
pub open spec fn nonempty_or(v: Seq<char>, cur: Option<Seq<char>>) -> Option<Seq<char>> {
    if v.len() > 0 {
        Some(v)
    } else {
        cur
    }
}

/// A parsed `i64` replaces the current one; anything else is ignored.
pub open spec fn i64_or(v: Seq<char>, cur: Option<i64>) -> Option<i64> {
    match parse_i64(v) {
        Some(x) => Some(x),
        None => cur,
    }
}

/// The filters and page of the events listing.
pub struct EventsQuery {
    pub limit: Option<u64>,
    pub page: u64,
    pub per_page: u64,
    pub request_id: Option<String>,
    pub task_id: Option<String>,
    pub path_prefix: Option<String>,
    pub status: Option<i64>,
    pub action: Option<String>,
    pub from_ts: Option<i64>,
    pub to_ts: Option<i64>,
}

/// An `EventsQuery` with texts as character sequences.
pub struct EventsQueryView {
    pub limit: Option<u64>,
    pub page: u64,
    pub per_page: u64,
    pub request_id: Option<Seq<char>>,
    pub task_id: Option<Seq<char>>,
    pub path_prefix: Option<Seq<char>>,
    pub status: Option<i64>,
    pub action: Option<Seq<char>>,
    pub from_ts: Option<i64>,
    pub to_ts: Option<i64>,
}

impl EventsQuery {
    /// The query with texts as character sequences.
    pub open spec fn view_of(self) -> EventsQueryView {
        EventsQueryView {
            limit: self.limit,
            page: self.page,
            per_page: self.per_page,
            request_id: crate::text::opt_view(self.request_id),
            task_id: crate::text::opt_view(self.task_id),
            path_prefix: crate::text::opt_view(self.path_prefix),
            status: self.status,
            action: crate::text::opt_view(self.action),
            from_ts: self.from_ts,
            to_ts: self.to_ts,
        }
    }
}

/// The events listing without a query: the first page of 50.
pub open spec fn events_default() -> EventsQueryView {
    EventsQueryView {
        limit: None,
        page: 1,
        per_page: 50,
        request_id: None,
        task_id: None,
        path_prefix: None,
        status: None,
        action: None,
        from_ts: None,
        to_ts: None,
    }
}

/// One pair of the query applied: `limit` (at most 500), `page`,
/// `per_page` or `page_size` (at most 500) take positive numbers;
/// `request_id`, `task_id`, `path_prefix` or `path`, and `action` take
/// non-empty texts; `status`, `from_ts` or `from`, `to_ts` or `to` take
/// integers; anything else is ignored.
pub open spec fn events_step(q: EventsQueryView, key: Seq<char>, value: Seq<char>) -> EventsQueryView {
    if key == "limit"@ {
        match positive_u64(value) {
            Some(v) => EventsQueryView { limit: Some(min_u64(v, 500)), ..q },
            None => q,
        }
    } else if key == "page"@ {
        match positive_u64(value) {
            Some(v) => EventsQueryView { page: v, ..q },
            None => q,
        }
    } else if key == "per_page"@ || key == "page_size"@ {
        match positive_u64(value) {
            Some(v) => EventsQueryView { per_page: min_u64(v, 500), ..q },
            None => q,
        }
    } else if key == "request_id"@ {
        EventsQueryView { request_id: nonempty_or(value, q.request_id), ..q }
    } else if key == "task_id"@ {
        EventsQueryView { task_id: nonempty_or(value, q.task_id), ..q }
    } else if key == "path_prefix"@ || key == "path"@ {
        EventsQueryView { path_prefix: nonempty_or(value, q.path_prefix), ..q }
    } else if key == "status"@ {
        EventsQueryView { status: i64_or(value, q.status), ..q }
    } else if key == "action"@ {
        EventsQueryView { action: nonempty_or(value, q.action), ..q }
    } else if key == "from_ts"@ || key == "from"@ {
        EventsQueryView { from_ts: i64_or(value, q.from_ts), ..q }
    } else if key == "to_ts"@ || key == "to"@ {
        EventsQueryView { to_ts: i64_or(value, q.to_ts), ..q }
    } else {
        q
    }
}

/// The pairs applied in order to the defaults.
pub open spec fn events_fold(pairs: Seq<(Seq<char>, Seq<char>)>) -> EventsQueryView
    decreases pairs.len(),
{
    if pairs.len() == 0 {
        events_default()
    } else {
        events_step(events_fold(pairs.drop_last()), pairs.last().0, pairs.last().1)
    }
}

/// The events listing a query asks for.
pub open spec fn events_query_spec(query: Option<Seq<char>>) -> EventsQueryView {
    match query {
        None => events_default(),
        Some(q) => events_fold(form_urlencoded_pairs(q)),
    }
}

/// A positive number read from a value.
fn positive_of(v: &str) -> (r: Option<u64>)
    ensures
        r == positive_u64(v@),
{
    match parse_u64_str(v) {
        Some(x) => if x > 0 {
            Some(x)
        } else {
            None
        },
        None => None,
    }
}

/// A copy of a value when it is not empty.
fn nonempty_value(v: &str, cur: Option<String>) -> (r: Option<String>)
    ensures
        crate::text::opt_view(r) == nonempty_or(v@, crate::text::opt_view(cur)),
{
    if v.unicode_len() > 0 {
        Some(owned(v))
    } else {
        cur
    }
}

/// An integer read from a value, else the current one.
fn i64_value(v: &str, cur: Option<i64>) -> (r: Option<i64>)
    ensures
        r == i64_or(v@, cur),
{
    match parse_i64_str(v) {
        Some(x) => Some(x),
        None => cur,
    }
}

/// Applies one query parameter to the events query.
fn events_apply(q: EventsQuery, key: &str, value: &str) -> (r: EventsQuery)
    ensures
        r.view_of() == events_step(q.view_of(), key@, value@),
{
    let mut q = q;
    if str_eq(key, "limit") {
        if let Some(v) = positive_of(value) {
            q.limit = Some(if v <= 500 {
                v
            } else {
                500
            });
        }
    } else if str_eq(key, "page") {
        if let Some(v) = positive_of(value) {
            q.page = v;
        }
    } else if str_eq(key, "per_page") || str_eq(key, "page_size") {
        if let Some(v) = positive_of(value) {
            q.per_page = if v <= 500 {
                v
            } else {
                500
            };
        }
    } else if str_eq(key, "request_id") {
        q.request_id = nonempty_value(value, q.request_id);
    } else if str_eq(key, "task_id") {
        q.task_id = nonempty_value(value, q.task_id);
    } else if str_eq(key, "path_prefix") || str_eq(key, "path") {
        q.path_prefix = nonempty_value(value, q.path_prefix);
    } else if str_eq(key, "status") {
        q.status = i64_value(value, q.status);
    } else if str_eq(key, "action") {
        q.action = nonempty_value(value, q.action);
    } else if str_eq(key, "from_ts") || str_eq(key, "from") {
        q.from_ts = i64_value(value, q.from_ts);
    } else if str_eq(key, "to_ts") || str_eq(key, "to") {
        q.to_ts = i64_value(value, q.to_ts);
    }
    q
}

/// The events query from already decoded pairs.
pub fn events_query_from_pairs(pairs: &[(String, String)]) -> (r: EventsQuery)
    ensures
        r.view_of() == events_fold(pair_views(pairs@)),
{
    let mut q = EventsQuery {
        limit: None,
        page: 1,
        per_page: 50,
        request_id: None,
        task_id: None,
        path_prefix: None,
        status: None,
        action: None,
        from_ts: None,
        to_ts: None,
    };
    let mut i: usize = 0;
    proof {
        assert(pair_views(pairs@).take(0) =~= Seq::<(Seq<char>, Seq<char>)>::empty());
    }
    while i < pairs.len()
        invariant
            i <= pairs@.len(),
            q.view_of() == events_fold(pair_views(pairs@).take(i as int)),
        decreases pairs@.len() - i,
    {
        proof {
            assert(pair_views(pairs@).take(i + 1).drop_last() =~= pair_views(pairs@).take(i as int));
            assert(pair_views(pairs@).take(i + 1).last() == (pairs@[i as int].0@, pairs@[i as int].1@));
        }
        q = events_apply(q, pairs[i].0.as_str(), pairs[i].1.as_str());
        i = i + 1;
    }
    proof {
        assert(pair_views(pairs@).take(pairs@.len() as int) =~= pair_views(pairs@));
    }
    q
}

/// The events listing a request's query asks for.
pub fn events_query(query: Option<&str>) -> (r: EventsQuery)
    ensures
        r.view_of() == events_query_spec(crate::config::opt_str(query)),
{
    match query {
        Some(q) => {
            let pairs = form_pairs(q);
            events_query_from_pairs(pairs.as_slice())
        },
        None => {
            let empty: Vec<(String, String)> = Vec::new();
            proof {
                assert(pair_views(empty@) =~= Seq::<(Seq<char>, Seq<char>)>::empty());
            }
            events_query_from_pairs(empty.as_slice())
        },
    }
}

/// `a * b`, capped at `u64::MAX`.
pub open spec fn sat_mul(a: u64, b: u64) -> u64 {
    if a * b > u64::MAX {
        u64::MAX
    } else {
        (a * b) as u64
    }
}

/// The window of rows a listing reads: limit, offset, page number and page
/// size. A `limit` reads the first rows; otherwise the page and page size
/// decide (both at least 1).
pub open spec fn events_window_spec(q: EventsQueryView) -> (u64, i64, u64, u64) {
    match q.limit {
        Some(lim) => {
            let lim = if lim >= 1 {
                lim
            } else {
                1u64
            };
            (lim, 0i64, 1u64, lim)
        },
        None => {
            let page = if q.page >= 1 {
                q.page
            } else {
                1u64
            };
            let size = if q.per_page >= 1 {
                q.per_page
            } else {
                1u64
            };
            (size, sat_mul((page - 1) as u64, size) as i64, page, size)
        },
    }
}

/// `u64::saturating_mul`.
fn saturating_mul_u64(a: u64, b: u64) -> (r: u64)
    ensures
        r == sat_mul(a, b),
{
    match a.checked_mul(b) {
        Some(x) => x,
        None => u64::MAX,
    }
}

/// Reinterprets an offset as the `i64` the database takes.
fn offset_i64(x: u64) -> (r: i64)
    ensures
        r == x as i64,
{
    x as i64
}

/// The window of rows an events query reads.
pub fn events_window(q: &EventsQuery) -> (r: (u64, i64, u64, u64))
    ensures
        r == events_window_spec(q.view_of()),
{
    match q.limit {
        Some(lim) => {
            let lim = if lim >= 1 {
                lim
            } else {
                1
            };
            (lim, 0, 1, lim)
        },
        None => {
            let page = if q.page >= 1 {
                q.page
            } else {
                1
            };
            let size = if q.per_page >= 1 {
                q.per_page
            } else {
                1
            };
            (size, offset_i64(saturating_mul_u64(page - 1, size)), page, size)
        },
    }
}

/// A bound parameter of a query.
pub enum SqlParam {
    Int(i64),
    Text(String),
}

/// A parameter's value with texts as character sequences.
pub enum SqlParamView {
    Int(i64),
    Text(Seq<char>),
}

/// The view of a parameter.
pub open spec fn param_view(p: SqlParam) -> SqlParamView {
    match p {
        SqlParam::Int(v) => SqlParamView::Int(v),
        SqlParam::Text(s) => SqlParamView::Text(s@),
    }
}

/// The views of parameters.
pub open spec fn param_views(ps: Seq<SqlParam>) -> Seq<SqlParamView> {
    ps.map_values(|p: SqlParam| param_view(p))
}

/// Adds a condition when the value is there.
pub open spec fn with_cond(cs: Seq<(Seq<char>, SqlParamView)>, cond: Seq<char>, p: Option<SqlParamView>) -> Seq<(Seq<char>, SqlParamView)> {
    match p {
        Some(v) => cs.push((cond, v)),
        None => cs,
    }
}

/// A text parameter, if any.
pub open spec fn text_param(s: Option<Seq<char>>) -> Option<SqlParamView> {
    match s {
        Some(x) => Some(SqlParamView::Text(x)),
        None => None,
    }
}

/// An integer parameter, if any.
pub open spec fn int_param(v: Option<i64>) -> Option<SqlParamView> {
    match v {
        Some(x) => Some(SqlParamView::Int(x)),
        None => None,
    }
}

/// The conditions of an events query, each with its parameter, in order.
pub open spec fn events_conditions(q: EventsQueryView) -> Seq<(Seq<char>, SqlParamView)> {
    let c0 = Seq::<(Seq<char>, SqlParamView)>::empty();
    let c1 = with_cond(c0, "request_id = ?"@, text_param(q.request_id));
    let c2 = with_cond(c1, "task_id = ?"@, text_param(q.task_id));
    let c3 = with_cond(
        c2,
        "path LIKE ?"@,
        match q.path_prefix {
            Some(p) => Some(SqlParamView::Text(p + "%"@)),
            None => None,
        },
    );
    let c4 = with_cond(c3, "status = ?"@, int_param(q.status));
    let c5 = with_cond(c4, "action = ?"@, text_param(q.action));
    let c6 = with_cond(c5, "ts >= ?"@, int_param(q.from_ts));
    with_cond(c6, "ts <= ?"@, int_param(q.to_ts))
}

/// ` WHERE ` and the conditions joined by ` AND `, or nothing without
/// conditions.
pub open spec fn where_clause(conds: Seq<Seq<char>>) -> Seq<char> {
    if conds.len() == 0 {
        Seq::<char>::empty()
    } else {
        " WHERE "@ + join(conds, " AND "@)
    }
}

/// The first parts of condition pairs.
pub open spec fn cond_texts(cs: Seq<(Seq<char>, SqlParamView)>) -> Seq<Seq<char>> {
    cs.map_values(|c: (Seq<char>, SqlParamView)| c.0)
}

/// The second parts of condition pairs.
pub open spec fn cond_params(cs: Seq<(Seq<char>, SqlParamView)>) -> Seq<SqlParamView> {
    cs.map_values(|c: (Seq<char>, SqlParamView)| c.1)
}

/// The SQL of a listing: its counting and selecting statements and the
/// parameters both bind, in order.
pub struct ListingSql {
    pub count_sql: String,
    pub select_sql: String,
    pub params: Vec<SqlParam>,
}

/// Adds a condition and its parameter.
fn push_cond(conds: &mut Vec<String>, params: &mut Vec<SqlParam>, cond: &str, p: SqlParam)
    ensures
        views(final(conds)@) == views(old(conds)@).push(cond@),
        param_views(final(params)@) == param_views(old(params)@).push(param_view(p)),
{
    let ghost c0 = views(conds@);
    let ghost p0 = param_views(params@);
    let ghost pv = param_view(p);
    conds.push(owned(cond));
    params.push(p);
    proof {
        assert(views(conds@) =~= c0.push(cond@));
        assert(param_views(params@) =~= p0.push(pv));
    }
}

/// The `WHERE` clause of a list of conditions.
fn where_sql(conds: &Vec<String>) -> (r: String)
    ensures
        r@ == where_clause(views(conds@)),
{
    if conds.len() == 0 {
        String::new()
    } else {
        let j = join_strings(conds, " AND ");
        concat(" WHERE ", j.as_str())
    }
}

/// The statements of the events listing.
pub open spec fn events_count_sql(w: Seq<char>) -> Seq<char> {
    "SELECT COUNT(*) as cnt FROM event_log"@ + w
}

/// The selecting statement of the events listing, newest first, with the
/// limit and offset bound after the filters.
pub open spec fn events_select_sql(w: Seq<char>) -> Seq<char> {
    "SELECT id, request_id, ts, method, path, status, action, duration_ms, meta, task_id, created_at FROM event_log"@
        + w + " ORDER BY ts DESC, id DESC LIMIT ? OFFSET ?"@
}

/// The SQL of an events query.
pub fn events_sql(q: &EventsQuery) -> (r: ListingSql)
    ensures
        r.count_sql@ == events_count_sql(where_clause(cond_texts(events_conditions(q.view_of())))),
        r.select_sql@ == events_select_sql(where_clause(cond_texts(events_conditions(q.view_of())))),
        param_views(r.params@) == cond_params(events_conditions(q.view_of())),
{
    let ghost qv = q.view_of();
    let mut conds: Vec<String> = Vec::new();
    let mut params: Vec<SqlParam> = Vec::new();
    let ghost c0 = Seq::<(Seq<char>, SqlParamView)>::empty();
    let ghost c1 = with_cond(c0, "request_id = ?"@, text_param(qv.request_id));
    let ghost c2 = with_cond(c1, "task_id = ?"@, text_param(qv.task_id));
    let ghost c3 = with_cond(
        c2,
        "path LIKE ?"@,
        match qv.path_prefix {
            Some(p) => Some(SqlParamView::Text(p + "%"@)),
            None => None,
        },
    );
    let ghost c4 = with_cond(c3, "status = ?"@, int_param(qv.status));
    let ghost c5 = with_cond(c4, "action = ?"@, text_param(qv.action));
    let ghost c6 = with_cond(c5, "ts >= ?"@, int_param(qv.from_ts));
    let ghost c7 = with_cond(c6, "ts <= ?"@, int_param(qv.to_ts));
    proof {
        assert(views(conds@) =~= cond_texts(c0));
        assert(param_views(params@) =~= cond_params(c0));
    }
    if let Some(id) = &q.request_id {
        push_cond(&mut conds, &mut params, "request_id = ?", SqlParam::Text(owned(id.as_str())));
    }
    proof {
        assert(views(conds@) =~= cond_texts(c1));
        assert(param_views(params@) =~= cond_params(c1));
    }
    if let Some(id) = &q.task_id {
        push_cond(&mut conds, &mut params, "task_id = ?", SqlParam::Text(owned(id.as_str())));
    }
    proof {
        assert(views(conds@) =~= cond_texts(c2));
        assert(param_views(params@) =~= cond_params(c2));
    }
    if let Some(p) = &q.path_prefix {
        push_cond(&mut conds, &mut params, "path LIKE ?", SqlParam::Text(concat(p.as_str(), "%")));
    }
    proof {
        assert(views(conds@) =~= cond_texts(c3));
        assert(param_views(params@) =~= cond_params(c3));
    }
    if let Some(v) = q.status {
        push_cond(&mut conds, &mut params, "status = ?", SqlParam::Int(v));
    }
    proof {
        assert(views(conds@) =~= cond_texts(c4));
        assert(param_views(params@) =~= cond_params(c4));
    }
    if let Some(a) = &q.action {
        push_cond(&mut conds, &mut params, "action = ?", SqlParam::Text(owned(a.as_str())));
    }
    proof {
        assert(views(conds@) =~= cond_texts(c5));
        assert(param_views(params@) =~= cond_params(c5));
    }
    if let Some(v) = q.from_ts {
        push_cond(&mut conds, &mut params, "ts >= ?", SqlParam::Int(v));
    }
    proof {
        assert(views(conds@) =~= cond_texts(c6));
        assert(param_views(params@) =~= cond_params(c6));
    }
    if let Some(v) = q.to_ts {
        push_cond(&mut conds, &mut params, "ts <= ?", SqlParam::Int(v));
    }
    proof {
        assert(views(conds@) =~= cond_texts(c7));
        assert(param_views(params@) =~= cond_params(c7));
    }
    let w = where_sql(&conds);
    let count_sql = concat("SELECT COUNT(*) as cnt FROM event_log", w.as_str());
    let head = concat(
        "SELECT id, request_id, ts, method, path, status, action, duration_ms, meta, task_id, created_at FROM event_log",
        w.as_str(),
    );
    let select_sql = concat(head.as_str(), " ORDER BY ts DESC, id DESC LIMIT ? OFFSET ?");
    ListingSql { count_sql, select_sql, params }
}

/// Whether rows remain after a page: `page * page_size < total`.
pub fn has_next(page: u64, page_size: u64, total: i64) -> (r: bool)
    requires
        page <= i64::MAX,
        page_size <= i64::MAX,
        page * page_size <= i64::MAX,
    ensures
        r == (page * page_size < total),
{
    let p: i64 = page as i64;
    let s: i64 = page_size as i64;
    proof {
        assert(0 <= p * s) by (nonlinear_arith)
            requires
                p >= 0,
                s >= 0,
        ;
    }
    p * s < total
}

/// The filters and page of the tasks listing.
pub struct TasksQuery {
    pub page: u64,
    pub per_page: u64,
    pub status: Option<String>,
    pub kind: Option<String>,
    pub unit_query: Option<String>,
}

/// A `TasksQuery` with texts as character sequences.
pub struct TasksQueryView {
    pub page: u64,
    pub per_page: u64,
    pub status: Option<Seq<char>>,
    pub kind: Option<Seq<char>>,
    pub unit_query: Option<Seq<char>>,
}

impl TasksQuery {
    /// The query with texts as character sequences.
    pub open spec fn view_of(self) -> TasksQueryView {
        TasksQueryView {
            page: self.page,
            per_page: self.per_page,
            status: crate::text::opt_view(self.status),
            kind: crate::text::opt_view(self.kind),
            unit_query: crate::text::opt_view(self.unit_query),
        }
    }
}

/// The tasks listing without a query: the first page of 20.
pub open spec fn tasks_default() -> TasksQueryView {
    TasksQueryView { page: 1, per_page: 20, status: None, kind: None, unit_query: None }
}

/// One pair of the query applied: `page`, `per_page` or `page_size` (at
/// most 100) take positive numbers; `status`, `kind` or `type`, `unit` or
/// `unit_query` take non-empty texts; anything else is ignored.
pub open spec fn tasks_step(q: TasksQueryView, key: Seq<char>, value: Seq<char>) -> TasksQueryView {
    if key == "page"@ {
        match positive_u64(value) {
            Some(v) => TasksQueryView { page: v, ..q },
            None => q,
        }
    } else if key == "per_page"@ || key == "page_size"@ {
        match positive_u64(value) {
            Some(v) => TasksQueryView { per_page: min_u64(v, 100), ..q },
            None => q,
        }
    } else if key == "status"@ {
        TasksQueryView { status: nonempty_or(value, q.status), ..q }
    } else if key == "kind"@ || key == "type"@ {
        TasksQueryView { kind: nonempty_or(value, q.kind), ..q }
    } else if key == "unit"@ || key == "unit_query"@ {
        TasksQueryView { unit_query: nonempty_or(value, q.unit_query), ..q }
    } else {
        q
    }
}

/// The pairs applied in order to the defaults.
pub open spec fn tasks_fold(pairs: Seq<(Seq<char>, Seq<char>)>) -> TasksQueryView
    decreases pairs.len(),
{
    if pairs.len() == 0 {
        tasks_default()
    } else {
        tasks_step(tasks_fold(pairs.drop_last()), pairs.last().0, pairs.last().1)
    }
}

/// The tasks listing a query asks for.
pub open spec fn tasks_query_spec(query: Option<Seq<char>>) -> TasksQueryView {
    match query {
        None => tasks_default(),
        Some(q) => tasks_fold(form_urlencoded_pairs(q)),
    }
}

/// Applies one query parameter to the tasks query.
fn tasks_apply(q: TasksQuery, key: &str, value: &str) -> (r: TasksQuery)
    ensures
        r.view_of() == tasks_step(q.view_of(), key@, value@),
{
    let mut q = q;
    if str_eq(key, "page") {
        if let Some(v) = positive_of(value) {
            q.page = v;
        }
    } else if str_eq(key, "per_page") || str_eq(key, "page_size") {
        if let Some(v) = positive_of(value) {
            q.per_page = if v <= 100 {
                v
            } else {
                100
            };
        }
    } else if str_eq(key, "status") {
        q.status = nonempty_value(value, q.status);
    } else if str_eq(key, "kind") || str_eq(key, "type") {
        q.kind = nonempty_value(value, q.kind);
    } else if str_eq(key, "unit") || str_eq(key, "unit_query") {
        q.unit_query = nonempty_value(value, q.unit_query);
    }
    q
}

/// The tasks query from already decoded pairs.
pub fn tasks_query_from_pairs(pairs: &[(String, String)]) -> (r: TasksQuery)
    ensures
        r.view_of() == tasks_fold(pair_views(pairs@)),
{
    let mut q = TasksQuery { page: 1, per_page: 20, status: None, kind: None, unit_query: None };
    let mut i: usize = 0;
    proof {
        assert(pair_views(pairs@).take(0) =~= Seq::<(Seq<char>, Seq<char>)>::empty());
    }
    while i < pairs.len()
        invariant
            i <= pairs@.len(),
            q.view_of() == tasks_fold(pair_views(pairs@).take(i as int)),
        decreases pairs@.len() - i,
    {
        proof {
            assert(pair_views(pairs@).take(i + 1).drop_last() =~= pair_views(pairs@).take(i as int));
            assert(pair_views(pairs@).take(i + 1).last() == (pairs@[i as int].0@, pairs@[i as int].1@));
        }
        q = tasks_apply(q, pairs[i].0.as_str(), pairs[i].1.as_str());
        i = i + 1;
    }
    proof {
        assert(pair_views(pairs@).take(pairs@.len() as int) =~= pair_views(pairs@));
    }
    q
}

/// The tasks listing a request's query asks for.
pub fn tasks_query(query: Option<&str>) -> (r: TasksQuery)
    ensures
        r.view_of() == tasks_query_spec(crate::config::opt_str(query)),
{
    match query {
        Some(q) => {
            let pairs = form_pairs(q);
            tasks_query_from_pairs(pairs.as_slice())
        },
        None => {
            let empty: Vec<(String, String)> = Vec::new();
            proof {
                assert(pair_views(empty@) =~= Seq::<(Seq<char>, Seq<char>)>::empty());
            }
            tasks_query_from_pairs(empty.as_slice())
        },
    }
}

/// The page, page size and offset of a tasks listing (page and size at
/// least 1).
pub open spec fn tasks_window_spec(q: TasksQueryView) -> (u64, u64, i64) {
    let page = if q.page >= 1 {
        q.page
    } else {
        1u64
    };
    let size = if q.per_page >= 1 {
        q.per_page
    } else {
        1u64
    };
    (page, size, sat_mul((page - 1) as u64, size) as i64)
}

/// The window of rows a tasks query reads.
pub fn tasks_window(q: &TasksQuery) -> (r: (u64, u64, i64))
    ensures
        r == tasks_window_spec(q.view_of()),
{
    let page = if q.page >= 1 {
        q.page
    } else {
        1
    };
    let size = if q.per_page >= 1 {
        q.per_page
    } else {
        1
    };
    (page, size, offset_i64(saturating_mul_u64(page - 1, size)))
}

/// The condition matching tasks with a unit whose name, slug or display
/// name contains the lowercased text.
pub open spec fn unit_match_cond() -> Seq<char> {
    "EXISTS (SELECT 1 FROM task_units tu WHERE tu.task_id = tasks.task_id AND (LOWER(tu.unit) LIKE ? OR LOWER(COALESCE(tu.slug, '')) LIKE ? OR LOWER(COALESCE(tu.display_name, '')) LIKE ?))"@
}

/// The conditions of a tasks query, in order.
pub open spec fn tasks_cond_texts(q: TasksQueryView) -> Seq<Seq<char>> {
    let c1 = if q.status is Some {
        seq!["tasks.status = ?"@]
    } else {
        Seq::<Seq<char>>::empty()
    };
    let c2 = if q.kind is Some {
        c1.push("tasks.kind = ?"@)
    } else {
        c1
    };
    if q.unit_query is Some {
        c2.push(unit_match_cond())
    } else {
        c2
    }
}

/// The parameters of a tasks query, in order: the unit text, lowercased
/// and wrapped in `%`, is bound three times.
pub open spec fn tasks_params(q: TasksQueryView) -> Seq<SqlParamView> {
    let p1 = match q.status {
        Some(s) => seq![SqlParamView::Text(s)],
        None => Seq::<SqlParamView>::empty(),
    };
    let p2 = match q.kind {
        Some(k) => p1.push(SqlParamView::Text(k)),
        None => p1,
    };
    match q.unit_query {
        Some(u) => {
            let pat = "%"@ + unicode_lower(u) + "%"@;
            p2.push(SqlParamView::Text(pat)).push(SqlParamView::Text(pat)).push(SqlParamView::Text(pat))
        },
        None => p2,
    }
}

/// The counting statement of the tasks listing.
pub open spec fn tasks_count_sql(w: Seq<char>) -> Seq<char> {
    "SELECT COUNT(*) as cnt FROM tasks"@ + w
}

/// The selecting statement of the tasks listing, newest first.
pub open spec fn tasks_select_sql(w: Seq<char>) -> Seq<char> {
    "SELECT id, task_id, kind, status, created_at, started_at, finished_at, updated_at, summary, trigger_source, trigger_request_id, trigger_path, trigger_caller, trigger_reason, trigger_scheduler_iteration, can_stop, can_force_stop, can_retry, is_long_running, retry_of FROM tasks"@
        + w + " ORDER BY created_at DESC, id DESC LIMIT ? OFFSET ?"@
}

/// Adds a text parameter.
fn push_text(params: &mut Vec<SqlParam>, s: &str)
    ensures
        param_views(final(params)@) == param_views(old(params)@).push(SqlParamView::Text(s@)),
{
    let ghost p0 = param_views(params@);
    params.push(SqlParam::Text(owned(s)));
    proof {
        assert(param_views(params@) =~= p0.push(SqlParamView::Text(s@)));
    }
}

/// Adds a condition.
fn push_text_cond(conds: &mut Vec<String>, s: &str)
    ensures
        views(final(conds)@) == views(old(conds)@).push(s@),
{
    let ghost c0 = views(conds@);
    conds.push(owned(s));
    proof {
        assert(views(conds@) =~= c0.push(s@));
    }
}

/// The SQL of a tasks query.
pub fn tasks_sql(q: &TasksQuery) -> (r: ListingSql)
    ensures
        r.count_sql@ == tasks_count_sql(where_clause(tasks_cond_texts(q.view_of()))),
        r.select_sql@ == tasks_select_sql(where_clause(tasks_cond_texts(q.view_of()))),
        param_views(r.params@) == tasks_params(q.view_of()),
{
    let mut conds: Vec<String> = Vec::new();
    let mut params: Vec<SqlParam> = Vec::new();
    proof {
        assert(views(conds@) =~= Seq::<Seq<char>>::empty());
        assert(param_views(params@) =~= Seq::<SqlParamView>::empty());
    }
    if let Some(st) = &q.status {
        push_text_cond(&mut conds, "tasks.status = ?");
        push_text(&mut params, st.as_str());
    }
    if let Some(k) = &q.kind {
        push_text_cond(&mut conds, "tasks.kind = ?");
        push_text(&mut params, k.as_str());
    }
    if let Some(u) = &q.unit_query {
        push_text_cond(
            &mut conds,
            "EXISTS (SELECT 1 FROM task_units tu WHERE tu.task_id = tasks.task_id AND (LOWER(tu.unit) LIKE ? OR LOWER(COALESCE(tu.slug, '')) LIKE ? OR LOWER(COALESCE(tu.display_name, '')) LIKE ?))",
        );
        let needle = str_to_lowercase(u.as_str());
        let a = concat("%", needle.as_str());
        let pat = concat(a.as_str(), "%");
        push_text(&mut params, pat.as_str());
        push_text(&mut params, pat.as_str());
        push_text(&mut params, pat.as_str());
    }
    proof {
        assert(views(conds@) =~= tasks_cond_texts(q.view_of()));
        assert(param_views(params@) =~= tasks_params(q.view_of()));
    }
    let w = where_sql(&conds);
    let count_sql = concat("SELECT COUNT(*) as cnt FROM tasks", w.as_str());
    let head = concat(
        "SELECT id, task_id, kind, status, created_at, started_at, finished_at, updated_at, summary, trigger_source, trigger_request_id, trigger_path, trigger_caller, trigger_reason, trigger_scheduler_iteration, can_stop, can_force_stop, can_retry, is_long_running, retry_of FROM tasks",
        w.as_str(),
    );
    let select_sql = concat(head.as_str(), " ORDER BY created_at DESC, id DESC LIMIT ? OFFSET ?");
    ListingSql { count_sql, select_sql, params }
}

/// `n` placeholders separated by commas.
pub open spec fn placeholders(n: nat) -> Seq<char>
    decreases n,
{
    if n == 0 {
        Seq::<char>::empty()
    } else if n == 1 {
        "?"@
    } else {
        placeholders((n - 1) as nat) + ",?"@
    }
}

/// `n` SQL placeholders separated by commas.
fn placeholders_of(n: usize) -> (r: String)
    ensures
        r@ == placeholders(n as nat),
{
    let mut out = String::new();
    let mut i: usize = 0;
    proof {
        reveal_strlit("?");
        reveal_strlit(",?");
    }
    while i < n
        invariant
            i <= n,
            out@ == placeholders(i as nat),
        decreases n - i,
    {
        if i > 0 {
            out = concat(out.as_str(), ",?");
        } else {
            out = String::from_str("?");
        }
        i = i + 1;
    }
    out
}

/// The statement loading the units of `n` listed tasks.
pub open spec fn task_units_sql_spec(n: nat) -> Seq<char> {
    "SELECT task_id, unit, slug, display_name, status, phase, started_at, finished_at, duration_ms, message, error FROM task_units WHERE task_id IN ("@
        + placeholders(n) + ")"@ + " ORDER BY id ASC"@
}

/// The statement counting warnings and errors logged by `n` listed tasks.
pub open spec fn task_warnings_sql_spec(n: nat) -> Seq<char> {
    "SELECT task_id, COUNT(*) AS warnings FROM task_logs WHERE level IN ('warning','error') AND task_id IN ("@
        + placeholders(n) + ")"@ + " GROUP BY task_id"@
}

/// The query for the units of `n` tasks.
pub fn task_units_sql(n: usize) -> (r: String)
    ensures
        r@ == task_units_sql_spec(n as nat),
{
    let ph = placeholders_of(n);
    let a = concat(
        "SELECT task_id, unit, slug, display_name, status, phase, started_at, finished_at, duration_ms, message, error FROM task_units WHERE task_id IN (",
        ph.as_str(),
    );
    let b = concat(a.as_str(), ")");
    concat(b.as_str(), " ORDER BY id ASC")
}

/// The query for the warning counts of `n` tasks.
pub fn task_warnings_sql(n: usize) -> (r: String)
    ensures
        r@ == task_warnings_sql_spec(n as nat),
{
    let ph = placeholders_of(n);
    let a = concat(
        "SELECT task_id, COUNT(*) AS warnings FROM task_logs WHERE level IN ('warning','error') AND task_id IN (",
        ph.as_str(),
    );
    let b = concat(a.as_str(), ")");
    concat(b.as_str(), " GROUP BY task_id")
}

/// Where a request under `/api/tasks` goes.
pub enum TaskRoute {
    List,
    Create,
    /// `/api/tasks` with another method.
    MethodNotAllowed,
    MissingId,
    Detail(String),
    Stop(String),
    ForceStop(String),
    Retry(String),
    /// Any other path or method.
    Unknown,
}

/// A `TaskRoute` with texts as character sequences.
pub enum TaskRouteView {
    List,
    Create,
    MethodNotAllowed,
    MissingId,
    Detail(Seq<char>),
    Stop(Seq<char>),
    ForceStop(Seq<char>),
    Retry(Seq<char>),
    Unknown,
}

/// The view of a route.
pub open spec fn route_view(r: TaskRoute) -> TaskRouteView {
    match r {
        TaskRoute::List => TaskRouteView::List,
        TaskRoute::Create => TaskRouteView::Create,
        TaskRoute::MethodNotAllowed => TaskRouteView::MethodNotAllowed,
        TaskRoute::MissingId => TaskRouteView::MissingId,
        TaskRoute::Detail(s) => TaskRouteView::Detail(s@),
        TaskRoute::Stop(s) => TaskRouteView::Stop(s@),
        TaskRoute::ForceStop(s) => TaskRouteView::ForceStop(s@),
        TaskRoute::Retry(s) => TaskRouteView::Retry(s@),
        TaskRoute::Unknown => TaskRouteView::Unknown,
    }
}

/// `s` with `/` removed from both ends.
pub open spec fn trim_slashes(s: Seq<char>) -> Seq<char> {
    trim_end_char(trim_start_char(s, '/'), '/')
}

/// The route of a request under `/api/tasks`: the collection takes `GET`
/// and `POST`; below it, `GET` on a plain id reads a task and `POST` on
/// `<id>/stop`, `<id>/force-stop` or `<id>/retry` acts on it.
pub open spec fn task_route_spec(method: Seq<char>, path: Seq<char>) -> TaskRouteView {
    if path == "/api/tasks"@ {
        if method == "GET"@ {
            TaskRouteView::List
        } else if method == "POST"@ {
            TaskRouteView::Create
        } else {
            TaskRouteView::MethodNotAllowed
        }
    } else if starts_with(path, "/api/tasks/"@) {
        let t = trim_slashes(path.skip(11));
        if t.len() == 0 {
            TaskRouteView::MissingId
        } else if method == "GET"@ && !t.contains('/') {
            TaskRouteView::Detail(t)
        } else if method == "POST"@ && ends_with(t, "/stop"@) {
            TaskRouteView::Stop(trim_slashes(t.take(t.len() - 5)))
        } else if method == "POST"@ && ends_with(t, "/force-stop"@) {
            TaskRouteView::ForceStop(trim_slashes(t.take(t.len() - 11)))
        } else if method == "POST"@ && ends_with(t, "/retry"@) {
            TaskRouteView::Retry(trim_slashes(t.take(t.len() - 6)))
        } else {
            TaskRouteView::Unknown
        }
    } else {
        TaskRouteView::Unknown
    }
}

/// The id before a suffix, with `/` trimmed.
fn id_before(t: &str, k: usize) -> (r: String)
    requires
        k <= t@.len(),
    ensures
        r@ == trim_slashes(t@.take(t@.len() - k)),
{
    let n = t.unicode_len();
    let head = t.substring_char(0, n - k);
    proof {
        assert(head@ =~= t@.take(t@.len() - k));
    }
    owned(trim_end_matches_char(trim_start_matches_char(head, '/'), '/'))
}

/// The route of a request under `/api/tasks`.
pub fn task_route(method: &str, path: &str) -> (r: TaskRoute)
    ensures
        route_view(r) == task_route_spec(method@, path@),
{
    if str_eq(path, "/api/tasks") {
        return if str_eq(method, "GET") {
            TaskRoute::List
        } else if str_eq(method, "POST") {
            TaskRoute::Create
        } else {
            TaskRoute::MethodNotAllowed
        };
    }
    if !crate::text::str_starts_with(path, "/api/tasks/") {
        return TaskRoute::Unknown;
    }
    proof {
        reveal_strlit("/api/tasks/");
    }
    let rest = path.substring_char(11, path.unicode_len());
    proof {
        assert(rest@ =~= path@.skip(11));
    }
    let t = trim_end_matches_char(trim_start_matches_char(rest, '/'), '/');
    if t.unicode_len() == 0 {
        return TaskRoute::MissingId;
    }
    if str_eq(method, "GET") && !str_contains_char(t, '/') {
        return TaskRoute::Detail(owned(t));
    }
    if str_eq(method, "POST") {
        proof {
            reveal_strlit("/stop");
            reveal_strlit("/force-stop");
            reveal_strlit("/retry");
        }
        if crate::text::str_ends_with(t, "/stop") {
            return TaskRoute::Stop(id_before(t, 5));
        }
        if crate::text::str_ends_with(t, "/force-stop") {
            return TaskRoute::ForceStop(id_before(t, 11));
        }
        if crate::text::str_ends_with(t, "/retry") {
            return TaskRoute::Retry(id_before(t, 6));
        }
    }
    TaskRoute::Unknown
}

} // verus!
