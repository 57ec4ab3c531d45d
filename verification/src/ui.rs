//! Decisions of the local management UI: its options, its routes, the guard
//! in front of the management routes, and the reading of a discover request.

use vstd::prelude::*;
use vstd::string::StringExecFns;

use crate::domain::string_views;
use crate::host::{DiscoverLimits, HostError, StateError};
use crate::json::{spec_as_str, spec_as_u64, spec_get, Json};
use crate::text::{
    blank, chars_of, decimal_chars, decimal_string, is_blank, join2, join3, parse_unsigned,
    spec_parse_unsigned, str_eq, to_owned,
};
use crate::web::{
    is_allowed_loopback_authority, is_allowed_origin, spec_allowed_loopback_authority,
    spec_allowed_origin,
};

verus! {

/// Port of the UI when `--port` is not given.
pub const DEFAULT_UI_PORT: u16 = 8765;

pub const MAX_MANAGE_DISCOVER_PAGES: u64 = 1000;

pub const MAX_MANAGE_DISCOVER_PER_PAGE: u64 = 1000;

pub const MAX_MANAGE_DISCOVER_RECORDS: u64 = 10000;

pub const MAX_MANAGE_DISCOVER_TIMEOUT_SECONDS: u64 = 3600;

/// The options of `mh ui`.
#[derive(Debug, Clone, PartialEq, Eq)]
pub struct UiArgs {
    pub db_path: String,
    pub plugins_dir: String,
    pub port: u16,
    pub manage: bool,
}

pub struct UiArgsView {
    pub db_path: Seq<char>,
    pub plugins_dir: Seq<char>,
    pub port: u16,
    pub manage: bool,
}

/// The options read so far.
pub struct UiOptsState {
    pub db_path: Option<Seq<char>>,
    pub plugins_dir: Option<Seq<char>>,
    pub port: Option<u16>,
    pub manage: bool,
}

/// The options from index `i` on.
pub open spec fn ui_opts_from(args: Seq<Seq<char>>, i: nat, st: UiOptsState) -> Result<
    UiOptsState,
    Seq<char>,
>
    decreases args.len() - i,
{
    if i >= args.len() {
        Ok(st)
    } else {
        let f = args[i as int];
        if f == "--host"@ || f == "--bind"@ {
            Err(f + " is not accepted by the local-only UI"@)
        } else if f == "--manage"@ {
            if st.manage {
                Err("--manage specified more than once"@)
            } else {
                ui_opts_from(args, i + 1, UiOptsState { manage: true, ..st })
            }
        } else if i + 1 >= args.len() {
            Err(f + " requires a value"@)
        } else {
            let v = args[i + 1 as int];
            if f == "--db"@ {
                if st.db_path is Some {
                    Err("--db specified more than once"@)
                } else {
                    ui_opts_from(args, i + 2, UiOptsState { db_path: Some(v), ..st })
                }
            } else if f == "--plugins-dir"@ {
                if st.plugins_dir is Some {
                    Err("--plugins-dir specified more than once"@)
                } else {
                    ui_opts_from(args, i + 2, UiOptsState { plugins_dir: Some(v), ..st })
                }
            } else if f == "--port"@ {
                if st.port is Some {
                    Err("--port specified more than once"@)
                } else {
                    match spec_parse_unsigned(v, 65535) {
                        None => Err("--port must be a TCP port"@),
                        Some(p) => ui_opts_from(
                            args,
                            i + 2,
                            UiOptsState { port: Some(p as u16), ..st },
                        ),
                    }
                }
            } else {
                Err("unknown ui option: "@ + f)
            }
        }
    }
}

pub open spec fn spec_ui_args(args: Seq<Seq<char>>) -> Result<UiArgsView, Seq<char>> {
    match ui_opts_from(
        args,
        0,
        UiOptsState { db_path: None, plugins_dir: None, port: None, manage: false },
    ) {
        Err(e) => Err(e),
        Ok(st) => match st.db_path {
            None => Err("--db is required"@),
            Some(db) => match st.plugins_dir {
                None => Err("--plugins-dir is required"@),
                Some(pd) => Ok(
                    UiArgsView {
                        db_path: db,
                        plugins_dir: pd,
                        port: match st.port {
                            Some(p) => p,
                            None => DEFAULT_UI_PORT,
                        },
                        manage: st.manage,
                    },
                ),
            },
        },
    }
}

pub open spec fn opt_str_view(o: Option<String>) -> Option<Seq<char>> {
    match o {
        Some(s) => Some(s@),
        None => None,
    }
}

/// Reads the options of `mh ui`: `--db` and `--plugins-dir` are required,
/// `--port` and `--manage` optional, each at most once; `--host` and `--bind`
/// are refused, the UI only listens on loopback.
pub fn parse_ui_options(args: &[String]) -> (r: Result<UiArgs, String>)
    ensures
        match spec_ui_args(string_views(args@)) {
            Ok(u) => r matches Ok(a) && a.db_path@ == u.db_path && a.plugins_dir@ == u.plugins_dir
                && a.port == u.port && a.manage == u.manage,
            Err(m) => r matches Err(e) && e@ == m,
        },
{
    let ghost views = string_views(args@);
    let mut db_path: Option<String> = None;
    let mut plugins_dir: Option<String> = None;
    let mut port: Option<u16> = None;
    let mut manage = false;
    let mut index: usize = 0;
    while index < args.len()
        invariant
            views == string_views(args@),
            index <= args@.len(),
            ui_opts_from(
                views,
                0,
                UiOptsState { db_path: None, plugins_dir: None, port: None, manage: false },
            ) == ui_opts_from(
                views,
                index as nat,
                UiOptsState {
                    db_path: opt_str_view(db_path),
                    plugins_dir: opt_str_view(plugins_dir),
                    port,
                    manage,
                },
            ),
        decreases args@.len() - index,
    {
        let flag = args[index].as_str();
        assert(views[index as int] == flag@);
        if str_eq(flag, "--host") || str_eq(flag, "--bind") {
            return Err(join2(flag, " is not accepted by the local-only UI"));
        }
        if str_eq(flag, "--manage") {
            if manage {
                return Err(String::from_str("--manage specified more than once"));
            }
            manage = true;
            index += 1;
        } else {
            if index + 1 >= args.len() {
                return Err(join2(flag, " requires a value"));
            }
            let value = args[index + 1].as_str();
            assert(views[index + 1 as int] == value@);
            if str_eq(flag, "--db") {
                if db_path.is_some() {
                    return Err(String::from_str("--db specified more than once"));
                }
                db_path = Some(to_owned(value));
            } else if str_eq(flag, "--plugins-dir") {
                if plugins_dir.is_some() {
                    return Err(String::from_str("--plugins-dir specified more than once"));
                }
                plugins_dir = Some(to_owned(value));
            } else if str_eq(flag, "--port") {
                if port.is_some() {
                    return Err(String::from_str("--port specified more than once"));
                }
                let c = chars_of(value);
                match parse_unsigned(c.as_slice(), 65535) {
                    None => {
                        return Err(String::from_str("--port must be a TCP port"));
                    },
                    Some(p) => {
                        port = Some(p as u16);
                    },
                }
            } else {
                return Err(join2("unknown ui option: ", flag));
            }
            index += 2;
        }
    }
    let db_path = match db_path {
        Some(d) => d,
        None => {
            return Err(String::from_str("--db is required"));
        },
    };
    let plugins_dir = match plugins_dir {
        Some(p) => p,
        None => {
            return Err(String::from_str("--plugins-dir is required"));
        },
    };
    let port = match port {
        Some(p) => p,
        None => DEFAULT_UI_PORT,
    };
    Ok(UiArgs { db_path, plugins_dir, port, manage })
}

pub open spec fn spec_known_path(p: Seq<char>) -> bool {
    ||| p == "/"@
    ||| p == "/api/summary"@
    ||| p == "/api/records"@
    ||| p == "/api/state/known-source-urls"@
    ||| p == "/api/plugins"@
    ||| p == "/api/manage/status"@
    ||| p == "/api/manage/init-db"@
    ||| p == "/api/manage/discover"@
    ||| p == "/api/manage/cancel"@
}

/// The paths the UI serves.
pub fn is_known_path(path: &str) -> (r: bool)
    ensures
        r == spec_known_path(path@),
{
    str_eq(path, "/") || str_eq(path, "/api/summary") || str_eq(path, "/api/records") || str_eq(
        path,
        "/api/state/known-source-urls",
    ) || str_eq(path, "/api/plugins") || str_eq(path, "/api/manage/status") || str_eq(
        path,
        "/api/manage/init-db",
    ) || str_eq(path, "/api/manage/discover") || str_eq(path, "/api/manage/cancel")
}

/// What a request of the UI is served with.
#[derive(Debug, Clone, Copy, PartialEq, Eq)]
pub enum Route {
    Index,
    Summary,
    Records,
    KnownSourceUrls,
    Plugins,
    ManageStatus,
    InitDb,
    Discover,
    Cancel,
    /// 405, with the methods to allow.
    MethodNotAllowed { allow_get: bool },
    NotFound,
}

pub open spec fn spec_route(method: Seq<char>, path: Seq<char>) -> Route {
    let read = method == "GET"@ || method == "HEAD"@;
    let post = method == "POST"@;
    if read && path == "/"@ {
        Route::Index
    } else if read && path == "/api/summary"@ {
        Route::Summary
    } else if read && path == "/api/records"@ {
        Route::Records
    } else if read && path == "/api/state/known-source-urls"@ {
        Route::KnownSourceUrls
    } else if read && path == "/api/plugins"@ {
        Route::Plugins
    } else if read && path == "/api/manage/status"@ {
        Route::ManageStatus
    } else if post && path == "/api/manage/init-db"@ {
        Route::InitDb
    } else if post && path == "/api/manage/discover"@ {
        Route::Discover
    } else if post && path == "/api/manage/cancel"@ {
        Route::Cancel
    } else if read && (path == "/api/manage/init-db"@ || path == "/api/manage/discover"@ || path
        == "/api/manage/cancel"@) {
        Route::MethodNotAllowed { allow_get: false }
    } else if post {
        Route::MethodNotAllowed { allow_get: true }
    } else if spec_known_path(path) {
        Route::MethodNotAllowed { allow_get: true }
    } else {
        Route::NotFound
    }
}

/// Chooses the handler of a request: reads go by `GET`/`HEAD`, the
/// management routes by `POST`; a known path with another method is 405.
pub fn route(method: &str, path: &str) -> (r: Route)
    ensures
        r == spec_route(method@, path@),
{
    let read = str_eq(method, "GET") || str_eq(method, "HEAD");
    let post = str_eq(method, "POST");
    if read && str_eq(path, "/") {
        Route::Index
    } else if read && str_eq(path, "/api/summary") {
        Route::Summary
    } else if read && str_eq(path, "/api/records") {
        Route::Records
    } else if read && str_eq(path, "/api/state/known-source-urls") {
        Route::KnownSourceUrls
    } else if read && str_eq(path, "/api/plugins") {
        Route::Plugins
    } else if read && str_eq(path, "/api/manage/status") {
        Route::ManageStatus
    } else if post && str_eq(path, "/api/manage/init-db") {
        Route::InitDb
    } else if post && str_eq(path, "/api/manage/discover") {
        Route::Discover
    } else if post && str_eq(path, "/api/manage/cancel") {
        Route::Cancel
    } else if read && (str_eq(path, "/api/manage/init-db") || str_eq(path, "/api/manage/discover")
        || str_eq(path, "/api/manage/cancel")) {
        Route::MethodNotAllowed { allow_get: false }
    } else if post {
        Route::MethodNotAllowed { allow_get: true }
    } else if is_known_path(path) {
        Route::MethodNotAllowed { allow_get: true }
    } else {
        Route::NotFound
    }
}

/// A refused request: its status, its error message, and the methods to
/// allow for a 405.
#[derive(Debug, Clone, PartialEq, Eq)]
pub struct Rejection {
    pub status: u16,
    pub error: String,
    pub allow: Option<String>,
}

pub open spec fn rejected(r: Rejection, status: u16, error: Seq<char>) -> bool {
    r.status == status && r.error@ == error && r.allow is None
}

fn reject(status: u16, error: &str) -> (r: Rejection)
    ensures
        rejected(r, status, error@),
{
    Rejection { status, error: String::from_str(error), allow: None }
}

/// The `Host` guard in front of every route: a loopback authority on the
/// bound port is required.
pub fn require_loopback_host(host: Option<&str>, port: u16) -> (r: Option<Rejection>)
    ensures
        match host {
            None => r matches Some(x) && rejected(x, 400, "Host header is required"@),
            Some(h) => if spec_allowed_loopback_authority(h@, port) {
                r is None
            } else {
                r matches Some(x) && rejected(x, 403, "invalid Host header"@)
            },
        },
{
    match host {
        None => Some(reject(400, "Host header is required")),
        Some(h) => {
            if is_allowed_loopback_authority(h, port) {
                None
            } else {
                Some(reject(403, "invalid Host header"))
            }
        },
    }
}

/// What a management request presents.
pub struct ManagementRequest<'a> {
    pub method: &'a str,
    pub host: Option<&'a str>,
    pub origin: Option<&'a str>,
    pub token: Option<&'a str>,
}

/// The guard of the management routes: management mode on, `POST`, a
/// loopback `Host`, a loopback `Origin` when one is sent, and the token of
/// this process.
pub fn require_management_request(
    manage: bool,
    port: u16,
    expected_token: Option<&str>,
    request: &ManagementRequest,
) -> (r: Result<(), Rejection>)
    ensures
        !manage ==> (r matches Err(x) && rejected(x, 403, "management mode disabled"@)),
        manage && request.method@ != "POST"@ ==> (r matches Err(x) && x.status == 405
            && x.error@ == "method not allowed"@ && x.allow == Some(x.allow->Some_0)
            && x.allow->Some_0@ == "POST"@),
        manage && request.method@ == "POST"@ ==> match request.host {
            None => r matches Err(x) && rejected(x, 400, "Host header is required"@),
            Some(h) => if !spec_allowed_loopback_authority(h@, port) {
                r matches Err(x) && rejected(x, 403, "invalid Host header"@)
            } else if request.origin is Some && !spec_allowed_origin(
                request.origin->Some_0@,
                port,
            ) {
                r matches Err(x) && rejected(x, 403, "invalid Origin header"@)
            } else {
                match expected_token {
                    None => r matches Err(x) && rejected(x, 500, "management token unavailable"@),
                    Some(t) => if request.token is Some && request.token->Some_0@ == t@ {
                        r is Ok
                    } else {
                        r matches Err(x) && rejected(x, 403, "invalid management token"@)
                    },
                }
            },
        },
{
    if !manage {
        return Err(reject(403, "management mode disabled"));
    }
    if !str_eq(request.method, "POST") {
        return Err(
            Rejection {
                status: 405,
                error: String::from_str("method not allowed"),
                allow: Some(String::from_str("POST")),
            },
        );
    }
    let host = match request.host {
        Some(h) => h,
        None => {
            return Err(reject(400, "Host header is required"));
        },
    };
    if !is_allowed_loopback_authority(host, port) {
        return Err(reject(403, "invalid Host header"));
    }
    match request.origin {
        Some(o) => {
            if !is_allowed_origin(o, port) {
                return Err(reject(403, "invalid Origin header"));
            }
        },
        None => {},
    }
    let expected = match expected_token {
        Some(t) => t,
        None => {
            return Err(reject(500, "management token unavailable"));
        },
    };
    match request.token {
        Some(actual) => {
            if str_eq(actual, expected) {
                Ok(())
            } else {
                Err(reject(403, "invalid management token"))
            }
        },
        None => Err(reject(403, "invalid management token")),
    }
}

/// The page of `/api/records`: `limit` defaults to 50 and is kept within
/// 1..=200; `offset` defaults to 0.
pub fn records_page(limit: Option<u32>, offset: Option<u32>) -> (r: (u32, u32))
    ensures
        r.0 == (match limit {
            None => 50,
            Some(l) => if l < 1 {
                1
            } else if l > 200 {
                200
            } else {
                l
            },
        }),
        r.1 == (match offset {
            None => 0,
            Some(o) => o,
        }),
{
    let l = match limit {
        None => 50,
        Some(l) => l,
    };
    let l = if l < 1 {
        1
    } else if l > 200 {
        200
    } else {
        l
    };
    let o = match offset {
        None => 0,
        Some(o) => o,
    };
    (l, o)
}

/// A discover request of the UI.
#[derive(Debug, Clone, PartialEq, Eq)]
pub struct DiscoverRequest {
    pub plugin_id: String,
    pub limits: DiscoverLimits,
    pub timeout_seconds: u64,
}

pub open spec fn spec_required_string(v: Json, key: Seq<char>) -> Result<Seq<char>, Seq<char>> {
    match spec_as_str(spec_get(v, key)) {
        None => Err(key + " is required"@),
        Some(s) => if blank(s) {
            Err(key + " must not be empty"@)
        } else {
            Ok(s)
        },
    }
}

pub fn required_string(v: &Json, key: &str) -> (r: Result<String, String>)
    ensures
        match spec_required_string(*v, key@) {
            Ok(s) => r matches Ok(t) && t@ == s,
            Err(m) => r matches Err(e) && e@ == m,
        },
{
    let s = match v.get(key) {
        Some(x) => x.as_str(),
        None => None,
    };
    match s {
        None => Err(join2(key, " is required")),
        Some(s) => {
            if is_blank(s) {
                Err(join2(key, " must not be empty"))
            } else {
                Ok(to_owned(s))
            }
        },
    }
}

pub open spec fn spec_bounded_u64(v: Json, key: Seq<char>, max: u64) -> Result<u64, Seq<char>> {
    match spec_as_u64(spec_get(v, key)) {
        None => Err(key + " is required"@),
        Some(n) => if n == 0 {
            Err(key + " must be greater than zero"@)
        } else if n > max {
            Err(key + " must be less than or equal to "@ + decimal_chars(max as nat))
        } else {
            Ok(n)
        },
    }
}

pub fn required_bounded_u64(v: &Json, key: &str, max: u64) -> (r: Result<u64, String>)
    ensures
        match spec_bounded_u64(*v, key@, max) {
            Ok(n) => r == Ok::<u64, String>(n),
            Err(m) => r matches Err(e) && e@ == m,
        },
{
    let n = match v.get(key) {
        Some(x) => x.as_u64(),
        None => None,
    };
    match n {
        None => Err(join2(key, " is required")),
        Some(n) => {
            if n == 0 {
                Err(join2(key, " must be greater than zero"))
            } else if n > max {
                Err(
                    join3(
                        key,
                        " must be less than or equal to ",
                        decimal_string(max).as_str(),
                    ),
                )
            } else {
                Ok(n)
            }
        },
    }
}

/// The body of a UI discover request: a plugin id and explicit bounds.
pub open spec fn spec_discover_request(v: Json) -> Result<
    (Seq<char>, u64, u64, u64, u64),
    Seq<char>,
> {
    match spec_required_string(v, "plugin_id"@) {
        Err(m) => Err(m),
        Ok(id) => match spec_bounded_u64(v, "max_pages"@, MAX_MANAGE_DISCOVER_PAGES) {
            Err(m) => Err(m),
            Ok(mp) => match spec_bounded_u64(v, "per_page"@, MAX_MANAGE_DISCOVER_PER_PAGE) {
                Err(m) => Err(m),
                Ok(pp) => match spec_bounded_u64(v, "max_records"@, MAX_MANAGE_DISCOVER_RECORDS) {
                    Err(m) => Err(m),
                    Ok(mr) => match spec_bounded_u64(
                        v,
                        "timeout_seconds"@,
                        MAX_MANAGE_DISCOVER_TIMEOUT_SECONDS,
                    ) {
                        Err(m) => Err(m),
                        Ok(t) => Ok((id, mp, pp, mr, t)),
                    },
                },
            },
        },
    }
}

/// Reads a discover request of the UI from its JSON body.
pub fn parse_discover_request(v: &Json) -> (r: Result<DiscoverRequest, String>)
    ensures
        match spec_discover_request(*v) {
            Ok((id, mp, pp, mr, t)) => r matches Ok(d) && d.plugin_id@ == id && d.limits.max_pages
                == Some(mp) && d.limits.per_page == Some(pp) && d.limits.max_records == Some(mr)
                && d.timeout_seconds == t,
            Err(m) => r matches Err(e) && e@ == m,
        },
{
    let plugin_id = match required_string(v, "plugin_id") {
        Ok(s) => s,
        Err(e) => {
            return Err(e);
        },
    };
    let max_pages = match required_bounded_u64(v, "max_pages", MAX_MANAGE_DISCOVER_PAGES) {
        Ok(n) => n,
        Err(e) => {
            return Err(e);
        },
    };
    let per_page = match required_bounded_u64(v, "per_page", MAX_MANAGE_DISCOVER_PER_PAGE) {
        Ok(n) => n,
        Err(e) => {
            return Err(e);
        },
    };
    let max_records = match required_bounded_u64(v, "max_records", MAX_MANAGE_DISCOVER_RECORDS) {
        Ok(n) => n,
        Err(e) => {
            return Err(e);
        },
    };
    let timeout_seconds = match required_bounded_u64(
        v,
        "timeout_seconds",
        MAX_MANAGE_DISCOVER_TIMEOUT_SECONDS,
    ) {
        Ok(n) => n,
        Err(e) => {
            return Err(e);
        },
    };
    Ok(
        DiscoverRequest {
            plugin_id,
            limits: DiscoverLimits {
                max_pages: Some(max_pages),
                per_page: Some(per_page),
                max_records: Some(max_records),
            },
            timeout_seconds,
        },
    )
}

/// The run a cancel request names, when its body holds a string `run_id`.
pub fn requested_run_id(body: &Json) -> (r: Option<String>)
    ensures
        match spec_as_str(spec_get(*body, "run_id"@)) {
            Some(s) => r matches Some(t) && t@ == s,
            None => r is None,
        },
{
    match body.get("run_id") {
        Some(x) => match x.as_str() {
            Some(s) => Some(to_owned(s)),
            None => None,
        },
        None => None,
    }
}

/// A cancel request against the active run: there must be one, it must be
/// the named run when a run is named, and it must still be cancellable.
pub fn check_cancel(requested: Option<&str>, active: Option<(&str, bool)>) -> (r: Result<
    (),
    Rejection,
>)
    ensures
        match active {
            None => r matches Err(x) && rejected(x, 409, "no active UI discover run"@),
            Some((run_id, cancellable)) => if requested is Some && requested->Some_0@ != run_id@ {
                r matches Err(x) && rejected(x, 404, "active run_id does not match"@)
            } else if !cancellable {
                r matches Err(x) && rejected(
                    x,
                    409,
                    "active UI discover run is no longer cancellable"@,
                )
            } else {
                r is Ok
            },
        },
{
    let (run_id, cancellable) = match active {
        None => {
            return Err(reject(409, "no active UI discover run"));
        },
        Some(a) => a,
    };
    match requested {
        Some(q) => {
            if !str_eq(q, run_id) {
                return Err(reject(404, "active run_id does not match"));
            }
        },
        None => {},
    }
    if !cancellable {
        return Err(reject(409, "active UI discover run is no longer cancellable"));
    }
    Ok(())
}

/// The lowercase hexadecimal digit of a value below 16.
/// The status shown for the active run: a requested cancel first, then
/// whether it can still be cancelled.
pub open spec fn spec_run_status(cancel_requested: bool, cancellable: bool) -> Seq<char> {
    if cancel_requested {
        "cancelling"@
    } else if cancellable {
        "running"@
    } else {
        "ingesting"@
    }
}

pub fn active_run_status(cancel_requested: bool, cancellable: bool) -> (s: &'static str)
    ensures
        s@ == spec_run_status(cancel_requested, cancellable),
{
    if cancel_requested {
        "cancelling"
    } else if cancellable {
        "running"
    } else {
        "ingesting"
    }
}

/// Before its records are ingested, a discover run must still be the active
/// run and must not have been cancelled; from then on it cannot be.
pub fn check_ingest(active_run_id: Option<&str>, run_id: &str, cancelled: bool) -> (r: Result<
    (),
    HostError,
>)
    ensures
        (active_run_id is None || active_run_id->Some_0@ != run_id@) ==> (r matches Err(
            HostError::State(e),
        ) && e.spec_message() == "UI run state is not active"@),
        (active_run_id is Some && active_run_id->Some_0@ == run_id@) ==> (cancelled ==> r matches Err(
            HostError::Cancelled,
        )) && (!cancelled ==> r is Ok),
{
    let same = match active_run_id {
        Some(a) => str_eq(a, run_id),
        None => false,
    };
    if !same {
        return Err(HostError::State(StateError::backend("UI run state is not active")));
    }
    if cancelled {
        return Err(HostError::Cancelled);
    }
    Ok(())
}

pub open spec fn hex_digit(n: u8) -> char {
    if n < 10 {
        (48 + n) as char
    } else {
        (87 + n) as char
    }
}

/// Each byte as two lowercase hexadecimal digits.
pub open spec fn hex_text(bytes: Seq<u8>) -> Seq<char>
    decreases bytes.len(),
{
    if bytes.len() == 0 {
        Seq::empty()
    } else {
        hex_text(bytes.drop_last()) + seq![
            hex_digit(bytes.last() / 16),
            hex_digit(bytes.last() % 16),
        ]
    }
}

fn hex_char(n: u8) -> (c: char)
    requires
        n < 16,
    ensures
        c == hex_digit(n),
{
    if n < 10 {
        (48u8 + n) as char
    } else {
        (87u8 + n) as char
    }
}

/// `bytes` written as lowercase hexadecimal.
pub fn hex_string(bytes: &[u8]) -> (s: String)
    ensures
        s@ == hex_text(bytes@),
        s@.len() == 2 * bytes@.len(),
{
    let mut out: Vec<char> = Vec::new();
    let mut i: usize = 0;
    while i < bytes.len()
        invariant
            i <= bytes@.len(),
            out@ == hex_text(bytes@.take(i as int)),
            out@.len() == 2 * i,
        decreases bytes@.len() - i,
    {
        let b = bytes[i];
        out.push(hex_char(b / 16));
        out.push(hex_char(b % 16));
        proof {
            assert(bytes@.take(i + 1).drop_last() =~= bytes@.take(i as int));
        }
        i += 1;
    }
    assert(bytes@.take(bytes@.len() as int) =~= bytes@);
    crate::text::string_from_chars(out.as_slice())
}

/// `getrandom::getrandom`: fills the buffer from the system's random source,
/// or reports why it could not.
#[verifier::external_body]
pub(crate) fn random_bytes(buf: &mut [u8]) -> (r: Result<(), String>)
    ensures
        final(buf)@.len() == old(buf)@.len(),
{
    match getrandom::getrandom(buf) {
        Ok(()) => Ok(()),
        Err(e) => Err(e.to_string()),
    }
}

/// A fresh management token: 32 random bytes in lowercase hexadecimal.
pub fn generate_token() -> (r: Result<String, String>)
    ensures
        r matches Ok(t) ==> t@.len() == 64 && exists|b: Seq<u8>| b.len() == 32 && t@ == hex_text(b),
        r matches Err(e) ==> exists|m: Seq<char>| e@ == "token generation failed: "@ + m,
{
    let mut bytes = [0u8; 32];
    match random_bytes(&mut bytes) {
        Ok(()) => {
            let t = hex_string(&bytes);
            assert(bytes@.len() == 32);
            Ok(t)
        },
        Err(e) => {
            let m = join2("token generation failed: ", e.as_str());
            assert(m@ == "token generation failed: "@ + e@);
            Err(m)
        },
    }
}

} // verus!
