//! The host side of one discover run: the checks and readers applied to each
//! plugin message, and the run itself as a state machine that the caller feeds
//! with decoded messages and whose requests it carries out.

use vstd::prelude::*;
use vstd::string::StringExecFns;

use crate::db::SourcePostSummary;
use crate::domain::SourceRecord;
use crate::fetch::{FetchPolicy, FetchRequest, FetchRequestView};
use crate::host::{
    capped_records, host_fault, input_records, item_ok_len, log_len, over_budget, sizes_total, protocol, protocol_error, sat_add,
    spool_fault, DiscoverLimits, HostError, HostFault, HostLog, ManifestView, PluginManifest,
    HostFetchError, RecordInput, RunState, StateError, StateOpView, StateOperation,
    valid_for_source, HOST_MAX_LOG_BYTES, HOST_MAX_RECORDS, HOST_MAX_RECORD_BYTES,
};
use crate::json::{
    field_i64, field_string, field_string_list, field_u64, has_key, members, missing_field,
    not_an_object, spec_as_i64, spec_as_str, spec_as_u64, spec_field_i64, spec_field_str,
    spec_field_str_list, spec_field_u64, spec_get, take_member, wrong_type, Json,
};
use crate::message::{
    integer, request, Method, MAX_RECORD_BATCH, PROTOCOL_VERSION, RECORD_SCHEMA_VERSION,
};
use crate::text::{
    blank, chars_of, decimal_chars, decimal_string, is_blank, join2, join3, join4,
    starts_with, starts_with_chars, str_eq, to_owned,
};

verus! {

pub open spec fn jsonrpc_ok(v: Json) -> bool {
    spec_as_str(spec_get(v, "jsonrpc"@)) == Some("2.0"@)
}

/// Checks the JSON-RPC version marker of a message.
pub fn require_jsonrpc(value: &Json) -> (r: Result<(), HostError>)
    ensures
        r is Ok <==> jsonrpc_ok(*value),
        r is Err ==> host_fault(r->Err_0) == protocol("message missing jsonrpc = 2.0"@),
{
    let ok = match value.get("jsonrpc") {
        Some(x) => match x.as_str() {
            Some(s) => str_eq(s, "2.0"),
            None => false,
        },
        None => false,
    };
    if ok {
        Ok(())
    } else {
        Err(protocol_error(String::from_str("message missing jsonrpc = 2.0")))
    }
}

/// A notification carries no `id`.
pub fn require_notification(value: &Json, method: &str) -> (r: Result<(), HostError>)
    ensures
        r is Ok <==> !has_key(*value, "id"@),
        r is Err ==> host_fault(r->Err_0) == protocol(
            "method "@ + method@ + " must be a notification"@,
        ),
{
    if value.get("id").is_some() {
        return Err(protocol_error(join3("method ", method, " must be a notification")));
    }
    Ok(())
}

/// Plugin requests to the host are only served once `discover` has started,
/// that is once the manifest is known.
pub fn require_discover_phase(manifest: Option<&PluginManifest>, method: &str) -> (r: Result<
    (),
    HostError,
>)
    ensures
        r is Ok <==> manifest is Some,
        r is Err ==> host_fault(r->Err_0) == protocol(
            "method "@ + method@ + " is only valid during discover"@,
        ),
{
    if manifest.is_none() {
        return Err(protocol_error(join3("method ", method, " is only valid during discover")));
    }
    Ok(())
}

/// Plugin-originated request ids are strings in the `p-` namespace.
pub open spec fn spec_plugin_id(id: Json, method: Seq<char>) -> Result<(), Seq<char>> {
    match id {
        Json::String(s) => if starts_with(s@, "p-"@) {
            Ok(())
        } else {
            Err(method + " id must use plugin namespace p-*"@)
        },
        _ => Err(method + " id must be a string in the plugin namespace"@),
    }
}

pub fn require_plugin_request_id(id: &Json, method: &str) -> (r: Result<(), HostError>)
    ensures
        match spec_plugin_id(*id, method@) {
            Ok(_) => r is Ok,
            Err(m) => r is Err && host_fault(r->Err_0) == protocol(m),
        },
{
    match id {
        Json::String(s) => {
            let c = chars_of(s.as_str());
            let p = chars_of("p-");
            if starts_with_chars(c.as_slice(), p.as_slice()) {
                Ok(())
            } else {
                Err(protocol_error(join2(method, " id must use plugin namespace p-*")))
            }
        },
        _ => Err(protocol_error(join2(method, " id must be a string in the plugin namespace"))),
    }
}

/// A required, non-blank string argument of a state query.
pub open spec fn spec_state_arg(args: Json, op: Seq<char>, name: Seq<char>) -> Result<
    Seq<char>,
    Seq<char>,
> {
    match spec_as_str(spec_get(args, name)) {
        None => Err("state_query "@ + op + " missing args."@ + name),
        Some(s) => if blank(s) {
            Err("state_query "@ + op + " args."@ + name + " is empty"@)
        } else {
            Ok(s)
        },
    }
}

pub fn required_state_arg(args: &Json, op: &str, name: &str) -> (r: Result<String, HostError>)
    ensures
        match spec_state_arg(*args, op@, name@) {
            Ok(s) => r matches Ok(t) && t@ == s,
            Err(m) => r matches Err(e) && host_fault(e) == protocol(m),
        },
{
    let value = match args.get(name) {
        Some(x) => x.as_str(),
        None => None,
    };
    match value {
        None => Err(protocol_error(join4("state_query ", op, " missing args.", name))),
        Some(v) => {
            if is_blank(v) {
                let mut m = join4("state_query ", op, " args.", name);
                m.append(" is empty");
                Err(protocol_error(m))
            } else {
                Ok(to_owned(v))
            }
        },
    }
}

/// The operation named by `op`, with its arguments read from `args`.
pub open spec fn state_op(op: Seq<char>, args: Json) -> Result<StateOpView, Seq<char>> {
    if op == "known_source_urls"@ {
        match spec_state_arg(args, op, "source_name"@) {
            Err(m) => Err(m),
            Ok(n) => Ok(StateOpView::KnownSourceUrls { source_name: n }),
        }
    } else if op == "source_post_summary"@ {
        match spec_state_arg(args, op, "source_name"@) {
            Err(m) => Err(m),
            Ok(n) => match spec_state_arg(args, op, "source_url"@) {
                Err(m) => Err(m),
                Ok(u) => Ok(StateOpView::SourcePostSummary { source_name: n, source_url: u }),
            },
        }
    } else if op == "last_seen_at"@ {
        match spec_state_arg(args, op, "source_name"@) {
            Err(m) => Err(m),
            Ok(n) => Ok(StateOpView::LastSeenAt { source_name: n }),
        }
    } else if op == "content_fingerprint"@ {
        match spec_state_arg(args, op, "source_name"@) {
            Err(m) => Err(m),
            Ok(n) => match spec_state_arg(args, op, "source_url"@) {
                Err(m) => Err(m),
                Ok(u) => Ok(StateOpView::ContentFingerprint { source_name: n, source_url: u }),
            },
        }
    } else {
        Err("unknown state_query op "@ + op)
    }
}

/// The `params` of a `state_query`: its query id and the typed operation.
pub open spec fn spec_state_query(params: Json) -> Result<(Seq<char>, StateOpView), Seq<char>> {
    match spec_as_str(spec_get(params, "id"@)) {
        None => Err("state_query missing params.id"@),
        Some(id) => match spec_as_str(spec_get(params, "op"@)) {
            None => Err("state_query missing op"@),
            Some(op) => {
                let args = match spec_get(params, "args"@) {
                    Some(a) => a,
                    None => Json::Null,
                };
                match state_op(op, args) {
                    Err(m) => Err(m),
                    Ok(o) => Ok((id, o)),
                }
            },
        },
    }
}

/// Reads the `params` of a `state_query` into its query id and typed operation.
pub fn parse_state_query(params: &Json) -> (r: Result<(String, StateOperation), HostError>)
    ensures
        match spec_state_query(*params) {
            Ok((id, op)) => r matches Ok((i, o)) && i@ == id && o@ == op,
            Err(m) => r matches Err(e) && host_fault(e) == protocol(m),
        },
{
    let query_id = match params.get("id") {
        Some(x) => x.as_str(),
        None => None,
    };
    let query_id = match query_id {
        Some(q) => q,
        None => {
            return Err(protocol_error(String::from_str("state_query missing params.id")));
        },
    };
    let op = match params.get("op") {
        Some(x) => x.as_str(),
        None => None,
    };
    let op = match op {
        Some(o) => o,
        None => {
            return Err(protocol_error(String::from_str("state_query missing op")));
        },
    };
    let null = Json::Null;
    let args: &Json = match params.get("args") {
        Some(a) => a,
        None => &null,
    };
    let operation = if str_eq(op, "known_source_urls") {
        let source_name = match required_state_arg(args, op, "source_name") {
            Ok(s) => s,
            Err(e) => return Err(e),
        };
        StateOperation::KnownSourceUrls { source_name }
    } else if str_eq(op, "source_post_summary") {
        let source_name = match required_state_arg(args, op, "source_name") {
            Ok(s) => s,
            Err(e) => return Err(e),
        };
        let source_url = match required_state_arg(args, op, "source_url") {
            Ok(s) => s,
            Err(e) => return Err(e),
        };
        StateOperation::SourcePostSummary { source_name, source_url }
    } else if str_eq(op, "last_seen_at") {
        let source_name = match required_state_arg(args, op, "source_name") {
            Ok(s) => s,
            Err(e) => return Err(e),
        };
        StateOperation::LastSeenAt { source_name }
    } else if str_eq(op, "content_fingerprint") {
        let source_name = match required_state_arg(args, op, "source_name") {
            Ok(s) => s,
            Err(e) => return Err(e),
        };
        let source_url = match required_state_arg(args, op, "source_url") {
            Ok(s) => s,
            Err(e) => return Err(e),
        };
        StateOperation::ContentFingerprint { source_name, source_url }
    } else {
        return Err(protocol_error(join2("unknown state_query op ", op)));
    };
    Ok((to_owned(query_id), operation))
}

pub open spec fn all_string_members(m: Seq<(String, Json)>) -> bool {
    forall|i: int| 0 <= i < m.len() ==> #[trigger] m[i].1 is String
}

pub open spec fn string_members(m: Seq<(String, Json)>) -> Seq<(Seq<char>, Seq<char>)> {
    Seq::new(m.len(), |i: int| (m[i].0@, m[i].1->String_0@))
}

/// The `headers` of a fetch request: absent means none; otherwise an object
/// of string values.
pub open spec fn spec_headers_field(v: Json) -> Result<Seq<(Seq<char>, Seq<char>)>, Seq<char>> {
    match spec_get(v, "headers"@) {
        None => Ok(Seq::empty()),
        Some(Json::Object(m)) => if all_string_members(m@) {
            Ok(string_members(m@))
        } else {
            Err(wrong_type("headers"@))
        },
        Some(_) => Err(wrong_type("headers"@)),
    }
}

/// A fetch request read from its JSON object.
pub open spec fn spec_fetch_request_json(v: Json) -> Result<FetchRequestView, Seq<char>> {
    if !(v is Object) {
        Err(not_an_object())
    } else {
        match spec_field_str(v, "url"@) {
            Err(m) => Err(m),
            Ok(url) => match spec_field_str(v, "method"@) {
                Err(m) => Err(m),
                Ok(method) => match spec_headers_field(v) {
                    Err(m) => Err(m),
                    Ok(headers) => Ok(FetchRequestView { url, method, headers }),
                },
            },
        }
    }
}

fn header_pairs(m: &Vec<(String, Json)>) -> (r: Option<Vec<(String, String)>>)
    ensures
        all_string_members(m@) ==> (r matches Some(h) && h@.map_values(
            |p: (String, String)| (p.0@, p.1@),
        ) == string_members(m@)),
        !all_string_members(m@) ==> r is None,
{
    let mut out: Vec<(String, String)> = Vec::new();
    let mut i: usize = 0;
    while i < m.len()
        invariant
            i <= m@.len(),
            forall|j: int| 0 <= j < i ==> #[trigger] m@[j].1 is String,
            out@.map_values(|p: (String, String)| (p.0@, p.1@)) == string_members(
                m@.take(i as int),
            ),
        decreases m@.len() - i,
    {
        match &m[i].1 {
            Json::String(s) => {
                let k = m[i].0.clone();
                let v = s.clone();
                let ghost prev = out@;
                out.push((k, v));
                proof {
                    let f = |p: (String, String)| (p.0@, p.1@);
                    assert(out@.map_values(f) =~= prev.map_values(f).push((m@[i as int].0@, s@)));
                    assert(string_members(m@.take(i + 1)) =~= string_members(
                        m@.take(i as int),
                    ).push((m@[i as int].0@, s@)));
                }
                i += 1;
            },
            _ => {
                assert(!(m@[i as int].1 is String));
                return None;
            },
        }
    }
    assert(m@.take(m@.len() as int) =~= m@);
    Some(out)
}

/// Reads a fetch request from its JSON object.
pub fn fetch_request_from_json(v: &Json) -> (r: Result<FetchRequest, String>)
    ensures
        match spec_fetch_request_json(*v) {
            Ok(req) => r matches Ok(q) && q@ == req,
            Err(m) => r matches Err(e) && e@ == m,
        },
{
    if !v.is_object() {
        return Err(String::from_str("invalid type: expected an object"));
    }
    let url = match field_string(v, "url") {
        Ok(s) => s,
        Err(e) => return Err(e),
    };
    let method = match field_string(v, "method") {
        Ok(s) => s,
        Err(e) => return Err(e),
    };
    let headers = match v.get("headers") {
        None => Vec::new(),
        Some(Json::Object(m)) => match header_pairs(m) {
            Some(h) => h,
            None => return Err(join3("invalid type for field `", "headers", "`")),
        },
        Some(_) => return Err(join3("invalid type for field `", "headers", "`")),
    };
    let r = FetchRequest { url, method, headers };
    proof {
        assert(r@.headers =~= spec_headers_field(*v)->Ok_0);
    }
    Ok(r)
}

/// The `params` of a `fetch_request`: its request id and the request.
pub open spec fn spec_fetch_params(params: Json) -> Result<(Seq<char>, FetchRequestView), Seq<char>> {
    match spec_as_str(spec_get(params, "id"@)) {
        None => Err("fetch_request missing params.id"@),
        Some(id) => if blank(id) {
            Err("fetch_request params.id is empty"@)
        } else {
            match spec_get(params, "request"@) {
                None => Err("fetch_request missing request"@),
                Some(req) => match spec_fetch_request_json(req) {
                    Err(m) => Err("invalid fetch_request request: "@ + m),
                    Ok(rv) => Ok((id, rv)),
                },
            }
        },
    }
}

/// Reads the `params` of a `fetch_request` into its request id and request.
pub fn parse_fetch_request(params: &Json) -> (r: Result<(String, FetchRequest), HostError>)
    ensures
        match spec_fetch_params(*params) {
            Ok((id, req)) => r matches Ok((i, q)) && i@ == id && q@ == req,
            Err(m) => r matches Err(e) && host_fault(e) == protocol(m),
        },
{
    let request_id = match params.get("id") {
        Some(x) => x.as_str(),
        None => None,
    };
    let request_id = match request_id {
        Some(id) => id,
        None => {
            return Err(protocol_error(String::from_str("fetch_request missing params.id")));
        },
    };
    if is_blank(request_id) {
        return Err(protocol_error(String::from_str("fetch_request params.id is empty")));
    }
    let request_value = match params.get("request") {
        Some(x) => x,
        None => {
            return Err(protocol_error(String::from_str("fetch_request missing request")));
        },
    };
    let request = match fetch_request_from_json(request_value) {
        Ok(q) => q,
        Err(m) => {
            return Err(protocol_error(join2("invalid fetch_request request: ", m.as_str())));
        },
    };
    Ok((to_owned(request_id), request))
}

/// The plugin manifest read from its JSON object.
pub open spec fn spec_manifest_json(v: Json) -> Result<ManifestView, Seq<char>> {
    if !(v is Object) {
        Err(not_an_object())
    } else {
        match spec_field_str(v, "source_name"@) {
            Err(m) => Err(m),
            Ok(source_name) => match spec_field_str(v, "display_label"@) {
                Err(m) => Err(m),
                Ok(display_label) => match spec_field_str_list(v, "allowed_domains"@) {
                    Err(m) => Err(m),
                    Ok(allowed_domains) => match spec_field_str_list(v, "capabilities"@) {
                        Err(m) => Err(m),
                        Ok(capabilities) => Ok(
                            ManifestView { source_name, display_label, allowed_domains, capabilities },
                        ),
                    },
                },
            },
        }
    }
}

pub fn manifest_from_json(v: &Json) -> (r: Result<PluginManifest, String>)
    ensures
        match spec_manifest_json(*v) {
            Ok(mv) => r matches Ok(m) && m@ == mv,
            Err(e) => r matches Err(s) && s@ == e,
        },
{
    if !v.is_object() {
        return Err(String::from_str("invalid type: expected an object"));
    }
    let source_name = match field_string(v, "source_name") {
        Ok(s) => s,
        Err(e) => return Err(e),
    };
    let display_label = match field_string(v, "display_label") {
        Ok(s) => s,
        Err(e) => return Err(e),
    };
    let allowed_domains = match field_string_list(v, "allowed_domains") {
        Ok(s) => s,
        Err(e) => return Err(e),
    };
    let capabilities = match field_string_list(v, "capabilities") {
        Ok(s) => s,
        Err(e) => return Err(e),
    };
    let m = PluginManifest { source_name, display_label, allowed_domains, capabilities };
    proof {
        assert(m@.allowed_domains =~= spec_field_str_list(*v, "allowed_domains"@)->Ok_0);
        assert(m@.capabilities =~= spec_field_str_list(*v, "capabilities"@)->Ok_0);
    }
    Ok(m)
}

/// The result of `initialize`: protocol version, record schema version, manifest.
pub open spec fn spec_initialize_result(v: Json) -> Result<(i64, i64, ManifestView), Seq<char>> {
    if !(v is Object) {
        Err(not_an_object())
    } else {
        match spec_field_i64(v, "protocol_version"@) {
            Err(m) => Err(m),
            Ok(pv) => match spec_field_i64(v, "record_schema_version"@) {
                Err(m) => Err(m),
                Ok(rs) => match spec_get(v, "manifest"@) {
                    None => Err(missing_field("manifest"@)),
                    Some(mj) => match spec_manifest_json(mj) {
                        Err(m) => Err(m),
                        Ok(mv) => Ok((pv, rs, mv)),
                    },
                },
            },
        }
    }
}

pub fn parse_initialize_result(v: &Json) -> (r: Result<(i64, i64, PluginManifest), String>)
    ensures
        match spec_initialize_result(*v) {
            Ok((pv, rs, mv)) => r matches Ok((p, s, m)) && p == pv && s == rs && m@ == mv,
            Err(e) => r matches Err(s) && s@ == e,
        },
{
    if !v.is_object() {
        return Err(String::from_str("invalid type: expected an object"));
    }
    let pv = match field_i64(v, "protocol_version") {
        Ok(n) => n,
        Err(e) => return Err(e),
    };
    let rs = match field_i64(v, "record_schema_version") {
        Ok(n) => n,
        Err(e) => return Err(e),
    };
    let mj = match v.get("manifest") {
        Some(x) => x,
        None => return Err(join3("missing field `", "manifest", "`")),
    };
    let m = match manifest_from_json(mj) {
        Ok(m) => m,
        Err(e) => return Err(e),
    };
    Ok((pv, rs, m))
}

/// The result of `discover`: the number of records the plugin sent.
pub open spec fn spec_discover_result(v: Json) -> Result<u64, Seq<char>> {
    if !(v is Object) {
        Err(not_an_object())
    } else {
        spec_field_u64(v, "records"@)
    }
}

pub fn parse_discover_result(v: &Json) -> (r: Result<u64, String>)
    ensures
        match spec_discover_result(*v) {
            Ok(n) => r == Ok::<u64, String>(n),
            Err(e) => r matches Err(s) && s@ == e,
        },
{
    if !v.is_object() {
        return Err(String::from_str("invalid type: expected an object"));
    }
    field_u64(v, "records")
}

/// `n.to_string()` for a signed integer, as characters.
pub open spec fn signed_chars(n: i64) -> Seq<char> {
    if n < 0 {
        "-"@ + decimal_chars((-(n as int)) as nat)
    } else {
        decimal_chars(n as nat)
    }
}

pub fn signed_text(n: i64) -> (s: String)
    ensures
        s@ == signed_chars(n),
{
    if n < 0 {
        let mag: u64 = if n == i64::MIN {
            9223372036854775808u64
        } else {
            (-n) as u64
        };
        join2("-", decimal_string(mag).as_str())
    } else {
        decimal_string(n as u64)
    }
}

/// What a plugin message calls for, as a value.
pub enum Plan {
    /// Append a log line.
    Log { level: Seq<char>, message: Seq<char> },
    /// Spool the record value (`single`) or the batch under `params.records`.
    Spool { single: bool },
    /// Answer a state query.
    StateQuery { query_id: Seq<char>, op: StateOpView },
    /// Perform a fetch.
    Fetch { fetch_id: Seq<char>, request: FetchRequestView },
    /// `initialize` was answered with this manifest.
    Initialized { manifest: ManifestView },
    /// `discover` was answered with this record count.
    Finished { records: u64 },
    /// The plugin answered with a JSON-RPC error.
    PluginError,
    /// The run fails; an error reply with this code and message is owed first
    /// when `reply` is present.
    Fail { reply: Option<(i64, Seq<char>)>, fault: HostFault },
}

pub open spec fn fail(m: Seq<char>) -> Plan {
    Plan::Fail { reply: None, fault: protocol(m) }
}

/// The string member `key`, or `default` when it is absent or not a string.
pub open spec fn str_or(p: Json, key: Seq<char>, default: Seq<char>) -> Seq<char> {
    match spec_as_str(spec_get(p, key)) {
        Some(s) => s,
        None => default,
    }
}

/// A `record` notification carries one record under `record`, or a bounded
/// batch under `records`.
pub open spec fn record_plan(params: Json) -> Plan {
    if has_key(params, "record"@) {
        Plan::Spool { single: true }
    } else {
        match spec_get(params, "records"@) {
            Some(Json::Array(items)) => if items@.len() > MAX_RECORD_BATCH {
                fail(
                    "record batch too large: "@ + decimal_chars(items@.len()) + " > "@
                        + decimal_chars(MAX_RECORD_BATCH as nat),
                )
            } else {
                Plan::Spool { single: false }
            },
            _ => fail("record missing record(s)"@),
        }
    }
}

pub open spec fn state_plan(msg: Json) -> Plan {
    match spec_get(msg, "id"@) {
        None => fail("state_query missing json-rpc id"@),
        Some(id) => match spec_plugin_id(id, "state_query"@) {
            Err(m) => fail(m),
            Ok(_) => match spec_get(msg, "params"@) {
                None => fail("state_query missing params"@),
                Some(p) => match spec_state_query(p) {
                    Err(m) => Plan::Fail {
                        reply: Some((-32602i64, "protocol error: "@ + m)),
                        fault: protocol(m),
                    },
                    Ok((q, op)) => Plan::StateQuery { query_id: q, op },
                },
            },
        },
    }
}

pub open spec fn fetch_plan(msg: Json) -> Plan {
    match spec_get(msg, "id"@) {
        None => fail("fetch_request missing id"@),
        Some(id) => match spec_plugin_id(id, "fetch_request"@) {
            Err(m) => fail(m),
            Ok(_) => match spec_get(msg, "params"@) {
                None => fail("fetch_request missing params"@),
                Some(p) => match spec_fetch_params(p) {
                    Err(m) => Plan::Fail {
                        reply: Some((-32602i64, "protocol error: "@ + m)),
                        fault: protocol(m),
                    },
                    Ok((f, req)) => Plan::Fetch { fetch_id: f, request: req },
                },
            },
        },
    }
}

/// A message that names a method: plugin-to-host traffic.
pub open spec fn plugin_plan(
    manifest: Option<ManifestView>,
    request_id: Seq<char>,
    method: Seq<char>,
    msg: Json,
) -> Plan {
    match Method::from_name(method) {
        None => Plan::Fail {
            reply: if has_key(msg, "id"@) {
                Some((-32601i64, "unknown method"@))
            } else {
                None
            },
            fault: protocol("unknown plugin method "@ + method),
        },
        Some(Method::Record) => if has_key(msg, "id"@) {
            fail("method "@ + method + " must be a notification"@)
        } else if manifest is None {
            fail("record received before discover started"@)
        } else {
            match spec_get(msg, "params"@) {
                None => fail("record missing params"@),
                Some(p) => match spec_as_str(spec_get(p, "request_id"@)) {
                    None => fail("record missing request_id"@),
                    Some(a) => if a != request_id {
                        fail("record request_id "@ + a + " did not match "@ + request_id)
                    } else {
                        record_plan(p)
                    },
                },
            }
        },
        Some(Method::Log) => if has_key(msg, "id"@) {
            fail("method "@ + method + " must be a notification"@)
        } else {
            match spec_get(msg, "params"@) {
                None => fail("log missing params"@),
                Some(p) => Plan::Log {
                    level: str_or(p, "level"@, "info"@),
                    message: str_or(p, "message"@, ""@),
                },
            }
        },
        Some(Method::StateQuery) => if manifest is None {
            fail("method "@ + method + " is only valid during discover"@)
        } else {
            state_plan(msg)
        },
        Some(Method::FetchRequest) => if manifest is None {
            fail("method "@ + method + " is only valid during discover"@)
        } else {
            fetch_plan(msg)
        },
        Some(_) => fail("method "@ + method + " is not valid plugin->host traffic"@),
    }
}

pub open spec fn initialize_plan(result: Json) -> Plan {
    match spec_initialize_result(result) {
        Err(m) => Plan::Fail { reply: None, fault: HostFault::Json(m) },
        Ok((pv, rs, mv)) => if pv != PROTOCOL_VERSION {
            fail("unsupported protocol_version "@ + signed_chars(pv))
        } else if rs != RECORD_SCHEMA_VERSION {
            fail("unsupported record_schema_version "@ + signed_chars(rs))
        } else if blank(mv.source_name) {
            fail("plugin manifest source_name is empty"@)
        } else {
            Plan::Initialized { manifest: mv }
        },
    }
}

pub open spec fn discover_plan(result: Json) -> Plan {
    match spec_discover_result(result) {
        Err(m) => Plan::Fail { reply: None, fault: HostFault::Json(m) },
        Ok(n) => Plan::Finished { records: n },
    }
}

/// The id the host waits for: `h-1` answers `initialize`, `h-2` answers `discover`.
pub open spec fn expected_id(manifest: Option<ManifestView>) -> Seq<char> {
    if manifest is None {
        "h-1"@
    } else {
        "h-2"@
    }
}

/// A message without a method: the response the host waits for.
pub open spec fn response_plan(manifest: Option<ManifestView>, msg: Json) -> Plan {
    match spec_as_str(spec_get(msg, "id"@)) {
        None => fail("message without method or string id"@),
        Some(id) => if id != expected_id(manifest) {
            fail("unexpected response id "@ + id + ", expected "@ + expected_id(manifest))
        } else if has_key(msg, "error"@) {
            Plan::PluginError
        } else {
            match spec_get(msg, "result"@) {
                None => fail("response missing result"@),
                Some(res) => if manifest is None {
                    initialize_plan(res)
                } else {
                    discover_plan(res)
                },
            }
        },
    }
}

/// What a decoded plugin message calls for, given the phase of the run.
pub open spec fn message_plan(
    manifest: Option<ManifestView>,
    finished: bool,
    request_id: Seq<char>,
    msg: Json,
) -> Plan {
    if finished {
        fail("plugin emitted protocol frame after discover response"@)
    } else if !jsonrpc_ok(msg) {
        fail("message missing jsonrpc = 2.0"@)
    } else {
        match spec_as_str(spec_get(msg, "method"@)) {
            Some(method) => plugin_plan(manifest, request_id, method, msg),
            None => response_plan(manifest, msg),
        }
    }
}

/// What the caller does after a message was accepted.
#[derive(Debug)]
pub enum Step {
    /// Nothing to send; read the next message.
    Continue,
    /// A `record` notification passed its checks: read the value under
    /// `params.record` (`single`) or each value under `params.records`, and
    /// hand them to [`DiscoverSession::spool`].
    Spool { single: bool },
    /// Answer this state query; the reply goes to `id`.
    StateQuery { id: Json, query_id: String, op: StateOperation },
    /// Perform this fetch under the manifest's allowed domains; the reply goes to `id`.
    Fetch { id: Json, fetch_id: String, request: FetchRequest },
    /// `initialize` was accepted: send [`DiscoverSession::discover_request`].
    SendDiscover,
    /// `discover` was answered: the run can be finished.
    Finished,
}

/// A JSON-RPC error reply owed to the plugin.
#[derive(Debug)]
pub struct ErrorReply {
    pub id: Json,
    pub code: i64,
    pub message: String,
}

/// Why the run fails, and the error reply to send before stopping, if any.
#[derive(Debug)]
pub struct Failure {
    pub reply: Option<ErrorReply>,
    pub error: HostError,
}

pub open spec fn reply_matches(reply: Option<(i64, Seq<char>)>, msg: Json, got: Option<ErrorReply>) -> bool {
    match reply {
        None => got is None,
        Some((code, m)) => got matches Some(e) && Some(e.id) == spec_get(msg, "id"@) && e.code
            == code && e.message@ == m,
    }
}

/// The caller's step for a plan that leaves the run as it is.
pub open spec fn answers(plan: Plan, msg: Json, r: Result<Step, Failure>) -> bool {
    match plan {
        Plan::Spool { single } => r matches Ok(Step::Spool { single: s }) && s == single,
        Plan::StateQuery { query_id, op } => r matches Ok(Step::StateQuery { id, query_id: q, op: o })
            && Some(id) == spec_get(msg, "id"@) && q@ == query_id && o@ == op,
        Plan::Fetch { fetch_id, request } => r matches Ok(Step::Fetch { id, fetch_id: f, request: q })
            && Some(id) == spec_get(msg, "id"@) && f@ == fetch_id && q@ == request,
        Plan::Initialized { .. } => r matches Ok(Step::SendDiscover),
        Plan::Finished { .. } => r matches Ok(Step::Finished),
        Plan::PluginError => r matches Err(f) && f.reply is None && spec_get(msg, "error"@) == Some(
            f.error->PluginError_0,
        ) && f.error is PluginError,
        Plan::Fail { reply, fault } => r matches Err(f) && host_fault(f.error) == fault
            && reply_matches(reply, msg, f.reply),
        Plan::Log { .. } => false,
    }
}

pub open spec fn log_overflow(next: int) -> Seq<char> {
    "log spool exceeded byte limit: "@ + decimal_chars(next as nat) + " > "@ + decimal_chars(
        HOST_MAX_LOG_BYTES as nat,
    )
}

/// One discover run as plain values.
pub struct SessionView {
    pub request_id: Seq<char>,
    pub limits: DiscoverLimits,
    pub manifest: Option<ManifestView>,
    pub discover_records: Option<u64>,
    pub records: Seq<SourceRecord>,
    pub record_bytes: nat,
    pub logs: Seq<HostLog>,
    pub log_bytes: nat,
}

/// How the run moves on one message: the step given back, and the new run.
pub open spec fn realizes(
    plan: Plan,
    msg: Json,
    old: SessionView,
    r: Result<Step, Failure>,
    new: SessionView,
) -> bool {
    &&& new.request_id == old.request_id
    &&& new.limits == old.limits
    &&& new.records == old.records
    &&& new.record_bytes == old.record_bytes
    &&& match plan {
        Plan::Log { level, message } => {
            let next = sat_add(old.log_bytes as int, log_len(level, message), usize::MAX as int);
            &&& new.manifest == old.manifest
            &&& new.discover_records == old.discover_records
            &&& if next > HOST_MAX_LOG_BYTES {
                &&& r matches Err(f) && f.reply is None && host_fault(f.error) == protocol(
                    log_overflow(next),
                )
                &&& new.logs == old.logs
                &&& new.log_bytes == old.log_bytes
            } else {
                &&& r matches Ok(Step::Continue)
                &&& new.log_bytes == next
                &&& new.logs.len() == old.logs.len() + 1
                &&& new.logs.drop_last() == old.logs
                &&& new.logs.last().level@ == level
                &&& new.logs.last().message@ == message
            }
        },
        Plan::Initialized { manifest } => {
            &&& answers(plan, msg, r)
            &&& new.manifest == Some(manifest)
            &&& new.discover_records == old.discover_records
            &&& new.logs == old.logs
            &&& new.log_bytes == old.log_bytes
        },
        Plan::Finished { records } => {
            &&& answers(plan, msg, r)
            &&& new.manifest == old.manifest
            &&& new.discover_records == Some(records)
            &&& new.logs == old.logs
            &&& new.log_bytes == old.log_bytes
        },
        _ => {
            &&& answers(plan, msg, r)
            &&& new.manifest == old.manifest
            &&& new.discover_records == old.discover_records
            &&& new.logs == old.logs
            &&& new.log_bytes == old.log_bytes
        },
    }
}

/// The host side of one discover run. The caller sends
/// [`DiscoverSession::initialize_request`], then feeds every decoded plugin
/// message to [`DiscoverSession::on_message`] and carries out the step it
/// returns, until [`Step::Finished`]; then it calls [`DiscoverSession::finish`].
pub struct DiscoverSession {
    request_id: String,
    limits: DiscoverLimits,
    manifest: Option<PluginManifest>,
    discover_records: Option<u64>,
    run: RunState,
}

impl View for DiscoverSession {
    type V = SessionView;

    closed spec fn view(&self) -> SessionView {
        SessionView {
            request_id: self.request_id@,
            limits: self.limits,
            manifest: match self.manifest {
                Some(m) => Some(m@),
                None => None,
            },
            discover_records: self.discover_records,
            records: self.run.spec_records(),
            record_bytes: self.run.spec_record_bytes(),
            logs: self.run.spec_logs(),
            log_bytes: self.run.spec_log_bytes(),
        }
    }
}

fn failure(m: String) -> (f: Failure)
    ensures
        f.reply is None,
        host_fault(f.error) == protocol(m@),
{
    Failure { reply: None, error: protocol_error(m) }
}

/// The message of a protocol error.
fn protocol_text(e: &HostError) -> (m: String)
    ensures
        e matches HostError::Protocol(t) ==> m@ == t@,
{
    match e {
        HostError::Protocol(t) => t.clone(),
        _ => String::new(),
    }
}

fn state_step(msg: Json) -> (r: Result<Step, Failure>)
    ensures
        answers(state_plan(msg), msg, r),
{
    match msg.get("id") {
        None => {
            return Err(failure(String::from_str("state_query missing json-rpc id")));
        },
        Some(id) => match require_plugin_request_id(id, "state_query") {
            Err(e) => {
                return Err(Failure { reply: None, error: e });
            },
            Ok(()) => {},
        },
    }
    let parsed = match msg.get("params") {
        None => {
            return Err(failure(String::from_str("state_query missing params")));
        },
        Some(p) => parse_state_query(p),
    };
    match parsed {
        Ok((query_id, op)) => match take_member(msg, "id") {
            Some(id) => Ok(Step::StateQuery { id, query_id, op }),
            None => Err(failure(String::from_str("state_query missing json-rpc id"))),
        },
        Err(e) => {
            let message = join2("protocol error: ", protocol_text(&e).as_str());
            match take_member(msg, "id") {
                Some(id) => Err(Failure { reply: Some(ErrorReply { id, code: -32602, message }), error: e }),
                None => Err(Failure { reply: None, error: e }),
            }
        },
    }
}

fn fetch_step(msg: Json) -> (r: Result<Step, Failure>)
    ensures
        answers(fetch_plan(msg), msg, r),
{
    match msg.get("id") {
        None => {
            return Err(failure(String::from_str("fetch_request missing id")));
        },
        Some(id) => match require_plugin_request_id(id, "fetch_request") {
            Err(e) => {
                return Err(Failure { reply: None, error: e });
            },
            Ok(()) => {},
        },
    }
    let parsed = match msg.get("params") {
        None => {
            return Err(failure(String::from_str("fetch_request missing params")));
        },
        Some(p) => parse_fetch_request(p),
    };
    match parsed {
        Ok((fetch_id, request)) => match take_member(msg, "id") {
            Some(id) => Ok(Step::Fetch { id, fetch_id, request }),
            None => Err(failure(String::from_str("fetch_request missing id"))),
        },
        Err(e) => {
            let message = join2("protocol error: ", protocol_text(&e).as_str());
            match take_member(msg, "id") {
                Some(id) => Err(Failure { reply: Some(ErrorReply { id, code: -32602, message }), error: e }),
                None => Err(Failure { reply: None, error: e }),
            }
        },
    }
}

impl DiscoverSession {
    /// The run's invariant: the spool keeps its bounds under `max_records`,
    /// which is at most [`HOST_MAX_RECORDS`]; a finished run knows its
    /// manifest; records come only once the manifest is known, whose source
    /// name is not blank, and each of them is valid for that source.
    pub closed spec fn wf(&self) -> bool {
        &&& self.run.wf()
        &&& self.run.spec_max_records() == self.limits.max_records
        &&& self.limits.max_records matches Some(m) && m <= HOST_MAX_RECORDS
        &&& self.discover_records is Some ==> self.manifest is Some
        &&& match self.manifest {
            None => self.run.spec_records().len() == 0,
            Some(m) => !blank(m.source_name@) && forall|i: int|
                0 <= i < self.run.spec_records().len() ==> valid_for_source(
                    #[trigger] self.run.spec_records()[i],
                    m.source_name@,
                ),
        }
    }

    /// In every state of a run, each spooled record is valid for the
    /// manifest's source name, which is not blank, and the record cap is at
    /// most [`HOST_MAX_RECORDS`].
    pub proof fn lemma_records_valid(&self)
        requires
            self.wf(),
        ensures
            self@.limits.max_records matches Some(m) && m <= HOST_MAX_RECORDS,
            self@.records.len() <= self@.limits.max_records.unwrap(),
            match self@.manifest {
                None => self@.records.len() == 0,
                Some(m) => !blank(m.source_name) && forall|i: int|
                    0 <= i < self@.records.len() ==> valid_for_source(
                        #[trigger] self@.records[i],
                        m.source_name,
                    ),
            },
    {
        self.run.lemma_bounds();
    }

    /// Starts a run for `request_id`; the limits sent are `limits` under the
    /// host caps.
    pub fn new(request_id: &str, limits: DiscoverLimits) -> (s: Self)
        ensures
            s.wf(),
            s@.request_id == request_id@,
            s@.limits.max_pages == limits.max_pages,
            s@.limits.per_page == limits.per_page,
            s@.limits.max_records == Some(capped_records(limits.max_records)),
            s@.manifest is None,
            s@.discover_records is None,
            s@.records.len() == 0,
            s@.logs.len() == 0,
            s@.record_bytes == 0,
            s@.log_bytes == 0,
    {
        let limits = limits.with_host_caps();
        DiscoverSession {
            request_id: to_owned(request_id),
            limits,
            manifest: None,
            discover_records: None,
            run: RunState::new(limits.max_records),
        }
    }

    pub fn is_finished(&self) -> (b: bool)
        ensures
            b == (self@.discover_records is Some),
    {
        self.discover_records.is_some()
    }

    pub fn request_id(&self) -> (r: &str)
        ensures
            r@ == self@.request_id,
    {
        self.request_id.as_str()
    }

    pub fn limits(&self) -> (l: DiscoverLimits)
        ensures
            l == self@.limits,
    {
        self.limits
    }

    /// The manifest the plugin announced, once `initialize` was accepted.
    pub fn manifest(&self) -> (m: Option<&PluginManifest>)
        ensures
            match m {
                Some(x) => self@.manifest == Some(x@),
                None => self@.manifest is None,
            },
    {
        match &self.manifest {
            Some(m) => Some(m),
            None => None,
        }
    }

    /// The spool's bounds hold in every state of a run.
    pub proof fn lemma_spool_bounds(&self)
        requires
            self.wf(),
        ensures
            self@.limits.max_records matches Some(m) && self@.records.len() <= m,
            self@.record_bytes <= HOST_MAX_RECORD_BYTES,
            self@.log_bytes <= HOST_MAX_LOG_BYTES,
    {
        self.run.lemma_bounds();
    }

    /// Handles one decoded plugin message.
    pub fn on_message(&mut self, msg: Json) -> (r: Result<Step, Failure>)
        requires
            old(self).wf(),
        ensures
            final(self).wf(),
            realizes(
                message_plan(
                    old(self)@.manifest,
                    old(self)@.discover_records is Some,
                    old(self)@.request_id,
                    msg,
                ),
                msg,
                old(self)@,
                r,
                final(self)@,
            ),
    {
        if self.discover_records.is_some() {
            return Err(
                failure(String::from_str("plugin emitted protocol frame after discover response")),
            );
        }
        match require_jsonrpc(&msg) {
            Ok(()) => {},
            Err(e) => {
                return Err(Failure { reply: None, error: e });
            },
        }
        let method: Option<String> = match msg.get("method") {
            Some(x) => match x.as_str() {
                Some(s) => Some(to_owned(s)),
                None => None,
            },
            None => None,
        };
        match method {
            Some(m) => self.on_plugin(m.as_str(), msg),
            None => self.on_response(msg),
        }
    }

    fn on_response(&mut self, msg: Json) -> (r: Result<Step, Failure>)
        requires
            old(self).wf(),
            old(self)@.discover_records is None,
        ensures
            final(self).wf(),
            realizes(response_plan(old(self)@.manifest, msg), msg, old(self)@, r, final(self)@),
    {
        let id: String = match msg.get("id") {
            Some(x) => match x.as_str() {
                Some(s) => to_owned(s),
                None => {
                    return Err(failure(String::from_str("message without method or string id")));
                },
            },
            None => {
                return Err(failure(String::from_str("message without method or string id")));
            },
        };
        let expected = if self.manifest.is_none() {
            "h-1"
        } else {
            "h-2"
        };
        if !str_eq(id.as_str(), expected) {
            return Err(failure(join4("unexpected response id ", id.as_str(), ", expected ", expected)));
        }
        if msg.get("error").is_some() {
            return match take_member(msg, "error") {
                Some(v) => Err(Failure { reply: None, error: HostError::PluginError(v) }),
                None => Err(failure(String::from_str("response missing result"))),
            };
        }
        let result = match msg.get("result") {
            Some(x) => x,
            None => {
                return Err(failure(String::from_str("response missing result")));
            },
        };
        if self.manifest.is_none() {
            let (pv, rs, manifest) = match parse_initialize_result(result) {
                Ok(t) => t,
                Err(m) => {
                    return Err(Failure { reply: None, error: HostError::Json(m) });
                },
            };
            if pv != PROTOCOL_VERSION {
                return Err(
                    failure(join2("unsupported protocol_version ", signed_text(pv).as_str())),
                );
            }
            if rs != RECORD_SCHEMA_VERSION {
                return Err(
                    failure(
                        join2("unsupported record_schema_version ", signed_text(rs).as_str()),
                    ),
                );
            }
            if is_blank(manifest.source_name.as_str()) {
                return Err(failure(String::from_str("plugin manifest source_name is empty")));
            }
            self.manifest = Some(manifest);
            Ok(Step::SendDiscover)
        } else {
            let n = match parse_discover_result(result) {
                Ok(n) => n,
                Err(m) => {
                    return Err(Failure { reply: None, error: HostError::Json(m) });
                },
            };
            self.discover_records = Some(n);
            Ok(Step::Finished)
        }
    }

    fn on_plugin(&mut self, method: &str, msg: Json) -> (r: Result<Step, Failure>)
        requires
            old(self).wf(),
            old(self)@.discover_records is None,
        ensures
            final(self).wf(),
            realizes(
                plugin_plan(old(self)@.manifest, old(self)@.request_id, method@, msg),
                msg,
                old(self)@,
                r,
                final(self)@,
            ),
    {
        match Method::parse(method) {
            None => {
                let err = protocol_error(join2("unknown plugin method ", method));
                if msg.get("id").is_some() {
                    match take_member(msg, "id") {
                        Some(id) => Err(
                            Failure {
                                reply: Some(
                                    ErrorReply {
                                        id,
                                        code: -32601,
                                        message: String::from_str("unknown method"),
                                    },
                                ),
                                error: err,
                            },
                        ),
                        None => Err(Failure { reply: None, error: err }),
                    }
                } else {
                    Err(Failure { reply: None, error: err })
                }
            },
            Some(Method::Record) => self.on_record(method, &msg),
            Some(Method::Log) => self.on_log(method, &msg),
            Some(Method::StateQuery) => {
                if self.manifest.is_none() {
                    return Err(failure(join3("method ", method, " is only valid during discover")));
                }
                state_step(msg)
            },
            Some(Method::FetchRequest) => {
                if self.manifest.is_none() {
                    return Err(failure(join3("method ", method, " is only valid during discover")));
                }
                fetch_step(msg)
            },
            Some(_) => Err(failure(join3("method ", method, " is not valid plugin->host traffic"))),
        }
    }

    fn on_record(&self, method: &str, msg: &Json) -> (r: Result<Step, Failure>)
        requires
            Method::from_name(method@) == Some(Method::Record),
        ensures
            answers(plugin_plan(self@.manifest, self@.request_id, method@, *msg), *msg, r),
    {
        if msg.get("id").is_some() {
            return Err(failure(join3("method ", method, " must be a notification")));
        }
        if self.manifest.is_none() {
            return Err(failure(String::from_str("record received before discover started")));
        }
        let params = match msg.get("params") {
            Some(p) => p,
            None => {
                return Err(failure(String::from_str("record missing params")));
            },
        };
        let actual = match params.get("request_id") {
            Some(x) => x.as_str(),
            None => None,
        };
        let actual = match actual {
            Some(a) => a,
            None => {
                return Err(failure(String::from_str("record missing request_id")));
            },
        };
        if !str_eq(actual, self.request_id.as_str()) {
            return Err(
                failure(
                    join4("record request_id ", actual, " did not match ", self.request_id.as_str()),
                ),
            );
        }
        if params.get("record").is_some() {
            return Ok(Step::Spool { single: true });
        }
        match params.get("records") {
            Some(Json::Array(items)) => {
                if items.len() > MAX_RECORD_BATCH {
                    let mut m = join2(
                        "record batch too large: ",
                        decimal_string(items.len() as u64).as_str(),
                    );
                    m.append(" > ");
                    m.append(decimal_string(MAX_RECORD_BATCH as u64).as_str());
                    return Err(failure(m));
                }
                Ok(Step::Spool { single: false })
            },
            _ => Err(failure(String::from_str("record missing record(s)"))),
        }
    }

    fn on_log(&mut self, method: &str, msg: &Json) -> (r: Result<Step, Failure>)
        requires
            old(self).wf(),
            Method::from_name(method@) == Some(Method::Log),
        ensures
            final(self).wf(),
            realizes(
                plugin_plan(old(self)@.manifest, old(self)@.request_id, method@, *msg),
                *msg,
                old(self)@,
                r,
                final(self)@,
            ),
    {
        if msg.get("id").is_some() {
            return Err(failure(join3("method ", method, " must be a notification")));
        }
        let params = match msg.get("params") {
            Some(p) => p,
            None => {
                return Err(failure(String::from_str("log missing params")));
            },
        };
        let level = match params.get("level") {
            Some(x) => match x.as_str() {
                Some(s) => to_owned(s),
                None => String::from_str("info"),
            },
            None => String::from_str("info"),
        };
        let message = match params.get("message") {
            Some(x) => match x.as_str() {
                Some(s) => to_owned(s),
                None => String::from_str(""),
            },
            None => String::from_str(""),
        };
        let ghost old_logs = self.run.spec_logs();
        match self.run.push_log(level, message) {
            Ok(()) => {
                proof {
                    assert(self.run.spec_logs().drop_last() =~= old_logs);
                }
                Ok(Step::Continue)
            },
            Err(e) => Err(Failure { reply: None, error: e }),
        }
    }
}


/// Why the host could not serve a state query or a fetch of the plugin.
#[derive(Debug)]
pub enum ProviderFailure {
    /// The state source failed.
    State(StateError),
    /// The fetch failed; the text describes the transport's error.
    Fetch(String),
    /// The run's deadline had passed when the fetch was asked for.
    DeadlineElapsed,
}

/// The code of the error reply to a request the host could not serve.
pub const PROVIDER_FAILURE_CODE: i64 = -32000;

/// A request of the plugin that the host could not serve ends the run: the
/// plugin is answered with an error reply under [`PROVIDER_FAILURE_CODE`]
/// that carries the failure's message, and the run fails with the matching
/// error.
pub fn provider_failure(id: Json, failure: ProviderFailure) -> (f: Failure)
    ensures
        f.reply matches Some(r) && r.id == id && r.code == PROVIDER_FAILURE_CODE,
        match failure {
            ProviderFailure::State(e) => f.reply->Some_0.message@ == e.spec_message()
                && f.error == HostError::State(e),
            ProviderFailure::Fetch(text) => f.reply->Some_0.message@ == text@ && (f.error matches HostError::Fetch(h)
                && h.spec_message() == text@),
            ProviderFailure::DeadlineElapsed => f.reply->Some_0.message@ == "fetch deadline elapsed"@
                && f.error == HostError::Timeout,
        },
{
    match failure {
        ProviderFailure::State(e) => {
            let message = to_owned(e.message());
            Failure {
                reply: Some(ErrorReply { id, code: PROVIDER_FAILURE_CODE, message }),
                error: HostError::State(e),
            }
        },
        ProviderFailure::Fetch(text) => {
            let error = HostFetchError::backend(text.as_str());
            Failure {
                reply: Some(ErrorReply { id, code: PROVIDER_FAILURE_CODE, message: text }),
                error: HostError::Fetch(error),
            }
        },
        ProviderFailure::DeadlineElapsed => Failure {
            reply: Some(
                ErrorReply {
                    id,
                    code: PROVIDER_FAILURE_CODE,
                    message: to_owned("fetch deadline elapsed"),
                },
            ),
            error: HostError::Timeout,
        },
    }
}

/// Completed discover run.
#[derive(Debug)]
pub struct HostRun {
    pub manifest: PluginManifest,
    pub discover_records: u64,
    pub records: Vec<SourceRecord>,
    pub logs: Vec<HostLog>,
    /// Exit code of the plugin process, where the platform reports one.
    pub exit_code: Option<i32>,
}

/// How the plugin process ended after its `discover` response.
#[derive(Debug)]
pub enum PluginExit {
    /// It exited; `status` describes the exit status.
    Exited { success: bool, code: Option<i32>, status: String },
    /// It did not exit within the grace period and was terminated.
    StillRunning,
}

/// The plugin must exit on its own, successfully, once `discover` is answered.
pub fn exit_after_discover(exit: PluginExit) -> (r: Result<Option<i32>, HostError>)
    ensures
        match exit {
            PluginExit::StillRunning => r matches Err(HostError::PluginDidNotExit),
            PluginExit::Exited { success, code, status } => if success {
                r == Ok::<Option<i32>, HostError>(code)
            } else {
                r matches Err(HostError::PluginExitStatus(s)) && s@ == status@
            },
        },
{
    match exit {
        PluginExit::StillRunning => Err(HostError::PluginDidNotExit),
        PluginExit::Exited { success, code, status } => {
            if success {
                Ok(code)
            } else {
                Err(HostError::PluginExitStatus(status))
            }
        },
    }
}

/// The number of spooled records as reported: the length, saturated to `u64`.
pub open spec fn spooled_count(records: Seq<SourceRecord>) -> int {
    if records.len() > u64::MAX {
        u64::MAX as int
    } else {
        records.len() as int
    }
}

pub open spec fn mismatch_message(reported: u64, spooled: int) -> Seq<char> {
    "discover result records "@ + decimal_chars(reported as nat) + " did not match spooled records "@
        + decimal_chars(spooled as nat)
}

/// The policy of a host fetch: the manifest's allowed domains, and timeouts
/// no longer than what is left of the run.
pub fn host_fetch_policy(allowed_domains: Vec<String>, remaining_ms: u64) -> (p: FetchPolicy)
    ensures
        p.allowed_domains@ == allowed_domains@,
        p.total_timeout_ms == (if remaining_ms < 30000 {
            remaining_ms
        } else {
            30000
        }),
        p.connect_timeout_ms == (if p.total_timeout_ms < 10000 {
            p.total_timeout_ms
        } else {
            10000
        }),
        p.max_response_bytes == crate::fetch::DEFAULT_MAX_RESPONSE_BYTES,
        p.max_redirects == crate::fetch::DEFAULT_MAX_REDIRECTS,
{
    let mut policy = FetchPolicy::for_allowed_domains(allowed_domains);
    if remaining_ms < policy.total_timeout_ms {
        policy.total_timeout_ms = remaining_ms;
    }
    if policy.total_timeout_ms < policy.connect_timeout_ms {
        policy.connect_timeout_ms = policy.total_timeout_ms;
    }
    policy
}

fn text(s: &str) -> (j: Json)
    ensures
        j matches Json::String(t) && t@ == s@,
{
    Json::String(String::from_str(s))
}

proof fn lemma_param_keys()
    ensures
        "protocol_version"@ != "host_version"@,
        "request_id"@ != "limits"@,
        "request_id"@ != "remaining_ms"@,
        "limits"@ != "remaining_ms"@,
        "max_pages"@ != "max_records"@,
        "max_pages"@ != "per_page"@,
        "max_records"@ != "per_page"@,
        "id"@ != "result"@,
        "id"@ != "status"@,
        "id"@ != "final_url"@,
        "id"@ != "body_base64"@,
        "status"@ != "final_url"@,
        "status"@ != "body_base64"@,
        "final_url"@ != "body_base64"@,
{
    reveal_strlit("protocol_version");
    reveal_strlit("host_version");
    reveal_strlit("request_id");
    reveal_strlit("limits");
    reveal_strlit("remaining_ms");
    reveal_strlit("max_pages");
    reveal_strlit("max_records");
    reveal_strlit("per_page");
    reveal_strlit("id");
    reveal_strlit("result");
    reveal_strlit("status");
    reveal_strlit("final_url");
    reveal_strlit("body_base64");
    assert("protocol_version"@[0] != "host_version"@[0]);
    assert("request_id"@[0] != "limits"@[0]);
    assert("request_id"@[2] != "remaining_ms"@[2]);
    assert("limits"@[0] != "remaining_ms"@[0]);
    assert("max_pages"@[4] != "max_records"@[4]);
    assert("max_pages"@[0] != "per_page"@[0]);
    assert("max_records"@[0] != "per_page"@[0]);
    assert("id"@[0] != "result"@[0]);
    assert("id"@[0] != "status"@[0]);
    assert("id"@[0] != "final_url"@[0]);
    assert("id"@[0] != "body_base64"@[0]);
    assert("status"@[0] != "final_url"@[0]);
    assert("status"@[0] != "body_base64"@[0]);
    assert("final_url"@[0] != "body_base64"@[0]);
}

/// The limits object of the `discover` request; absent limits are left out.
pub fn limits_json(limits: DiscoverLimits) -> (j: Json)
    ensures
        spec_as_u64(spec_get(j, "max_pages"@)) == limits.max_pages,
        has_key(j, "max_pages"@) <==> limits.max_pages is Some,
        spec_as_u64(spec_get(j, "max_records"@)) == limits.max_records,
        has_key(j, "max_records"@) <==> limits.max_records is Some,
        spec_as_u64(spec_get(j, "per_page"@)) == limits.per_page,
        has_key(j, "per_page"@) <==> limits.per_page is Some,
        members(j).len() == (if limits.max_pages is Some { 1int } else { 0 }) + (
        if limits.max_records is Some {
            1int
        } else {
            0
        }) + (if limits.per_page is Some {
            1int
        } else {
            0
        }),
{
    let mut v: Vec<(String, Json)> = Vec::new();
    match limits.max_pages {
        Some(n) => v.push((String::from_str("max_pages"), Json::PosInt(n))),
        None => {},
    }
    match limits.max_records {
        Some(n) => v.push((String::from_str("max_records"), Json::PosInt(n))),
        None => {},
    }
    match limits.per_page {
        Some(n) => v.push((String::from_str("per_page"), Json::PosInt(n))),
        None => {},
    }
    proof {
        lemma_param_keys();
        reveal_with_fuel(crate::json::member_index_from, 4);
    }
    Json::Object(v)
}

/// What the state provider found for a query.
#[derive(Debug)]
pub enum StateAnswer {
    /// The known source URLs of a source.
    Urls(Vec<String>),
    /// The stored summary of one post, if it is stored.
    Summary(Option<SourcePostSummary>),
    /// A single optional text: a timestamp or a fingerprint.
    Text(Option<String>),
}

pub open spec fn opt_text_json(o: Option<String>) -> Json {
    match o {
        Some(s) => Json::String(s),
        None => Json::Null,
    }
}

fn opt_text(o: Option<String>) -> (j: Json)
    ensures
        j == opt_text_json(o),
{
    match o {
        Some(s) => Json::String(s),
        None => Json::Null,
    }
}

/// The JSON result of an answered state query: a list of strings, the
/// summary object or `null`, or a string or `null`.
pub fn state_answer_json(answer: StateAnswer) -> (j: Json)
    ensures
        match answer {
            StateAnswer::Urls(v) => j matches Json::Array(items) && items@.len() == v@.len()
                && forall|i: int|
                0 <= i < v@.len() ==> (#[trigger] items@[i] is String && items@[i]->String_0@
                    == v@[i]@),
            StateAnswer::Summary(None) => j == Json::Null,
            StateAnswer::Summary(Some(s)) => members(j).len() == 3 && spec_get(j, "exists"@)
                == Some(Json::Bool(s.exists)) && spec_get(j, "title"@) == Some(
                opt_text_json(s.title),
            ) && spec_get(j, "last_seen_at"@) == Some(opt_text_json(s.last_seen_at)),
            StateAnswer::Text(o) => j == opt_text_json(o),
        },
{
    match answer {
        StateAnswer::Urls(v) => {
            let mut items: Vec<Json> = Vec::new();
            let mut i: usize = 0;
            while i < v.len()
                invariant
                    i <= v@.len(),
                    items@.len() == i,
                    forall|k: int|
                        0 <= k < i ==> (#[trigger] items@[k] is String && items@[k]->String_0@
                            == v@[k]@),
                decreases v@.len() - i,
            {
                let t = v[i].clone();
                items.push(Json::String(t));
                i += 1;
            }
            Json::Array(items)
        },
        StateAnswer::Summary(None) => Json::Null,
        StateAnswer::Summary(Some(s)) => {
            let mut m: Vec<(String, Json)> = Vec::new();
            m.push((String::from_str("exists"), Json::Bool(s.exists)));
            m.push((String::from_str("title"), opt_text(s.title)));
            m.push((String::from_str("last_seen_at"), opt_text(s.last_seen_at)));
            proof {
                reveal_strlit("exists");
                reveal_strlit("title");
                reveal_strlit("last_seen_at");
                assert("exists"@ != "title"@ && "exists"@ != "last_seen_at"@ && "title"@ != "last_seen_at"@) by {
                    assert("exists"@[0] != "title"@[0]);
                    assert("exists"@[0] != "last_seen_at"@[0]);
                    assert("title"@[0] != "last_seen_at"@[0]);
                }
                reveal_with_fuel(crate::json::member_index_from, 4);
            }
            Json::Object(m)
        },
        StateAnswer::Text(o) => opt_text(o),
    }
}

/// The reply to an answered state query.
pub fn state_reply(id: Json, query_id: &str, result: Json) -> (m: Json)
    ensures
        spec_as_str(spec_get(m, "jsonrpc"@)) == Some("2.0"@),
        spec_get(m, "id"@) == Some(id),
        spec_get(m, "result"@) matches Some(body) && members(body).len() == 2 && spec_as_str(
            spec_get(body, "id"@),
        ) == Some(query_id@) && spec_get(body, "result"@) == Some(result),
{
    let mut body: Vec<(String, Json)> = Vec::new();
    body.push((String::from_str("id"), text(query_id)));
    body.push((String::from_str("result"), result));
    proof {
        lemma_param_keys();
        reveal_with_fuel(crate::json::member_index_from, 3);
    }
    crate::message::response_ok(id, Json::Object(body))
}

/// The reply to a completed fetch.
pub fn fetch_reply(id: Json, fetch_id: &str, response: &crate::fetch::FetchResponse) -> (m: Json)
    ensures
        spec_as_str(spec_get(m, "jsonrpc"@)) == Some("2.0"@),
        spec_get(m, "id"@) == Some(id),
        spec_get(m, "result"@) matches Some(body) && members(body).len() == 4 && spec_as_str(
            spec_get(body, "id"@),
        ) == Some(fetch_id@) && spec_as_u64(spec_get(body, "status"@)) == Some(
            response.status as u64,
        ) && spec_as_str(spec_get(body, "final_url"@)) == Some(response.final_url@) && spec_as_str(
            spec_get(body, "body_base64"@),
        ) == Some(response.body_base64@),
{
    let mut body: Vec<(String, Json)> = Vec::new();
    body.push((String::from_str("id"), text(fetch_id)));
    body.push((String::from_str("status"), Json::PosInt(response.status as u64)));
    body.push((String::from_str("final_url"), text(response.final_url.as_str())));
    body.push((String::from_str("body_base64"), text(response.body_base64.as_str())));
    proof {
        lemma_param_keys();
        reveal_with_fuel(crate::json::member_index_from, 5);
    }
    crate::message::response_ok(id, Json::Object(body))
}

impl DiscoverSession {
    /// The `initialize` request, id `h-1`.
    pub fn initialize_request(&self, host_version: &str) -> (m: Json)
        ensures
            spec_as_str(spec_get(m, "jsonrpc"@)) == Some("2.0"@),
            spec_as_str(spec_get(m, "id"@)) == Some("h-1"@),
            spec_as_str(spec_get(m, "method"@)) == Some("initialize"@),
            spec_get(m, "params"@) matches Some(p) && members(p).len() == 2 && spec_as_i64(
                spec_get(p, "protocol_version"@),
            ) == Some(PROTOCOL_VERSION) && spec_as_str(spec_get(p, "host_version"@)) == Some(
                host_version@,
            ),
    {
        let mut params: Vec<(String, Json)> = Vec::new();
        params.push((String::from_str("protocol_version"), integer(PROTOCOL_VERSION)));
        params.push((String::from_str("host_version"), text(host_version)));
        proof {
            lemma_param_keys();
            reveal_with_fuel(crate::json::member_index_from, 3);
        }
        request("h-1", Method::Initialize, Json::Object(params))
    }

    /// The `discover` request, id `h-2`: the run's request id, its capped
    /// limits, and the milliseconds left.
    pub fn discover_request(&self, remaining_ms: u64) -> (m: Json)
        ensures
            spec_as_str(spec_get(m, "jsonrpc"@)) == Some("2.0"@),
            spec_as_str(spec_get(m, "id"@)) == Some("h-2"@),
            spec_as_str(spec_get(m, "method"@)) == Some("discover"@),
            spec_get(m, "params"@) is Some,
            ({
                let p = spec_get(m, "params"@)->Some_0;
                &&& members(p).len() == 3
                &&& spec_as_str(spec_get(p, "request_id"@)) == Some(self@.request_id)
                &&& spec_as_u64(spec_get(p, "remaining_ms"@)) == Some(remaining_ms)
                &&& spec_get(p, "limits"@) is Some
                &&& spec_as_u64(spec_get(spec_get(p, "limits"@)->Some_0, "max_pages"@))
                    == self@.limits.max_pages
                &&& spec_as_u64(spec_get(spec_get(p, "limits"@)->Some_0, "max_records"@))
                    == self@.limits.max_records
                &&& spec_as_u64(spec_get(spec_get(p, "limits"@)->Some_0, "per_page"@))
                    == self@.limits.per_page
            }),
    {
        let mut params: Vec<(String, Json)> = Vec::new();
        params.push((String::from_str("request_id"), text(self.request_id.as_str())));
        params.push((String::from_str("limits"), limits_json(self.limits)));
        params.push((String::from_str("remaining_ms"), Json::PosInt(remaining_ms)));
        proof {
            lemma_param_keys();
            reveal_with_fuel(crate::json::member_index_from, 4);
        }
        request("h-2", Method::Discover, Json::Object(params))
    }

    /// Spools the record values of an accepted `record` notification, read by
    /// the caller, against the announced manifest's source name.
    pub fn spool(&mut self, inputs: Vec<RecordInput>) -> (r: Result<(), HostError>)
        requires
            old(self).wf(),
        ensures
            final(self).wf(),
            final(self)@.request_id == old(self)@.request_id,
            final(self)@.limits == old(self)@.limits,
            final(self)@.manifest == old(self)@.manifest,
            final(self)@.discover_records == old(self)@.discover_records,
            final(self)@.logs == old(self)@.logs,
            final(self)@.log_bytes == old(self)@.log_bytes,
            match old(self)@.manifest {
                None => r is Err && host_fault(r->Err_0) == protocol(
                    "record received before discover started"@,
                ) && final(self)@.records == old(self)@.records && final(self)@.record_bytes == old(
                    self,
                )@.record_bytes,
                Some(m) => {
                    let f = spool_fault(
                        old(self)@.records.len(),
                        old(self)@.limits.max_records,
                        old(self)@.record_bytes,
                        m.source_name,
                        inputs@,
                    );
                    &&& f is None ==> r is Ok && final(self)@.records == old(self)@.records
                        + input_records(inputs@, inputs@.len() as int)
                    &&& f is Some ==> r is Err && host_fault(r->Err_0) == f.unwrap()
                    &&& over_budget(
                        old(self)@.records.len(),
                        old(self)@.limits.max_records,
                        old(self)@.record_bytes,
                        inputs@,
                    ) ==> final(self)@.records == old(self)@.records && final(self)@.record_bytes
                        == old(self)@.record_bytes
                    &&& !over_budget(
                        old(self)@.records.len(),
                        old(self)@.limits.max_records,
                        old(self)@.record_bytes,
                        inputs@,
                    ) ==> final(self)@.record_bytes == sat_add(
                        old(self)@.record_bytes as int,
                        sizes_total(inputs@),
                        usize::MAX as int,
                    ) && final(self)@.records == old(self)@.records + input_records(
                        inputs@,
                        item_ok_len(m.source_name, inputs@, 0),
                    )
                },
            },
    {
        match &self.manifest {
            None => Err(protocol_error(String::from_str("record received before discover started"))),
            Some(m) => self.run.spool(m.source_name.as_str(), inputs),
        }
    }

    /// Ends a run whose `discover` was answered, once the plugin process is
    /// gone: it must have exited on its own and successfully, nothing may
    /// have followed its response (`trailing` tells what the caller found
    /// after it), and the reported record count must equal the number of
    /// records spooled.
    pub fn finish(self, exit: PluginExit, trailing: Result<(), HostError>) -> (r: Result<
        HostRun,
        HostError,
    >)
        requires
            self.wf(),
            self@.discover_records is Some,
        ensures
            match exit {
                PluginExit::StillRunning => r matches Err(HostError::PluginDidNotExit),
                PluginExit::Exited { success, code, status } => if !success {
                    r matches Err(HostError::PluginExitStatus(s)) && s@ == status@
                } else if trailing is Err {
                    r matches Err(e) && e == trailing->Err_0
                } else {
                    let n = self@.discover_records.unwrap();
                    let spooled = spooled_count(self@.records);
                    &&& n == spooled ==> (r matches Ok(run) && Some(run.manifest@)
                        == self@.manifest && run.discover_records == n && run.records@
                        == self@.records && run.logs@ == self@.logs && run.exit_code == code)
                    &&& n != spooled ==> (r matches Err(e) && host_fault(e) == protocol(
                        mismatch_message(n, spooled),
                    ))
                },
            },
            r matches Ok(run) ==> {
                &&& exit matches PluginExit::Exited { success, .. } && success
                &&& !blank(run.manifest.source_name@)
                &&& run.records@.len() <= self@.limits.max_records.unwrap() <= HOST_MAX_RECORDS
                &&& forall|i: int|
                    0 <= i < run.records@.len() ==> valid_for_source(
                        #[trigger] run.records@[i],
                        run.manifest.source_name@,
                    )
            },
    {
        proof {
            self.lemma_records_valid();
        }
        let exit_code = match exit_after_discover(exit) {
            Ok(c) => c,
            Err(e) => {
                return Err(e);
            },
        };
        match trailing {
            Ok(()) => {},
            Err(e) => {
                return Err(e);
            },
        }
        let spooled = self.run.spooled_records();
        let DiscoverSession { request_id: _, limits: _, manifest, discover_records, run } = self;
        let n = match discover_records {
            Some(n) => n,
            None => 0,
        };
        if n != spooled {
            let mut m = join2("discover result records ", decimal_string(n).as_str());
            m.append(" did not match spooled records ");
            m.append(decimal_string(spooled).as_str());
            return Err(protocol_error(m));
        }
        let manifest = match manifest {
            Some(m) => m,
            None => {
                return Err(protocol_error(String::from_str("response missing result")));
            },
        };
        let (records, logs) = run.into_parts();
        Ok(HostRun { manifest, discover_records: n, records, logs, exit_code })
    }
}

/// A plugin request to the host (`state_query` or `fetch_request`) sent
/// during discover, with an id in the plugin namespace and `params` the host
/// cannot read, is answered with a JSON-RPC error `-32602` before the run
/// fails with the same protocol error.
pub proof fn lemma_bad_params_are_answered(
    manifest: Option<ManifestView>,
    request_id: Seq<char>,
    method: Seq<char>,
    msg: Json,
)
    requires
        manifest is Some,
        method == "state_query"@ || method == "fetch_request"@,
        spec_get(msg, "id"@) is Some,
        spec_plugin_id(spec_get(msg, "id"@)->Some_0, method) is Ok,
        spec_get(msg, "params"@) is Some,
        method == "state_query"@ ==> spec_state_query(spec_get(msg, "params"@)->Some_0) is Err,
        method == "fetch_request"@ ==> spec_fetch_params(spec_get(msg, "params"@)->Some_0) is Err,
    ensures
        plugin_plan(manifest, request_id, method, msg) is Fail,
        ({
            let p = plugin_plan(manifest, request_id, method, msg);
            &&& p->reply is Some
            &&& p->reply->Some_0.0 == -32602
            &&& p->fault is Protocol
            &&& p->reply->Some_0.1 == "protocol error: "@ + p->fault->Protocol_0
        }),
{
    reveal_strlit("state_query");
    reveal_strlit("fetch_request");
    assert("state_query"@[0] != "fetch_request"@[0]);
    crate::message::lemma_method_round_trip(Method::StateQuery);
    crate::message::lemma_method_round_trip(Method::FetchRequest);
    assert(Method::StateQuery.name() == "state_query"@);
    assert(Method::FetchRequest.name() == "fetch_request"@);
}

/// A request with an id and a method the host does not know is answered with
/// a JSON-RPC error `-32601` before the run fails; a notification is not.
pub proof fn lemma_unknown_method_is_answered(
    manifest: Option<ManifestView>,
    request_id: Seq<char>,
    method: Seq<char>,
    msg: Json,
)
    requires
        Method::from_name(method) is None,
    ensures
        plugin_plan(manifest, request_id, method, msg) is Fail,
        plugin_plan(manifest, request_id, method, msg)->fault == protocol(
            "unknown plugin method "@ + method,
        ),
        has_key(msg, "id"@) ==> plugin_plan(manifest, request_id, method, msg)->reply == Some(
            (-32601i64, "unknown method"@),
        ),
        !has_key(msg, "id"@) ==> plugin_plan(manifest, request_id, method, msg)->reply is None,
{
}

/// Records are only spooled during discover, under the run's request id.
pub proof fn lemma_records_need_discover(
    manifest: Option<ManifestView>,
    request_id: Seq<char>,
    msg: Json,
)
    ensures
        plugin_plan(manifest, request_id, "record"@, msg) is Spool ==> manifest is Some
            && !has_key(msg, "id"@) && spec_as_str(spec_get(spec_get(msg, "params"@)->Some_0, "request_id"@))
            == Some(request_id),
{
    crate::message::lemma_method_round_trip(Method::Record);
    assert(Method::Record.name() == "record"@);
}

/// A state query or a fetch request before `discover` was sent fails the run
/// without reaching the state provider or the network.
pub proof fn lemma_host_requests_need_discover(request_id: Seq<char>, method: Seq<char>, msg: Json)
    requires
        method == "state_query"@ || method == "fetch_request"@,
    ensures
        plugin_plan(None, request_id, method, msg) == fail(
            "method "@ + method + " is only valid during discover"@,
        ),
{
    crate::message::lemma_method_round_trip(Method::StateQuery);
    crate::message::lemma_method_round_trip(Method::FetchRequest);
    crate::message::lemma_parse_gives_name(method);
    assert(Method::StateQuery.name() == "state_query"@);
    assert(Method::FetchRequest.name() == "fetch_request"@);
}

/// Once `discover` was answered, any further message fails the run.
pub proof fn lemma_nothing_after_finish(manifest: Option<ManifestView>, request_id: Seq<char>, msg: Json)
    ensures
        message_plan(manifest, true, request_id, msg) == fail(
            "plugin emitted protocol frame after discover response"@,
        ),
{
}


/// A `record` notification of the running discover (right `request_id`,
/// manifest known, no id) whose params carry the key `record` is spooled as
/// that one record: the host reads `params.record`.
pub proof fn lemma_single_record_is_spooled(
    manifest: Option<ManifestView>,
    request_id: Seq<char>,
    msg: Json,
    params: Json,
)
    requires
        manifest is Some,
        jsonrpc_ok(msg),
        spec_as_str(spec_get(msg, "method"@)) == Some("record"@),
        !has_key(msg, "id"@),
        spec_get(msg, "params"@) == Some(params),
        spec_as_str(spec_get(params, "request_id"@)) == Some(request_id),
        has_key(params, "record"@),
    ensures
        message_plan(manifest, false, request_id, msg) == (Plan::Spool { single: true }),
{
    lemma_record_method();
}

/// Whenever a message is spooled, the host reads what the params hold: the
/// single record under `record` when that key is there, and the batch under
/// `records` (an array of at most [`MAX_RECORD_BATCH`] values) only when it
/// is not.
pub proof fn lemma_spool_reads_what_is_there(
    manifest: Option<ManifestView>,
    finished: bool,
    request_id: Seq<char>,
    msg: Json,
)
    requires
        message_plan(manifest, finished, request_id, msg) is Spool,
    ensures
        spec_get(msg, "params"@) matches Some(params) && {
            let single = message_plan(manifest, finished, request_id, msg)->Spool_single;
            &&& single == has_key(params, "record"@)
            &&& !single ==> (spec_get(params, "records"@) matches Some(Json::Array(items))
                && items@.len() <= MAX_RECORD_BATCH)
        },
{
    lemma_record_method();
}

proof fn lemma_record_method()
    ensures
        Method::from_name("record"@) == Some(Method::Record),
{
    reveal_strlit("record");
    reveal_strlit("initialize");
    reveal_strlit("discover");
    reveal_strlit("cancel");
    reveal_strlit("fetch_request");
    reveal_strlit("state_query");
    assert("record"@[0] != "initialize"@[0]);
    assert("record"@[0] != "discover"@[0]);
    assert("record"@ != "cancel"@);
    assert("record"@ != "fetch_request"@);
    assert("record"@ != "state_query"@);
}

} // verus!
