//! Routing decisions of the extension host: the method and `Host` guard, the
//! shell's routes, the asset route, and the fields of a read request.

use vstd::prelude::*;
use vstd::string::StringExecFns;

use crate::json::{members, spec_as_str, spec_get, Json};
use crate::text::{
    chars_of, contains_char, starts_with, starts_with_chars, str_eq, string_from_chars, sub_chars,
    to_owned,
};
use crate::ui_ext::broker::{ReadOperation, BROKER_CHANNEL};
use crate::ui_ext::shell::read_route_prefix;
use crate::web::{
    find_or_end, is_loopback_authority, lemma_seg_end, parse_query, seg_end,
    spec_exact_loopback_authority, spec_parse_query, ReadQuery,
};

verus! {

/// A refused request of the extension host.
#[derive(Debug, Clone, PartialEq, Eq)]
pub struct Refusal {
    pub status: u16,
    pub error: String,
}

pub open spec fn refused(r: Refusal, status: u16, error: Seq<char>) -> bool {
    r.status == status && r.error@ == error
}

fn refuse(status: u16, error: &str) -> (r: Refusal)
    ensures
        refused(r, status, error@),
{
    Refusal { status, error: String::from_str(error) }
}

/// Every request: `GET` or `HEAD` only (a 405 allows `GET, HEAD`), and a
/// `Host` that is exactly `127.0.0.1` on the server's port.
pub fn check_request(method: &str, host: Option<&str>, port: u16) -> (r: Option<Refusal>)
    ensures
        !(method@ == "GET"@ || method@ == "HEAD"@) ==> (r matches Some(x) && refused(
            x,
            405,
            "method not allowed"@,
        )),
        (method@ == "GET"@ || method@ == "HEAD"@) ==> match host {
            None => r matches Some(x) && refused(x, 400, "Host header is required"@),
            Some(h) => if spec_exact_loopback_authority(h@, port) {
                r is None
            } else {
                r matches Some(x) && refused(x, 403, "invalid Host header"@)
            },
        },
{
    if !(str_eq(method, "GET") || str_eq(method, "HEAD")) {
        return Some(refuse(405, "method not allowed"));
    }
    match host {
        None => Some(refuse(400, "Host header is required")),
        Some(h) => {
            if is_loopback_authority(h, port) {
                None
            } else {
                Some(refuse(403, "invalid Host header"))
            }
        },
    }
}

/// What the shell server serves a path with.
#[derive(Debug, Clone, PartialEq, Eq)]
pub enum ShellRoute {
    Page,
    Read { name: String },
    NotFound,
}

pub open spec fn read_prefix() -> Seq<char> {
    "/__mh_ui_ext/read/"@
}

pub fn shell_route(path: &str) -> (r: ShellRoute)
    ensures
        path@ == "/"@ ==> r == ShellRoute::Page,
        path@ != "/"@ && starts_with(path@, read_prefix()) ==> (r matches ShellRoute::Read { name }
            && name@ == path@.skip(read_prefix().len() as int)),
        path@ != "/"@ && !starts_with(path@, read_prefix()) ==> r == ShellRoute::NotFound,
{
    if str_eq(path, "/") {
        return ShellRoute::Page;
    }
    let p = chars_of(path);
    let prefix = chars_of(read_route_prefix());
    if starts_with_chars(p.as_slice(), prefix.as_slice()) {
        let rest = sub_chars(p.as_slice(), prefix.len(), p.len());
        assert(rest@ =~= path@.skip(read_prefix().len() as int));
        ShellRoute::Read { name: string_from_chars(rest.as_slice()) }
    } else {
        ShellRoute::NotFound
    }
}

/// The asset route `/extensions/<name>/<path>`: the extension's name and the
/// requested path within it.
pub open spec fn spec_asset_route(path: Seq<char>) -> Result<(Seq<char>, Seq<char>), (u16, Seq<char>)> {
    let prefix = "/extensions/"@;
    if !starts_with(path, prefix) {
        Err((404u16, "not found"@))
    } else {
        let rest = path.skip(prefix.len() as int);
        let k = seg_end(rest, '/', 0);
        if k >= rest.len() {
            Err((400u16, "asset path is incomplete"@))
        } else {
            let name = rest.take(k);
            if name.len() == 0 || contains_char(name, '%') || contains_char(name, '.')
                || contains_char(name, '\\') {
                Err((400u16, "invalid extension name"@))
            } else {
                Ok((name, rest.skip(k + 1)))
            }
        }
    }
}

fn has_char(v: &[char], c: char) -> (r: bool)
    ensures
        r == contains_char(v@, c),
{
    let mut i: usize = 0;
    while i < v.len()
        invariant
            i <= v@.len(),
            forall|j: int| 0 <= j < i ==> v@[j] != c,
        decreases v@.len() - i,
    {
        if v[i] == c {
            return true;
        }
        i += 1;
    }
    false
}

pub fn asset_route(path: &str) -> (r: Result<(String, String), Refusal>)
    ensures
        match spec_asset_route(path@) {
            Ok((name, requested)) => r matches Ok((n, q)) && n@ == name && q@ == requested,
            Err((status, error)) => r matches Err(x) && refused(x, status, error),
        },
{
    let p = chars_of(path);
    let prefix = chars_of("/extensions/");
    if !starts_with_chars(p.as_slice(), prefix.as_slice()) {
        return Err(refuse(404, "not found"));
    }
    let rest = sub_chars(p.as_slice(), prefix.len(), p.len());
    assert(rest@ =~= path@.skip("/extensions/"@.len() as int));
    proof {
        lemma_seg_end(rest@, '/', 0);
    }
    let k = find_or_end(rest.as_slice(), 0, '/');
    if k >= rest.len() {
        return Err(refuse(400, "asset path is incomplete"));
    }
    let name = sub_chars(rest.as_slice(), 0, k);
    assert(name@ =~= rest@.take(k as int));
    if name.len() == 0 || has_char(name.as_slice(), '%') || has_char(name.as_slice(), '.')
        || has_char(name.as_slice(), '\\') {
        return Err(refuse(400, "invalid extension name"));
    }
    let requested = sub_chars(rest.as_slice(), k + 1, rest.len());
    assert(requested@ =~= rest@.skip(k + 1));
    Ok((string_from_chars(name.as_slice()), string_from_chars(requested.as_slice())))
}

pub open spec fn query_field(pairs: Seq<(Seq<char>, Seq<char>)>, key: Seq<char>) -> Option<Seq<char>> {
    if exists|i: int| 0 <= i < pairs.len() && #[trigger] pairs[i].0 == key {
        Some(pairs[choose|i: int| 0 <= i < pairs.len() && #[trigger] pairs[i].0 == key].1)
    } else {
        None
    }
}

/// A read request of the shell: a plain extension name that is registered,
/// and a query with `request_id`, `op` and `payload` (its payload text).
pub open spec fn spec_read_fields(name: Seq<char>, registered: bool, query: Option<Seq<char>>) -> Result<
    (Seq<char>, Seq<char>, Seq<char>),
    (u16, Seq<char>),
> {
    if name.len() == 0 || contains_char(name, '/') || contains_char(name, '%') {
        Err((400u16, "invalid extension name"@))
    } else if !registered {
        Err((404u16, "unknown extension"@))
    } else {
        match query {
            None => Err((400u16, "read query is required"@)),
            Some(q) => match spec_parse_query(q) {
                Err(m) => Err((400u16, m)),
                Ok(pairs) => match query_field(pairs, "request_id"@) {
                    None => Err((400u16, "request_id is required"@)),
                    Some(rid) => match query_field(pairs, "op"@) {
                        None => Err((400u16, "op is required"@)),
                        Some(op) => match query_field(pairs, "payload"@) {
                            None => Err((400u16, "payload is required"@)),
                            Some(payload) => Ok((rid, op, payload)),
                        },
                    },
                },
            },
        }
    }
}

/// Reads a read request of the shell. The parsed query never repeats a key,
/// so a field's value is the one the query gives it.
pub fn read_fields(name: &str, registered: bool, query: Option<&str>) -> (r: Result<
    (String, String, String),
    Refusal,
>)
    ensures
        match spec_read_fields(
            name@,
            registered,
            match query {
                Some(q) => Some(q@),
                None => None,
            },
        ) {
            Ok((rid, op, payload)) => r matches Ok((a, b, c)) && a@ == rid && b@ == op && c@
                == payload,
            Err((status, error)) => r matches Err(x) && refused(x, status, error),
        },
{
    let n = chars_of(name);
    if n.len() == 0 || has_char(n.as_slice(), '/') || has_char(n.as_slice(), '%') {
        return Err(refuse(400, "invalid extension name"));
    }
    if !registered {
        return Err(refuse(404, "unknown extension"));
    }
    let q = match query {
        None => {
            return Err(refuse(400, "read query is required"));
        },
        Some(q) => q,
    };
    let values: ReadQuery = match parse_query(q) {
        Ok(v) => v,
        Err(m) => {
            return Err(Refusal { status: 400, error: m });
        },
    };
    let rid = match values.get("request_id") {
        Some(v) => to_owned(v),
        None => {
            return Err(refuse(400, "request_id is required"));
        },
    };
    let op = match values.get("op") {
        Some(v) => to_owned(v),
        None => {
            return Err(refuse(400, "op is required"));
        },
    };
    let payload = match values.get("payload") {
        Some(v) => to_owned(v),
        None => {
            return Err(refuse(400, "payload is required"));
        },
    };
    proof {
        lemma_unique_keys(q@);
    }
    Ok((rid, op, payload))
}

/// The pairs of a parsed read query have distinct keys.
pub proof fn lemma_unique_keys(q: Seq<char>)
    ensures
        spec_parse_query(q) matches Ok(pairs) ==> forall|i: int, j: int|
            0 <= i < pairs.len() && 0 <= j < pairs.len() && #[trigger] pairs[i].0
                == #[trigger] pairs[j].0 ==> i == j,
{
    if q.len() > 0 {
        lemma_pairs_unique(q, 0, Seq::empty());
    }
}

proof fn lemma_pairs_unique(q: Seq<char>, start: int, acc: Seq<(Seq<char>, Seq<char>)>)
    requires
        forall|i: int, j: int|
            0 <= i < acc.len() && 0 <= j < acc.len() && #[trigger] acc[i].0 == #[trigger] acc[j].0
                ==> i == j,
    ensures
        crate::web::read_pairs_from(q, start, acc) matches Ok(pairs) ==> forall|i: int, j: int|
            0 <= i < pairs.len() && 0 <= j < pairs.len() && #[trigger] pairs[i].0
                == #[trigger] pairs[j].0 ==> i == j,
    decreases q.len() - start,
{
    if 0 <= start <= q.len() {
        let end = seg_end(q, '&', start);
        let part = q.subrange(start, end);
        let eq = seg_end(part, '=', 0);
        if eq < part.len() {
            match crate::web::spec_decode_component(part.take(eq)) {
                Err(_) => {},
                Ok(k) => match crate::web::spec_decode_component(part.skip(eq + 1)) {
                    Err(_) => {},
                    Ok(v) => if crate::web::allowed_read_key(k) && !crate::web::has_key_in(acc, k) {
                        let next = acc.push((k, v));
                        assert forall|i: int, j: int|
                            0 <= i < next.len() && 0 <= j < next.len() && #[trigger] next[i].0
                                == #[trigger] next[j].0 implies i == j by {
                            if i < acc.len() && j < acc.len() {
                            } else if i < acc.len() {
                                assert(acc[i].0 == k);
                            } else if j < acc.len() {
                                assert(acc[j].0 == k);
                            }
                        }
                        if end < q.len() {
                            lemma_seg_end(q, '&', start);
                            lemma_pairs_unique(q, end + 1, next);
                        }
                    },
                },
            }
        }
    }
}

/// The broker message of a read request: channel, type `read`, request id,
/// operation and payload.
pub fn broker_message(request_id: &str, op: &str, payload: Json) -> (m: Json)
    ensures
        members(m).len() == 5,
        spec_as_str(spec_get(m, "channel"@)) == Some(BROKER_CHANNEL@),
        spec_as_str(spec_get(m, "type"@)) == Some("read"@),
        spec_as_str(spec_get(m, "request_id"@)) == Some(request_id@),
        spec_as_str(spec_get(m, "op"@)) == Some(op@),
        spec_get(m, "payload"@) == Some(payload),
{
    let mut v: Vec<(String, Json)> = Vec::new();
    v.push((String::from_str("channel"), Json::String(String::from_str(BROKER_CHANNEL))));
    v.push((String::from_str("type"), Json::String(String::from_str("read"))));
    v.push((String::from_str("request_id"), Json::String(String::from_str(request_id))));
    v.push((String::from_str("op"), Json::String(String::from_str(op))));
    v.push((String::from_str("payload"), payload));
    proof {
        reveal_strlit("channel");
        reveal_strlit("type");
        reveal_strlit("request_id");
        reveal_strlit("op");
        reveal_strlit("payload");
        assert("channel"@[0] != "type"@[0]);
        assert("channel"@[0] != "request_id"@[0]);
        assert("channel"@[0] != "op"@[0]);
        assert("channel"@[0] != "payload"@[0]);
        assert("type"@[0] != "request_id"@[0]);
        assert("type"@[0] != "op"@[0]);
        assert("type"@[0] != "payload"@[0]);
        assert("request_id"@[0] != "op"@[0]);
        assert("request_id"@[0] != "payload"@[0]);
        assert("op"@[0] != "payload"@[0]);
        reveal_with_fuel(crate::json::member_index_from, 6);
    }
    Json::Object(v)
}

} // verus!
