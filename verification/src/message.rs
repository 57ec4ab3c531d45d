//! JSON-RPC 2.0 method names and protocol version constants.
//!
//! Transport framing lives in [`crate::framing`]; this module is only about
//! message semantics. Protocol and record-schema versions are kept separate so
//! they can evolve independently.

use vstd::prelude::*;

use vstd::string::StringExecFns;

use crate::json::{has_key, member_index_from, members, spec_as_i64, spec_as_str, spec_get, Json};
use crate::text::str_eq;

verus! {

/// Wire protocol version negotiated in `initialize`.
pub const PROTOCOL_VERSION: i64 = 1;

/// Version of the `SourceRecord` shape carried in `record` notifications.
pub const RECORD_SCHEMA_VERSION: i64 = 1;

/// Maximum in-flight plugin->host requests the host will service at once.
pub const MAX_PENDING_REQUESTS: usize = 16;

/// Maximum records a single `record` batch may carry.
pub const MAX_RECORD_BATCH: usize = 100;

/// Methods exchanged over the protocol. `host->plugin` and `plugin->host`
/// directions share the JSON-RPC envelope; IDs are namespaced by the sender.
#[derive(Debug, Clone, Copy, PartialEq, Eq)]
pub enum Method {
    Initialize,
    Discover,
    Cancel,
    FetchRequest,
    StateQuery,
    Record,
    Log,
}

impl Method {
    /// The wire name of a method.
    pub open spec fn name(self) -> Seq<char> {
        match self {
            Method::Initialize => "initialize"@,
            Method::Discover => "discover"@,
            Method::Cancel => "cancel"@,
            Method::FetchRequest => "fetch_request"@,
            Method::StateQuery => "state_query"@,
            Method::Record => "record"@,
            Method::Log => "log"@,
        }
    }

    /// The method a wire name denotes, if any.
    pub open spec fn from_name(s: Seq<char>) -> Option<Method> {
        if s == "initialize"@ {
            Some(Method::Initialize)
        } else if s == "discover"@ {
            Some(Method::Discover)
        } else if s == "cancel"@ {
            Some(Method::Cancel)
        } else if s == "fetch_request"@ {
            Some(Method::FetchRequest)
        } else if s == "state_query"@ {
            Some(Method::StateQuery)
        } else if s == "record"@ {
            Some(Method::Record)
        } else if s == "log"@ {
            Some(Method::Log)
        } else {
            None
        }
    }

    pub fn as_str(self) -> (r: &'static str)
        ensures
            r@ == self.name(),
    {
        match self {
            Method::Initialize => "initialize",
            Method::Discover => "discover",
            Method::Cancel => "cancel",
            Method::FetchRequest => "fetch_request",
            Method::StateQuery => "state_query",
            Method::Record => "record",
            Method::Log => "log",
        }
    }

    pub fn parse(s: &str) -> (r: Option<Method>)
        ensures
            r == Method::from_name(s@),
    {
        if str_eq(s, "initialize") {
            Some(Method::Initialize)
        } else if str_eq(s, "discover") {
            Some(Method::Discover)
        } else if str_eq(s, "cancel") {
            Some(Method::Cancel)
        } else if str_eq(s, "fetch_request") {
            Some(Method::FetchRequest)
        } else if str_eq(s, "state_query") {
            Some(Method::StateQuery)
        } else if str_eq(s, "record") {
            Some(Method::Record)
        } else if str_eq(s, "log") {
            Some(Method::Log)
        } else {
            None
        }
    }
}

/// Parsing the wire name of any method gives that method back.
pub proof fn lemma_method_round_trip(m: Method)
    ensures
        Method::from_name(m.name()) == Some(m),
{
    reveal_strlit("initialize");
    reveal_strlit("discover");
    reveal_strlit("cancel");
    reveal_strlit("fetch_request");
    reveal_strlit("state_query");
    reveal_strlit("record");
    reveal_strlit("log");
    assert("initialize"@[0] != "discover"@[0]);
    assert("initialize"@[0] != "cancel"@[0]);
    assert("initialize"@[0] != "fetch_request"@[0]);
    assert("initialize"@[0] != "state_query"@[0]);
    assert("initialize"@[0] != "record"@[0]);
    assert("initialize"@[0] != "log"@[0]);
    assert("discover"@[0] != "cancel"@[0]);
    assert("discover"@[0] != "fetch_request"@[0]);
    assert("discover"@[0] != "state_query"@[0]);
    assert("discover"@[0] != "record"@[0]);
    assert("discover"@[0] != "log"@[0]);
    assert("cancel"@[0] != "fetch_request"@[0]);
    assert("cancel"@[0] != "state_query"@[0]);
    assert("cancel"@[0] != "record"@[0]);
    assert("cancel"@[0] != "log"@[0]);
    assert("fetch_request"@[0] != "state_query"@[0]);
    assert("fetch_request"@[0] != "record"@[0]);
    assert("fetch_request"@[0] != "log"@[0]);
    assert("state_query"@[0] != "record"@[0]);
    assert("state_query"@[0] != "log"@[0]);
    assert("record"@[0] != "log"@[0]);
}

/// Only wire names parse, and a parsed name is the name of the method it gives.
pub proof fn lemma_parse_gives_name(s: Seq<char>)
    ensures
        Method::from_name(s) matches Some(m) ==> m.name() == s,
{
}

proof fn lemma_envelope_keys()
    ensures
        "jsonrpc"@ != "id"@,
        "jsonrpc"@ != "method"@,
        "jsonrpc"@ != "params"@,
        "jsonrpc"@ != "result"@,
        "jsonrpc"@ != "error"@,
        "id"@ != "method"@,
        "id"@ != "params"@,
        "id"@ != "result"@,
        "id"@ != "error"@,
        "method"@ != "params"@,
        "code"@ != "message"@,
{
    reveal_strlit("jsonrpc");
    reveal_strlit("id");
    reveal_strlit("method");
    reveal_strlit("params");
    reveal_strlit("result");
    reveal_strlit("error");
    reveal_strlit("code");
    reveal_strlit("message");
    assert("jsonrpc"@[0] != "id"@[0]);
    assert("jsonrpc"@[0] != "method"@[0]);
    assert("jsonrpc"@[0] != "params"@[0]);
    assert("jsonrpc"@[0] != "result"@[0]);
    assert("jsonrpc"@[0] != "error"@[0]);
    assert("id"@[0] != "method"@[0]);
    assert("id"@[0] != "params"@[0]);
    assert("id"@[0] != "result"@[0]);
    assert("id"@[0] != "error"@[0]);
    assert("method"@[0] != "params"@[0]);
    assert("code"@[0] != "message"@[0]);
}

fn text(s: &str) -> (j: Json)
    ensures
        j matches Json::String(t) && t@ == s@,
{
    Json::String(String::from_str(s))
}

/// A JSON-RPC request with an id.
pub fn request(id: &str, method: Method, params: Json) -> (m: Json)
    ensures
        members(m).len() == 4,
        spec_as_str(spec_get(m, "jsonrpc"@)) == Some("2.0"@),
        spec_as_str(spec_get(m, "id"@)) == Some(id@),
        spec_as_str(spec_get(m, "method"@)) == Some(method.name()),
        spec_get(m, "params"@) == Some(params),
{
    let mut v: Vec<(String, Json)> = Vec::new();
    v.push((String::from_str("jsonrpc"), text("2.0")));
    v.push((String::from_str("id"), text(id)));
    v.push((String::from_str("method"), text(method.as_str())));
    v.push((String::from_str("params"), params));
    proof {
        lemma_envelope_keys();
        reveal_with_fuel(member_index_from, 5);
    }
    Json::Object(v)
}

/// A JSON-RPC notification: no id, no response expected.
pub fn notification(method: Method, params: Json) -> (m: Json)
    ensures
        members(m).len() == 3,
        spec_as_str(spec_get(m, "jsonrpc"@)) == Some("2.0"@),
        !has_key(m, "id"@),
        spec_as_str(spec_get(m, "method"@)) == Some(method.name()),
        spec_get(m, "params"@) == Some(params),
{
    let mut v: Vec<(String, Json)> = Vec::new();
    v.push((String::from_str("jsonrpc"), text("2.0")));
    v.push((String::from_str("method"), text(method.as_str())));
    v.push((String::from_str("params"), params));
    proof {
        lemma_envelope_keys();
        reveal_with_fuel(member_index_from, 5);
    }
    Json::Object(v)
}

/// A successful JSON-RPC response.
pub fn response_ok(id: Json, result: Json) -> (m: Json)
    ensures
        members(m).len() == 3,
        spec_as_str(spec_get(m, "jsonrpc"@)) == Some("2.0"@),
        spec_get(m, "id"@) == Some(id),
        spec_get(m, "result"@) == Some(result),
{
    let mut v: Vec<(String, Json)> = Vec::new();
    v.push((String::from_str("jsonrpc"), text("2.0")));
    v.push((String::from_str("id"), id));
    v.push((String::from_str("result"), result));
    proof {
        lemma_envelope_keys();
        reveal_with_fuel(member_index_from, 5);
    }
    Json::Object(v)
}

/// A JSON number holding an `i64`.
pub fn integer(n: i64) -> (j: Json)
    ensures
        spec_as_i64(Some(j)) == Some(n),
{
    if n < 0 {
        Json::NegInt(n)
    } else {
        Json::PosInt(n as u64)
    }
}

/// An error JSON-RPC response.
pub fn response_err(id: Json, code: i64, message: &str) -> (m: Json)
    ensures
        members(m).len() == 3,
        spec_as_str(spec_get(m, "jsonrpc"@)) == Some("2.0"@),
        spec_get(m, "id"@) == Some(id),
        spec_get(m, "error"@) matches Some(e) && members(e).len() == 2 && spec_as_i64(
            spec_get(e, "code"@),
        ) == Some(code) && spec_as_str(spec_get(e, "message"@)) == Some(message@),
{
    let mut e: Vec<(String, Json)> = Vec::new();
    e.push((String::from_str("code"), integer(code)));
    e.push((String::from_str("message"), text(message)));
    let mut v: Vec<(String, Json)> = Vec::new();
    v.push((String::from_str("jsonrpc"), text("2.0")));
    v.push((String::from_str("id"), id));
    v.push((String::from_str("error"), Json::Object(e)));
    proof {
        lemma_envelope_keys();
        reveal_with_fuel(member_index_from, 5);
    }
    Json::Object(v)
}

} // verus!
