//! The operator-owned read provider channel: its hello, the read request the
//! shell sends, and the checks on each result. The channel fails closed: one
//! bad exchange and it stays failed.

use vstd::prelude::*;
use vstd::string::StringExecFns;

use crate::json::{
    check_exact_keys, exact_keys, members, spec_as_str, spec_get, take_member, Json,
};
use crate::text::{str_eq, to_owned};
use crate::ui_ext::broker::{
    is_request_id, request_id_chars, spec_bounded_text, validate_bounded_text, ReadOperation,
};

verus! {

pub const WIRE_SCHEMA: &'static str = "mh-ui-read-provider.v1";

/// Largest frame of the provider channel.
pub const MAX_FRAME_BYTES: usize = 8388608;

/// A frame length the channel accepts: not empty and within the limit.
pub fn check_frame_len(length: usize) -> (r: Result<(), String>)
    ensures
        (length == 0 || length > MAX_FRAME_BYTES) ==> (r matches Err(e) && e@
            == "provider frame length is invalid"@),
        (0 < length <= MAX_FRAME_BYTES) ==> r is Ok,
{
    if length == 0 || length > MAX_FRAME_BYTES {
        Err(String::from_str("provider frame length is invalid"))
    } else {
        Ok(())
    }
}

pub open spec fn hello_keys() -> Seq<Seq<char>> {
    seq!["schema"@, "type"@, "generation"@, "operations"@]
}

/// The two operations, in order, that a provider must announce.
pub open spec fn announces_operations(ops: Seq<Json>) -> bool {
    &&& ops.len() == 2
    &&& spec_as_str(Some(ops[0])) == Some("gallery.list"@)
    &&& spec_as_str(Some(ops[1])) == Some("graph.detail"@)
}

/// The provider's hello: exactly its four fields, the wire schema, type
/// `hello`, a bounded generation, and exactly the two read operations.
pub open spec fn spec_hello(v: Json) -> Result<Seq<char>, Seq<char>> {
    if !(v is Object) {
        Err("provider hello must be a JSON object"@)
    } else if !exact_keys(v, hello_keys()) {
        Err("provider message contains missing or unknown fields"@)
    } else if spec_as_str(spec_get(v, "schema"@)) != Some(WIRE_SCHEMA@) || spec_as_str(
        spec_get(v, "type"@),
    ) != Some("hello"@) {
        Err("provider hello schema or type mismatch"@)
    } else {
        match spec_as_str(spec_get(v, "generation"@)) {
            None => Err("provider hello generation must be a string"@),
            Some(g) => match spec_bounded_text(g, 4096, "generation"@) {
                Err(m) => Err(m),
                Ok(_) => match spec_get(v, "operations"@) {
                    Some(Json::Array(ops)) => if announces_operations(ops@) {
                        Ok(g)
                    } else {
                        Err(
                            "provider hello operations must be exactly gallery.list and graph.detail"@,
                        )
                    },
                    _ => Err("provider hello operations must be an array"@),
                },
            },
        }
    }
}

fn text_is(v: Option<&Json>, expected: &str) -> (r: bool)
    ensures
        r == (spec_as_str(
            match v {
                Some(x) => Some(*x),
                None => None,
            },
        ) == Some(expected@)),
{
    match v {
        Some(x) => match x.as_str() {
            Some(s) => str_eq(s, expected),
            None => false,
        },
        None => false,
    }
}

/// Checks the provider's hello and gives its generation.
pub fn validate_hello(v: &Json) -> (r: Result<String, String>)
    ensures
        match spec_hello(*v) {
            Ok(g) => r matches Ok(s) && s@ == g,
            Err(m) => r matches Err(e) && e@ == m,
        },
{
    if !v.is_object() {
        return Err(String::from_str("provider hello must be a JSON object"));
    }
    let keys: [&str; 4] = ["schema", "type", "generation", "operations"];
    let ks = keys.as_slice();
    assert(ks@.map_values(|s: &str| s@) =~= hello_keys());
    if !check_exact_keys(v, ks) {
        return Err(String::from_str("provider message contains missing or unknown fields"));
    }
    if !text_is(v.get("schema"), WIRE_SCHEMA) || !text_is(v.get("type"), "hello") {
        return Err(String::from_str("provider hello schema or type mismatch"));
    }
    let generation = match v.get("generation") {
        Some(x) => x.as_str(),
        None => None,
    };
    let generation = match generation {
        Some(g) => g,
        None => {
            return Err(String::from_str("provider hello generation must be a string"));
        },
    };
    match validate_bounded_text(generation, 4096, "generation") {
        Ok(()) => {},
        Err(e) => {
            return Err(e);
        },
    }
    match v.get("operations") {
        Some(Json::Array(ops)) => {
            if ops.len() == 2 && text_is(Some(&ops[0]), "gallery.list") && text_is(
                Some(&ops[1]),
                "graph.detail",
            ) {
                Ok(to_owned(generation))
            } else {
                Err(
                    String::from_str(
                        "provider hello operations must be exactly gallery.list and graph.detail",
                    ),
                )
            }
        },
        _ => Err(String::from_str("provider hello operations must be an array")),
    }
}

/// What a provider result says.
#[derive(Debug)]
pub enum ValidatedResult {
    /// The payload of a successful read.
    Success(Json),
    /// The provider refused the read with this code.
    Rejected(String),
}

pub open spec fn success_keys() -> Seq<Seq<char>> {
    seq!["schema"@, "type"@, "request_id"@, "generation"@, "ok"@, "payload"@]
}

pub open spec fn rejected_keys() -> Seq<Seq<char>> {
    seq!["schema"@, "type"@, "request_id"@, "generation"@, "ok"@, "error"@]
}

pub open spec fn spec_as_bool(v: Option<Json>) -> Option<bool> {
    match v {
        Some(Json::Bool(b)) => Some(b),
        _ => None,
    }
}

/// How a result must look: schema and type, the request's id and the
/// channel's generation, then either `ok: true` with a payload or `ok: false`
/// with a bounded error code, and no other fields.
pub enum ResultView {
    Success,
    Rejected(Seq<char>),
}

pub open spec fn spec_result(v: Json, request_id: Seq<char>, generation: Seq<char>) -> Result<
    ResultView,
    Seq<char>,
> {
    if !(v is Object) {
        Err("provider result must be a JSON object"@)
    } else if spec_as_str(spec_get(v, "schema"@)) != Some(WIRE_SCHEMA@) || spec_as_str(
        spec_get(v, "type"@),
    ) != Some("read-result"@) {
        Err("provider result schema or type mismatch"@)
    } else if spec_as_str(spec_get(v, "request_id"@)) != Some(request_id) {
        Err("provider result request_id mismatch"@)
    } else if spec_as_str(spec_get(v, "generation"@)) != Some(generation) {
        Err("provider result generation mismatch"@)
    } else {
        match spec_as_bool(spec_get(v, "ok"@)) {
            None => Err("provider result ok must be a boolean"@),
            Some(true) => if !exact_keys(v, success_keys()) {
                Err("provider message contains missing or unknown fields"@)
            } else {
                Ok(ResultView::Success)
            },
            Some(false) => if !exact_keys(v, rejected_keys()) {
                Err("provider message contains missing or unknown fields"@)
            } else {
                match spec_get(v, "error"@) {
                    Some(e) => if !(e is Object) {
                        Err("provider result error must be an object"@)
                    } else if !exact_keys(e, seq!["code"@]) {
                        Err("provider message contains missing or unknown fields"@)
                    } else {
                        match spec_as_str(spec_get(e, "code"@)) {
                            None => Err("provider result error code must be a string"@),
                            Some(c) => match spec_bounded_text(c, 64, "provider error code"@) {
                                Err(m) => Err(m),
                                Ok(_) => Ok(ResultView::Rejected(c)),
                            },
                        }
                    },
                    None => Err("provider result error must be an object"@),
                }
            },
        }
    }
}

/// Checks a provider result against the request it answers.
pub fn validate_result(v: Json, request_id: &str, generation: &str) -> (r: Result<
    ValidatedResult,
    String,
>)
    ensures
        match spec_result(v, request_id@, generation@) {
            Ok(ResultView::Success) => r matches Ok(ValidatedResult::Success(p)) && Some(p)
                == spec_get(v, "payload"@),
            Ok(ResultView::Rejected(c)) => r matches Ok(ValidatedResult::Rejected(s)) && s@ == c,
            Err(m) => r matches Err(e) && e@ == m,
        },
{
    if !v.is_object() {
        return Err(String::from_str("provider result must be a JSON object"));
    }
    if !text_is(v.get("schema"), WIRE_SCHEMA) || !text_is(v.get("type"), "read-result") {
        return Err(String::from_str("provider result schema or type mismatch"));
    }
    if !text_is(v.get("request_id"), request_id) {
        return Err(String::from_str("provider result request_id mismatch"));
    }
    if !text_is(v.get("generation"), generation) {
        return Err(String::from_str("provider result generation mismatch"));
    }
    let ok = match v.get("ok") {
        Some(Json::Bool(b)) => Some(*b),
        _ => None,
    };
    match ok {
        None => Err(String::from_str("provider result ok must be a boolean")),
        Some(true) => {
            let keys: [&str; 6] = ["schema", "type", "request_id", "generation", "ok", "payload"];
            let ks = keys.as_slice();
            assert(ks@.map_values(|s: &str| s@) =~= success_keys());
            if !check_exact_keys(&v, ks) {
                return Err(String::from_str("provider message contains missing or unknown fields"));
            }
            match take_member(v, "payload") {
                Some(p) => Ok(ValidatedResult::Success(p)),
                None => Err(String::from_str("provider result payload is required")),
            }
        },
        Some(false) => {
            let keys: [&str; 6] = ["schema", "type", "request_id", "generation", "ok", "error"];
            let ks = keys.as_slice();
            assert(ks@.map_values(|s: &str| s@) =~= rejected_keys());
            if !check_exact_keys(&v, ks) {
                return Err(String::from_str("provider message contains missing or unknown fields"));
            }
            let e = match v.get("error") {
                Some(e) => e,
                None => {
                    return Err(String::from_str("provider result error must be an object"));
                },
            };
            if !e.is_object() {
                return Err(String::from_str("provider result error must be an object"));
            }
            let ck: [&str; 1] = ["code"];
            let cks = ck.as_slice();
            assert(cks@.map_values(|s: &str| s@) =~= seq!["code"@]);
            if !check_exact_keys(e, cks) {
                return Err(String::from_str("provider message contains missing or unknown fields"));
            }
            let code = match e.get("code") {
                Some(x) => x.as_str(),
                None => None,
            };
            let code = match code {
                Some(c) => c,
                None => {
                    return Err(String::from_str("provider result error code must be a string"));
                },
            };
            match validate_bounded_text(code, 64, "provider error code") {
                Ok(()) => {},
                Err(m) => {
                    return Err(m);
                },
            }
            Ok(ValidatedResult::Rejected(to_owned(code)))
        },
    }
}

/// Why a read failed.
#[derive(Debug, Clone, PartialEq, Eq)]
pub enum ProviderReadError {
    /// The provider answered the read with this code.
    Rejected { generation: String, code: String },
    /// The channel broke; it stays unusable.
    Channel(String),
}

/// The provider channel after its hello: its generation, and whether it has
/// failed.
pub struct ProviderChannel {
    generation: String,
    failed: bool,
}

impl ProviderChannel {
    pub closed spec fn spec_generation(&self) -> Seq<char> {
        self.generation@
    }

    pub closed spec fn spec_failed(&self) -> bool {
        self.failed
    }

    /// Opens the channel from the provider's hello.
    pub fn from_hello(hello: &Json) -> (r: Result<ProviderChannel, String>)
        ensures
            match spec_hello(*hello) {
                Ok(g) => r matches Ok(c) && c.spec_generation() == g && !c.spec_failed(),
                Err(m) => r matches Err(e) && e@ == m,
            },
    {
        match validate_hello(hello) {
            Ok(generation) => Ok(ProviderChannel { generation, failed: false }),
            Err(e) => Err(e),
        }
    }

    pub fn generation(&self) -> (g: &str)
        ensures
            g@ == self.spec_generation(),
    {
        self.generation.as_str()
    }

    pub fn is_failed(&self) -> (b: bool)
        ensures
            b == self.spec_failed(),
    {
        self.failed
    }

    /// Marks the channel as failed after an I/O error.
    pub fn fail(&mut self, error: String) -> (r: ProviderReadError)
        ensures
            final(self).spec_failed(),
            final(self).spec_generation() == old(self).spec_generation(),
            r == ProviderReadError::Channel(error),
    {
        self.failed = true;
        ProviderReadError::Channel(error)
    }

    /// The request message of a read, or why the read may not be sent: the
    /// channel failed before, or the request id is not a bounded
    /// `[A-Za-z0-9_-]` text (which fails the channel).
    pub fn prepare_read(&mut self, request_id: &str, op: ReadOperation, payload: Json) -> (r:
        Result<Json, ProviderReadError>)
        ensures
            final(self).spec_generation() == old(self).spec_generation(),
            old(self).spec_failed() ==> (r matches Err(ProviderReadError::Channel(m)) && m@
                == "provider channel has failed; restart mh-ui-ext"@) && final(self).spec_failed(),
            !old(self).spec_failed() ==> match spec_bounded_text(request_id@, 64, "request_id"@) {
                Err(m) => (r matches Err(ProviderReadError::Channel(e)) && e@ == m)
                    && final(self).spec_failed(),
                Ok(_) => if !request_id_chars(request_id@) {
                    (r matches Err(ProviderReadError::Channel(e)) && e@
                        == "request_id must match [A-Za-z0-9_-]{1,64}"@) && final(self).spec_failed()
                } else {
                    &&& !final(self).spec_failed()
                    &&& r matches Ok(m)
                    &&& members(m).len() == 6
                    &&& spec_as_str(spec_get(m, "schema"@)) == Some(WIRE_SCHEMA@)
                    &&& spec_as_str(spec_get(m, "type"@)) == Some("read"@)
                    &&& spec_as_str(spec_get(m, "request_id"@)) == Some(request_id@)
                    &&& spec_as_str(spec_get(m, "generation"@)) == Some(old(self).spec_generation())
                    &&& spec_as_str(spec_get(m, "operation"@)) == Some(op.name())
                    &&& spec_get(m, "arguments"@) == Some(payload)
                },
            },
    {
        if self.failed {
            return Err(
                ProviderReadError::Channel(
                    String::from_str("provider channel has failed; restart mh-ui-ext"),
                ),
            );
        }
        match validate_bounded_text(request_id, 64, "request_id") {
            Ok(()) => {},
            Err(e) => {
                self.failed = true;
                return Err(ProviderReadError::Channel(e));
            },
        }
        if !is_request_id(request_id) {
            self.failed = true;
            return Err(
                ProviderReadError::Channel(
                    String::from_str("request_id must match [A-Za-z0-9_-]{1,64}"),
                ),
            );
        }
        let mut v: Vec<(String, Json)> = Vec::new();
        v.push((String::from_str("schema"), Json::String(String::from_str(WIRE_SCHEMA))));
        v.push((String::from_str("type"), Json::String(String::from_str("read"))));
        v.push((String::from_str("request_id"), Json::String(String::from_str(request_id))));
        v.push((String::from_str("generation"), Json::String(self.generation.clone())));
        v.push((String::from_str("operation"), Json::String(String::from_str(op.as_str()))));
        v.push((String::from_str("arguments"), payload));
        proof {
            reveal_strlit("schema");
            reveal_strlit("type");
            reveal_strlit("request_id");
            reveal_strlit("generation");
            reveal_strlit("operation");
            reveal_strlit("arguments");
            assert("schema"@[0] != "type"@[0]);
            assert("schema"@[0] != "request_id"@[0]);
            assert("schema"@[0] != "generation"@[0]);
            assert("schema"@[0] != "operation"@[0]);
            assert("schema"@[0] != "arguments"@[0]);
            assert("type"@[0] != "request_id"@[0]);
            assert("type"@[0] != "generation"@[0]);
            assert("type"@[0] != "operation"@[0]);
            assert("type"@[0] != "arguments"@[0]);
            assert("request_id"@[0] != "generation"@[0]);
            assert("request_id"@[0] != "operation"@[0]);
            assert("request_id"@[0] != "arguments"@[0]);
            assert("generation"@[0] != "operation"@[0]);
            assert("generation"@[0] != "arguments"@[0]);
            assert("operation"@[0] != "arguments"@[0]);
            reveal_with_fuel(crate::json::member_index_from, 7);
        }
        Ok(Json::Object(v))
    }

    /// Takes the provider's answer to a prepared read. A result that does
    /// not match the request fails the channel.
    pub fn finish_read(&mut self, response: Json, request_id: &str) -> (r: Result<
        Json,
        ProviderReadError,
    >)
        ensures
            final(self).spec_generation() == old(self).spec_generation(),
            match spec_result(response, request_id@, old(self).spec_generation()) {
                Ok(ResultView::Success) => r matches Ok(p) && Some(p) == spec_get(
                    response,
                    "payload"@,
                ) && final(self).spec_failed() == old(self).spec_failed(),
                Ok(ResultView::Rejected(c)) => (r matches Err(
                    ProviderReadError::Rejected { generation, code },
                ) && generation@ == old(self).spec_generation() && code@ == c)
                    && final(self).spec_failed() == old(self).spec_failed(),
                Err(m) => (r matches Err(ProviderReadError::Channel(e)) && e@ == m)
                    && final(self).spec_failed(),
            },
    {
        let generation = self.generation.clone();
        match validate_result(response, request_id, generation.as_str()) {
            Ok(ValidatedResult::Success(p)) => Ok(p),
            Ok(ValidatedResult::Rejected(code)) => Err(
                ProviderReadError::Rejected { generation, code },
            ),
            Err(e) => {
                self.failed = true;
                Err(ProviderReadError::Channel(e))
            },
        }
    }
}

} // verus!
