//! The fixed contract between an extension frame and the shell: a read
//! request names one of two operations and carries a bounded payload.

use vstd::prelude::*;
use vstd::string::StringExecFns;

use crate::host::byte_len;
use crate::json::{
    check_exact_keys, exact_keys, spec_as_i64, spec_as_str, spec_get, take_member, Json,
};
use crate::text::{
    any_control, blank, chars_of, decimal_chars, decimal_string, has_control, is_blank, join2,
    join3, str_eq, to_owned,
};

verus! {

pub const BROKER_CHANNEL: &'static str = "mh-ui-read-broker.v1";

pub const MAX_BROWSER_MESSAGE_BYTES: usize = 16384;

pub const MAX_IFRAME_CONCURRENT_REQUESTS: usize = 8;

pub const MAX_REQUEST_ID_BYTES: usize = 64;

pub const MAX_WORK_KEY_BYTES: usize = 4096;

/// The two read operations an extension may ask for.
#[derive(Debug, Clone, Copy, PartialEq, Eq)]
pub enum ReadOperation {
    GalleryList,
    GraphDetail,
}

impl ReadOperation {
    pub open spec fn name(self) -> Seq<char> {
        match self {
            ReadOperation::GalleryList => "gallery.list"@,
            ReadOperation::GraphDetail => "graph.detail"@,
        }
    }

    pub fn as_str(self) -> (s: &'static str)
        ensures
            s@ == self.name(),
    {
        match self {
            ReadOperation::GalleryList => "gallery.list",
            ReadOperation::GraphDetail => "graph.detail",
        }
    }
}

/// A read request of an extension frame.
#[derive(Debug)]
pub struct BrowserReadRequest {
    pub request_id: String,
    pub op: ReadOperation,
    pub payload: Json,
}

/// A bounded text field: not blank, within `max` UTF-8 bytes, without control
/// characters.
pub open spec fn spec_bounded_text(value: Seq<char>, max: usize, field: Seq<char>) -> Result<
    (),
    Seq<char>,
> {
    if blank(value) {
        Err(field + " must not be blank"@)
    } else if byte_len(value) > max {
        Err(field + " exceeds "@ + decimal_chars(max as nat) + " UTF-8 bytes"@)
    } else if has_control(value) {
        Err(field + " contains a control character"@)
    } else {
        Ok(())
    }
}

pub fn validate_bounded_text(value: &str, max_bytes: usize, field: &str) -> (r: Result<(), String>)
    ensures
        match spec_bounded_text(value@, max_bytes, field@) {
            Ok(_) => r is Ok,
            Err(m) => r matches Err(e) && e@ == m,
        },
{
    if is_blank(value) {
        return Err(join2(field, " must not be blank"));
    }
    if value.len() > max_bytes {
        let mut m = join3(field, " exceeds ", decimal_string(max_bytes as u64).as_str());
        m.append(" UTF-8 bytes");
        return Err(m);
    }
    if any_control(value) {
        return Err(join2(field, " contains a control character"));
    }
    Ok(())
}

pub open spec fn unknown_fields() -> Seq<char> {
    "broker message contains missing or unknown fields"@
}

/// The payload of an operation: `gallery.list` takes a `limit` in 1..=200 and
/// a non-negative `offset`; `graph.detail` takes a bounded `work_key`.
pub open spec fn spec_validate_payload(op: ReadOperation, p: Json) -> Result<(), Seq<char>> {
    if !(p is Object) {
        Err("broker payload must be a JSON object"@)
    } else {
        match op {
            ReadOperation::GalleryList => if !exact_keys(p, seq!["limit"@, "offset"@]) {
                Err(unknown_fields())
            } else {
                match spec_as_i64(spec_get(p, "limit"@)) {
                    None => Err("gallery.list limit must be an integer"@),
                    Some(l) => if !(1 <= l <= 200) {
                        Err("gallery.list limit must be between 1 and 200"@)
                    } else {
                        match spec_as_i64(spec_get(p, "offset"@)) {
                            None => Err("gallery.list offset must be a signed 64-bit integer"@),
                            Some(o) => if o < 0 {
                                Err("gallery.list offset must not be negative"@)
                            } else {
                                Ok(())
                            },
                        }
                    },
                }
            },
            ReadOperation::GraphDetail => if !exact_keys(p, seq!["work_key"@]) {
                Err(unknown_fields())
            } else {
                match spec_as_str(spec_get(p, "work_key"@)) {
                    None => Err("graph.detail work_key must be a string"@),
                    Some(w) => spec_bounded_text(w, MAX_WORK_KEY_BYTES, "work_key"@),
                }
            },
        }
    }
}

pub fn validate_payload(op: ReadOperation, payload: &Json) -> (r: Result<(), String>)
    ensures
        match spec_validate_payload(op, *payload) {
            Ok(_) => r is Ok,
            Err(m) => r matches Err(e) && e@ == m,
        },
{
    if !payload.is_object() {
        return Err(String::from_str("broker payload must be a JSON object"));
    }
    match op {
        ReadOperation::GalleryList => {
            let keys: [&str; 2] = ["limit", "offset"];
            let ks = keys.as_slice();
            assert(ks@.map_values(|s: &str| s@) =~= seq!["limit"@, "offset"@]);
            if !check_exact_keys(payload, ks) {
                return Err(String::from_str("broker message contains missing or unknown fields"));
            }
            let limit = match payload.get("limit") {
                Some(x) => x.as_i64(),
                None => None,
            };
            let limit = match limit {
                Some(l) => l,
                None => {
                    return Err(String::from_str("gallery.list limit must be an integer"));
                },
            };
            if !(1 <= limit && limit <= 200) {
                return Err(String::from_str("gallery.list limit must be between 1 and 200"));
            }
            let offset = match payload.get("offset") {
                Some(x) => x.as_i64(),
                None => None,
            };
            let offset = match offset {
                Some(o) => o,
                None => {
                    return Err(
                        String::from_str("gallery.list offset must be a signed 64-bit integer"),
                    );
                },
            };
            if offset < 0 {
                return Err(String::from_str("gallery.list offset must not be negative"));
            }
            Ok(())
        },
        ReadOperation::GraphDetail => {
            let keys: [&str; 1] = ["work_key"];
            let ks = keys.as_slice();
            assert(ks@.map_values(|s: &str| s@) =~= seq!["work_key"@]);
            if !check_exact_keys(payload, ks) {
                return Err(String::from_str("broker message contains missing or unknown fields"));
            }
            let work_key = match payload.get("work_key") {
                Some(x) => x.as_str(),
                None => None,
            };
            match work_key {
                None => Err(String::from_str("graph.detail work_key must be a string")),
                Some(w) => validate_bounded_text(w, MAX_WORK_KEY_BYTES, "work_key"),
            }
        },
    }
}

pub open spec fn request_id_char(c: char) -> bool {
    crate::text::is_ascii_alnum(c) || c == '_' || c == '-'
}

pub open spec fn request_id_chars(s: Seq<char>) -> bool {
    forall|i: int| 0 <= i < s.len() ==> request_id_char(#[trigger] s[i])
}

pub open spec fn op_named(name: Option<Seq<char>>) -> Option<ReadOperation> {
    if name == Some("gallery.list"@) {
        Some(ReadOperation::GalleryList)
    } else if name == Some("graph.detail"@) {
        Some(ReadOperation::GraphDetail)
    } else {
        None
    }
}

pub open spec fn broker_keys() -> Seq<Seq<char>> {
    seq!["channel"@, "type"@, "request_id"@, "op"@, "payload"@]
}

/// A broker message: exactly the five fields, the broker channel, type
/// `read`, a bounded `[A-Za-z0-9_-]` request id, an allowed operation with a
/// valid payload, and an encoding within 16 KiB.
pub open spec fn spec_browser_request(v: Json, encoded_len: usize) -> Result<
    (Seq<char>, ReadOperation),
    Seq<char>,
> {
    if !(v is Object) {
        Err("broker message must be a JSON object"@)
    } else if !exact_keys(v, broker_keys()) {
        Err(unknown_fields())
    } else if spec_as_str(spec_get(v, "channel"@)) != Some(BROKER_CHANNEL@) {
        Err("broker channel mismatch"@)
    } else if spec_as_str(spec_get(v, "type"@)) != Some("read"@) {
        Err("broker message type is not read"@)
    } else {
        match spec_as_str(spec_get(v, "request_id"@)) {
            None => Err("broker request_id must be a string"@),
            Some(rid) => match spec_bounded_text(rid, MAX_REQUEST_ID_BYTES, "request_id"@) {
                Err(m) => Err(m),
                Ok(_) => if !request_id_chars(rid) {
                    Err("request_id must match [A-Za-z0-9_-]{1,64}"@)
                } else {
                    match op_named(spec_as_str(spec_get(v, "op"@))) {
                        None => Err("broker operation is not allowed"@),
                        Some(op) => match spec_get(v, "payload"@) {
                            None => Err("broker payload is required"@),
                            Some(p) => match spec_validate_payload(op, p) {
                                Err(m) => Err(m),
                                Ok(_) => if encoded_len > MAX_BROWSER_MESSAGE_BYTES {
                                    Err("broker message exceeds 16 KiB"@)
                                } else {
                                    Ok((rid, op))
                                },
                            },
                        },
                    }
                },
            },
        }
    }
}

pub fn is_request_id(s: &str) -> (r: bool)
    ensures
        r == request_id_chars(s@),
{
    let c = chars_of(s);
    let mut i: usize = 0;
    while i < c.len()
        invariant
            i <= c@.len(),
            c@ == s@,
            forall|j: int| 0 <= j < i ==> request_id_char(#[trigger] c@[j]),
        decreases c@.len() - i,
    {
        let ch = c[i];
        let ok = ('a' <= ch && ch <= 'z') || ('A' <= ch && ch <= 'Z') || ('0' <= ch && ch <= '9')
            || ch == '_' || ch == '-';
        if !ok {
            assert(!request_id_char(c@[i as int]));
            return false;
        }
        i += 1;
    }
    true
}

/// Reads a broker message posted by an extension frame. `encoded_len` is the
/// length of the message's JSON encoding.
pub fn parse_browser_request(value: Json, encoded_len: usize) -> (r: Result<
    BrowserReadRequest,
    String,
>)
    ensures
        match spec_browser_request(value, encoded_len) {
            Ok((rid, op)) => r matches Ok(q) && q.request_id@ == rid && q.op == op && Some(q.payload)
                == spec_get(value, "payload"@),
            Err(m) => r matches Err(e) && e@ == m,
        },
{
    if !value.is_object() {
        return Err(String::from_str("broker message must be a JSON object"));
    }
    let keys: [&str; 5] = ["channel", "type", "request_id", "op", "payload"];
    let ks = keys.as_slice();
    assert(ks@.map_values(|s: &str| s@) =~= broker_keys());
    if !check_exact_keys(&value, ks) {
        return Err(String::from_str("broker message contains missing or unknown fields"));
    }
    let channel_ok = match value.get("channel") {
        Some(x) => match x.as_str() {
            Some(c) => str_eq(c, BROKER_CHANNEL),
            None => false,
        },
        None => false,
    };
    if !channel_ok {
        return Err(String::from_str("broker channel mismatch"));
    }
    let type_ok = match value.get("type") {
        Some(x) => match x.as_str() {
            Some(t) => str_eq(t, "read"),
            None => false,
        },
        None => false,
    };
    if !type_ok {
        return Err(String::from_str("broker message type is not read"));
    }
    let request_id = match value.get("request_id") {
        Some(x) => match x.as_str() {
            Some(s) => to_owned(s),
            None => {
                return Err(String::from_str("broker request_id must be a string"));
            },
        },
        None => {
            return Err(String::from_str("broker request_id must be a string"));
        },
    };
    match validate_bounded_text(request_id.as_str(), MAX_REQUEST_ID_BYTES, "request_id") {
        Ok(()) => {},
        Err(e) => {
            return Err(e);
        },
    }
    if !is_request_id(request_id.as_str()) {
        return Err(String::from_str("request_id must match [A-Za-z0-9_-]{1,64}"));
    }
    let op = match value.get("op") {
        Some(x) => match x.as_str() {
            Some(o) => {
                if str_eq(o, "gallery.list") {
                    Some(ReadOperation::GalleryList)
                } else if str_eq(o, "graph.detail") {
                    Some(ReadOperation::GraphDetail)
                } else {
                    None
                }
            },
            None => None,
        },
        None => None,
    };
    let op = match op {
        Some(op) => op,
        None => {
            return Err(String::from_str("broker operation is not allowed"));
        },
    };
    match value.get("payload") {
        None => {
            return Err(String::from_str("broker payload is required"));
        },
        Some(p) => match validate_payload(op, p) {
            Ok(()) => {},
            Err(e) => {
                return Err(e);
            },
        },
    }
    if encoded_len > MAX_BROWSER_MESSAGE_BYTES {
        return Err(String::from_str("broker message exceeds 16 KiB"));
    }
    match take_member(value, "payload") {
        Some(payload) => Ok(BrowserReadRequest { request_id, op, payload }),
        None => Err(String::from_str("broker payload is required")),
    }
}

} // verus!
