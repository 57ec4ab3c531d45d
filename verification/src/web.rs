//! HTTP helpers shared by the local web hosts: request-target splitting,
//! percent decoding, query lookup, and the loopback `Host` guards.

use vstd::prelude::*;
use vstd::string::StringExecFns;
use vstd::utf8::*;

use crate::text::{
    decimal_chars, decimal_string, is_ws, chars_eq, chars_eq_ignore_case, chars_of, eq_ignore_case, parse_unsigned, spec_parse_unsigned,
    string_from_chars, string_from_utf8, sub_chars, to_owned, trim, trim_chars,
};

verus! {

broadcast use vstd::utf8::encode_utf8_decode_utf8, vstd::utf8::encode_utf8_valid_utf8;

/// End of the segment that starts at `i`: the index of the next `c`, or the
/// length of `s`.
pub open spec fn seg_end(s: Seq<char>, c: char, i: int) -> int
    decreases s.len() - i,
{
    if i < 0 {
        0
    } else if i >= s.len() {
        s.len() as int
    } else if s[i] == c {
        i
    } else {
        seg_end(s, c, i + 1)
    }
}

pub proof fn lemma_seg_end(s: Seq<char>, c: char, i: int)
    requires
        0 <= i <= s.len(),
    ensures
        i <= seg_end(s, c, i) <= s.len(),
        seg_end(s, c, i) < s.len() ==> s[seg_end(s, c, i)] == c,
        forall|j: int| i <= j < seg_end(s, c, i) ==> s[j] != c,
    decreases s.len() - i,
{
    if i < s.len() && s[i] != c {
        lemma_seg_end(s, c, i + 1);
    }
}

/// Index of the next `c` at or after `from`, or the length.
pub fn find_or_end(v: &[char], from: usize, c: char) -> (r: usize)
    requires
        from <= v@.len(),
    ensures
        r as int == seg_end(v@, c, from as int),
{
    let mut i = from;
    while i < v.len()
        invariant
            from <= i <= v@.len(),
            seg_end(v@, c, from as int) == seg_end(v@, c, i as int),
        decreases v@.len() - i,
    {
        if v[i] == c {
            return i;
        }
        i += 1;
    }
    i
}

/// Index of the last `c`, or -1.
pub open spec fn last_index_of(s: Seq<char>, c: char) -> int
    decreases s.len(),
{
    if s.len() == 0 {
        -1
    } else if s.last() == c {
        s.len() - 1
    } else {
        last_index_of(s.drop_last(), c)
    }
}

pub proof fn lemma_last_index_of(s: Seq<char>, c: char)
    ensures
        -1 <= last_index_of(s, c) < s.len(),
        last_index_of(s, c) >= 0 ==> s[last_index_of(s, c)] == c,
    decreases s.len(),
{
    if s.len() > 0 && s.last() != c {
        lemma_last_index_of(s.drop_last(), c);
    }
}

pub fn rfind(v: &[char], c: char) -> (r: Option<usize>)
    ensures
        match r {
            Some(i) => i as int == last_index_of(v@, c),
            None => last_index_of(v@, c) == -1,
        },
{
    let mut i = v.len();
    assert(v@.take(i as int) =~= v@);
    while i > 0
        invariant
            i <= v@.len(),
            last_index_of(v@, c) == last_index_of(v@.take(i as int), c),
        decreases i,
    {
        assert(v@.take(i as int).last() == v@[i - 1]);
        if v[i - 1] == c {
            return Some(i - 1);
        }
        assert(v@.take(i as int).drop_last() =~= v@.take(i - 1));
        i -= 1;
    }
    None
}

/// The part of an authority before its last `:` (the whole value without one).
pub open spec fn authority_host(v: Seq<char>) -> Seq<char> {
    let k = last_index_of(v, ':');
    if k >= 0 {
        v.take(k)
    } else {
        v
    }
}

/// The port of an authority: after its last `:`, or 80 without one.
pub open spec fn authority_port(v: Seq<char>) -> Option<nat> {
    let k = last_index_of(v, ':');
    if k >= 0 {
        spec_parse_unsigned(v.skip(k + 1), 65535)
    } else {
        Some(80)
    }
}

/// A `Host` value naming this process's loopback address: `127.0.0.1` or
/// `localhost` in any letter case, with the bound port (80 when omitted).
pub open spec fn spec_allowed_loopback_authority(value: Seq<char>, port: u16) -> bool {
    let v = trim(value);
    &&& authority_port(v) == Some(port as nat)
    &&& (eq_ignore_case(authority_host(v), "127.0.0.1"@) || eq_ignore_case(
        authority_host(v),
        "localhost"@,
    ))
}

/// Splits an authority at its last `:` into host and parsed port.
fn split_authority(v: &[char]) -> (r: (Vec<char>, Option<u64>))
    ensures
        r.0@ == authority_host(v@),
        match authority_port(v@) {
            Some(p) => r.1 == Some(p as u64),
            None => r.1 is None,
        },
{
    proof {
        lemma_last_index_of(v@, ':');
    }
    match rfind(v, ':') {
        Some(k) => {
            assert(k < v.len());
            let host = sub_chars(v, 0, k);
            let port_text = sub_chars(v, k + 1, v.len());
            assert(host@ =~= v@.take(k as int));
            assert(port_text@ =~= v@.skip(k + 1));
            (host, parse_unsigned(port_text.as_slice(), 65535))
        },
        None => {
            let host = sub_chars(v, 0, v.len());
            assert(host@ =~= v@);
            (host, Some(80))
        },
    }
}

/// Checks a `Host` value against the loopback authority this process is bound to.
pub fn is_allowed_loopback_authority(value: &str, port: u16) -> (r: bool)
    ensures
        r == spec_allowed_loopback_authority(value@, port),
{
    let chars = chars_of(value);
    let v = trim_chars(chars.as_slice());
    let (host, parsed) = split_authority(v.as_slice());
    match parsed {
        Some(p) => {
            if p != port as u64 {
                return false;
            }
        },
        None => {
            return false;
        },
    }
    let a = chars_of("127.0.0.1");
    let b = chars_of("localhost");
    chars_eq_ignore_case(host.as_slice(), a.as_slice()) || chars_eq_ignore_case(
        host.as_slice(),
        b.as_slice(),
    )
}

/// An `Origin` value: `http://` in any letter case, then an allowed loopback
/// authority.
pub open spec fn spec_allowed_origin(value: Seq<char>, port: u16) -> bool {
    let v = trim(value);
    &&& v.len() >= 7
    &&& eq_ignore_case(v.take(7), "http://"@)
    &&& spec_allowed_loopback_authority(v.skip(7), port)
}

pub fn is_allowed_origin(value: &str, port: u16) -> (r: bool)
    ensures
        r == spec_allowed_origin(value@, port),
{
    let chars = chars_of(value);
    let v = trim_chars(chars.as_slice());
    if v.len() < 7 {
        return false;
    }
    let scheme = sub_chars(v.as_slice(), 0, 7);
    let expected = chars_of("http://");
    assert(scheme@ =~= v@.take(7));
    if !chars_eq_ignore_case(scheme.as_slice(), expected.as_slice()) {
        return false;
    }
    let rest = sub_chars(v.as_slice(), 7, v.len());
    assert(rest@ =~= v@.skip(7));
    let rest = string_from_chars(rest.as_slice());
    is_allowed_loopback_authority(rest.as_str(), port)
}

/// The exact loopback authority of the extension host: `127.0.0.1` and the
/// bound port (80 when omitted).
pub open spec fn spec_exact_loopback_authority(value: Seq<char>, port: u16) -> bool {
    let v = trim(value);
    &&& authority_host(v) == "127.0.0.1"@
    &&& authority_port(v) == Some(port as nat)
}

pub fn is_loopback_authority(value: &str, port: u16) -> (r: bool)
    ensures
        r == spec_exact_loopback_authority(value@, port),
{
    let chars = chars_of(value);
    let v = trim_chars(chars.as_slice());
    let (host, parsed) = split_authority(v.as_slice());
    let expected = chars_of("127.0.0.1");
    if !chars_eq(host.as_slice(), expected.as_slice()) {
        return false;
    }
    match parsed {
        Some(p) => p == port as u64,
        None => false,
    }
}

/// A request target cut at its fragment, then split into path and query.
pub open spec fn spec_split_target(t: Seq<char>) -> (Seq<char>, Option<Seq<char>>) {
    let t1 = t.take(seg_end(t, '#', 0));
    spec_split_query(t1)
}

/// A request target split at its first `?` into path and query.
pub open spec fn spec_split_query(t: Seq<char>) -> (Seq<char>, Option<Seq<char>>) {
    let q = seg_end(t, '?', 0);
    if q < t.len() {
        (t.take(q), Some(t.skip(q + 1)))
    } else {
        (t, None)
    }
}

pub fn split_query(target: &str) -> (r: (String, Option<String>))
    ensures
        r.0@ == spec_split_query(target@).0,
        match spec_split_query(target@).1 {
            Some(q) => r.1 matches Some(s) && s@ == q,
            None => r.1 is None,
        },
{
    let t = chars_of(target);
    proof {
        lemma_seg_end(t@, '?', 0);
    }
    let q = find_or_end(t.as_slice(), 0, '?');
    if q < t.len() {
        let path = sub_chars(t.as_slice(), 0, q);
        let query = sub_chars(t.as_slice(), q + 1, t.len());
        assert(path@ =~= t@.take(q as int));
        assert(query@ =~= t@.skip(q + 1));
        (string_from_chars(path.as_slice()), Some(string_from_chars(query.as_slice())))
    } else {
        (to_owned(target), None)
    }
}

/// Splits a request target of the management UI into path and query, ignoring
/// any fragment.
pub fn split_target(target: &str) -> (r: (String, Option<String>))
    ensures
        r.0@ == spec_split_target(target@).0,
        match spec_split_target(target@).1 {
            Some(q) => r.1 matches Some(s) && s@ == q,
            None => r.1 is None,
        },
{
    let t = chars_of(target);
    proof {
        lemma_seg_end(t@, '#', 0);
    }
    let end = find_or_end(t.as_slice(), 0, '#');
    let t1 = sub_chars(t.as_slice(), 0, end);
    assert(t1@ =~= t@.take(end as int));
    let t1 = string_from_chars(t1.as_slice());
    split_query(t1.as_str())
}

/// The value of a hexadecimal digit byte.
pub open spec fn hex_value(b: u8) -> Option<u8> {
    if 48 <= b <= 57 {
        Some((b - 48) as u8)
    } else if 97 <= b <= 102 {
        Some((b - 97 + 10) as u8)
    } else if 65 <= b <= 70 {
        Some((b - 65 + 10) as u8)
    } else {
        None
    }
}

pub fn hex(byte: u8) -> (r: Option<u8>)
    ensures
        r == hex_value(byte),
{
    if 48 <= byte && byte <= 57 {
        Some(byte - 48)
    } else if 97 <= byte && byte <= 102 {
        Some(byte - 97 + 10)
    } else if 65 <= byte && byte <= 70 {
        Some(byte - 65 + 10)
    } else {
        None
    }
}

/// Why percent decoding failed.
#[derive(Debug, Clone, Copy, PartialEq, Eq)]
pub enum DecodeError {
    /// `%` followed by two bytes that are not both hex digits.
    BadEscape,
    /// `%` without two following bytes.
    Truncated,
    /// A raw byte outside ASCII, where only ASCII is accepted.
    NotAscii,
}

pub open spec fn prepend(p: Seq<u8>, r: Result<Seq<u8>, DecodeError>) -> Result<Seq<u8>, DecodeError> {
    match r {
        Ok(x) => Ok(p + x),
        Err(e) => Err(e),
    }
}

/// Percent decoding of `bs` from index `i`: `%XY` is the byte with hex value
/// `XY`; with `plus`, `+` is a space (form encoding); other bytes stand for
/// themselves (only ASCII ones when `ascii_only`).
pub open spec fn decode_from(bs: Seq<u8>, i: int, ascii_only: bool, plus: bool) -> Result<
    Seq<u8>,
    DecodeError,
>
    decreases bs.len() - i,
{
    if i < 0 || i >= bs.len() {
        Ok(Seq::empty())
    } else if plus && bs[i] == 43 {
        prepend(seq![32u8], decode_from(bs, i + 1, ascii_only, plus))
    } else if bs[i] == 37 {
        if i + 2 < bs.len() {
            match hex_value(bs[i + 1]) {
                None => Err(DecodeError::BadEscape),
                Some(h) => match hex_value(bs[i + 2]) {
                    None => Err(DecodeError::BadEscape),
                    Some(l) => prepend(seq![(h * 16 + l) as u8], decode_from(bs, i + 3, ascii_only, plus)),
                },
            }
        } else {
            Err(DecodeError::Truncated)
        }
    } else if ascii_only && bs[i] >= 128 {
        Err(DecodeError::NotAscii)
    } else {
        prepend(seq![bs[i]], decode_from(bs, i + 1, ascii_only, plus))
    }
}

pub fn decode_bytes(bs: &[u8], ascii_only: bool, plus: bool) -> (r: Result<Vec<u8>, DecodeError>)
    ensures
        match decode_from(bs@, 0, ascii_only, plus) {
            Ok(x) => r matches Ok(v) && v@ == x,
            Err(e) => r == Err::<Vec<u8>, DecodeError>(e),
        },
{
    let mut out: Vec<u8> = Vec::new();
    let mut i: usize = 0;
    while i < bs.len()
        invariant
            i <= bs@.len(),
            decode_from(bs@, 0, ascii_only, plus) == prepend(out@, decode_from(bs@, i as int, ascii_only, plus)),
        decreases bs@.len() - i,
    {
        let ghost before = out@;
        let b = bs[i];
        if plus && b == 43 {
            out.push(32);
            proof {
                assert(out@ =~= before + seq![32u8]);
                match decode_from(bs@, i + 1, ascii_only, plus) {
                    Ok(x) => assert(before + (seq![32u8] + x) =~= out@ + x),
                    Err(_) => {},
                }
            }
            i += 1;
        } else if b == 37 {
            if bs.len() - i > 2 {
                let high = match hex(bs[i + 1]) {
                    Some(h) => h,
                    None => {
                        return Err(DecodeError::BadEscape);
                    },
                };
                let low = match hex(bs[i + 2]) {
                    Some(l) => l,
                    None => {
                        return Err(DecodeError::BadEscape);
                    },
                };
                let byte = high * 16 + low;
                out.push(byte);
                proof {
                    assert(out@ =~= before + seq![byte]);
                    match decode_from(bs@, i + 3, ascii_only, plus) {
                        Ok(x) => assert(before + (seq![byte] + x) =~= out@ + x),
                        Err(_) => {},
                    }
                }
                i += 3;
            } else {
                return Err(DecodeError::Truncated);
            }
        } else if ascii_only && b >= 128 {
            return Err(DecodeError::NotAscii);
        } else {
            out.push(b);
            proof {
                assert(out@ =~= before + seq![b]);
                match decode_from(bs@, i + 1, ascii_only, plus) {
                    Ok(x) => assert(before + (seq![b] + x) =~= out@ + x),
                    Err(_) => {},
                }
            }
            i += 1;
        }
    }
    assert(out@ + Seq::<u8>::empty() =~= out@);
    Ok(out)
}

/// `percent_decode` of the management UI: form decoding, then UTF-8.
pub open spec fn spec_percent_decode(s: Seq<char>) -> Option<Seq<char>> {
    match decode_from(encode_utf8(s), 0, false, true) {
        Ok(b) => if valid_utf8(b) {
            Some(decode_utf8(b))
        } else {
            None
        },
        Err(_) => None,
    }
}

pub fn percent_decode(value: &str) -> (r: Result<String, ()>)
    ensures
        match spec_percent_decode(value@) {
            Some(s) => r matches Ok(t) && t@ == s,
            None => r is Err,
        },
{
    let bytes = value.as_bytes();
    proof {
        assert(bytes@ == encode_utf8(value@));
    }
    match decode_bytes(bytes, false, true) {
        Ok(out) => match string_from_utf8(out) {
            Some(s) => Ok(s),
            None => Err(()),
        },
        Err(_) => Err(()),
    }
}

/// The decoded value of one `key=value` part, when its decoded key is `key`.
pub open spec fn part_value(part: Seq<char>, key: Seq<char>) -> Option<Seq<char>> {
    let k = seg_end(part, '=', 0);
    if k < part.len() && spec_percent_decode(part.take(k)) == Some(key) {
        spec_percent_decode(part.skip(k + 1))
    } else {
        None
    }
}

/// The first `&`-separated part, from `start` on, that yields a value for `key`.
pub open spec fn lookup_from(q: Seq<char>, key: Seq<char>, start: int) -> Option<Seq<char>>
    decreases q.len() - start,
{
    if start < 0 || start > q.len() {
        None
    } else {
        let end = seg_end(q, '&', start);
        match part_value(q.subrange(start, end), key) {
            Some(v) => Some(v),
            None => if end < q.len() {
                proof {
                    lemma_seg_end(q, '&', start);
                }
                lookup_from(q, key, end + 1)
            } else {
                None
            },
        }
    }
}

pub open spec fn spec_query_value(query: Option<Seq<char>>, key: Seq<char>) -> Option<Seq<char>> {
    match query {
        None => None,
        Some(q) => lookup_from(q, key, 0),
    }
}

fn part_match(part: &[char], key: &str) -> (r: Option<String>)
    ensures
        match part_value(part@, key@) {
            Some(v) => r matches Some(s) && s@ == v,
            None => r is None,
        },
{
    proof {
        lemma_seg_end(part@, '=', 0);
    }
    let k = find_or_end(part, 0, '=');
    if k >= part.len() {
        return None;
    }
    let cand = sub_chars(part, 0, k);
    assert(cand@ =~= part@.take(k as int));
    let cand = string_from_chars(cand.as_slice());
    let decoded = match percent_decode(cand.as_str()) {
        Ok(d) => d,
        Err(()) => {
            return None;
        },
    };
    if !crate::text::str_eq(decoded.as_str(), key) {
        return None;
    }
    let value = sub_chars(part, k + 1, part.len());
    assert(value@ =~= part@.skip(k + 1));
    let value = string_from_chars(value.as_slice());
    match percent_decode(value.as_str()) {
        Ok(v) => Some(v),
        Err(()) => None,
    }
}

/// The decoded value of the first query part whose decoded key is `key`.
pub fn query_value(query: Option<&str>, key: &str) -> (r: Option<String>)
    ensures
        match spec_query_value(
            match query {
                Some(q) => Some(q@),
                None => None,
            },
            key@,
        ) {
            Some(v) => r matches Some(s) && s@ == v,
            None => r is None,
        },
{
    let q = match query {
        None => {
            return None;
        },
        Some(q) => chars_of(q),
    };
    let ghost wanted = spec_query_value(
        match query {
            Some(qq) => Some(qq@),
            None => None,
        },
        key@,
    );
    assert(wanted == lookup_from(q@, key@, 0));
    let mut start: usize = 0;
    loop
        invariant
            start <= q@.len(),
            wanted == lookup_from(q@, key@, 0),
            wanted == spec_query_value(
                match query {
                    Some(qq) => Some(qq@),
                    None => None,
                },
                key@,
            ),
            lookup_from(q@, key@, 0) == lookup_from(q@, key@, start as int),
        decreases q@.len() - start,
    {
        proof {
            lemma_seg_end(q@, '&', start as int);
        }
        let end = find_or_end(q.as_slice(), start, '&');
        let part = sub_chars(q.as_slice(), start, end);
        match part_match(part.as_slice(), key) {
            Some(v) => {
                return Some(v);
            },
            None => {},
        }
        if end < q.len() {
            start = end + 1;
        } else {
            return None;
        }
    }
}

/// A query value read as a `u32`.
pub fn query_u32(query: Option<&str>, key: &str) -> (r: Option<u32>)
    ensures
        match spec_query_value(
            match query {
                Some(q) => Some(q@),
                None => None,
            },
            key@,
        ) {
            Some(v) => match spec_parse_unsigned(v, u32::MAX as nat) {
                Some(n) => r == Some(n as u32),
                None => r is None,
            },
            None => r is None,
        },
{
    match query_value(query, key) {
        None => None,
        Some(v) => {
            let c = chars_of(v.as_str());
            match parse_unsigned(c.as_slice(), u32::MAX as u64) {
                Some(n) => Some(n as u32),
                None => None,
            }
        },
    }
}

/// A component of an extension read query: ASCII form encoding, then UTF-8.
pub open spec fn spec_decode_component(s: Seq<char>) -> Result<Seq<char>, Seq<char>> {
    match decode_from(encode_utf8(s), 0, true, true) {
        Err(DecodeError::BadEscape) => Err("invalid percent escape in read query"@),
        Err(DecodeError::Truncated) => Err("truncated percent escape in read query"@),
        Err(DecodeError::NotAscii) => Err("read query is not ASCII encoded"@),
        Ok(b) => if valid_utf8(b) {
            Ok(decode_utf8(b))
        } else {
            Err("read query is not valid UTF-8"@)
        },
    }
}

pub fn decode_query_component(value: &str) -> (r: Result<String, String>)
    ensures
        match spec_decode_component(value@) {
            Ok(s) => r matches Ok(t) && t@ == s,
            Err(m) => r matches Err(e) && e@ == m,
        },
{
    let bytes = value.as_bytes();
    proof {
        assert(bytes@ == encode_utf8(value@));
    }
    match decode_bytes(bytes, true, true) {
        Err(DecodeError::BadEscape) => Err(String::from_str("invalid percent escape in read query")),
        Err(DecodeError::Truncated) => Err(String::from_str("truncated percent escape in read query")),
        Err(DecodeError::NotAscii) => Err(String::from_str("read query is not ASCII encoded")),
        Ok(out) => match string_from_utf8(out) {
            Some(s) => Ok(s),
            None => Err(String::from_str("read query is not valid UTF-8")),
        },
    }
}

pub open spec fn allowed_read_key(k: Seq<char>) -> bool {
    k == "request_id"@ || k == "op"@ || k == "payload"@
}

pub open spec fn has_key_in(acc: Seq<(Seq<char>, Seq<char>)>, k: Seq<char>) -> bool {
    exists|i: int| 0 <= i < acc.len() && #[trigger] acc[i].0 == k
}

/// The key/value pairs of a read query, from the part at `start` on, after
/// the pairs `acc` already read.
pub open spec fn read_pairs_from(
    q: Seq<char>,
    start: int,
    acc: Seq<(Seq<char>, Seq<char>)>,
) -> Result<Seq<(Seq<char>, Seq<char>)>, Seq<char>>
    decreases q.len() - start,
{
    if start < 0 || start > q.len() {
        Ok(acc)
    } else {
        let end = seg_end(q, '&', start);
        let part = q.subrange(start, end);
        let eq = seg_end(part, '=', 0);
        if eq >= part.len() {
            Err("malformed read query"@)
        } else {
            match spec_decode_component(part.take(eq)) {
                Err(m) => Err(m),
                Ok(k) => match spec_decode_component(part.skip(eq + 1)) {
                    Err(m) => Err(m),
                    Ok(v) => if !allowed_read_key(k) {
                        Err("read query contains an unknown field"@)
                    } else if has_key_in(acc, k) {
                        Err("read query contains a duplicate field"@)
                    } else if end < q.len() {
                        proof {
                            lemma_seg_end(q, '&', start);
                        }
                        read_pairs_from(q, end + 1, acc.push((k, v)))
                    } else {
                        Ok(acc.push((k, v)))
                    },
                },
            }
        }
    }
}

/// A read query: `request_id`, `op` and `payload`, each at most once.
pub open spec fn spec_parse_query(q: Seq<char>) -> Result<Seq<(Seq<char>, Seq<char>)>, Seq<char>> {
    if q.len() == 0 {
        Err("read query is empty"@)
    } else {
        read_pairs_from(q, 0, Seq::empty())
    }
}

pub open spec fn pair_views(v: Seq<(String, String)>) -> Seq<(Seq<char>, Seq<char>)> {
    v.map_values(|p: (String, String)| (p.0@, p.1@))
}

/// The decoded fields of a read query.
#[derive(Debug)]
pub struct ReadQuery {
    entries: Vec<(String, String)>,
}

impl ReadQuery {
    pub closed spec fn spec_entries(&self) -> Seq<(Seq<char>, Seq<char>)> {
        pair_views(self.entries@)
    }

    /// The value of `key`, if the query holds it.
    pub fn get(&self, key: &str) -> (r: Option<&str>)
        ensures
            match r {
                Some(v) => exists|i: int|
                    0 <= i < self.spec_entries().len() && #[trigger] self.spec_entries()[i].0
                        == key@ && self.spec_entries()[i].1 == v@,
                None => !has_key_in(self.spec_entries(), key@),
            },
    {
        let mut i: usize = 0;
        while i < self.entries.len()
            invariant
                i <= self.entries@.len(),
                forall|j: int| 0 <= j < i ==> #[trigger] self.spec_entries()[j].0 != key@,
            decreases self.entries@.len() - i,
        {
            if crate::text::str_eq(self.entries[i].0.as_str(), key) {
                let v = self.entries[i].1.as_str();
                assert(self.spec_entries()[i as int] == (key@, v@));
                assert(self.spec_entries()[i as int].0 == key@ && self.spec_entries()[i as int].1
                    == v@);
                return Some(v);
            }
            i += 1;
        }
        None
    }
}

fn entries_contain(entries: &Vec<(String, String)>, k: &str) -> (r: bool)
    ensures
        r == has_key_in(pair_views(entries@), k@),
{
    let mut i: usize = 0;
    while i < entries.len()
        invariant
            i <= entries@.len(),
            forall|j: int| 0 <= j < i ==> #[trigger] pair_views(entries@)[j].0 != k@,
        decreases entries@.len() - i,
    {
        if crate::text::str_eq(entries[i].0.as_str(), k) {
            assert(pair_views(entries@)[i as int].0 == k@);
            return true;
        }
        i += 1;
    }
    false
}

/// Parses a read query of the extension host.
pub fn parse_query(query: &str) -> (r: Result<ReadQuery, String>)
    ensures
        match spec_parse_query(query@) {
            Ok(pairs) => r matches Ok(rq) && rq.spec_entries() == pairs,
            Err(m) => r matches Err(e) && e@ == m,
        },
{
    let q = chars_of(query);
    if q.len() == 0 {
        return Err(String::from_str("read query is empty"));
    }
    let mut entries: Vec<(String, String)> = Vec::new();
    assert(pair_views(entries@) =~= Seq::<(Seq<char>, Seq<char>)>::empty());
    let mut start: usize = 0;
    loop
        invariant
            start <= q@.len(),
            q@ == query@,
            q@.len() > 0,
            spec_parse_query(query@) == read_pairs_from(q@, start as int, pair_views(entries@)),
        decreases q@.len() - start,
    {
        proof {
            lemma_seg_end(q@, '&', start as int);
        }
        let end = find_or_end(q.as_slice(), start, '&');
        let part = sub_chars(q.as_slice(), start, end);
        proof {
            lemma_seg_end(part@, '=', 0);
        }
        let eq = find_or_end(part.as_slice(), 0, '=');
        if eq >= part.len() {
            return Err(String::from_str("malformed read query"));
        }
        let raw_key = sub_chars(part.as_slice(), 0, eq);
        let raw_value = sub_chars(part.as_slice(), eq + 1, part.len());
        assert(raw_key@ =~= part@.take(eq as int));
        assert(raw_value@ =~= part@.skip(eq + 1));
        let raw_key = string_from_chars(raw_key.as_slice());
        let raw_value = string_from_chars(raw_value.as_slice());
        let key = match decode_query_component(raw_key.as_str()) {
            Ok(k) => k,
            Err(e) => {
                return Err(e);
            },
        };
        let value = match decode_query_component(raw_value.as_str()) {
            Ok(v) => v,
            Err(e) => {
                return Err(e);
            },
        };
        let k = key.as_str();
        if !(crate::text::str_eq(k, "request_id") || crate::text::str_eq(k, "op")
            || crate::text::str_eq(k, "payload")) {
            return Err(String::from_str("read query contains an unknown field"));
        }
        if entries_contain(&entries, k) {
            return Err(String::from_str("read query contains a duplicate field"));
        }
        let ghost before = pair_views(entries@);
        let ghost kv = key@;
        let ghost vv = value@;
        entries.push((key, value));
        proof {
            assert(pair_views(entries@) =~= before.push((kv, vv)));
        }
        if end < q.len() {
            start = end + 1;
        } else {
            return Ok(ReadQuery { entries });
        }
    }
}

/// The reason phrase the extension host sends with a status code.
pub open spec fn spec_ext_reason(status: u16) -> Seq<char> {
    if status == 200 {
        "OK"@
    } else if status == 400 {
        "Bad Request"@
    } else if status == 403 {
        "Forbidden"@
    } else if status == 404 {
        "Not Found"@
    } else if status == 405 {
        "Method Not Allowed"@
    } else if status == 413 {
        "Payload Too Large"@
    } else if status == 500 {
        "Internal Server Error"@
    } else if status == 502 {
        "Bad Gateway"@
    } else if status == 503 {
        "Service Unavailable"@
    } else {
        "Error"@
    }
}

pub fn ext_reason(status: u16) -> (r: &'static str)
    ensures
        r@ == spec_ext_reason(status),
{
    match status {
        200 => "OK",
        400 => "Bad Request",
        403 => "Forbidden",
        404 => "Not Found",
        405 => "Method Not Allowed",
        413 => "Payload Too Large",
        500 => "Internal Server Error",
        502 => "Bad Gateway",
        503 => "Service Unavailable",
        _ => "Error",
    }
}

/// The reason phrase the management UI sends with a JSON response.
pub open spec fn spec_json_reason(status: u16) -> Seq<char> {
    if status == 202 {
        "Accepted"@
    } else if status == 400 {
        "Bad Request"@
    } else if status == 403 {
        "Forbidden"@
    } else if status == 404 {
        "Not Found"@
    } else if status == 409 {
        "Conflict"@
    } else if status == 500 {
        "Internal Server Error"@
    } else if status == 503 {
        "Service Unavailable"@
    } else {
        "OK"@
    }
}

pub fn json_reason(status: u16) -> (r: &'static str)
    ensures
        r@ == spec_json_reason(status),
{
    match status {
        200 => "OK",
        202 => "Accepted",
        400 => "Bad Request",
        403 => "Forbidden",
        404 => "Not Found",
        409 => "Conflict",
        500 => "Internal Server Error",
        503 => "Service Unavailable",
        _ => "OK",
    }
}

/// The extra header lines of a response, each `name: value` and CRLF.
pub open spec fn header_lines(headers: Seq<(Seq<char>, Seq<char>)>) -> Seq<char>
    decreases headers.len(),
{
    if headers.len() == 0 {
        Seq::empty()
    } else {
        header_lines(headers.drop_last()) + headers.last().0 + ": "@ + headers.last().1 + "\r\n"@
    }
}

/// The status line and headers both local hosts send before a body: the
/// fixed no-store, nosniff and close headers, then the extra ones, then the
/// blank line.
pub open spec fn spec_response_head(
    status: u16,
    reason: Seq<char>,
    content_type: Seq<char>,
    body_len: nat,
    headers: Seq<(Seq<char>, Seq<char>)>,
) -> Seq<char> {
    "HTTP/1.1 "@ + decimal_chars(status as nat) + " "@ + reason + "\r\nContent-Type: "@ + content_type
        + "\r\nContent-Length: "@ + decimal_chars(body_len)
        + "\r\nCache-Control: no-store\r\nX-Content-Type-Options: nosniff\r\nConnection: close\r\n"@
        + header_lines(headers) + "\r\n"@
}

pub open spec fn header_views(headers: Seq<(String, String)>) -> Seq<(Seq<char>, Seq<char>)> {
    headers.map_values(|h: (String, String)| (h.0@, h.1@))
}

/// Writes the head of a response.
pub fn response_head(
    status: u16,
    reason: &str,
    content_type: &str,
    body_len: usize,
    headers: &[(String, String)],
) -> (s: String)
    ensures
        s@ == spec_response_head(status, reason@, content_type@, body_len as nat, header_views(headers@)),
{
    let mut s = String::from_str("HTTP/1.1 ");
    s.append(decimal_string(status as u64).as_str());
    s.append(" ");
    s.append(reason);
    s.append("\r\nContent-Type: ");
    s.append(content_type);
    s.append("\r\nContent-Length: ");
    s.append(decimal_string(body_len as u64).as_str());
    s.append("\r\nCache-Control: no-store\r\nX-Content-Type-Options: nosniff\r\nConnection: close\r\n");
    let ghost start = s@;
    let mut i: usize = 0;
    while i < headers.len()
        invariant
            i <= headers@.len(),
            s@ == start + header_lines(header_views(headers@).take(i as int)),
        decreases headers@.len() - i,
    {
        let ghost before = s@;
        s.append(headers[i].0.as_str());
        s.append(": ");
        s.append(headers[i].1.as_str());
        s.append("\r\n");
        proof {
            let hv = header_views(headers@);
            assert(hv.take(i + 1).drop_last() =~= hv.take(i as int));
            assert(hv.take(i + 1).last() == (headers@[i as int].0@, headers@[i as int].1@));
            assert(s@ =~= start + header_lines(hv.take(i + 1)));
        }
        i += 1;
    }
    assert(header_views(headers@).take(headers@.len() as int) =~= header_views(headers@));
    s.append("\r\n");
    s
}

/// Index of the first non-whitespace character at or after `i`.
pub open spec fn skip_ws(s: Seq<char>, i: int) -> int
    decreases s.len() - i,
{
    if i < 0 {
        0
    } else if i >= s.len() {
        s.len() as int
    } else if is_ws(s[i]) {
        skip_ws(s, i + 1)
    } else {
        i
    }
}

/// Index of the first whitespace character at or after `i`.
pub open spec fn word_end(s: Seq<char>, i: int) -> int
    decreases s.len() - i,
{
    if i < 0 {
        0
    } else if i >= s.len() {
        s.len() as int
    } else if !is_ws(s[i]) {
        word_end(s, i + 1)
    } else {
        i
    }
}

pub proof fn lemma_skip_ws(s: Seq<char>, i: int)
    requires
        0 <= i <= s.len(),
    ensures
        i <= skip_ws(s, i) <= s.len(),
        skip_ws(s, i) < s.len() ==> !is_ws(s[skip_ws(s, i)]),
    decreases s.len() - i,
{
    if i < s.len() && is_ws(s[i]) {
        lemma_skip_ws(s, i + 1);
    }
}

pub proof fn lemma_word_end(s: Seq<char>, i: int)
    requires
        0 <= i <= s.len(),
    ensures
        i <= word_end(s, i) <= s.len(),
        i < s.len() && !is_ws(s[i]) ==> i < word_end(s, i),
    decreases s.len() - i,
{
    if i < s.len() && !is_ws(s[i]) {
        lemma_word_end(s, i + 1);
    }
}

/// `str::split_whitespace` from index `i`: the maximal runs of non-whitespace.
pub open spec fn words_from(s: Seq<char>, i: int) -> Seq<Seq<char>>
    decreases s.len() - i,
{
    if i < 0 || i >= s.len() {
        Seq::empty()
    } else {
        let a = skip_ws(s, i);
        if a >= s.len() {
            Seq::empty()
        } else {
            proof {
                lemma_skip_ws(s, i);
                lemma_word_end(s, a);
            }
            seq![s.subrange(a, word_end(s, a))] + words_from(s, word_end(s, a))
        }
    }
}

pub open spec fn words(s: Seq<char>) -> Seq<Seq<char>> {
    words_from(s, 0)
}

pub open spec fn char_views(v: Seq<Vec<char>>) -> Seq<Seq<char>> {
    v.map_values(|w: Vec<char>| w@)
}

/// `str::split_whitespace`.
pub fn split_words(v: &[char]) -> (r: Vec<Vec<char>>)
    ensures
        char_views(r@) == words(v@),
{
    let mut out: Vec<Vec<char>> = Vec::new();
    let mut i: usize = 0;
    assert(char_views(out@) =~= Seq::<Seq<char>>::empty());
    while i < v.len()
        invariant
            i <= v@.len(),
            words(v@) == char_views(out@) + words_from(v@, i as int),
        decreases v@.len() - i,
    {
        proof {
            lemma_skip_ws(v@, i as int);
        }
        let mut a = i;
        while a < v.len() && crate::text::is_ws_char(v[a])
            invariant
                i <= a <= v@.len(),
                skip_ws(v@, i as int) == skip_ws(v@, a as int),
            decreases v@.len() - a,
        {
            a += 1;
        }
        if a >= v.len() {
            assert(words_from(v@, i as int) =~= Seq::<Seq<char>>::empty());
            assert(char_views(out@) + Seq::<Seq<char>>::empty() =~= char_views(out@));
            return out;
        }
        proof {
            lemma_word_end(v@, a as int);
        }
        let mut b = a;
        while b < v.len() && !crate::text::is_ws_char(v[b])
            invariant
                a <= b <= v@.len(),
                word_end(v@, a as int) == word_end(v@, b as int),
            decreases v@.len() - b,
        {
            b += 1;
        }
        let w = sub_chars(v, a, b);
        let ghost before = char_views(out@);
        out.push(w);
        proof {
            assert(char_views(out@) =~= before.push(v@.subrange(a as int, b as int)));
            assert(words_from(v@, i as int) == seq![v@.subrange(a as int, b as int)] + words_from(
                v@,
                b as int,
            ));
            assert(before + (seq![v@.subrange(a as int, b as int)] + words_from(v@, b as int))
                =~= before.push(v@.subrange(a as int, b as int)) + words_from(v@, b as int));
        }
        i = b;
    }
    assert(words_from(v@, i as int) =~= Seq::<Seq<char>>::empty());
    assert(char_views(out@) + Seq::<Seq<char>>::empty() =~= char_views(out@));
    out
}

/// Where the request head ends: just after the first `\r\n\r\n` at or after `i`.
pub open spec fn head_end_from(b: Seq<u8>, i: int) -> Option<int>
    decreases b.len() - i,
{
    if i < 0 || i + 4 > b.len() {
        None
    } else if b[i] == 13 && b[i + 1] == 10 && b[i + 2] == 13 && b[i + 3] == 10 {
        Some(i + 4)
    } else {
        head_end_from(b, i + 1)
    }
}

/// The length of the request head in `buf`, once its blank line has arrived.
pub fn find_head_end(buf: &[u8]) -> (r: Option<usize>)
    ensures
        match head_end_from(buf@, 0) {
            Some(k) => r matches Some(j) && j as int == k,
            None => r is None,
        },
        r matches Some(k) ==> 4 <= k <= buf@.len(),
{
    let mut i: usize = 0;
    while i < buf.len() && buf.len() - i >= 4
        invariant
            i <= buf@.len(),
            head_end_from(buf@, 0) == head_end_from(buf@, i as int),
        decreases buf@.len() - i,
    {
        if buf[i] == 13 && buf[i + 1] == 10 && buf[i + 2] == 13 && buf[i + 3] == 10 {
            return Some(i + 4);
        }
        i += 1;
    }
    None
}

/// End of the line that starts at `i`: the next `\r\n`, or the length.
pub open spec fn crlf_end(s: Seq<char>, i: int) -> int
    decreases s.len() - i,
{
    if i < 0 {
        0
    } else if i >= s.len() {
        s.len() as int
    } else if i + 1 < s.len() && s[i] == '\r' && s[i + 1] == '\n' {
        i
    } else {
        crlf_end(s, i + 1)
    }
}

pub proof fn lemma_crlf_end(s: Seq<char>, i: int)
    requires
        0 <= i <= s.len(),
    ensures
        i <= crlf_end(s, i) <= s.len(),
        crlf_end(s, i) < s.len() ==> crlf_end(s, i) + 1 < s.len(),
    decreases s.len() - i,
{
    if i < s.len() && !(i + 1 < s.len() && s[i] == '\r' && s[i + 1] == '\n') {
        lemma_crlf_end(s, i + 1);
    }
}

pub open spec fn header_name_char(c: char) -> bool {
    crate::text::is_ascii_alnum(c) || c == '-'
}

pub open spec fn token_name(n: Seq<char>) -> bool {
    forall|i: int| 0 <= i < n.len() ==> header_name_char(#[trigger] n[i])
}

/// One header line of the extension host: a `:`, a non-empty token name, a
/// value without control characters, a name not seen before.
pub open spec fn strict_header(line: Seq<char>, acc: Seq<(Seq<char>, Seq<char>)>) -> Option<
    Seq<(Seq<char>, Seq<char>)>,
> {
    let c = seg_end(line, ':', 0);
    if c >= line.len() {
        None
    } else {
        let name = crate::text::lower_seq(trim(line.take(c)));
        let value = trim(line.skip(c + 1));
        if name.len() == 0 || !token_name(name) || crate::text::has_control(value) || has_key_in(
            acc,
            name,
        ) {
            None
        } else {
            Some(acc.push((name, value)))
        }
    }
}

/// The header lines of the extension host, from the line at `start` on.
pub open spec fn strict_headers_from(
    s: Seq<char>,
    start: int,
    acc: Seq<(Seq<char>, Seq<char>)>,
) -> Option<Seq<(Seq<char>, Seq<char>)>>
    decreases s.len() - start,
{
    if start < 0 || start > s.len() {
        Some(acc)
    } else {
        let end = crlf_end(s, start);
        let line = s.subrange(start, end);
        let next = if line.len() == 0 {
            Some(acc)
        } else {
            strict_header(line, acc)
        };
        match next {
            None => None,
            Some(a) => if end < s.len() {
                proof {
                    lemma_crlf_end(s, start);
                }
                strict_headers_from(s, end + 2, a)
            } else {
                Some(a)
            },
        }
    }
}

/// A request of the extension host as plain values.
pub struct ExtRequestView {
    pub method: Seq<char>,
    pub target: Seq<char>,
    pub headers: Seq<(Seq<char>, Seq<char>)>,
}

/// The request head of the extension host, already decoded as UTF-8: the
/// request line `METHOD TARGET HTTP/1.x` with an origin-form target without
/// fragment, then the header lines; no `Transfer-Encoding` and no body.
pub open spec fn spec_ext_head(text: Seq<char>) -> Option<ExtRequestView> {
    let end = crlf_end(text, 0);
    let fields = words(text.take(end));
    if fields.len() != 3 || !(fields[2] == "HTTP/1.0"@ || fields[2] == "HTTP/1.1"@) {
        None
    } else if fields[1].len() == 0 || fields[1][0] != '/' || crate::text::contains_char(
        fields[1],
        '#',
    ) {
        None
    } else {
        let headers = if end < text.len() {
            strict_headers_from(text, end + 2, Seq::empty())
        } else {
            Some(Seq::empty())
        };
        match headers {
            None => None,
            Some(h) => if has_key_in(h, "transfer-encoding"@) {
                None
            } else if first_pair_value(h, "content-length"@) is Some && first_pair_value(
                h,
                "content-length"@,
            ) != Some("0"@) {
                None
            } else {
                Some(ExtRequestView { method: fields[0], target: fields[1], headers: h })
            },
        }
    }
}

fn crlf_end_exec(v: &[char], from: usize) -> (r: usize)
    requires
        from <= v@.len(),
    ensures
        r as int == crlf_end(v@, from as int),
{
    let mut i = from;
    while i < v.len()
        invariant
            from <= i <= v@.len(),
            crlf_end(v@, from as int) == crlf_end(v@, i as int),
        decreases v@.len() - i,
    {
        if v.len() - i > 1 && v[i] == '\r' && v[i + 1] == '\n' {
            return i;
        }
        i += 1;
    }
    i
}

/// Index of the first pair named `k`, from `i` on.
pub open spec fn pair_index_from(acc: Seq<(Seq<char>, Seq<char>)>, k: Seq<char>, i: int) -> Option<int>
    decreases acc.len() - i,
{
    if i < 0 || i >= acc.len() {
        None
    } else if acc[i].0 == k {
        Some(i)
    } else {
        pair_index_from(acc, k, i + 1)
    }
}

pub open spec fn first_pair_value(acc: Seq<(Seq<char>, Seq<char>)>, k: Seq<char>) -> Option<Seq<char>> {
    match pair_index_from(acc, k, 0) {
        Some(i) => Some(acc[i].1),
        None => None,
    }
}

fn pair_position(entries: &Vec<(String, String)>, k: &str) -> (r: Option<usize>)
    ensures
        match pair_index_from(pair_views(entries@), k@, 0) {
            Some(i) => r matches Some(j) && j as int == i,
            None => r is None,
        },
{
    let ghost pv = pair_views(entries@);
    let mut i: usize = 0;
    while i < entries.len()
        invariant
            i <= entries@.len(),
            pv == pair_views(entries@),
            pair_index_from(pv, k@, 0) == pair_index_from(pv, k@, i as int),
        decreases entries@.len() - i,
    {
        if crate::text::str_eq(entries[i].0.as_str(), k) {
            return Some(i);
        }
        i += 1;
    }
    None
}

/// The value of the first header named `k`.
pub fn header_value<'a>(entries: &'a Vec<(String, String)>, k: &str) -> (r: Option<&'a str>)
    ensures
        match first_pair_value(pair_views(entries@), k@) {
            Some(v) => r matches Some(s) && s@ == v,
            None => r is None,
        },
{
    proof {
        lemma_pair_index(pair_views(entries@), k@, 0);
    }
    match pair_position(entries, k) {
        Some(i) => {
            assert(pair_views(entries@)[i as int] == (entries@[i as int].0@, entries@[i as int].1@));
            Some(entries[i].1.as_str())
        },
        None => None,
    }
}

/// A request of the extension host.
#[derive(Debug)]
pub struct ExtRequest {
    pub method: String,
    pub target: String,
    pub headers: Vec<(String, String)>,
}

impl View for ExtRequest {
    type V = ExtRequestView;

    open spec fn view(&self) -> ExtRequestView {
        ExtRequestView {
            method: self.method@,
            target: self.target@,
            headers: pair_views(self.headers@),
        }
    }
}

fn is_token_name(name: &[char]) -> (r: bool)
    ensures
        r == token_name(name@),
{
    let mut i: usize = 0;
    while i < name.len()
        invariant
            i <= name@.len(),
            forall|j: int| 0 <= j < i ==> header_name_char(#[trigger] name@[j]),
        decreases name@.len() - i,
    {
        let ch = name[i];
        let ok = ('a' <= ch && ch <= 'z') || ('A' <= ch && ch <= 'Z') || ('0' <= ch && ch <= '9')
            || ch == '-';
        if !ok {
            assert(!header_name_char(name@[i as int]));
            return false;
        }
        i += 1;
    }
    true
}

proof fn lemma_pair_index(acc: Seq<(Seq<char>, Seq<char>)>, k: Seq<char>, i: int)
    requires
        0 <= i,
    ensures
        pair_index_from(acc, k, i) matches Some(j) ==> i <= j < acc.len() && acc[j].0 == k,
    decreases acc.len() - i,
{
    if i < acc.len() && acc[i].0 != k {
        lemma_pair_index(acc, k, i + 1);
    }
}

fn strict_header_exec(line: &[char], acc: &Vec<(String, String)>) -> (r: Option<(String, String)>)
    ensures
        match strict_header(line@, pair_views(acc@)) {
            Some(a) => r matches Some(p) && a == pair_views(acc@).push((p.0@, p.1@)),
            None => r is None,
        },
{
    proof {
        lemma_seg_end(line@, ':', 0);
    }
    let c = find_or_end(line, 0, ':');
    if c >= line.len() {
        return None;
    }
    let raw_name = sub_chars(line, 0, c);
    let raw_value = sub_chars(line, c + 1, line.len());
    assert(raw_name@ =~= line@.take(c as int));
    assert(raw_value@ =~= line@.skip(c + 1));
    let trimmed = trim_chars(raw_name.as_slice());
    let name = crate::text::lower_chars(trimmed.as_slice());
    let value = trim_chars(raw_value.as_slice());
    if name.len() == 0 {
        return None;
    }
    if !is_token_name(name.as_slice()) {
        return None;
    }
    let name = string_from_chars(name.as_slice());
    let value = string_from_chars(value.as_slice());
    if crate::text::any_control(value.as_str()) {
        return None;
    }
    if entries_contain(acc, name.as_str()) {
        return None;
    }
    Some((name, value))
}

fn strict_headers(t: &[char], from: usize) -> (r: Option<Vec<(String, String)>>)
    requires
        from <= t@.len(),
    ensures
        match strict_headers_from(t@, from as int, Seq::empty()) {
            Some(h) => r matches Some(v) && pair_views(v@) == h,
            None => r is None,
        },
{
    let mut acc: Vec<(String, String)> = Vec::new();
    assert(pair_views(acc@) =~= Seq::<(Seq<char>, Seq<char>)>::empty());
    let mut start = from;
    loop
        invariant
            from <= start <= t@.len(),
            strict_headers_from(t@, from as int, Seq::empty()) == strict_headers_from(
                t@,
                start as int,
                pair_views(acc@),
            ),
        decreases t@.len() - start,
    {
        proof {
            lemma_crlf_end(t@, start as int);
        }
        let end = crlf_end_exec(t, start);
        let line = sub_chars(t, start, end);
        if line.len() > 0 {
            match strict_header_exec(line.as_slice(), &acc) {
                None => {
                    return None;
                },
                Some(pair) => {
                    let ghost before = pair_views(acc@);
                    let ghost pv = (pair.0@, pair.1@);
                    acc.push(pair);
                    proof {
                        assert(pair_views(acc@) =~= before.push(pv));
                    }
                },
            }
        }
        if end < t.len() {
            start = end + 2;
        } else {
            return Some(acc);
        }
    }
}

/// Reads the request head of the extension host. Bytes that are not UTF-8
/// are an error of the connection; any other malformed head is refused.
pub fn parse_ext_head(head: Vec<u8>) -> (r: Result<Option<ExtRequest>, String>)
    ensures
        !valid_utf8(head@) ==> (r matches Err(e) && e@ == "request headers are not UTF-8"@),
        valid_utf8(head@) ==> match spec_ext_head(decode_utf8(head@)) {
            Some(req) => r matches Ok(Some(q)) && q@ == req,
            None => r matches Ok(None),
        },
{
    let ghost bytes = head@;
    let text = match string_from_utf8(head) {
        Some(t) => t,
        None => {
            return Err(String::from_str("request headers are not UTF-8"));
        },
    };
    let t = chars_of(text.as_str());
    proof {
        lemma_crlf_end(t@, 0);
    }
    let end = crlf_end_exec(t.as_slice(), 0);
    let line = sub_chars(t.as_slice(), 0, end);
    assert(line@ =~= t@.take(end as int));
    let fields = split_words(line.as_slice());
    if fields.len() != 3 {
        return Ok(None);
    }
    assert(char_views(fields@)[2] == fields@[2]@);
    assert(char_views(fields@)[1] == fields@[1]@);
    assert(char_views(fields@)[0] == fields@[0]@);
    if !(crate::text::chars_eq_str(fields[2].as_slice(), "HTTP/1.0")
        || crate::text::chars_eq_str(fields[2].as_slice(), "HTTP/1.1")) {
        return Ok(None);
    }
    let target = &fields[1];
    if target.len() == 0 || target[0] != '/' {
        return Ok(None);
    }
    proof {
        lemma_seg_end(target@, '#', 0);
    }
    if find_or_end(target.as_slice(), 0, '#') < target.len() {
        return Ok(None);
    }
    assert(!crate::text::contains_char(target@, '#'));
    let headers: Vec<(String, String)> = if end < t.len() {
        match strict_headers(t.as_slice(), end + 2) {
            Some(h) => h,
            None => {
                return Ok(None);
            },
        }
    } else {
        let h: Vec<(String, String)> = Vec::new();
        assert(pair_views(h@) =~= Seq::<(Seq<char>, Seq<char>)>::empty());
        h
    };
    if entries_contain(&headers, "transfer-encoding") {
        return Ok(None);
    }
    match header_value(&headers, "content-length") {
        Some(v) => {
            if !crate::text::str_eq(v, "0") {
                return Ok(None);
            }
        },
        None => {},
    }
    let method = string_from_chars(fields[0].as_slice());
    let target = string_from_chars(fields[1].as_slice());
    Ok(Some(ExtRequest { method, target, headers }))
}

/// A line of `str::lines` that starts at `start`: up to the next `\n`, without
/// the `\r` before that `\n`.
pub open spec fn line_at(s: Seq<char>, start: int) -> Seq<char> {
    let end = seg_end(s, '\n', start);
    let l = s.subrange(start, end);
    if end < s.len() && l.len() > 0 && l.last() == '\r' {
        l.drop_last()
    } else {
        l
    }
}

/// `pairs` with `k` set to `v`: the first pair named `k` is replaced, or the
/// pair is appended.
pub open spec fn set_pair(acc: Seq<(Seq<char>, Seq<char>)>, k: Seq<char>, v: Seq<char>) -> Seq<
    (Seq<char>, Seq<char>),
> {
    match pair_index_from(acc, k, 0) {
        Some(i) => acc.update(i, (k, v)),
        None => acc.push((k, v)),
    }
}

/// One header line of the management UI: blank lines are skipped; otherwise
/// a `:` is required, `Transfer-Encoding` is refused, and `Host` and
/// `Content-Length` may not repeat.
pub open spec fn lenient_header(line: Seq<char>, acc: Seq<(Seq<char>, Seq<char>)>) -> Option<
    Seq<(Seq<char>, Seq<char>)>,
> {
    if trim(line).len() == 0 {
        Some(acc)
    } else {
        let c = seg_end(line, ':', 0);
        if c >= line.len() {
            None
        } else {
            let key = crate::text::lower_seq(trim(line.take(c)));
            if key == "transfer-encoding"@ {
                None
            } else if (key == "host"@ || key == "content-length"@) && has_key_in(acc, key) {
                None
            } else {
                Some(set_pair(acc, key, trim(line.skip(c + 1))))
            }
        }
    }
}

pub open spec fn lenient_headers_from(
    s: Seq<char>,
    start: int,
    acc: Seq<(Seq<char>, Seq<char>)>,
) -> Option<Seq<(Seq<char>, Seq<char>)>>
    decreases s.len() - start,
{
    if start < 0 || start >= s.len() {
        Some(acc)
    } else {
        let end = seg_end(s, '\n', start);
        match lenient_header(line_at(s, start), acc) {
            None => None,
            Some(a) => if end < s.len() {
                proof {
                    lemma_seg_end(s, '\n', start);
                }
                lenient_headers_from(s, end + 1, a)
            } else {
                Some(a)
            },
        }
    }
}

/// Largest request body the management UI accepts.
pub const MAX_REQUEST_BODY_BYTES: usize = 65536;

/// A request head of the management UI as plain values.
pub struct UiHeadView {
    pub method: Seq<char>,
    pub target: Seq<char>,
    pub headers: Seq<(Seq<char>, Seq<char>)>,
    pub content_length: nat,
}

/// The request head of the management UI, as text: a request line of three
/// words whose third starts with `HTTP/`, header lines, and a declared body
/// length (none means zero) within the body limit.
pub open spec fn spec_ui_head(text: Seq<char>) -> Option<UiHeadView> {
    if text.len() == 0 {
        None
    } else {
        let first = line_at(text, 0);
        let fields = words(first);
        let end = seg_end(text, '\n', 0);
        if fields.len() != 3 || !crate::text::starts_with(fields[2], "HTTP/"@) {
            None
        } else {
            let headers = if end < text.len() {
                lenient_headers_from(text, end + 1, Seq::empty())
            } else {
                Some(Seq::empty())
            };
            match headers {
                None => None,
                Some(h) => {
                    let length = match first_pair_value(h, "content-length"@) {
                        None => Some(0nat),
                        Some(v) => spec_parse_unsigned(v, usize::MAX as nat),
                    };
                    match length {
                        None => None,
                        Some(n) => if n > MAX_REQUEST_BODY_BYTES {
                            None
                        } else {
                            Some(
                                UiHeadView {
                                    method: fields[0],
                                    target: fields[1],
                                    headers: h,
                                    content_length: n,
                                },
                            )
                        },
                    }
                },
            }
        }
    }
}

/// A request head of the management UI.
#[derive(Debug)]
pub struct UiHead {
    pub method: String,
    pub target: String,
    pub headers: Vec<(String, String)>,
    pub content_length: usize,
}

impl View for UiHead {
    type V = UiHeadView;

    open spec fn view(&self) -> UiHeadView {
        UiHeadView {
            method: self.method@,
            target: self.target@,
            headers: pair_views(self.headers@),
            content_length: self.content_length as nat,
        }
    }
}

fn line_at_exec(t: &[char], start: usize) -> (r: (Vec<char>, usize))
    requires
        start <= t@.len(),
    ensures
        r.0@ == line_at(t@, start as int),
        r.1 as int == seg_end(t@, '\n', start as int),
        start <= r.1 <= t@.len(),
{
    proof {
        lemma_seg_end(t@, '\n', start as int);
    }
    let end = find_or_end(t, start, '\n');
    let l = sub_chars(t, start, end);
    if end < t.len() && l.len() > 0 && l[l.len() - 1] == '\r' {
        let s = sub_chars(l.as_slice(), 0, l.len() - 1);
        assert(s@ =~= l@.drop_last());
        (s, end)
    } else {
        (l, end)
    }
}

fn set_pair_exec(acc: &mut Vec<(String, String)>, k: String, v: String)
    ensures
        pair_views(final(acc)@) == set_pair(pair_views(old(acc)@), k@, v@),
{
    proof {
        lemma_pair_index(pair_views(acc@), k@, 0);
    }
    let ghost before = pair_views(acc@);
    let ghost kv = (k@, v@);
    match pair_position(acc, k.as_str()) {
        Some(i) => {
            acc.set(i, (k, v));
            proof {
                assert(pair_views(acc@) =~= before.update(i as int, kv));
            }
        },
        None => {
            acc.push((k, v));
            proof {
                assert(pair_views(acc@) =~= before.push(kv));
            }
        },
    }
}

fn lenient_header_exec(line: &[char], acc: &mut Vec<(String, String)>) -> (ok: bool)
    ensures
        match lenient_header(line@, pair_views(old(acc)@)) {
            Some(a) => ok && pair_views(final(acc)@) == a,
            None => !ok,
        },
{
    let t = trim_chars(line);
    if t.len() == 0 {
        return true;
    }
    proof {
        lemma_seg_end(line@, ':', 0);
    }
    let c = find_or_end(line, 0, ':');
    if c >= line.len() {
        return false;
    }
    let raw_key = sub_chars(line, 0, c);
    let raw_value = sub_chars(line, c + 1, line.len());
    assert(raw_key@ =~= line@.take(c as int));
    assert(raw_value@ =~= line@.skip(c + 1));
    let trimmed = trim_chars(raw_key.as_slice());
    let key = crate::text::lower_chars(trimmed.as_slice());
    let key = string_from_chars(key.as_slice());
    if crate::text::str_eq(key.as_str(), "transfer-encoding") {
        return false;
    }
    if (crate::text::str_eq(key.as_str(), "host") || crate::text::str_eq(
        key.as_str(),
        "content-length",
    )) && entries_contain(acc, key.as_str()) {
        return false;
    }
    let value = trim_chars(raw_value.as_slice());
    let value = string_from_chars(value.as_slice());
    set_pair_exec(acc, key, value);
    true
}

fn lenient_headers(t: &[char], from: usize) -> (r: Option<Vec<(String, String)>>)
    requires
        from <= t@.len(),
    ensures
        match lenient_headers_from(t@, from as int, Seq::empty()) {
            Some(h) => r matches Some(v) && pair_views(v@) == h,
            None => r is None,
        },
{
    let mut headers: Vec<(String, String)> = Vec::new();
    assert(pair_views(headers@) =~= Seq::<(Seq<char>, Seq<char>)>::empty());
    let mut start = from;
    while start < t.len()
        invariant
            from <= start <= t@.len(),
            lenient_headers_from(t@, from as int, Seq::empty()) == lenient_headers_from(
                t@,
                start as int,
                pair_views(headers@),
            ),
        decreases t@.len() - start,
    {
        let (line, next) = line_at_exec(t, start);
        if !lenient_header_exec(line.as_slice(), &mut headers) {
            return None;
        }
        if next < t.len() {
            start = next + 1;
        } else {
            start = t.len();
        }
    }
    Some(headers)
}

/// `String::from_utf8_lossy`: invalid sequences become U+FFFD.
pub uninterp spec fn lossy_text(bytes: Seq<u8>) -> Seq<char>;

/// `String::from_utf8_lossy`: the text of the bytes, with each invalid
/// sequence replaced; exactly the decoded text when the bytes are UTF-8.
#[verifier::external_body]
fn utf8_lossy(bytes: &[u8]) -> (s: String)
    ensures
        s@ == lossy_text(bytes@),
        valid_utf8(bytes@) ==> s@ == decode_utf8(bytes@),
{
    String::from_utf8_lossy(bytes).into_owned()
}

/// Reads the request head of the management UI (its bytes up to and with the
/// blank line), read as text with invalid UTF-8 replaced; `None` refuses the
/// request.
pub fn parse_ui_head(head: &[u8]) -> (r: Option<UiHead>)
    ensures
        match spec_ui_head(lossy_text(head@)) {
            Some(h) => r matches Some(x) && x@ == h,
            None => r is None,
        },
        valid_utf8(head@) ==> match spec_ui_head(decode_utf8(head@)) {
            Some(h) => r matches Some(x) && x@ == h,
            None => r is None,
        },
{
    let text = utf8_lossy(head);
    parse_ui_head_text(text.as_str())
}

/// Reads the text of a request head of the management UI.
pub fn parse_ui_head_text(text: &str) -> (r: Option<UiHead>)
    ensures
        match spec_ui_head(text@) {
            Some(h) => r matches Some(x) && x@ == h,
            None => r is None,
        },
{
    let t = chars_of(text);
    if t.len() == 0 {
        return None;
    }
    let (first, end) = line_at_exec(t.as_slice(), 0);
    let fields = split_words(first.as_slice());
    if fields.len() != 3 {
        return None;
    }
    assert(char_views(fields@)[2] == fields@[2]@);
    assert(char_views(fields@)[1] == fields@[1]@);
    assert(char_views(fields@)[0] == fields@[0]@);
    let prefix = chars_of("HTTP/");
    if !crate::text::starts_with_chars(fields[2].as_slice(), prefix.as_slice()) {
        return None;
    }
    let headers: Vec<(String, String)> = if end < t.len() {
        match lenient_headers(t.as_slice(), end + 1) {
            Some(h) => h,
            None => {
                return None;
            },
        }
    } else {
        let h: Vec<(String, String)> = Vec::new();
        assert(pair_views(h@) =~= Seq::<(Seq<char>, Seq<char>)>::empty());
        h
    };
    let content_length: usize = match header_value(&headers, "content-length") {
        None => 0,
        Some(v) => {
            let c = chars_of(v);
            match parse_unsigned(c.as_slice(), usize::MAX as u64) {
                Some(n) => n as usize,
                None => {
                    return None;
                },
            }
        },
    };
    if content_length > MAX_REQUEST_BODY_BYTES {
        return None;
    }
    let method = string_from_chars(fields[0].as_slice());
    let target = string_from_chars(fields[1].as_slice());
    Some(UiHead { method, target, headers, content_length })
}

/// `str::split(c)` from index `start`: the pieces between occurrences of `c`.
pub open spec fn split_from(s: Seq<char>, c: char, start: int) -> Seq<Seq<char>>
    decreases s.len() - start,
{
    if start < 0 || start > s.len() {
        Seq::empty()
    } else {
        let end = seg_end(s, c, start);
        if end < s.len() {
            proof {
                lemma_seg_end(s, c, start);
            }
            seq![s.subrange(start, end)] + split_from(s, c, end + 1)
        } else {
            seq![s.subrange(start, end)]
        }
    }
}

/// `str::split(c)`.
pub fn split_char(v: &[char], c: char) -> (r: Vec<Vec<char>>)
    ensures
        char_views(r@) == split_from(v@, c, 0),
{
    let mut out: Vec<Vec<char>> = Vec::new();
    assert(char_views(out@) =~= Seq::<Seq<char>>::empty());
    let mut start: usize = 0;
    loop
        invariant_except_break
            start <= v@.len(),
            split_from(v@, c, 0) == char_views(out@) + split_from(v@, c, start as int),
        ensures
            split_from(v@, c, 0) == char_views(out@),
        decreases v@.len() - start,
    {
        proof {
            lemma_seg_end(v@, c, start as int);
        }
        let end = find_or_end(v, start, c);
        let piece = sub_chars(v, start, end);
        let ghost before = char_views(out@);
        out.push(piece);
        proof {
            assert(char_views(out@) =~= before.push(v@.subrange(start as int, end as int)));
        }
        if end < v.len() {
            proof {
                assert(before + (seq![v@.subrange(start as int, end as int)] + split_from(
                    v@,
                    c,
                    end + 1,
                )) =~= char_views(out@) + split_from(v@, c, end + 1));
            }
            start = end + 1;
        } else {
            proof {
                assert(before + seq![v@.subrange(start as int, end as int)] =~= char_views(out@));
            }
            break ;
        }
    }
    out
}

} // verus!
