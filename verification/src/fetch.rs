//! Safe host fetch broker for plugin `fetch_request` traffic.
//!
//! Generic network safety only: GET/HEAD, http(s), no userinfo, hosts from the
//! manifest allow-list, no credential headers, no private/loopback addresses,
//! a response size cap, and a redirect limit, every redirect being checked
//! again. Name resolution and the HTTP exchange are performed by the caller;
//! this module decides, step by step, what is allowed and what comes next
//! ([`SafeFetcher::begin`], [`FetchPlan::target`], [`check_resolved`],
//! [`FetchPlan::on_response`]).

use base64::Engine;
use vstd::prelude::*;
use vstd::string::StringExecFns;

use crate::text::{
    chars_eq_ignore_case, chars_of, decimal_chars, decimal_string, ends_with, ends_with_chars,
    lower_chars, lower_seq, str_eq, strip_trailing, strip_trailing_chars, to_owned, trim,
    trim_chars,
};

verus! {

/// Raw response body cap. Base64 expansion plus the JSON envelope must remain
/// below the protocol's 8 MiB frame limit.
pub const DEFAULT_MAX_RESPONSE_BYTES: usize = 5242880;

pub const DEFAULT_MAX_REDIRECTS: usize = 10;

/// Plugin fetch request body. Headers are kept in the order of their names.
#[derive(Debug, Clone, PartialEq, Eq)]
pub struct FetchRequest {
    pub url: String,
    pub method: String,
    pub headers: Vec<(String, String)>,
}

/// A fetch request as plain values.
pub struct FetchRequestView {
    pub url: Seq<char>,
    pub method: Seq<char>,
    pub headers: Seq<(Seq<char>, Seq<char>)>,
}

impl View for FetchRequest {
    type V = FetchRequestView;

    open spec fn view(&self) -> FetchRequestView {
        FetchRequestView {
            url: self.url@,
            method: self.method@,
            headers: self.headers@.map_values(|h: (String, String)| (h.0@, h.1@)),
        }
    }
}

/// Host fetch response body.
#[derive(Debug, Clone, PartialEq, Eq)]
pub struct FetchResponse {
    pub status: u16,
    pub final_url: String,
    pub body_base64: String,
}

/// Safe fetch policy supplied by the host from the plugin manifest and runtime.
/// Timeouts are in milliseconds.
#[derive(Debug, Clone)]
pub struct FetchPolicy {
    pub allowed_domains: Vec<String>,
    pub connect_timeout_ms: u64,
    pub total_timeout_ms: u64,
    pub max_response_bytes: usize,
    pub max_redirects: usize,
}

impl FetchPolicy {
    pub fn for_allowed_domains(allowed_domains: Vec<String>) -> (p: Self)
        ensures
            p.allowed_domains@ == allowed_domains@,
            p.connect_timeout_ms == 10000,
            p.total_timeout_ms == 30000,
            p.max_response_bytes == DEFAULT_MAX_RESPONSE_BYTES,
            p.max_redirects == DEFAULT_MAX_REDIRECTS,
    {
        FetchPolicy {
            allowed_domains,
            connect_timeout_ms: 10000,
            total_timeout_ms: 30000,
            max_response_bytes: DEFAULT_MAX_RESPONSE_BYTES,
            max_redirects: DEFAULT_MAX_REDIRECTS,
        }
    }
}

impl Default for FetchPolicy {
    fn default() -> (p: Self)
        ensures
            p.allowed_domains@.len() == 0,
            p.connect_timeout_ms == 10000,
            p.total_timeout_ms == 30000,
            p.max_response_bytes == DEFAULT_MAX_RESPONSE_BYTES,
            p.max_redirects == DEFAULT_MAX_REDIRECTS,
    {
        Self::for_allowed_domains(Vec::new())
    }
}

#[derive(Debug, Clone, PartialEq, Eq)]
pub enum FetchError {
    Network(String),
    Policy(String),
    ResponseTooLarge { limit: usize },
    Timeout,
    TooManyRedirects { limit: usize },
}

/// The mathematical content of a [`FetchError`].
pub enum FetchFault {
    Network(Seq<char>),
    Policy(Seq<char>),
    ResponseTooLarge { limit: nat },
    Timeout,
    TooManyRedirects { limit: nat },
}

impl View for FetchError {
    type V = FetchFault;

    open spec fn view(&self) -> FetchFault {
        match self {
            FetchError::Network(m) => FetchFault::Network(m@),
            FetchError::Policy(m) => FetchFault::Policy(m@),
            FetchError::ResponseTooLarge { limit } => FetchFault::ResponseTooLarge {
                limit: *limit as nat,
            },
            FetchError::Timeout => FetchFault::Timeout,
            FetchError::TooManyRedirects { limit } => FetchFault::TooManyRedirects {
                limit: *limit as nat,
            },
        }
    }
}

pub open spec fn quoted(s: Seq<char>) -> Seq<char> {
    seq!['"'] + s + seq!['"']
}

pub open spec fn describe_fault(f: FetchFault) -> Seq<char> {
    match f {
        FetchFault::Network(m) => "network error: "@ + m,
        FetchFault::Policy(m) => "fetch policy error: "@ + m,
        FetchFault::ResponseTooLarge { limit } => "response body exceeded limit "@
            + decimal_chars(limit) + " bytes"@,
        FetchFault::Timeout => "fetch timed out"@,
        FetchFault::TooManyRedirects { limit } => "too many redirects; limit is "@
            + decimal_chars(limit),
    }
}

impl FetchError {
    /// The human-readable message of this error.
    pub fn describe(&self) -> (s: String)
        ensures
            s@ == describe_fault(self@),
    {
        match self {
            FetchError::Network(m) => {
                let mut s = String::from_str("network error: ");
                s.append(m.as_str());
                s
            },
            FetchError::Policy(m) => {
                let mut s = String::from_str("fetch policy error: ");
                s.append(m.as_str());
                s
            },
            FetchError::ResponseTooLarge { limit } => {
                let mut s = String::from_str("response body exceeded limit ");
                let n = decimal_string(*limit as u64);
                s.append(n.as_str());
                s.append(" bytes");
                s
            },
            FetchError::Timeout => String::from_str("fetch timed out"),
            FetchError::TooManyRedirects { limit } => {
                let mut s = String::from_str("too many redirects; limit is ");
                let n = decimal_string(*limit as u64);
                s.append(n.as_str());
                s
            },
        }
    }
}

fn policy_error(parts: &[&str]) -> (e: FetchError)
    requires
        parts@.len() <= 3,
    ensures
        e@ == FetchFault::Policy(joined(parts@)),
{
    let mut s = String::new();
    let mut i: usize = 0;
    while i < parts.len()
        invariant
            i <= parts@.len(),
            s@ == joined(parts@.take(i as int)),
        decreases parts@.len() - i,
    {
        s.append(parts[i]);
        proof {
            assert(parts@.take(i + 1).drop_last() =~= parts@.take(i as int));
        }
        i += 1;
    }
    assert(parts@.take(parts@.len() as int) =~= parts@);
    FetchError::Policy(s)
}

pub open spec fn joined(parts: Seq<&str>) -> Seq<char>
    decreases parts.len(),
{
    if parts.len() == 0 {
        Seq::empty()
    } else {
        joined(parts.drop_last()) + parts.last()@
    }
}

pub open spec fn policy3(a: Seq<char>, b: Seq<char>, c: Seq<char>) -> FetchFault {
    FetchFault::Policy(a + b + c)
}

/// Methods a plugin may use.
#[derive(Debug, Clone, Copy, PartialEq, Eq)]
pub enum FetchMethod {
    Get,
    Head,
}

pub open spec fn spec_parse_method(raw: Seq<char>) -> Result<FetchMethod, FetchFault> {
    if crate::text::eq_ignore_case(raw, "GET"@) {
        Ok(FetchMethod::Get)
    } else if crate::text::eq_ignore_case(raw, "HEAD"@) {
        Ok(FetchMethod::Head)
    } else {
        Err(
            policy3(
                "unsupported fetch method \""@,
                raw,
                "\"; only GET and HEAD are allowed"@,
            ),
        )
    }
}

impl FetchMethod {
    pub fn parse(raw: &str) -> (r: Result<FetchMethod, FetchError>)
        ensures
            match (r, spec_parse_method(raw@)) {
                (Ok(m), Ok(n)) => m == n,
                (Err(e), Err(f)) => e@ == f,
                _ => false,
            },
    {
        let v = chars_of(raw);
        let get = chars_of("GET");
        let head = chars_of("HEAD");
        if chars_eq_ignore_case(v.as_slice(), get.as_slice()) {
            Ok(FetchMethod::Get)
        } else if chars_eq_ignore_case(v.as_slice(), head.as_slice()) {
            Ok(FetchMethod::Head)
        } else {
            let r = policy_error(&["unsupported fetch method \"", raw, "\"; only GET and HEAD are allowed"]);
            proof {
                reveal_with_fuel(joined, 4);
            }
            Err(r)
        }
    }
}

/// `str::trim`, `trim_end_matches('.')`, then ASCII lowering.
pub open spec fn normalized_domain(s: Seq<char>) -> Seq<char> {
    lower_seq(strip_trailing(trim(s), '.'))
}

pub open spec fn allowed_by(host: Seq<char>, allowed: Seq<char>) -> bool {
    let h = normalized_domain(host);
    let a = normalized_domain(allowed);
    a.len() > 0 && (h == a || ends_with(h, seq!['.'] + a))
}

/// A host is allowed when it is, or is a subdomain of, some non-empty allowed domain.
pub open spec fn spec_domain_allowed(host: Seq<char>, allowed: Seq<Seq<char>>) -> bool {
    exists|i: int| 0 <= i < allowed.len() && allowed_by(host, #[trigger] allowed[i])
}

pub fn normalize_domain(value: &str) -> (r: Vec<char>)
    ensures
        r@ == normalized_domain(value@),
{
    let v = chars_of(value);
    let t = trim_chars(v.as_slice());
    let s = strip_trailing_chars(t.as_slice(), '.');
    lower_chars(s.as_slice())
}

fn dotted(a: &Vec<char>) -> (r: Vec<char>)
    ensures
        r@ == seq!['.'] + a@,
{
    let mut r: Vec<char> = Vec::new();
    r.push('.');
    let mut i: usize = 0;
    while i < a.len()
        invariant
            i <= a@.len(),
            r@ == seq!['.'] + a@.take(i as int),
        decreases a@.len() - i,
    {
        r.push(a[i]);
        i += 1;
        assert(r@ =~= seq!['.'] + a@.take(i as int));
    }
    assert(a@.take(a@.len() as int) =~= a@);
    r
}

pub open spec fn string_views(v: Seq<String>) -> Seq<Seq<char>> {
    v.map_values(|s: String| s@)
}

/// Whether `host` is allowed by the manifest domains.
pub fn domain_allowed(host: &str, allowed_domains: &[String]) -> (r: bool)
    ensures
        r == spec_domain_allowed(host@, string_views(allowed_domains@)),
{
    let h = normalize_domain(host);
    let ghost views = string_views(allowed_domains@);
    let mut i: usize = 0;
    while i < allowed_domains.len()
        invariant
            i <= allowed_domains@.len(),
            views == string_views(allowed_domains@),
            h@ == normalized_domain(host@),
            forall|j: int| 0 <= j < i ==> !allowed_by(host@, #[trigger] views[j]),
        decreases allowed_domains@.len() - i,
    {
        let a = normalize_domain(allowed_domains[i].as_str());
        assert(views[i as int] == allowed_domains@[i as int]@);
        if a.len() > 0 {
            if crate::text::chars_eq(h.as_slice(), a.as_slice()) {
                assert(allowed_by(host@, views[i as int]));
                return true;
            }
            let d = dotted(&a);
            if ends_with_chars(h.as_slice(), d.as_slice()) {
                assert(allowed_by(host@, views[i as int]));
                return true;
            }
        }
        i += 1;
    }
    false
}

pub open spec fn disallowed_header(name: Seq<char>) -> bool {
    let n = lower_seq(name);
    ||| n == "authorization"@
    ||| n == "cookie"@
    ||| n == "proxy-authorization"@
    ||| n == "set-cookie"@
    ||| n == "host"@
    ||| n == "connection"@
    ||| n == "transfer-encoding"@
    ||| n == "content-length"@
}

/// Whether a plugin may not set this request header.
pub fn is_disallowed_header(name: &str) -> (r: bool)
    ensures
        r == disallowed_header(name@),
{
    let n = lower_chars(chars_of(name).as_slice());
    let n = crate::text::string_from_chars(n.as_slice());
    let n = n.as_str();
    str_eq(n, "authorization") || str_eq(n, "cookie") || str_eq(n, "proxy-authorization")
        || str_eq(n, "set-cookie") || str_eq(n, "host") || str_eq(n, "connection") || str_eq(
        n,
        "transfer-encoding",
    ) || str_eq(n, "content-length")
}

/// RFC 7230 `tchar`, the bytes an HTTP header name may hold.
pub open spec fn is_token_byte(b: u8) -> bool {
    ||| (48 <= b <= 57)
    ||| (97 <= b <= 122)
    ||| (65 <= b <= 90)
    ||| b == 33 || b == 35 || b == 36 || b == 37 || b == 38 || b == 39
    ||| b == 42 || b == 43 || b == 45 || b == 46 || b == 94 || b == 95
    ||| b == 96 || b == 124 || b == 126
}

pub open spec fn spec_header_name_valid(bytes: Seq<u8>) -> bool {
    1 <= bytes.len() <= 65535 && forall|i: int| 0 <= i < bytes.len() ==> is_token_byte(
        #[trigger] bytes[i],
    )
}

pub open spec fn spec_header_value_valid(bytes: Seq<u8>) -> bool {
    forall|i: int| 0 <= i < bytes.len() ==> (#[trigger] bytes[i] >= 32 && bytes[i] != 127) || bytes[i]
        == 9
}

/// `http::HeaderName::from_bytes` (re-exported by reqwest) succeeds exactly on
/// 1 to 65535 token bytes (its `HEADER_CHARS` table maps every other byte to 0).
#[verifier::external_body]
fn header_name_valid(name: &str) -> (r: bool)
    ensures
        r == spec_header_name_valid(vstd::utf8::encode_utf8(name@)),
{
    reqwest::header::HeaderName::from_bytes(name.as_bytes()).is_ok()
}

/// `http::HeaderValue::from_str` (re-exported by reqwest) succeeds exactly when
/// every byte is a tab or a byte from 32 up to 255 other than 127.
#[verifier::external_body]
fn header_value_valid(value: &str) -> (r: bool)
    ensures
        r == spec_header_value_valid(vstd::utf8::encode_utf8(value@)),
{
    reqwest::header::HeaderValue::from_str(value).is_ok()
}

/// The first header that is invalid or not allowed, from index `i` on.
pub open spec fn header_fault(headers: Seq<(String, String)>, i: int) -> Option<FetchFault>
    decreases headers.len() - i,
{
    if i < 0 || i >= headers.len() {
        None
    } else {
        let name = headers[i].0@;
        let value = headers[i].1@;
        if !spec_header_name_valid(vstd::utf8::encode_utf8(name)) {
            Some(policy3("invalid request header name \""@, name, "\""@))
        } else if !spec_header_value_valid(vstd::utf8::encode_utf8(value)) {
            Some(policy3("invalid request header value for \""@, name, "\""@))
        } else if disallowed_header(name) {
            Some(policy3("request header \""@, name, "\" is not allowed"@))
        } else {
            header_fault(headers, i + 1)
        }
    }
}

pub open spec fn fault_of<T>(f: Option<FetchFault>, r: Result<T, FetchError>) -> bool {
    match f {
        None => r is Ok,
        Some(fault) => r matches Err(e) && e@ == fault,
    }
}

/// Checks every request header: a valid name and value, and not a credential,
/// host or framing header. The header value is never echoed in an error.
pub fn validate_headers(headers: &Vec<(String, String)>) -> (r: Result<(), FetchError>)
    ensures
        fault_of(header_fault(headers@, 0), r),
{
    let mut i: usize = 0;
    while i < headers.len()
        invariant
            i <= headers@.len(),
            header_fault(headers@, 0) == header_fault(headers@, i as int),
        decreases headers@.len() - i,
    {
        let name = headers[i].0.as_str();
        let value = headers[i].1.as_str();
        if !header_name_valid(name) {
            let e = policy_error(&["invalid request header name \"", name, "\""]);
            proof {
                reveal_with_fuel(joined, 4);
            }
            return Err(e);
        }
        if !header_value_valid(value) {
            let e = policy_error(&["invalid request header value for \"", name, "\""]);
            proof {
                reveal_with_fuel(joined, 4);
            }
            return Err(e);
        }
        if is_disallowed_header(name) {
            let e = policy_error(&["request header \"", name, "\" is not allowed"]);
            proof {
                reveal_with_fuel(joined, 4);
            }
            return Err(e);
        }
        i += 1;
    }
    Ok(())
}

/// An IP address as the resolver reports it.
#[derive(Debug, Clone, Copy, PartialEq, Eq)]
pub enum IpAddress {
    V4([u8; 4]),
    V6([u16; 8]),
}

/// A resolved address, with the text the resolver gives for it.
#[derive(Debug, Clone, PartialEq, Eq)]
pub struct ResolvedAddress {
    pub ip: IpAddress,
    pub text: String,
}

/// Private (10/8, 172.16/12, 192.168/16), loopback, link-local, unspecified,
/// broadcast, multicast, or shared carrier-grade NAT (100.64/10).
pub open spec fn forbidden_v4(o: [u8; 4]) -> bool {
    let a = o[0];
    let b = o[1];
    ||| a == 10
    ||| (a == 172 && 16 <= b <= 31)
    ||| (a == 192 && b == 168)
    ||| a == 127
    ||| (a == 169 && b == 254)
    ||| (a == 0 && b == 0 && o[2] == 0 && o[3] == 0)
    ||| (a == 255 && b == 255 && o[2] == 255 && o[3] == 255)
    ||| (224 <= a <= 239)
    ||| (a == 100 && 64 <= b <= 127)
}

pub open spec fn is_v4_mapped(s: [u16; 8]) -> bool {
    s[0] == 0 && s[1] == 0 && s[2] == 0 && s[3] == 0 && s[4] == 0 && s[5] == 0xffff
}

pub open spec fn mapped_v4(s: [u16; 8]) -> [u8; 4] {
    [(s[6] / 256) as u8, (s[6] % 256) as u8, (s[7] / 256) as u8, (s[7] % 256) as u8]
}

/// IPv4-mapped addresses are judged as IPv4; otherwise loopback, unspecified,
/// multicast (ff00::/8), unique local (fc00::/7) or unicast link-local (fe80::/10).
pub open spec fn forbidden_v6(s: [u16; 8]) -> bool {
    if is_v4_mapped(s) {
        forbidden_v4(mapped_v4(s))
    } else {
        let zero_prefix = s[0] == 0 && s[1] == 0 && s[2] == 0 && s[3] == 0 && s[4] == 0 && s[5]
            == 0 && s[6] == 0;
        ||| (zero_prefix && s[7] == 1)
        ||| (zero_prefix && s[7] == 0)
        ||| s[0] >= 0xff00
        ||| (0xfc00 <= s[0] <= 0xfdff)
        ||| (0xfe80 <= s[0] <= 0xfebf)
    }
}

pub open spec fn spec_forbidden_ip(ip: IpAddress) -> bool {
    match ip {
        IpAddress::V4(o) => forbidden_v4(o),
        IpAddress::V6(s) => forbidden_v6(s),
    }
}

fn forbidden_v4_exec(o: [u8; 4]) -> (r: bool)
    ensures
        r == forbidden_v4(o),
{
    let a = o[0];
    let b = o[1];
    a == 10 || (a == 172 && 16 <= b && b <= 31) || (a == 192 && b == 168) || a == 127 || (a == 169
        && b == 254) || (a == 0 && b == 0 && o[2] == 0 && o[3] == 0) || (a == 255 && b == 255
        && o[2] == 255 && o[3] == 255) || (224 <= a && a <= 239) || (a == 100 && 64 <= b && b
        <= 127)
}

/// Whether the host may not connect to this address.
pub fn forbidden_ip(ip: IpAddress) -> (r: bool)
    ensures
        r == spec_forbidden_ip(ip),
{
    match ip {
        IpAddress::V4(o) => forbidden_v4_exec(o),
        IpAddress::V6(s) => {
            if s[0] == 0 && s[1] == 0 && s[2] == 0 && s[3] == 0 && s[4] == 0 && s[5] == 0xffff {
                let m: [u8; 4] = [
                    (s[6] / 256) as u8,
                    (s[6] % 256) as u8,
                    (s[7] / 256) as u8,
                    (s[7] % 256) as u8,
                ];
                assert(m =~= mapped_v4(s));
                forbidden_v4_exec(m)
            } else {
                let zero_prefix = s[0] == 0 && s[1] == 0 && s[2] == 0 && s[3] == 0 && s[4] == 0
                    && s[5] == 0 && s[6] == 0;
                (zero_prefix && s[7] == 1) || (zero_prefix && s[7] == 0) || s[0] >= 0xff00 || (
                0xfc00 <= s[0] && s[0] <= 0xfdff) || (0xfe80 <= s[0] && s[0] <= 0xfebf)
            }
        },
    }
}

pub open spec fn resolved_fault(addrs: Seq<ResolvedAddress>) -> Option<FetchFault> {
    if addrs.len() == 0 {
        Some(FetchFault::Policy("DNS returned no addresses"@))
    } else {
        resolved_fault_from(addrs, 0)
    }
}

pub open spec fn resolved_fault_from(addrs: Seq<ResolvedAddress>, i: int) -> Option<FetchFault>
    decreases addrs.len() - i,
{
    if i < 0 || i >= addrs.len() {
        None
    } else if spec_forbidden_ip(addrs[i].ip) {
        Some(policy3("resolved IP "@, addrs[i].text@, " is not allowed"@))
    } else {
        resolved_fault_from(addrs, i + 1)
    }
}

/// Rejects an empty resolution and any forbidden address.
pub fn check_resolved(addrs: &[ResolvedAddress]) -> (r: Result<(), FetchError>)
    ensures
        fault_of(resolved_fault(addrs@), r),
{
    if addrs.len() == 0 {
        return Err(FetchError::Policy(to_owned("DNS returned no addresses")));
    }
    let mut i: usize = 0;
    while i < addrs.len()
        invariant
            0 < addrs@.len(),
            i <= addrs@.len(),
            resolved_fault(addrs@) == resolved_fault_from(addrs@, i as int),
        decreases addrs@.len() - i,
    {
        if forbidden_ip(addrs[i].ip) {
            let e = policy_error(&["resolved IP ", addrs[i].text.as_str(), " is not allowed"]);
            proof {
                reveal_with_fuel(joined, 4);
            }
            return Err(e);
        }
        i += 1;
    }
    Ok(())
}

/// Redirect status codes that are followed.
pub open spec fn spec_is_redirect(status: u16) -> bool {
    status == 301 || status == 302 || status == 303 || status == 307 || status == 308
}

pub fn is_redirect(status: u16) -> (r: bool)
    ensures
        r == spec_is_redirect(status),
{
    status == 301 || status == 302 || status == 303 || status == 307 || status == 308
}

/// The moved statuses 301, 302, 303, 307 and 308 are redirects to follow;
/// a success status, 304 Not Modified, and every client or server error
/// complete the request as they are.
pub proof fn lemma_redirect_statuses(status: u16)
    ensures
        (status == 301 || status == 302 || status == 303 || status == 307 || status == 308)
            ==> spec_is_redirect(status),
        (200 <= status < 300 || status == 304 || 400 <= status) ==> !spec_is_redirect(status),
{
}

/// Time left of a budget, or `Timeout` when the elapsed time exceeds it.
pub fn remaining_timeout(total_ms: u64, elapsed_ms: u64) -> (r: Result<u64, FetchError>)
    ensures
        elapsed_ms <= total_ms ==> r == Ok::<u64, FetchError>((total_ms - elapsed_ms) as u64),
        elapsed_ms > total_ms ==> r == Err::<u64, FetchError>(FetchError::Timeout),
{
    if elapsed_ms <= total_ms {
        Ok(total_ms - elapsed_ms)
    } else {
        Err(FetchError::Timeout)
    }
}

#[verifier::external_type_specification]
#[verifier::external_body]
pub struct ExUrl(url::Url);

/// A parsed URL, with the parts the fetch policy reads.
#[derive(Debug)]
pub struct ParsedUrl {
    url: url::Url,
    text: String,
    scheme: String,
    username: String,
    password: Option<String>,
    host: Option<String>,
    port: Option<u16>,
}

/// The parts of a parsed URL: its serialization, scheme, userinfo, host, and
/// port (explicit or the scheme's default).
pub struct UrlView {
    pub text: Seq<char>,
    pub scheme: Seq<char>,
    pub username: Seq<char>,
    pub password: Option<Seq<char>>,
    pub host: Option<Seq<char>>,
    pub port: Option<u16>,
}

impl View for ParsedUrl {
    type V = UrlView;

    closed spec fn view(&self) -> UrlView {
        UrlView {
            text: self.text@,
            scheme: self.scheme@,
            username: self.username@,
            password: match self.password {
                Some(p) => Some(p@),
                None => None,
            },
            host: match self.host {
                Some(h) => Some(h@),
                None => None,
            },
            port: self.port,
        }
    }
}

impl ParsedUrl {
    /// The serialization of the URL.
    pub fn as_str(&self) -> (s: &str)
        ensures
            s@ == self@.text,
    {
        self.text.as_str()
    }

    pub fn host(&self) -> (h: Option<&str>)
        ensures
            match h {
                Some(x) => self@.host == Some(x@),
                None => self@.host is None,
            },
    {
        match &self.host {
            Some(x) => Some(x.as_str()),
            None => None,
        }
    }

    pub fn port(&self) -> (p: Option<u16>)
        ensures
            p == self@.port,
    {
        self.port
    }
}

/// What `url::Url::parse` gives for an input.
pub uninterp spec fn url_parse(input: Seq<char>) -> Option<UrlView>;

/// What `url::Url::join` gives for a base URL and a reference.
pub uninterp spec fn url_join(base: UrlView, input: Seq<char>) -> Option<UrlView>;

/// `url::Url::parse`, with the parts of the result read by `as_str`, `scheme`,
/// `username`, `password`, `host_str` and `port_or_known_default`.
#[verifier::external_body]
fn parse_url(input: &str) -> (r: Option<ParsedUrl>)
    ensures
        match r {
            Some(u) => url_parse(input@) == Some(u@),
            None => url_parse(input@) is None,
        },
{
    match url::Url::parse(input) {
        Ok(u) => Some(ParsedUrl {
            text: u.as_str().to_string(),
            scheme: u.scheme().to_string(),
            username: u.username().to_string(),
            password: u.password().map(str::to_string),
            host: u.host_str().map(str::to_string),
            port: u.port_or_known_default(),
            url: u,
        }),
        Err(_) => None,
    }
}

/// `url::Url::join` on a parsed base, with the parts of the result as in [`parse_url`].
#[verifier::external_body]
fn join_url(base: &ParsedUrl, input: &str) -> (r: Option<ParsedUrl>)
    ensures
        match r {
            Some(u) => url_join(base@, input@) == Some(u@),
            None => url_join(base@, input@) is None,
        },
{
    match base.url.join(input) {
        Ok(u) => Some(ParsedUrl {
            text: u.as_str().to_string(),
            scheme: u.scheme().to_string(),
            username: u.username().to_string(),
            password: u.password().map(str::to_string),
            host: u.host_str().map(str::to_string),
            port: u.port_or_known_default(),
            url: u,
        }),
        Err(_) => None,
    }
}

/// A digit of the standard base64 alphabet: `A`-`Z`, `a`-`z`, `0`-`9`, `+`, `/`.
pub open spec fn base64_digit(n: int) -> char {
    if n < 26 {
        (65 + n) as char
    } else if n < 52 {
        (71 + n) as char
    } else if n < 62 {
        (n - 4) as char
    } else if n == 62 {
        '+'
    } else {
        '/'
    }
}

/// Standard base64 with padding: each group of three bytes becomes four
/// digits of six bits each; a last group of one or two bytes is padded with
/// `=` to four characters.
pub open spec fn base64_standard(bytes: Seq<u8>) -> Seq<char>
    decreases bytes.len(),
{
    if bytes.len() == 0 {
        Seq::empty()
    } else {
        let b0 = bytes[0] as int;
        let b1 = if bytes.len() > 1 { bytes[1] as int } else { 0 };
        let b2 = if bytes.len() > 2 { bytes[2] as int } else { 0 };
        let first = seq![base64_digit(b0 / 4), base64_digit((b0 % 4) * 16 + b1 / 16)];
        if bytes.len() == 1 {
            first + seq!['=', '=']
        } else if bytes.len() == 2 {
            first + seq![base64_digit((b1 % 16) * 4), '=']
        } else {
            first + seq![base64_digit((b1 % 16) * 4 + b2 / 64), base64_digit(b2 % 64)]
                + base64_standard(bytes.skip(3))
        }
    }
}

/// `base64::engine::general_purpose::STANDARD.encode`: the padded standard
/// encoding of the bytes, as [`base64_standard`] states it.
#[verifier::external_body]
fn encode_base64(bytes: &[u8]) -> (s: String)
    ensures
        s@ == base64_standard(bytes@),
{
    base64::engine::general_purpose::STANDARD.encode(bytes)
}

/// A fetch in progress: the method and headers that were accepted, the URL to
/// request next, and how many redirects were followed.
#[derive(Debug)]
pub struct FetchPlan {
    method: FetchMethod,
    headers: Vec<(String, String)>,
    url: ParsedUrl,
    redirects: usize,
}

impl FetchPlan {
    pub closed spec fn spec_method(&self) -> FetchMethod {
        self.method
    }

    pub closed spec fn spec_headers(&self) -> Seq<(String, String)> {
        self.headers@
    }

    pub closed spec fn spec_url(&self) -> UrlView {
        self.url@
    }

    pub closed spec fn spec_redirects(&self) -> nat {
        self.redirects as nat
    }

    pub fn method(&self) -> (m: FetchMethod)
        ensures
            m == self.spec_method(),
    {
        self.method
    }

    pub fn headers(&self) -> (h: &Vec<(String, String)>)
        ensures
            h@ == self.spec_headers(),
    {
        &self.headers
    }

    pub fn url(&self) -> (u: &ParsedUrl)
        ensures
            u@ == self.spec_url(),
    {
        &self.url
    }

    pub fn redirects(&self) -> (n: usize)
        ensures
            n == self.spec_redirects(),
    {
        self.redirects
    }
}

/// The checks every requested URL must pass, in order.
pub open spec fn url_fault(u: UrlView, allowed: Seq<Seq<char>>) -> Option<FetchFault> {
    if u.scheme != "http"@ && u.scheme != "https"@ {
        Some(
            policy3(
                "unsupported URL scheme \""@,
                u.scheme,
                "\"; only http and https are allowed"@,
            ),
        )
    } else if u.username.len() > 0 || u.password is Some {
        Some(FetchFault::Policy("fetch URL userinfo is not allowed"@))
    } else if u.host is None {
        Some(FetchFault::Policy("fetch URL missing host"@))
    } else if !spec_domain_allowed(u.host.unwrap(), allowed) {
        Some(
            policy3(
                "host \""@,
                u.host.unwrap(),
                "\" is not in manifest allowed_domains"@,
            ),
        )
    } else if u.port is None {
        Some(FetchFault::Policy("fetch URL missing port"@))
    } else {
        None
    }
}

/// The outcome of starting a fetch: the method, then the headers, then the URL
/// syntax are checked.
pub open spec fn begin_fault(request: FetchRequest) -> Option<FetchFault> {
    match spec_parse_method(request.method@) {
        Err(f) => Some(f),
        Ok(_) => if header_fault(request.headers@, 0) is Some {
            header_fault(request.headers@, 0)
        } else if url_parse(request.url@) is None {
            Some(FetchFault::Policy("invalid fetch URL"@))
        } else {
            None
        },
    }
}

/// What a fetch step leads to.
#[derive(Debug)]
pub enum FetchStep {
    /// The fetch is complete.
    Done(FetchResponse),
    /// A redirect was accepted; request [`FetchPlan::url`] next.
    Follow,
}

/// Entry point of the fetch broker.
#[derive(Debug, Clone, Copy)]
pub struct SafeFetcher {
    marker: (),
}

impl SafeFetcher {
    pub fn new() -> Self {
        SafeFetcher { marker: () }
    }

    /// Checks the method, the headers and the URL syntax, and plans the first
    /// request.
    pub fn begin(&self, request: FetchRequest, policy: &FetchPolicy) -> (r: Result<
        FetchPlan,
        FetchError,
    >)
        ensures
            fault_of(begin_fault(request), r),
            r matches Ok(plan) ==> {
                &&& spec_parse_method(request.method@) == Ok::<FetchMethod, FetchFault>(
                    plan.spec_method(),
                )
                &&& plan.spec_headers() == request.headers@
                &&& url_parse(request.url@) == Some(plan.spec_url())
                &&& plan.spec_redirects() == 0
            },
    {
        let method = FetchMethod::parse(request.method.as_str())?;
        validate_headers(&request.headers)?;
        let url = match parse_url(request.url.as_str()) {
            Some(u) => u,
            None => {
                return Err(FetchError::Policy(to_owned("invalid fetch URL")));
            },
        };
        Ok(FetchPlan { method, headers: request.headers, url, redirects: 0 })
    }
}

/// What the transport gave back for one request: status, `Location`, body.
pub type TransportReply = (u16, Option<String>, Vec<u8>);

/// The target of a request that passed the policy: its URL is allowed and
/// every address it resolved to may be contacted.
pub open spec fn safe_target(url: UrlView, addrs: Seq<ResolvedAddress>, allowed: Seq<Seq<char>>) -> bool {
    url_fault(url, allowed) is None && resolved_fault(addrs) is None
}

/// A request that may be sent: its URL passes the policy within the redirect
/// budget, and `addrs` are, all of them allowed, what `resolve` gave back for
/// that URL's host and port.
pub open spec fn sendable<R>(resolve: R, plan: FetchPlan, addrs: Seq<ResolvedAddress>, policy: FetchPolicy) -> bool where
    R: Fn(&str, u16, u64) -> Result<Vec<ResolvedAddress>, FetchError>,
 {
    &&& safe_target(plan.spec_url(), addrs, string_views(policy.allowed_domains@))
    &&& plan.spec_redirects() <= policy.max_redirects
    &&& exists|host: &str, timeout: u64, found: Vec<ResolvedAddress>|
        {
            &&& Some(host@) == plan.spec_url().host
            &&& Some(found@) == Some(addrs)
            &&& #[trigger] call_ensures(resolve, (host, plan.spec_url().port.unwrap(), timeout), Ok(found))
        }
}

impl SafeFetcher {
    /// Fetches a request under a policy. `resolve` looks a host and port up
    /// within a timeout, `send` performs one request of the plan at the
    /// resolved addresses (connect timeout, total timeout), and `elapsed_ms`
    /// tells the time spent since the start. Each URL, the first and every
    /// redirect target, is checked against the policy and its addresses
    /// against the forbidden ranges before anything is sent to it, and every
    /// request goes out with a redirect count within `max_redirects`.
    pub fn fetch<R, T, C>(
        &self,
        request: FetchRequest,
        policy: &FetchPolicy,
        resolve: R,
        send: T,
        elapsed_ms: C,
    ) -> (r: Result<FetchResponse, FetchError>) where
        R: Fn(&str, u16, u64) -> Result<Vec<ResolvedAddress>, FetchError>,
        T: Fn(&FetchPlan, &[ResolvedAddress], u64, u64) -> Result<TransportReply, FetchError>,
        C: Fn() -> u64,

        requires
            forall|host: &str, port: u16, timeout: u64| call_requires(resolve, (host, port, timeout)),
            forall|plan: &FetchPlan, addrs: &[ResolvedAddress], connect: u64, total: u64|
                sendable(resolve, *plan, addrs@, *policy) ==> call_requires(
                    send,
                    (plan, addrs, connect, total),
                ),
            call_requires(elapsed_ms, ()),
        ensures
            begin_fault(request) is Some ==> (r matches Err(e) && Some(e@) == begin_fault(request)),
            r matches Ok(resp) ==> resp.status != 301 && resp.status != 302 && resp.status != 303
                && resp.status != 307 && resp.status != 308,
            r matches Ok(resp) ==> {
                &&& begin_fault(request) is None
                &&& !spec_is_redirect(resp.status)
                &&& exists|
                    plan: &FetchPlan,
                    addrs: &[ResolvedAddress],
                    connect: u64,
                    total: u64,
                    reply: TransportReply,
                |
                    {
                        &&& sendable(resolve, *plan, addrs@, *policy)
                        &&& plan.spec_redirects() <= policy.max_redirects
                        &&& #[trigger] call_ensures(send, (plan, addrs, connect, total), Ok(reply))
                        &&& resp.status == reply.0
                        &&& resp.body_base64@ == base64_standard(reply.2@)
                        &&& resp.final_url@ == plan.spec_url().text
                    }
            },
    {
        let mut plan = match self.begin(request, policy) {
            Ok(p) => p,
            Err(e) => {
                return Err(e);
            },
        };
        loop
            invariant
                forall|host: &str, port: u16, timeout: u64|
                    call_requires(resolve, (host, port, timeout)),
                forall|plan: &FetchPlan, addrs: &[ResolvedAddress], connect: u64, total: u64|
                    sendable(resolve, *plan, addrs@, *policy) ==> call_requires(
                        send,
                        (plan, addrs, connect, total),
                    ),
                call_requires(elapsed_ms, ()),
                begin_fault(request) is None,
                plan.spec_redirects() <= policy.max_redirects,
            decreases policy.max_redirects - plan.spec_redirects(),
        {
            let remaining = match remaining_timeout(policy.total_timeout_ms, elapsed_ms()) {
                Ok(t) => t,
                Err(e) => {
                    return Err(e);
                },
            };
            let (host, port) = match plan.target(policy) {
                Ok(t) => t,
                Err(e) => {
                    return Err(e);
                },
            };
            let dns_timeout = if policy.connect_timeout_ms < remaining {
                policy.connect_timeout_ms
            } else {
                remaining
            };
            let host_str = host.as_str();
            let found = resolve(host_str, port, dns_timeout);
            let addrs = match found {
                Ok(a) => a,
                Err(e) => {
                    return Err(e);
                },
            };
            match check_resolved(addrs.as_slice()) {
                Ok(()) => {},
                Err(e) => {
                    return Err(e);
                },
            }
            let remaining = match remaining_timeout(policy.total_timeout_ms, elapsed_ms()) {
                Ok(t) => t,
                Err(e) => {
                    return Err(e);
                },
            };
            let connect = if policy.connect_timeout_ms < remaining {
                policy.connect_timeout_ms
            } else {
                remaining
            };
            let ghost sent = plan;
            let at = addrs.as_slice();
            proof {
                assert(call_ensures(resolve, (host_str, port, dns_timeout), Ok(addrs)));
                assert(port == sent.spec_url().port.unwrap());
                assert(sendable(resolve, sent, at@, *policy));
            }
            let reply = match send(&plan, at, connect, remaining) {
                Ok(reply) => reply,
                Err(e) => {
                    return Err(e);
                },
            };
            let ghost rep = reply;
            let (status, location, body) = reply;
            match plan.on_response(policy, status, location, body) {
                Ok(FetchStep::Done(resp)) => {
                    proof {
                        assert(call_ensures(send, (&sent, at, connect, remaining), Ok(rep)));
                    }
                    return Ok(resp);
                },
                Ok(FetchStep::Follow) => {},
                Err(e) => {
                    return Err(e);
                },
            }
        }
    }
}

impl FetchPlan {
    /// Checks the URL to request next against the policy, and gives the host
    /// and port to resolve.
    pub fn target(&self, policy: &FetchPolicy) -> (r: Result<(String, u16), FetchError>)
        ensures
            fault_of(url_fault(self.spec_url(), string_views(policy.allowed_domains@)), r),
            r matches Ok((host, port)) ==> self.spec_url().host == Some(host@)
                && self.spec_url().port == Some(port),
    {
        let u = &self.url;
        let scheme = u.scheme.as_str();
        if !str_eq(scheme, "http") && !str_eq(scheme, "https") {
            let e = policy_error(&["unsupported URL scheme \"", scheme, "\"; only http and https are allowed"]);
            proof {
                reveal_with_fuel(joined, 4);
            }
            return Err(e);
        }
        if !u.username.as_str().is_empty() || u.password.is_some() {
            return Err(FetchError::Policy(to_owned("fetch URL userinfo is not allowed")));
        }
        let host = match &u.host {
            Some(h) => h,
            None => {
                return Err(FetchError::Policy(to_owned("fetch URL missing host")));
            },
        };
        if !domain_allowed(host.as_str(), policy.allowed_domains.as_slice()) {
            let e = policy_error(&["host \"", host.as_str(), "\" is not in manifest allowed_domains"]);
            proof {
                reveal_with_fuel(joined, 4);
            }
            return Err(e);
        }
        let port = match u.port {
            Some(p) => p,
            None => {
                return Err(FetchError::Policy(to_owned("fetch URL missing port")));
            },
        };
        Ok((host.clone(), port))
    }

    /// Handles the response to the request for [`FetchPlan::url`]: a body over
    /// the cap is refused; a redirect is followed (the plan then holds the new
    /// URL) unless the redirect budget is spent or the `Location` is missing or
    /// unusable; anything else completes the fetch.
    pub fn on_response(
        &mut self,
        policy: &FetchPolicy,
        status: u16,
        location: Option<String>,
        body: Vec<u8>,
    ) -> (r: Result<FetchStep, FetchError>)
        ensures
            final(self).spec_method() == old(self).spec_method(),
            final(self).spec_headers() == old(self).spec_headers(),
            body@.len() > policy.max_response_bytes ==> (r matches Err(e) && e@
                == (FetchFault::ResponseTooLarge { limit: policy.max_response_bytes as nat })),
            body@.len() <= policy.max_response_bytes && !spec_is_redirect(status) ==> {
                &&& r matches Ok(FetchStep::Done(resp))
                &&& resp.status == status
                &&& resp.final_url@ == old(self).spec_url().text
                &&& resp.body_base64@ == base64_standard(body@)
            },
            body@.len() <= policy.max_response_bytes && spec_is_redirect(status) ==> {
                if old(self).spec_redirects() >= policy.max_redirects {
                    (r matches Err(e) && e@ == (FetchFault::TooManyRedirects {
                        limit: policy.max_redirects as nat,
                    }))
                } else if location is None {
                    (r matches Err(e) && e@ == FetchFault::Policy(
                        "redirect response missing Location"@,
                    ))
                } else if url_join(old(self).spec_url(), location.unwrap()@) is None {
                    (r matches Err(e) && e@ == FetchFault::Policy("invalid redirect URL"@))
                } else {
                    &&& r matches Ok(FetchStep::Follow)
                    &&& Some(final(self).spec_url()) == url_join(
                        old(self).spec_url(),
                        location.unwrap()@,
                    )
                    &&& final(self).spec_redirects() == old(self).spec_redirects() + 1
                }
            },
            body@.len() <= policy.max_response_bytes && (status == 301 || status == 302 || status
                == 303 || status == 307 || status == 308) && old(self).spec_redirects()
                < policy.max_redirects && location is Some && url_join(
                old(self).spec_url(),
                location.unwrap()@,
            ) is Some ==> r matches Ok(FetchStep::Follow),
            (r is Err || r matches Ok(FetchStep::Done(_))) ==> final(self).spec_url()
                == old(self).spec_url() && final(self).spec_redirects()
                == old(self).spec_redirects(),
            final(self).spec_redirects() <= policy.max_redirects || final(self).spec_redirects()
                == old(self).spec_redirects(),
    {
        if body.len() > policy.max_response_bytes {
            return Err(FetchError::ResponseTooLarge { limit: policy.max_response_bytes });
        }
        if is_redirect(status) {
            if self.redirects >= policy.max_redirects {
                return Err(FetchError::TooManyRedirects { limit: policy.max_redirects });
            }
            let loc = match location {
                Some(l) => l,
                None => {
                    return Err(FetchError::Policy(to_owned("redirect response missing Location")));
                },
            };
            let next = match join_url(&self.url, loc.as_str()) {
                Some(u) => u,
                None => {
                    return Err(FetchError::Policy(to_owned("invalid redirect URL")));
                },
            };
            self.url = next;
            self.redirects = self.redirects + 1;
            return Ok(FetchStep::Follow);
        }
        let body_base64 = encode_base64(body.as_slice());
        Ok(
            FetchStep::Done(
                FetchResponse { status, final_url: self.url.text.clone(), body_base64 },
            ),
        )
    }
}

} // verus!
