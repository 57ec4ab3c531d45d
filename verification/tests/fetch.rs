use std::collections::HashMap;

use magazine_core::fetch::{
    domain_allowed, forbidden_ip, is_disallowed_header, normalize_domain, remaining_timeout,
    validate_headers, FetchError, FetchMethod, FetchPlan, FetchPolicy, FetchRequest, IpAddress,
    ResolvedAddress, SafeFetcher, TransportReply,
};

fn policy(domains: &[&str]) -> FetchPolicy {
    FetchPolicy {
        allowed_domains: domains.iter().map(|d| d.to_string()).collect(),
        connect_timeout_ms: 1000,
        total_timeout_ms: 5000,
        max_response_bytes: 8,
        max_redirects: 3,
    }
}

fn public_ip() -> IpAddress {
    IpAddress::V4([93, 184, 216, 34])
}

fn request(url: &str) -> FetchRequest {
    FetchRequest { url: url.to_string(), method: "GET".to_string(), headers: Vec::new() }
}

fn run(
    fetcher: &SafeFetcher,
    req: FetchRequest,
    pol: &FetchPolicy,
    dns: &[(&str, IpAddress)],
    http: &[(&str, TransportReply)],
) -> Result<magazine_core::fetch::FetchResponse, FetchError> {
    let dns: HashMap<String, IpAddress> =
        dns.iter().map(|(h, ip)| (h.to_string(), *ip)).collect();
    let http: HashMap<String, TransportReply> =
        http.iter().map(|(u, r)| (u.to_string(), r.clone())).collect();
    fetcher.fetch(
        req,
        pol,
        |host: &str, _port: u16, _timeout: u64| match dns.get(host) {
            Some(ip) => Ok(vec![ResolvedAddress { ip: *ip, text: "addr".to_string() }]),
            None => Err(FetchError::Network(format!("missing fake DNS for {host}"))),
        },
        |plan: &FetchPlan, addrs: &[ResolvedAddress], _c: u64, _t: u64| {
            assert!(!addrs.is_empty());
            match http.get(plan.url().as_str()) {
                Some(r) => Ok(r.clone()),
                None => Err(FetchError::Network(format!("missing fake HTTP for {}", plan.url().as_str()))),
            }
        },
        || 0,
    )
}

#[test]
fn fetch_success_encodes_body_and_final_url() {
    let fetcher = SafeFetcher::new();
    let response = run(
        &fetcher,
        request("https://example.test/page"),
        &policy(&["example.test"]),
        &[("example.test", public_ip())],
        &[("https://example.test/page", (200, None, b"ok".to_vec()))],
    )
    .unwrap();
    assert_eq!(response.status, 200);
    assert_eq!(response.final_url, "https://example.test/page");
    assert_eq!(response.body_base64, "b2s=");
}

#[test]
fn allowed_domains_accept_exact_and_subdomain_only() {
    assert!(domain_allowed("example.test", &["example.test".to_string()]));
    assert!(domain_allowed("cdn.example.test", &["example.test".to_string()]));
    assert!(!domain_allowed("badexample.test", &["example.test".to_string()]));
}

#[test]
fn rejects_unsupported_scheme_method_and_credential_headers() {
    let fetcher = SafeFetcher::new();
    assert!(matches!(
        run(&fetcher, request("file:///etc/passwd"), &policy(&["example.test"]), &[("example.test", public_ip())], &[]),
        Err(FetchError::Policy(_))
    ));
    assert!(matches!(
        run(&fetcher, request("https://example.test@evil.test/"), &policy(&["evil.test"]), &[("example.test", public_ip())], &[]),
        Err(FetchError::Policy(message)) if message.contains("userinfo")
    ));
    assert!(matches!(FetchMethod::parse("POST"), Err(FetchError::Policy(_))));
    assert!(matches!(
        validate_headers(&vec![("Authorization".to_string(), "secret".to_string())]),
        Err(FetchError::Policy(message)) if !message.contains("secret")
    ));
    assert!(matches!(
        validate_headers(&vec![("Host".to_string(), "example.test".to_string())]),
        Err(FetchError::Policy(_))
    ));
}

#[test]
fn rejects_private_loopback_link_local_and_carrier_nat_addresses() {
    for ip in [
        IpAddress::V4([127, 0, 0, 1]),
        IpAddress::V4([10, 0, 0, 1]),
        IpAddress::V4([169, 254, 1, 1]),
        IpAddress::V4([100, 64, 0, 1]),
        IpAddress::V6([0, 0, 0, 0, 0, 0, 0, 1]),
        IpAddress::V6([0, 0, 0, 0, 0, 0xffff, 0x7f00, 0x0001]),
        IpAddress::V6([0, 0, 0, 0, 0, 0xffff, 0x0a00, 0x0001]),
        IpAddress::V6([0, 0, 0, 0, 0, 0xffff, 0xa9fe, 0x0101]),
        IpAddress::V6([0, 0, 0, 0, 0, 0xffff, 0x6440, 0x0001]),
        IpAddress::V6([0xfc00, 0, 0, 0, 0, 0, 0, 1]),
        IpAddress::V6([0xfe80, 0, 0, 0, 0, 0, 0, 1]),
    ] {
        assert!(forbidden_ip(ip), "{ip:?} should be forbidden");
    }
    assert!(!forbidden_ip(public_ip()));
}

#[test]
fn redirects_are_revalidated() {
    let fetcher = SafeFetcher::new();
    let err = run(
        &fetcher,
        request("https://example.test/start"),
        &policy(&["example.test"]),
        &[("example.test", public_ip()), ("evil.test", public_ip())],
        &[("https://example.test/start", (302, Some("https://evil.test/final".to_string()), Vec::new()))],
    )
    .unwrap_err();
    assert!(err.describe().contains("allowed_domains"));
}

#[test]
fn redirect_to_private_ip_is_rejected_after_dns_resolution() {
    let fetcher = SafeFetcher::new();
    let err = run(
        &fetcher,
        request("https://example.test/start"),
        &policy(&["example.test"]),
        &[("example.test", public_ip()), ("internal.example.test", IpAddress::V4([127, 0, 0, 1]))],
        &[(
            "https://example.test/start",
            (302, Some("https://internal.example.test/final".to_string()), Vec::new()),
        )],
    )
    .unwrap_err();
    assert!(err.describe().contains("resolved IP"));
}

#[test]
fn localhost_allowlist_does_not_override_ip_rejection() {
    let fetcher = SafeFetcher::new();
    let err = run(
        &fetcher,
        request("http://localhost/page"),
        &policy(&["localhost"]),
        &[("localhost", IpAddress::V4([127, 0, 0, 1]))],
        &[],
    )
    .unwrap_err();
    assert!(err.describe().contains("resolved IP"));
}

#[test]
fn response_size_cap_is_enforced_by_transport_contract() {
    let fetcher = SafeFetcher::new();
    let err = run(
        &fetcher,
        request("https://example.test/page"),
        &policy(&["example.test"]),
        &[("example.test", public_ip())],
        &[("https://example.test/page", (200, None, b"too-large".to_vec()))],
    )
    .unwrap_err();
    assert!(matches!(err, FetchError::ResponseTooLarge { limit: 8 }));
}

#[test]
fn redirect_chain_is_bounded() {
    let fetcher = SafeFetcher::new();
    let err = run(
        &fetcher,
        request("https://example.test/a"),
        &policy(&["example.test"]),
        &[("example.test", public_ip())],
        &[("https://example.test/a", (301, Some("/a".to_string()), Vec::new()))],
    )
    .unwrap_err();
    assert!(matches!(err, FetchError::TooManyRedirects { limit: 3 }));
}

#[test]
fn relative_redirect_is_followed() {
    let fetcher = SafeFetcher::new();
    let resp = run(
        &fetcher,
        request("https://example.test/a/start"),
        &policy(&["example.test"]),
        &[("example.test", public_ip())],
        &[
            ("https://example.test/a/start", (302, Some("next".to_string()), Vec::new())),
            ("https://example.test/a/next", (200, None, b"hi".to_vec())),
        ],
    )
    .unwrap();
    assert_eq!(resp.final_url, "https://example.test/a/next");
    assert_eq!(resp.body_base64, "aGk=");
}

#[test]
fn elapsed_budget_times_out() {
    assert!(matches!(remaining_timeout(100, 101), Err(FetchError::Timeout)));
    assert_eq!(remaining_timeout(100, 40).unwrap(), 60);
    assert_eq!(remaining_timeout(100, 100).unwrap(), 0);
}

#[test]
fn domain_normalization_and_header_names() {
    assert_eq!(normalize_domain(" Example.TEST. ").into_iter().collect::<String>(), "example.test");
    assert!(is_disallowed_header("Cookie"));
    assert!(is_disallowed_header("proxy-authorization"));
    assert!(!is_disallowed_header("Accept"));
    assert!(validate_headers(&vec![("Accept".to_string(), "text/html".to_string())]).is_ok());
    assert!(matches!(
        validate_headers(&vec![("bad name".to_string(), "x".to_string())]),
        Err(FetchError::Policy(_))
    ));
}

#[test]
fn fetch_body_base64_pads_each_group() {
    let fetcher = SafeFetcher::new();
    for (body, encoded) in [(&b"a"[..], "YQ=="), (&b"abc"[..], "YWJj"), (&b"abcd"[..], "YWJjZA=="), (&[0xfbu8, 0xff][..], "+/8=")] {
        let response = run(
            &fetcher,
            request("https://example.test/page"),
            &policy(&["example.test"]),
            &[("example.test", public_ip())],
            &[("https://example.test/page", (200, None, body.to_vec()))],
        )
        .unwrap();
        assert_eq!(response.body_base64, encoded);
    }
}

#[test]
fn a_redirect_loop_sends_at_most_one_more_request_than_redirects_allowed() {
    let fetcher = SafeFetcher::new();
    let sends = std::cell::Cell::new(0u32);
    let err = fetcher
        .fetch(
            request("https://example.test/loop"),
            &policy(&["example.test"]),
            |_host: &str, _port: u16, _timeout: u64| Ok(vec![ResolvedAddress { ip: public_ip(), text: "addr".to_string() }]),
            |_plan: &FetchPlan, _addrs: &[ResolvedAddress], _c: u64, _t: u64| {
                sends.set(sends.get() + 1);
                Ok((302, Some("/loop".to_string()), Vec::new()))
            },
            || 0,
        )
        .unwrap_err();
    assert!(matches!(err, FetchError::TooManyRedirects { limit: 3 }));
    assert_eq!(sends.get(), 4);
}
