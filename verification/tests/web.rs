use magazine_core::web::{
    decode_query_component, find_head_end, header_value, parse_ext_head, parse_ui_head,
    parse_ui_head_text, percent_decode, split_query, split_target,
};

#[test]
fn ui_heads_are_read_leniently() {
    let head = parse_ui_head(b"POST /api/manage/cancel HTTP/1.1\r\nHost: 127.0.0.1:8765\r\nContent-Length: 12\r\nX-MH-UI-Token: abc\r\n\r\n").unwrap();
    assert_eq!(head.method, "POST");
    assert_eq!(head.target, "/api/manage/cancel");
    assert_eq!(head.content_length, 12);
    assert_eq!(header_value(&head.headers, "host"), Some("127.0.0.1:8765"));
    assert_eq!(header_value(&head.headers, "x-mh-ui-token"), Some("abc"));
    assert!(parse_ui_head(b"GET / FTP/1.0\r\n\r\n").is_none());
    assert!(parse_ui_head(b"GET /\r\n\r\n").is_none());
    assert!(parse_ui_head(b"GET / HTTP/1.1\r\nTransfer-Encoding: chunked\r\n\r\n").is_none());
    assert!(parse_ui_head(b"GET / HTTP/1.1\r\nHost: a\r\nHost: b\r\n\r\n").is_none());
    assert!(parse_ui_head(b"POST / HTTP/1.1\r\nContent-Length: 70000\r\n\r\n").is_none());
    assert!(parse_ui_head(b"POST / HTTP/1.1\r\nContent-Length: x\r\n\r\n").is_none());
    assert!(parse_ui_head(b"GET / HTTP/1.1\r\nno colon here\r\n\r\n").is_none());
    assert_eq!(parse_ui_head_text("GET /x HTTP/1.1\r\n\r\n").unwrap().content_length, 0);
}

#[test]
fn extension_heads_are_read_strictly() {
    let request = parse_ext_head(b"GET /extensions/a/index.mjs HTTP/1.1\r\nHost: 127.0.0.1:8766\r\n\r\n".to_vec())
        .unwrap()
        .unwrap();
    assert_eq!(request.method, "GET");
    assert_eq!(request.target, "/extensions/a/index.mjs");
    assert_eq!(header_value(&request.headers, "host"), Some("127.0.0.1:8766"));
    assert!(parse_ext_head(b"GET / HTTP/2\r\n\r\n".to_vec()).unwrap().is_none());
    assert!(parse_ext_head(b"GET x HTTP/1.1\r\n\r\n".to_vec()).unwrap().is_none());
    assert!(parse_ext_head(b"GET /#f HTTP/1.1\r\n\r\n".to_vec()).unwrap().is_none());
    assert!(parse_ext_head(b"GET / HTTP/1.1\r\nHost: a\r\nhost: b\r\n\r\n".to_vec()).unwrap().is_none());
    assert!(parse_ext_head(b"GET / HTTP/1.1\r\nContent-Length: 3\r\n\r\n".to_vec()).unwrap().is_none());
    assert!(parse_ext_head(b"GET / HTTP/1.1\r\nContent-Length: 0\r\n\r\n".to_vec()).unwrap().is_some());
    assert_eq!(
        parse_ext_head(vec![b'G', b'E', b'T', b' ', 0xff, b'\r', b'\n', b'\r', b'\n']).unwrap_err(),
        "request headers are not UTF-8"
    );
}

#[test]
fn head_end_and_targets() {
    assert_eq!(find_head_end(b"GET / HTTP/1.1\r\n\r\nbody"), Some(18));
    assert_eq!(find_head_end(b"GET / HTTP/1.1\r\n"), None);
    assert_eq!(split_target("/api/records?limit=5#top"), ("/api/records".to_string(), Some("limit=5".to_string())));
    assert_eq!(split_target("/"), ("/".to_string(), None));
    assert_eq!(split_query("/read?x=1"), ("/read".to_string(), Some("x=1".to_string())));
}

#[test]
fn percent_decoding_rules() {
    assert_eq!(percent_decode("a%20b+c").unwrap(), "a b c");
    assert!(percent_decode("%4").is_err());
    assert_eq!(decode_query_component("%E6%97%A5").unwrap(), "日");
    assert_eq!(decode_query_component("%4").unwrap_err(), "truncated percent escape in read query");
    assert_eq!(decode_query_component("%zz1").unwrap_err(), "invalid percent escape in read query");
    assert_eq!(decode_query_component("é").unwrap_err(), "read query is not ASCII encoded");
    assert_eq!(decode_query_component("%ff").unwrap_err(), "read query is not valid UTF-8");
}
