use celguard::address::{parse_socket_addr, AddrError};
use celguard::request::{FieldData, HeaderValue, Headers, Request};

fn test_headers(pairs: &[(&str, &[&str])]) -> Headers {
    Headers::from_pairs(
        pairs
            .iter()
            .map(|(name, values)| (name.to_string(), values.iter().map(|v| v.to_string()).collect()))
            .collect(),
    )
}

fn ip(input: &[u8]) -> String {
    parse_socket_addr(input).expect("address")
}

#[test]
fn request_test_request() {
    let req = Request::from_parts("127.0.0.1", "/foo/bar", "GET", "HTTP/1.1", test_headers(&[("user-agent", &["curl/8.0"])]));
    assert_eq!(req.display(), "127.0.0.1 \"GET /foo/bar HTTP/1.1\" \"curl/8.0\"");
}

#[test]
fn request_test_display_without_user_agent() {
    let req = Request::from_parts("127.0.0.1", "/foo/bar", "POST", "HTTP/2.0", test_headers(&[]));
    assert_eq!(req.display(), "127.0.0.1 \"POST /foo/bar HTTP/2.0\" -");
}

#[test]
fn request_test_display_with_empty_user_agent() {
    let req = Request::from_parts("127.0.0.1:123", "/", "GET", "HTTP/1.0", test_headers(&[("user-agent", &[])]));
    assert_eq!(req.display(), "127.0.0.1:123 \"GET / HTTP/1.0\" -");
}

#[test]
fn request_test_parse_socket_addr() {
    assert!(ip(b"127.0.0.1:80") == "127.0.0.1");
    assert!(ip(b"203.0.113.7:443") == "203.0.113.7");
    assert!(ip(b"[::1]:443") == "::1");
    assert!(ip(b"[2001:db8::1]:8080") == "2001:db8::1");
    assert!(ip(b"[fe80::1%eth0]:8080") == "fe80::1");
}

#[test]
fn request_test_parse_socket_addr_invalid() {
    assert!(parse_socket_addr(b"").is_err());
    assert!(parse_socket_addr(b"1.2.3:80").is_err());
    assert!(parse_socket_addr(b"1.2.3.4:").is_err());
    assert!(parse_socket_addr(b"1.2.3.4:1:2").is_err());
    assert!(parse_socket_addr(b"::1:80").is_err());
    assert!(parse_socket_addr(b"[::1").is_err());
    assert!(parse_socket_addr(b"[]:80").is_err());
    assert!(parse_socket_addr(b"[not-ipv6]:80").is_err());
}

#[test]
fn mod_test_request() {
    let req = Request::from_parts("127.0.0.1", "/foo/bar", "GET", "HTTP/1.1", test_headers(&[("user-agent", &["curl/8.0"])]));
    assert_eq!(format!("{}", req.display()), "127.0.0.1 \"GET /foo/bar HTTP/1.1\" \"curl/8.0\"");
}

#[test]
fn mod_test_display_without_user_agent() {
    let req = Request::from_parts("127.0.0.1", "/foo/bar", "POST", "HTTP/2.0", test_headers(&[]));
    assert_eq!(format!("{}", req.display()), "127.0.0.1 \"POST /foo/bar HTTP/2.0\" -");
}

#[test]
fn mod_test_display_with_empty_user_agent() {
    let req = Request::from_parts("127.0.0.1:123", "/", "GET", "HTTP/1.0", test_headers(&[("user-agent", &[])]));
    assert_eq!(format!("{}", req.display()), "127.0.0.1:123 \"GET / HTTP/1.0\" -");
}

#[test]
fn mod_test_parse_socket_addr() {
    assert!(parse_socket_addr(b"127.0.0.1:80").unwrap() == "127.0.0.1");
    assert!(parse_socket_addr(b"203.0.113.7:443").unwrap() == "203.0.113.7");
    assert!(parse_socket_addr(b"[::1]:443").unwrap() == "::1");
    assert!(parse_socket_addr(b"[2001:db8::1]:8080").unwrap() == "2001:db8::1");
    assert!(parse_socket_addr(b"[fe80::1%eth0]:8080").unwrap() == "fe80::1");
}

#[test]
fn mod_test_parse_socket_addr_invalid() {
    assert!(parse_socket_addr(b"").is_err());
    assert!(parse_socket_addr(b"1.2.3:80").is_err());
    assert!(parse_socket_addr(b"1.2.3.4:").is_err());
    assert!(parse_socket_addr(b"1.2.3.4:1:2").is_err());
    assert!(parse_socket_addr(b"::1:80").is_err()); // unbracketed ipv6
    assert!(parse_socket_addr(b"[::1").is_err()); // missing ']'
    assert!(parse_socket_addr(b"[]:80").is_err());
    assert!(parse_socket_addr(b"[not-ipv6]:80").is_err());
    assert!(parse_socket_addr(b"foo%bar").is_err()); // '%' without ']'
    assert!(parse_socket_addr(b"]:80%zone").is_err()); // ']' before '%'
}

#[test]
fn parse_socket_addr_rejects_invalid_utf8() {
    assert_eq!(parse_socket_addr(b"\xff1.2.3.4:80"), Err(AddrError::NotUtf8));
    assert_eq!(parse_socket_addr(b"1.2.3:80"), Err(AddrError::Invalid));
}

#[test]
fn zone_is_dropped_up_to_first_bracket() {
    assert_eq!(celguard::address::without_zone("[fe80::1%eth0]:8080"), "[fe80::1]:8080");
    assert_eq!(celguard::address::without_zone("foo%bar"), "foo%bar");
    assert_eq!(celguard::address::without_zone("]:80%zone"), "]:80%zone");
    assert_eq!(celguard::address::without_zone("a%b]c]d"), "a]c]d");
}

#[test]
fn headers_from_host_are_lowercased_and_shaped() {
    let raw: Vec<(Vec<u8>, Vec<Vec<u8>>)> = vec![
        (b"User-Agent".to_vec(), vec![b"curl/8.0".to_vec()]),
        (b"X-Empty".to_vec(), vec![]),
        (b"Accept".to_vec(), vec![b"a".to_vec(), b"b".to_vec()]),
        (b"user-agent".to_vec(), vec![b"wget".to_vec()]),
        (b"X-Bad".to_vec(), vec![b"\xffz".to_vec()]),
    ];
    let h = Headers::from_raw(&raw);
    assert_eq!(h.len(), 4);
    assert_eq!(h.get("user-agent"), Some(&HeaderValue::Single("wget".to_string())));
    assert_eq!(h.get("User-Agent"), None);
    assert_eq!(h.get("x-empty"), Some(&HeaderValue::Null));
    assert_eq!(h.get("accept"), Some(&HeaderValue::List(vec!["a".to_string(), "b".to_string()])));
    assert_eq!(h.get("x-bad"), Some(&HeaderValue::Single("\u{fffd}z".to_string())));
}

#[test]
fn request_from_host_reads_parts() {
    let raw: Vec<(Vec<u8>, Vec<Vec<u8>>)> = vec![(b"Host".to_vec(), vec![b"example.org".to_vec()])];
    let req = Request::from_host(b"/a?b", b"GET", b"HTTP/1.1", b"[::1]:443", &raw).unwrap();
    assert_eq!(req.source_ip, "::1");
    assert_eq!(req.display(), "::1 \"GET /a?b HTTP/1.1\" -");
    assert_eq!(req.headers().get("host"), Some(&HeaderValue::Single("example.org".to_string())));
    assert_eq!(Request::from_host(b"/", b"GET", b"HTTP/1.1", b"nonsense", &raw).err(), Some(AddrError::Invalid));
}

#[test]
fn user_agent_list_is_not_shown() {
    let req = Request::from_parts("1.1.1.1", "/", "GET", "HTTP/1.1", test_headers(&[("user-agent", &["a", "b"])]));
    assert_eq!(req.display(), "1.1.1.1 \"GET / HTTP/1.1\" -");
}

#[test]
fn with_source_ip_changes_only_the_address() {
    let req = Request::from_parts("1.1.1.1", "/x", "PUT", "HTTP/1.1", test_headers(&[("user-agent", &["ua"])]));
    let req = req.with_source_ip("9.9.9.9".to_string());
    assert_eq!(req.display(), "9.9.9.9 \"PUT /x HTTP/1.1\" \"ua\"");
}

#[test]
fn later_pair_replaces_earlier() {
    let h = test_headers(&[("a", &["1"]), ("b", &["2"]), ("a", &["3", "4"])]);
    assert_eq!(h.len(), 2);
    assert_eq!(h.get("a"), Some(&HeaderValue::List(vec!["3".to_string(), "4".to_string()])));
}

#[test]
fn bare_bracketed_ipv6_is_accepted() {
    assert_eq!(parse_socket_addr(b"[::1]").unwrap(), "::1");
    assert_eq!(parse_socket_addr(b"[fe80::1%eth0]").unwrap(), "fe80::1");
    assert_eq!(parse_socket_addr(b"[1.2.3.4]"), Err(AddrError::Invalid));
    assert_eq!(celguard::address::ip_of_addr("[2001:db8::1]").unwrap(), "2001:db8::1");
}

#[test]
fn request_data_has_the_five_fields() {
    let req = Request::from_parts("1.1.1.1", "/p", "GET", "HTTP/1.1", test_headers(&[("a", &["b"])]));
    let d = req.data();
    assert_eq!(
        d.fields,
        vec![
            ("path".to_string(), FieldData::Text("/p".to_string())),
            ("method".to_string(), FieldData::Text("GET".to_string())),
            ("version".to_string(), FieldData::Text("HTTP/1.1".to_string())),
            ("source_ip".to_string(), FieldData::Text("1.1.1.1".to_string())),
            ("headers".to_string(), FieldData::Headers(vec![("a".to_string(), HeaderValue::Single("b".to_string()))])),
        ]
    );
}
