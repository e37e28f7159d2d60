use fetchless::url_validator::{
    admit_url_parts, blocked_networks, check_batch_size, check_ip_blocked, check_resolved_ips, finish_url_validation,
    ip_to_text, validate_url_syntax, BlockedNetwork, HostLookup, IpAddress, UrlParts,
};

#[test]
fn test_blocked_network_contains() {
    let net = BlockedNetwork { addr: IpAddress::v4(10, 0, 0, 0), prefix_len: 8 };
    assert!(net.contains(IpAddress::v4(10, 1, 2, 3)));
    assert!(!net.contains(IpAddress::v4(11, 0, 0, 1)));
}

#[test]
fn network_of_other_family_never_contains() {
    let net = BlockedNetwork { addr: IpAddress::v4(10, 0, 0, 0), prefix_len: 8 };
    assert!(!net.contains(IpAddress::v6(0, 0, 0, 0, 0, 0, 0, 1)));
}

#[test]
fn zero_prefix_contains_whole_family() {
    let net = BlockedNetwork { addr: IpAddress::v4(1, 2, 3, 4), prefix_len: 0 };
    assert!(net.contains(IpAddress::v4(200, 9, 9, 9)));
}

#[test]
fn ipv6_prefixes() {
    let ula = BlockedNetwork { addr: IpAddress::v6(0xfc00, 0, 0, 0, 0, 0, 0, 0), prefix_len: 7 };
    assert!(ula.contains(IpAddress::v6(0xfd12, 0x3456, 0, 0, 0, 0, 0, 1)));
    assert!(!ula.contains(IpAddress::v6(0xfe00, 0, 0, 0, 0, 0, 0, 1)));
}

#[test]
fn blocked_table_has_ten_networks() {
    assert_eq!(blocked_networks().len(), 10);
}

#[test]
fn syntax_rejects_http() {
    let err = validate_url_syntax("http://example.com").unwrap_err();
    assert!(err.to_string().contains("HTTPS"));
    assert_eq!(err.to_string(), "Only HTTPS URLs are allowed (got scheme: 'http').");
}

#[test]
fn syntax_rejects_empty_and_blank() {
    assert_eq!(validate_url_syntax("").unwrap_err().to_string(), "URL must be a non-empty string.");
    assert_eq!(validate_url_syntax("   ").unwrap_err().to_string(), "URL must be a non-empty string.");
}

#[test]
fn syntax_rejects_no_scheme() {
    let err = validate_url_syntax("not-a-url").unwrap_err();
    assert_eq!(err.to_string(), "Invalid URL: relative URL without a base");
    assert!(err.is_validation());
}

#[test]
fn syntax_gives_host() {
    assert_eq!(validate_url_syntax("https://example.com/path?q=1").unwrap(), "example.com");
    assert_eq!(validate_url_syntax("https://127.0.0.1/foo").unwrap(), "127.0.0.1");
}

#[test]
fn private_addresses_rejected() {
    for ip in [
        IpAddress::v4(127, 0, 0, 1),
        IpAddress::v4(10, 0, 0, 1),
        IpAddress::v4(172, 16, 0, 1),
        IpAddress::v4(172, 31, 255, 255),
        IpAddress::v4(192, 168, 1, 1),
        IpAddress::v4(169, 254, 169, 254),
        IpAddress::v4(100, 64, 0, 1),
        IpAddress::v6(0, 0, 0, 0, 0, 0, 0, 1),
        IpAddress::v6(0xfe80, 0, 0, 0, 0, 0, 0, 5),
        IpAddress::v4(0, 0, 0, 0),
        IpAddress::v4(0, 255, 1, 2),
    ] {
        let err = check_ip_blocked(ip).unwrap_err();
        assert!(err.to_string().contains("private/reserved"));
    }
}

#[test]
fn public_addresses_accepted() {
    assert!(check_ip_blocked(IpAddress::v4(93, 184, 216, 34)).is_ok());
    assert!(check_ip_blocked(IpAddress::v4(172, 32, 0, 1)).is_ok());
    assert!(check_ip_blocked(IpAddress::v4(8, 8, 8, 8)).is_ok());
    assert!(check_ip_blocked(IpAddress::v6(0x2606, 0x4700, 0, 0, 0, 0, 0, 0x1111)).is_ok());
}

#[test]
fn blocked_message_shows_address() {
    let err = check_ip_blocked(IpAddress::v4(127, 0, 0, 1)).unwrap_err();
    assert_eq!(
        err.to_string(),
        "URL resolves to a private/reserved address (127.0.0.1). SSRF protection rejected this request."
    );
}

#[test]
fn ip_text_matches_address_display() {
    assert_eq!(ip_to_text(IpAddress::v4(192, 168, 0, 10)), "192.168.0.10");
    let cases: [([u16; 8], &str); 7] = [
        ([0, 0, 0, 0, 0, 0, 0, 1], "::1"),
        ([0, 0, 0, 0, 0, 0, 0, 0], "::"),
        ([0xfe80, 0, 0, 0, 0x1, 0x2, 0x3, 0x4], "fe80::1:2:3:4"),
        ([0x2001, 0xdb8, 0, 0, 1, 0, 0, 1], "2001:db8::1:0:0:1"),
        ([0x2001, 0xdb8, 1, 2, 3, 4, 5, 6], "2001:db8:1:2:3:4:5:6"),
        ([0, 0, 0, 0, 0, 0xffff, 0xc0a8, 0x0001], "::ffff:192.168.0.1"),
        ([1, 0, 2, 0, 3, 0, 4, 0], "1:0:2:0:3:0:4:0"),
    ];
    for (s, expected) in cases {
        let ours = ip_to_text(IpAddress::v6(s[0], s[1], s[2], s[3], s[4], s[5], s[6], s[7]));
        assert_eq!(ours, expected);
    }
}

#[test]
fn resolved_addresses_checked_in_order() {
    let ips = vec![IpAddress::v4(8, 8, 8, 8), IpAddress::v4(10, 1, 1, 1), IpAddress::v4(127, 0, 0, 1)];
    let err = check_resolved_ips(&ips).unwrap_err();
    assert!(err.to_string().contains("10.1.1.1"));
    assert!(check_resolved_ips(&vec![IpAddress::v4(1, 1, 1, 1)]).is_ok());
}

#[test]
fn finishing_validation() {
    let url = "https://example.com/a";
    assert_eq!(
        finish_url_validation(url, "example.com", HostLookup::Resolved(vec![IpAddress::v4(93, 184, 216, 34)])).unwrap(),
        url
    );
    assert!(finish_url_validation(url, "10.0.0.1", HostLookup::Literal(IpAddress::v4(10, 0, 0, 1))).is_err());
    assert_eq!(
        finish_url_validation(url, "example.com", HostLookup::LookupFailed("no record".to_string()))
            .unwrap_err()
            .to_string(),
        "Cannot resolve hostname 'example.com': no record"
    );
    assert_eq!(
        finish_url_validation(url, "example.com", HostLookup::ResolverUnavailable("io".to_string()))
            .unwrap_err()
            .to_string(),
        "DNS resolver error: io"
    );
}

#[test]
fn batch_limit_is_ten() {
    assert!(check_batch_size(10).is_ok());
    let err = check_batch_size(11).unwrap_err();
    assert!(err.to_string().contains("exceeds maximum"));
    assert_eq!(err.to_string(), "Batch size 11 exceeds maximum of 10.");
}

#[test]
fn admission_of_parsed_parts() {
    let https = |host: Option<&str>| UrlParts { scheme: "https".to_string(), host: host.map(|h| h.to_string()) };
    assert_eq!(admit_url_parts(Ok(https(Some("example.com")))).unwrap(), "example.com");
    assert_eq!(admit_url_parts(Ok(https(None))).unwrap_err().to_string(), "URL has no hostname.");
    let ftp = UrlParts { scheme: "ftp".to_string(), host: Some("x".to_string()) };
    assert_eq!(
        admit_url_parts(Ok(ftp)).unwrap_err().to_string(),
        "Only HTTPS URLs are allowed (got scheme: 'ftp')."
    );
    assert_eq!(admit_url_parts(Err("empty host".to_string())).unwrap_err().to_string(), "Invalid URL: empty host");
}
