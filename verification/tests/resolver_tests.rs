use httpecho::errors::AddressResolutionError;
use httpecho::errors::ConfigError;
use httpecho::ipv6::parse_ipv6_socket;
use httpecho::resolver::parse_ipv4_socket;
use httpecho::resolver::parse_socket_literal;
use httpecho::resolver::IpAddress;
use httpecho::resolver::ParseSocketAddr;
use httpecho::resolver::SockAddr;
use httpecho::resolver::UrlParts;

#[test]
fn parse_ipv4_socket_literal() {
    let a = parse_ipv4_socket("127.0.0.1:9000").unwrap();
    assert_eq!(a, SockAddr { ip: IpAddress::V4(127, 0, 0, 1), port: 9000 });
    let b = parse_ipv4_socket("255.255.255.255:65535").unwrap();
    assert_eq!(b, SockAddr { ip: IpAddress::V4(255, 255, 255, 255), port: 65535 });
    let c = parse_ipv4_socket("0.0.0.0:0").unwrap();
    assert_eq!(c, SockAddr { ip: IpAddress::V4(0, 0, 0, 0), port: 0 });
}

#[test]
fn parse_ipv4_socket_rejects_bad_forms() {
    assert!(parse_ipv4_socket("127.0.0.1").is_none());
    assert!(parse_ipv4_socket("256.0.0.1:80").is_none());
    assert!(parse_ipv4_socket("1.2.3:80").is_none());
    assert!(parse_ipv4_socket("1.2.3.4.5:80").is_none());
    assert!(parse_ipv4_socket("01.2.3.4:80").is_none());
    assert!(parse_ipv4_socket("1.2.3.4:").is_none());
    assert!(parse_ipv4_socket("1.2.3.4:99999").is_none());
    assert!(parse_ipv4_socket("1.2.3.4:0080").is_none());
    assert!(parse_ipv4_socket("example.com:80").is_none());
    assert!(parse_ipv4_socket("").is_none());
}

#[test]
fn parse_ipv6_socket_literal() {
    let a = parse_ipv6_socket("[::1]:8080").unwrap();
    assert_eq!(a, SockAddr { ip: IpAddress::V6(0, 0, 0, 0, 0, 0, 0, 1), port: 8080 });
    let b = parse_ipv6_socket("[2001:db8::8a2e:370:7334]:443").unwrap();
    assert_eq!(
        b,
        SockAddr {
            ip: IpAddress::V6(0x2001, 0x0db8, 0, 0, 0, 0x8a2e, 0x0370, 0x7334),
            port: 443
        }
    );
    let c = parse_ipv6_socket("[1:2:3:4:5:6:7:8]:1").unwrap();
    assert_eq!(c, SockAddr { ip: IpAddress::V6(1, 2, 3, 4, 5, 6, 7, 8), port: 1 });
    let d = parse_ipv6_socket("[::]:80").unwrap();
    assert_eq!(d, SockAddr { ip: IpAddress::V6(0, 0, 0, 0, 0, 0, 0, 0), port: 80 });
    let e = parse_ipv6_socket("[fe80::]:9000").unwrap();
    assert_eq!(e, SockAddr { ip: IpAddress::V6(0xfe80, 0, 0, 0, 0, 0, 0, 0), port: 9000 });
    let f = parse_ipv6_socket("[FFFF:0:0:0:0:0:0:abcd]:2").unwrap();
    assert_eq!(f, SockAddr { ip: IpAddress::V6(0xffff, 0, 0, 0, 0, 0, 0, 0xabcd), port: 2 });
}

#[test]
fn parse_ipv6_socket_embedded_v4() {
    let a = parse_ipv6_socket("[::ffff:192.168.0.1]:8080").unwrap();
    assert_eq!(
        a,
        SockAddr { ip: IpAddress::V6(0, 0, 0, 0, 0, 0xffff, 0xc0a8, 0x0001), port: 8080 }
    );
    let b = parse_ipv6_socket("[1:2:3:4:5:6:1.2.3.4]:80").unwrap();
    assert_eq!(b, SockAddr { ip: IpAddress::V6(1, 2, 3, 4, 5, 6, 0x0102, 0x0304), port: 80 });
    let c = parse_ipv6_socket("[::1.2.3.4]:80").unwrap();
    assert_eq!(c, SockAddr { ip: IpAddress::V6(0, 0, 0, 0, 0, 0, 0x0102, 0x0304), port: 80 });
    let d = parse_ipv6_socket("[64:ff9b::255.255.255.255]:80").unwrap();
    assert_eq!(
        d,
        SockAddr { ip: IpAddress::V6(0x64, 0xff9b, 0, 0, 0, 0, 0xffff, 0xffff), port: 80 }
    );
}

#[test]
fn parse_ipv6_socket_rejects_bad_embedded_v4() {
    // The quad may only stand last, must be in range, and cannot follow a
    // full set of groups.
    assert!(parse_ipv6_socket("[1.2.3.4::]:80").is_none());
    assert!(parse_ipv6_socket("[::1.2.3.4:5]:80").is_none());
    assert!(parse_ipv6_socket("[::1.2.3.256]:80").is_none());
    assert!(parse_ipv6_socket("[::1.2.3]:80").is_none());
    assert!(parse_ipv6_socket("[1:2:3:4:5:6:7:1.2.3.4]:80").is_none());
}

#[test]
fn parse_ipv6_socket_rejects_bad_forms() {
    assert!(parse_ipv6_socket("[:::]:80").is_none());
    assert!(parse_ipv6_socket("[1::2::3]:80").is_none());
    assert!(parse_ipv6_socket("[1:2:3:4:5:6:7]:80").is_none());
    assert!(parse_ipv6_socket("[1:2:3:4:5:6:7:8:9]:80").is_none());
    assert!(parse_ipv6_socket("[1:2:3:4:5:6:7:8::]:80").is_none());
    assert!(parse_ipv6_socket("[::1]").is_none());
    assert!(parse_ipv6_socket("[::1]:").is_none());
    assert!(parse_ipv6_socket("[::1]:99999").is_none());
    assert!(parse_ipv6_socket("::1:80").is_none());
    assert!(parse_ipv6_socket("[12345::1]:80").is_none());
    assert!(parse_ipv6_socket("[g::1]:80").is_none());
    assert!(parse_ipv6_socket("[:1:2]:80").is_none());
    assert!(parse_ipv6_socket("[1:2:]:80").is_none());
}

#[test]
fn parse_socket_literal_both_families() {
    assert_eq!(
        parse_socket_literal("127.0.0.1:80").unwrap(),
        SockAddr { ip: IpAddress::V4(127, 0, 0, 1), port: 80 }
    );
    assert_eq!(
        parse_socket_literal("[::1]:80").unwrap(),
        SockAddr { ip: IpAddress::V6(0, 0, 0, 0, 0, 0, 0, 1), port: 80 }
    );
    assert!(parse_socket_literal("example.com:80").is_none());
}

#[test]
fn from_str_literal_v6_address() {
    match ParseSocketAddr::from_str("[::1]:9999").unwrap() {
        ParseSocketAddr::SocketAddr(a) => {
            assert_eq!(a, SockAddr { ip: IpAddress::V6(0, 0, 0, 0, 0, 0, 0, 1), port: 9999 });
        },
        ParseSocketAddr::Url(_) => panic!("expected a literal address"),
    }
}

#[test]
fn from_str_literal_address() {
    match ParseSocketAddr::from_str("10.0.0.2:8080").unwrap() {
        ParseSocketAddr::SocketAddr(a) => {
            assert_eq!(a, SockAddr { ip: IpAddress::V4(10, 0, 0, 2), port: 8080 });
        },
        ParseSocketAddr::Url(_) => panic!("expected a literal address"),
    }
}

#[test]
fn from_str_url_with_default_port() {
    match ParseSocketAddr::from_str("http://example.com/path").unwrap() {
        ParseSocketAddr::Url(u) => {
            assert_eq!(u.host.unwrap(), "example.com");
            assert_eq!(u.port.unwrap(), 80);
        },
        ParseSocketAddr::SocketAddr(_) => panic!("expected a URL"),
    }
}

#[test]
fn from_str_url_with_explicit_port() {
    match ParseSocketAddr::from_str("https://example.com:8443/x?y=1").unwrap() {
        ParseSocketAddr::Url(u) => {
            assert_eq!(u.host.unwrap(), "example.com");
            assert_eq!(u.port.unwrap(), 8443);
        },
        ParseSocketAddr::SocketAddr(_) => panic!("expected a URL"),
    }
}

#[test]
fn from_str_rejects_invalid_targets() {
    assert_eq!(
        ParseSocketAddr::from_str("not a url at all").unwrap_err(),
        ConfigError::InvalidTarget
    );
    // A scheme without a host.
    assert_eq!(ParseSocketAddr::from_str("data:text/plain,x").unwrap_err(),
        ConfigError::InvalidTarget);
}

#[test]
fn lookup_host_decisions() {
    let literal = ParseSocketAddr::SocketAddr(SockAddr { ip: IpAddress::V4(1, 2, 3, 4), port: 1 });
    assert_eq!(literal.lookup_host().unwrap(), None);

    let url = ParseSocketAddr::Url(UrlParts { host: Some("example.com".to_string()), port: Some(80) });
    assert_eq!(url.lookup_host().unwrap(), Some(("example.com".to_string(), 80)));

    let no_host = ParseSocketAddr::Url(UrlParts { host: None, port: Some(80) });
    assert_eq!(no_host.lookup_host().unwrap_err(), AddressResolutionError::MissingHost);

    let no_port = ParseSocketAddr::Url(UrlParts { host: Some("example.com".to_string()), port: None });
    assert_eq!(no_port.lookup_host().unwrap_err(), AddressResolutionError::MissingPort);
}

#[test]
fn to_socket_literal_ignores_lookup() {
    let a = SockAddr { ip: IpAddress::V4(9, 9, 9, 9), port: 53 };
    let literal = ParseSocketAddr::SocketAddr(a);
    assert_eq!(literal.to_socket(None).unwrap(), a);
}

#[test]
fn to_socket_takes_first_address() {
    let url = ParseSocketAddr::Url(UrlParts { host: Some("example.com".to_string()), port: Some(80) });
    let ips = vec![
        IpAddress::V4(93, 184, 216, 34),
        IpAddress::V6(0x2606, 0x2800, 0x220, 0x1, 0x248, 0x1893, 0x25c8, 0x1946),
    ];
    let got = url.to_socket(Some(Ok(ips))).unwrap();
    assert_eq!(got, SockAddr { ip: IpAddress::V4(93, 184, 216, 34), port: 80 });
}

#[test]
fn to_socket_resolution_errors() {
    let url = ParseSocketAddr::Url(UrlParts { host: Some("example.com".to_string()), port: Some(80) });
    assert_eq!(url.to_socket(Some(Err(()))).unwrap_err(), AddressResolutionError::ResolutionFailed);
    assert_eq!(url.to_socket(None).unwrap_err(), AddressResolutionError::ResolutionFailed);
    assert_eq!(
        url.to_socket(Some(Ok(vec![]))).unwrap_err(),
        AddressResolutionError::NoAddressRecords
    );

    let no_host = ParseSocketAddr::Url(UrlParts { host: None, port: Some(80) });
    assert_eq!(
        no_host.to_socket(Some(Ok(vec![IpAddress::V4(1, 1, 1, 1)]))).unwrap_err(),
        AddressResolutionError::MissingHost
    );
}
