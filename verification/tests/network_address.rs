use fdbexporter::status_models::network_address::{
    NetworkAddress, ParseError, SocketAddrV4, SocketAddrV6,
};

const LOCALHOST_V6: [u16; 8] = [0, 0, 0, 0, 0, 0, 0, 1];

#[test]
fn test_parse_ipv4_address() {
    let addr: NetworkAddress = "10.0.0.1:4500".parse().unwrap();
    match addr {
        NetworkAddress::Ipv4(socket_addr) => {
            assert_eq!(socket_addr.ip(), &[10, 0, 0, 1]);
            assert_eq!(socket_addr.port(), 4500);
        }
        _ => panic!("Expected IPv4 address"),
    }
}

#[test]
fn test_parse_ipv6_address() {
    let addr: NetworkAddress = "[::1]:4500".parse().unwrap();
    match addr {
        NetworkAddress::Ipv6(socket_addr) => {
            assert_eq!(socket_addr.ip(), &LOCALHOST_V6);
            assert_eq!(socket_addr.port(), 4500);
        }
        _ => panic!("Expected IPv6 address"),
    }
}

#[test]
fn test_parse_ipv6_full_address() {
    let addr: NetworkAddress = "[2001:db8::1]:4501".parse().unwrap();
    match addr {
        NetworkAddress::Ipv6(socket_addr) => {
            assert_eq!(socket_addr.ip(), &[0x2001, 0xdb8, 0, 0, 0, 0, 0, 1]);
            assert_eq!(socket_addr.port(), 4501);
        }
        _ => panic!("Expected IPv6 address"),
    }
}

#[test]
fn test_parse_dns_address() {
    let addr: NetworkAddress = "foundationdb-log-39303.foundationdb.doris.svc.cluster.local:4501"
        .parse()
        .unwrap();
    match addr {
        NetworkAddress::Dns { hostname, port } => {
            assert_eq!(
                hostname,
                "foundationdb-log-39303.foundationdb.doris.svc.cluster.local"
            );
            assert_eq!(port, 4501);
        }
        _ => panic!("Expected DNS address"),
    }
}

#[test]
fn test_parse_simple_hostname() {
    let addr: NetworkAddress = "localhost:4500".parse().unwrap();
    match addr {
        NetworkAddress::Dns { hostname, port } => {
            assert_eq!(hostname, "localhost");
            assert_eq!(port, 4500);
        }
        _ => panic!("Expected DNS address"),
    }
}

#[test]
fn test_display_ipv4() {
    let addr = NetworkAddress::Ipv4(SocketAddrV4::new([192, 168, 1, 1], 4500));
    assert_eq!(addr.to_string(), "192.168.1.1:4500");
}

#[test]
fn test_display_ipv6() {
    let addr = NetworkAddress::Ipv6(SocketAddrV6::new(LOCALHOST_V6, 4500, 0));
    assert_eq!(addr.to_string(), "[::1]:4500");
}

#[test]
fn test_display_dns() {
    let addr = NetworkAddress::Dns {
        hostname: "fdb.example.com".to_string(),
        port: 4501,
    };
    assert_eq!(addr.to_string(), "fdb.example.com:4501");
}

#[test]
fn test_invalid_address_no_port() {
    let result: Result<NetworkAddress, _> = "hostname".parse();
    assert!(result.is_err());
}

#[test]
fn test_invalid_address_empty_hostname() {
    let result: Result<NetworkAddress, _> = ":4500".parse();
    assert!(result.is_err());
}

#[test]
fn test_invalid_port() {
    let result: Result<NetworkAddress, _> = "hostname:invalid".parse();
    assert!(result.is_err());
}

#[test]
fn test_deserialize_ipv4() {
    let json = "\"10.0.0.1:4500\"";
    let text: String = serde_json::from_str(json).unwrap();
    let addr: NetworkAddress = text.parse().unwrap();
    match addr {
        NetworkAddress::Ipv4(socket_addr) => {
            assert_eq!(socket_addr.ip(), &[10, 0, 0, 1]);
            assert_eq!(socket_addr.port(), 4500);
        }
        _ => panic!("Expected IPv4 address"),
    }
}

#[test]
fn test_deserialize_ipv6() {
    let json = "\"[::1]:4500\"";
    let text: String = serde_json::from_str(json).unwrap();
    let addr: NetworkAddress = text.parse().unwrap();
    match addr {
        NetworkAddress::Ipv6(socket_addr) => {
            assert_eq!(socket_addr.ip(), &LOCALHOST_V6);
            assert_eq!(socket_addr.port(), 4500);
        }
        _ => panic!("Expected IPv6 address"),
    }
}

#[test]
fn test_deserialize_dns() {
    let json = "\"fdb-coordinator.default.svc.cluster.local:4501\"";
    let text: String = serde_json::from_str(json).unwrap();
    let addr: NetworkAddress = text.parse().unwrap();
    match addr {
        NetworkAddress::Dns { hostname, port } => {
            assert_eq!(hostname, "fdb-coordinator.default.svc.cluster.local");
            assert_eq!(port, 4501);
        }
        _ => panic!("Expected DNS address"),
    }
}

fn v4(text: &str) -> Option<([u8; 4], u16)> {
    match NetworkAddress::from_str(text) {
        Ok(NetworkAddress::Ipv4(a)) => Some((a.ip, a.port)),
        _ => None,
    }
}

fn v6(text: &str) -> Option<([u16; 8], u16, u32)> {
    match NetworkAddress::from_str(text) {
        Ok(NetworkAddress::Ipv6(a)) => Some((a.ip, a.port, a.scope_id)),
        _ => None,
    }
}

fn dns(text: &str) -> Option<(String, u16)> {
    match NetworkAddress::from_str(text) {
        Ok(NetworkAddress::Dns { hostname, port }) => Some((hostname, port)),
        _ => None,
    }
}

#[test]
fn errors_by_kind() {
    assert_eq!(NetworkAddress::from_str("hostname").unwrap_err(), ParseError::MissingPort);
    assert_eq!(NetworkAddress::from_str(":4500").unwrap_err(), ParseError::ParsingHost);
    assert_eq!(NetworkAddress::from_str("hostname:notaport").unwrap_err(), ParseError::ParsingPort);
    assert_eq!(NetworkAddress::from_str("hostname:").unwrap_err(), ParseError::ParsingPort);
    assert_eq!(NetworkAddress::from_str("hostname:65536").unwrap_err(), ParseError::ParsingPort);
    assert_eq!(NetworkAddress::from_str("hostname:-1").unwrap_err(), ParseError::ParsingPort);
    assert_eq!(NetworkAddress::from_str("hostname:+").unwrap_err(), ParseError::ParsingPort);
    // the port is looked at before the host
    assert_eq!(NetworkAddress::from_str(":notaport").unwrap_err(), ParseError::ParsingPort);
    assert_eq!(NetworkAddress::from_str("").unwrap_err(), ParseError::MissingPort);
}

#[test]
fn ipv4_forms() {
    assert_eq!(v4("0.0.0.0:0"), Some(([0, 0, 0, 0], 0)));
    assert_eq!(v4("255.255.255.255:65535"), Some(([255, 255, 255, 255], 65535)));
    assert_eq!(v4("1.2.3.4:0080"), Some(([1, 2, 3, 4], 80)));
    // an octet with a leading zero, or above 255, is no octet: the text is a hostname
    assert_eq!(dns("01.2.3.4:80"), Some(("01.2.3.4".to_string(), 80)));
    assert_eq!(dns("256.2.3.4:80"), Some(("256.2.3.4".to_string(), 80)));
    assert_eq!(dns("1.2.3:80"), Some(("1.2.3".to_string(), 80)));
    assert_eq!(dns("1.2.3.4.5:80"), Some(("1.2.3.4.5".to_string(), 80)));
    assert_eq!(dns("1.2.3.4:+80"), Some(("1.2.3.4".to_string(), 80)));
}

#[test]
fn ipv6_forms() {
    assert_eq!(v6("[::]:1"), Some(([0; 8], 1, 0)));
    assert_eq!(v6("[1:2:3:4:5:6:7:8]:9"), Some(([1, 2, 3, 4, 5, 6, 7, 8], 9, 0)));
    assert_eq!(v6("[1::]:9"), Some(([1, 0, 0, 0, 0, 0, 0, 0], 9, 0)));
    assert_eq!(v6("[1:2:3:4:5:6:7::]:9"), Some(([1, 2, 3, 4, 5, 6, 7, 0], 9, 0)));
    assert_eq!(v6("[::2:3:4:5:6:7:8]:9"), Some(([0, 2, 3, 4, 5, 6, 7, 8], 9, 0)));
    assert_eq!(v6("[ABCD:ef01::]:9"), Some(([0xabcd, 0xef01, 0, 0, 0, 0, 0, 0], 9, 0)));
    assert_eq!(v6("[::ffff:1.2.3.4]:9"), Some(([0, 0, 0, 0, 0, 0xffff, 0x0102, 0x0304], 9, 0)));
    assert_eq!(v6("[1:2:3:4:5:6:1.2.3.4]:9"), Some(([1, 2, 3, 4, 5, 6, 0x0102, 0x0304], 9, 0)));
    assert_eq!(v6("[fe80::1%12]:9"), Some(([0xfe80, 0, 0, 0, 0, 0, 0, 1], 9, 12)));
    assert_eq!(v6("[0:0:0:0:0:0:0:1]:4500"), Some((LOCALHOST_V6, 4500, 0)));
}

#[test]
fn ipv6_refused() {
    for text in [
        "[1:2:3:4:5:6:7]:9",
        "[1:2:3:4:5:6:7:8:9]:9",
        "[1:2:3:4:5:6:7:8::]:9",
        "[1::2::3]:9",
        "[1:::2]:9",
        "[12345::]:9",
        "[::g]:9",
        "[1.2.3.4::]:9",
        "[::1.2.3.4:5]:9",
        "[1:2:3:4:5:6::1.2.3.4]:9",
        "[::1%]:9",
        "[::1%x]:9",
        "[::1]",
        "[::1]:",
        "[::1]9",
        "::1:9x",
    ] {
        assert!(v6(text).is_none(), "{}", text);
    }
    // without its brackets an IPv6 address is read as a hostname with colons
    assert_eq!(dns("::1:9"), Some(("::1".to_string(), 9)));
}

#[test]
fn ipv6_text_forms() {
    let text_of = |ip: [u16; 8]| NetworkAddress::Ipv6(SocketAddrV6::new(ip, 1, 0)).to_string();
    assert_eq!(text_of([0; 8]), "[::]:1");
    assert_eq!(text_of([1, 2, 3, 4, 5, 6, 7, 8]), "[1:2:3:4:5:6:7:8]:1");
    // a single zero group is written out
    assert_eq!(text_of([1, 0, 3, 4, 5, 6, 7, 8]), "[1:0:3:4:5:6:7:8]:1");
    // of two runs of the same length the first is shortened
    assert_eq!(text_of([1, 0, 0, 4, 5, 0, 0, 8]), "[1::4:5:0:0:8]:1");
    // the longest run is shortened
    assert_eq!(text_of([1, 0, 0, 4, 0, 0, 0, 8]), "[1:0:0:4::8]:1");
    assert_eq!(text_of([0, 0, 0, 0, 0, 0, 0, 1]), "[::1]:1");
    assert_eq!(text_of([0xfe80, 0, 0, 0, 0, 0, 0, 0]), "[fe80::]:1");
    assert_eq!(text_of([0, 0, 0, 0, 0, 0xffff, 0xc0a8, 0x0101]), "[::ffff:192.168.1.1]:1");
    assert_eq!(text_of([0xabcd, 0x0ef0, 0x000a, 0, 0, 0, 0, 0x1000]), "[abcd:ef0:a::1000]:1");
    let scoped = NetworkAddress::Ipv6(SocketAddrV6::new([0xfe80, 0, 0, 0, 0, 0, 0, 1], 4500, 3));
    assert_eq!(scoped.to_string(), "[fe80::1%3]:4500");
}

#[test]
fn reading_the_text_gives_the_address_back() {
    let addresses = [
        NetworkAddress::Ipv4(SocketAddrV4::new([10, 20, 30, 40], 65535)),
        NetworkAddress::Ipv4(SocketAddrV4::new([0, 0, 0, 0], 0)),
        NetworkAddress::Ipv6(SocketAddrV6::new([0; 8], 0, 0)),
        NetworkAddress::Ipv6(SocketAddrV6::new([0, 0, 0, 0, 0, 0xffff, 1, 2], 80, 0)),
        NetworkAddress::Ipv6(SocketAddrV6::new([1, 0, 0, 0, 2, 0, 0, 0], 80, 4_000_000_000)),
        NetworkAddress::Ipv6(SocketAddrV6::new([0xffff; 8], 443, 1)),
        NetworkAddress::Dns { hostname: "a".to_string(), port: 1 },
        NetworkAddress::Dns { hostname: "h\u{f6}st.example".to_string(), port: 4500 },
    ];
    for address in addresses {
        assert_eq!(NetworkAddress::from_str(&address.to_string()), Ok(address));
    }
}

#[test]
fn parse_errors_in_words() {
    assert_eq!(
        ParseError::MissingPort.describe("hostname"),
        "Invalid network address format: 'hostname', expected 'host:port'"
    );
    assert_eq!(
        ParseError::ParsingHost.describe(":4500"),
        "Invalid network address: empty hostname in ':4500'"
    );
    assert_eq!(
        ParseError::ParsingPort.describe("hostname:invalid"),
        "Invalid port number in network address: 'hostname:invalid'"
    );
}

#[test]
fn the_trait_reads_as_the_type_does() {
    for text in ["10.0.0.1:4500", "[::1]:4500", "localhost:4500", "hostname", ":1", "a:b"] {
        assert_eq!(
            <NetworkAddress as std::str::FromStr>::from_str(text),
            NetworkAddress::from_str(text)
        );
        assert_eq!(
            <fdbexporter::status_models::address::Address as std::str::FromStr>::from_str(text),
            fdbexporter::status_models::address::Address::from_str(text)
        );
    }
}
