use fdbexporter::status_models::address::Address;
use fdbexporter::status_models::network_address::{NetworkAddress, ParseError};

fn text_of(json: serde_json::Value) -> String {
    serde_json::from_value(json).unwrap()
}

#[test]
fn ipv4_without_tls() {
    let addr = "127.0.0.1:1234";
    let json = serde_json::Value::String(addr.to_string());
    let deserialized: Address = text_of(json).parse().unwrap();
    assert_eq!(deserialized.address.to_string(), "127.0.0.1:1234");
    assert!(!deserialized.tls);

    let round_trip = deserialized.to_string();
    assert_eq!(round_trip, addr)
}

#[test]
fn ipv4_with_tls() {
    let addr = "127.0.0.1:1234:tls";
    let json = serde_json::Value::String(addr.to_string());
    let deserialized: Address = text_of(json).parse().unwrap();
    assert_eq!(deserialized.address.to_string(), "127.0.0.1:1234");
    assert!(deserialized.tls);

    let round_trip = deserialized.to_string();
    assert_eq!(round_trip, addr)
}

#[test]
fn ipv6_without_tls() {
    let addr = "[::1]:4500";
    let json = serde_json::Value::String(addr.to_string());
    let deserialized: Address = text_of(json).parse().unwrap();
    assert_eq!(deserialized.address.to_string(), "[::1]:4500");
    assert!(!deserialized.tls);

    let round_trip = deserialized.to_string();
    assert_eq!(round_trip, addr)
}

#[test]
fn ipv6_with_tls() {
    let addr = "[::1]:4500:tls";
    let json = serde_json::Value::String(addr.to_string());
    let deserialized: Address = text_of(json).parse().unwrap();
    assert_eq!(deserialized.address.to_string(), "[::1]:4500");
    assert!(deserialized.tls);

    let round_trip = deserialized.to_string();
    assert_eq!(round_trip, addr)
}

#[test]
fn hostname_without_tls() {
    let addr = "somedomain.com:4500";
    let parsed = Address::from_str(addr).unwrap();
    assert_eq!(
        parsed.address,
        NetworkAddress::Dns { hostname: "somedomain.com".to_string(), port: 4500 }
    );
    assert!(!parsed.tls);
    assert_eq!(parsed.to_string(), addr);
}

#[test]
fn hostname_with_tls() {
    let addr = "somedomain.com:4500:tls";
    let parsed = Address::from_str(addr).unwrap();
    assert_eq!(
        parsed.address,
        NetworkAddress::Dns { hostname: "somedomain.com".to_string(), port: 4500 }
    );
    assert!(parsed.tls);
    assert_eq!(parsed.to_string(), addr);
}

#[test]
fn endpoint_errors() {
    assert_eq!(Address::from_str("hostname").unwrap_err(), ParseError::MissingPort);
    assert_eq!(Address::from_str(":4500").unwrap_err(), ParseError::ParsingHost);
    assert_eq!(Address::from_str("hostname:notaport").unwrap_err(), ParseError::ParsingPort);
    assert_eq!(Address::from_str("hostname:tls").unwrap_err(), ParseError::MissingPort);
    assert_eq!(Address::from_str(":tls").unwrap_err(), ParseError::MissingPort);
    assert_eq!(Address::from_str("").unwrap_err(), ParseError::MissingPort);
}

#[test]
fn only_one_mark_is_taken_off() {
    assert_eq!(Address::from_str("1.2.3.4:80:tls:tls").unwrap_err(), ParseError::ParsingPort);
}

#[test]
fn round_trip_of_every_shape() {
    for text in [
        "10.0.0.1:4500",
        "10.0.0.1:4500:tls",
        "[2001:db8::1]:4501",
        "[2001:db8::1]:4501:tls",
        "[::ffff:192.168.1.1]:80",
        "[fe80::1%7]:4500:tls",
        "localhost:4500",
        "fdb.example.com:4501:tls",
    ] {
        let parsed = Address::from_str(text).unwrap();
        assert_eq!(parsed.to_string(), text);
        assert_eq!(Address::from_str(&parsed.to_string()).unwrap(), parsed);
    }
}

#[test]
fn texts_not_written_plainly_are_written_plainly() {
    for (text, plain) in [
        ("[0:0:0:0:0:0:0:1]:4500", "[::1]:4500"),
        ("[2001:DB8::1]:4501", "[2001:db8::1]:4501"),
        ("[2001:0db8::0001]:4501", "[2001:db8::1]:4501"),
        ("[1::2:0:0:0:3]:80", "[1:0:0:2::3]:80"),
        ("[1:0:0:0:2:3::]:80", "[1::2:3:0:0]:80"),
        ("[::ffff:102:304]:80:tls", "[::ffff:1.2.3.4]:80:tls"),
        ("[::1%0]:4500", "[::1]:4500"),
        ("[::1%007]:4500", "[::1%7]:4500"),
        ("1.2.3.4:0080", "1.2.3.4:80"),
        ("host:+80:tls", "host:80:tls"),
        ("host:00000", "host:0"),
    ] {
        let parsed = Address::from_str(text).unwrap();
        assert_eq!(parsed.to_string(), plain);
        assert_eq!(Address::from_str(plain).unwrap(), parsed);
    }
}

#[test]
fn plus_sign_before_the_port_of_an_ip_literal() {
    // with a plus sign the text is no socket address, so it is read as a hostname
    let parsed = Address::from_str("1.2.3.4:+80").unwrap();
    assert_eq!(
        parsed.address,
        NetworkAddress::Dns { hostname: "1.2.3.4".to_string(), port: 80 }
    );
    // written without the sign, it reads as a socket address
    assert_eq!(parsed.to_string(), "1.2.3.4:80");
    assert!(matches!(
        Address::from_str("1.2.3.4:80").unwrap().address,
        NetworkAddress::Ipv4(_)
    ));
}
