use std::str::FromStr;

use fetch_cache::ip::IPParseError;
use fetch_cache::ip::IPv4Address;
use fetch_cache::ip::IPv6Address;

fn check_parse_format_v4(x: &str) {
    let parsed = IPv4Address::from_str(x);
    assert!(parsed.is_ok(), "Failed to parse {:?}: {:?}", x, parsed);
    assert_eq!(
        parsed.as_ref().unwrap().to_string(),
        x,
        "Rendering does not match original: {:?}",
        parsed
    );
}

fn check_parse_format_v6(x: &str) {
    let parsed = IPv6Address::from_str(x);
    assert!(parsed.is_ok(), "Failed to parse {:?}: {:?}", x, parsed);
    assert_eq!(
        parsed.as_ref().unwrap().to_string(),
        x,
        "Rendering does not match original: {:?}",
        parsed
    );
}

#[test]
fn check_ipv6() {
    check_parse_format_v6("::");
    check_parse_format_v6("ffff:ffff:ffff:ffff:ffff:ffff:ffff:ffff");
    check_parse_format_v6("::1");
    check_parse_format_v6("::ffff:0:0");
    check_parse_format_v6("64:ff9b::");
    check_parse_format_v6("100::ffff:ffff:ffff:ffff");
    check_parse_format_v6("2041:0:140f::875c:131d");
    check_parse_format_v6("1234:5678::9abc:0:0:def");
    check_parse_format_v6("1:2:3:4:5:6:7:8");

    assert_eq!(
        IPv6Address::from_str("ffff:ffff:ffff:ffff:ffff:ffff"),
        Err(IPParseError::MissingSections)
    );
    assert_eq!(
        IPv6Address::from_str("1:2:3:4:5:6:7:8:9"),
        Err(IPParseError::TooManySections)
    );
    assert!(IPv6Address::from_str("1::2:3::4").is_err());
    assert!(IPv4Address::from_str("1:2:3:4::5:6:7:8").is_err());
    assert!(IPv4Address::from_str("1").is_err());
}

#[test]
fn check_ipv4() {
    check_parse_format_v4("0.0.0.0");
    check_parse_format_v4("123.234.56.78");
    check_parse_format_v4("255.255.255.255");

    assert_eq!(
        IPv4Address::from_str("1.2.3"),
        Err(IPParseError::MissingSections)
    );
    assert_eq!(
        IPv4Address::from_str("1.2.3.4.5"),
        Err(IPParseError::TooManySections)
    );
    assert!(IPv4Address::from_str("1.2.ff.4").is_err());
    assert!(IPv4Address::from_str("123.234.56.78-").is_err());
    assert!(IPv4Address::from_str("....").is_err());
}

#[test]
fn ipv4_octet_round_trip() {
    let addr = IPv4Address::from([10u8, 0u8, 42u8, 7u8]);
    assert_eq!(addr.octets(), (10, 0, 42, 7));
    assert_eq!(addr.to_string(), "10.0.42.7");
    assert_eq!(IPv4Address::from_str("10.0.42.7"), Ok(addr));
}

#[test]
fn ipv6_group_round_trip() {
    let addr = IPv6Address::from([0x2041, 0, 0x140f, 0, 0, 0, 0x875c, 0x131d]);
    assert_eq!(addr.to_string(), "2041:0:140f::875c:131d");
    assert_eq!(IPv6Address::from_str("2041:0:140f::875c:131d"), Ok(addr));
}

#[test]
fn ipv6_error_details() {
    assert_eq!(
        IPv6Address::from_str("1::2:3::4"),
        Err(IPParseError::MultipleZerosOmitted)
    );
    assert_eq!(
        IPv6Address::from_str(":1:2:3:4:5:6:7"),
        Err(IPParseError::MissingSections)
    );
    assert_eq!(
        IPv6Address::from_str("1:2:zz::4"),
        Err(IPParseError::UnableToReadSection)
    );
}

#[test]
fn ip_range_contains() {
    let range = fetch_cache::ip::IpRange::new(10u32, 20u32);
    assert!(range.contains(&10));
    assert!(range.contains(&15));
    assert!(range.contains(&20));
    assert!(!range.contains(&9));
    assert!(!range.contains(&21));
    let single = fetch_cache::ip::IpRange::single(7u32);
    assert!(single.contains(&7));
    assert!(!single.contains(&8));
}
