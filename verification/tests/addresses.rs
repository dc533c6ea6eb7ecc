//! Address literal parsing, against the standard parsers' grammar.

use pocsuite_rs::addr::{parse_ip, parse_ipv4, parse_ipv6, IpAddress};

#[test]
fn dotted_quads_parse_to_their_value() {
    assert_eq!(parse_ipv4("0.0.0.0"), Some(0));
    assert_eq!(parse_ipv4("10.0.0.1"), Some(0x0a000001));
    assert_eq!(parse_ipv4("255.255.255.255"), Some(0xffffffff));
}

#[test]
fn bad_dotted_quads_are_rejected() {
    assert_eq!(parse_ipv4("10.0.0.256"), None);
    assert_eq!(parse_ipv4("10.0.0"), None);
    assert_eq!(parse_ipv4("10.0.0.1.2"), None);
    assert_eq!(parse_ipv4("01.2.3.4"), None);
    assert_eq!(parse_ipv4("1..2.3"), None);
    assert_eq!(parse_ipv4(""), None);
    assert_eq!(parse_ipv4("10.0.0.1 "), None);
}

#[test]
fn full_ipv6_form_parses() {
    assert_eq!(
        parse_ipv6("1:2:3:4:5:6:7:8"),
        Some(0x0001_0002_0003_0004_0005_0006_0007_0008)
    );
    assert_eq!(
        parse_ipv6("2001:db8:0:0:0:0:0:1"),
        Some(0x2001_0db8_0000_0000_0000_0000_0000_0001)
    );
}

#[test]
fn compressed_ipv6_forms_parse() {
    assert_eq!(parse_ipv6("::"), Some(0));
    assert_eq!(parse_ipv6("::1"), Some(1));
    assert_eq!(parse_ipv6("1::"), Some(0x0001_0000_0000_0000_0000_0000_0000_0000));
    assert_eq!(
        parse_ipv6("2001:db8::7:8"),
        Some(0x2001_0db8_0000_0000_0000_0000_0007_0008)
    );
    assert_eq!(
        parse_ipv6("1:2:3:4:5:6:7::"),
        Some(0x0001_0002_0003_0004_0005_0006_0007_0000)
    );
}

#[test]
fn embedded_ipv4_tails_parse() {
    assert_eq!(parse_ipv6("::ffff:192.168.1.1"), Some(0xffff_c0a8_0101));
    assert_eq!(
        parse_ipv6("1:2:3:4:5:6:7.8.9.10"),
        Some(0x0001_0002_0003_0004_0005_0006_0708_090a)
    );
}

#[test]
fn bad_ipv6_forms_are_rejected() {
    assert_eq!(parse_ipv6("1:2:3:4:5:6:7"), None);
    assert_eq!(parse_ipv6("1:2:3:4:5:6:7:8:9"), None);
    assert_eq!(parse_ipv6("1:2:3:4:5:6:7:8::"), None);
    assert_eq!(parse_ipv6(":::"), None);
    assert_eq!(parse_ipv6("1::2::3"), None);
    assert_eq!(parse_ipv6("fe80::1%eth0"), None);
    assert_eq!(parse_ipv6("12345::"), None);
    assert_eq!(parse_ipv6("g::1"), None);
}

#[test]
fn either_version_is_tried_in_order() {
    assert_eq!(parse_ip("127.0.0.1"), Some(IpAddress::V4(0x7f000001)));
    assert_eq!(parse_ip("::1"), Some(IpAddress::V6(1)));
    assert_eq!(parse_ip("localhost"), None);
}

#[test]
fn group_case_and_leading_zeros_are_tolerated_in_ipv6() {
    assert_eq!(parse_ipv6("00ff:ABCD::"), Some(0x00ff_abcd_0000_0000_0000_0000_0000_0000));
}
