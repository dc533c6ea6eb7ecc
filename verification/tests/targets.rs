//! Target and port resolution behaviour.

use pocsuite_rs::addr::IpAddress;
use pocsuite_rs::discovery::targets::{ParseError, PortSetResolver, TargetResolver};

fn v4(a: u8, b: u8, c: u8, d: u8) -> IpAddress {
    IpAddress::V4(
        ((a as u32) << 24) | ((b as u32) << 16) | ((c as u32) << 8) | (d as u32),
    )
}

#[test]
fn cidr_block_expands_to_every_address_once() {
    let got = TargetResolver::resolve("192.168.1.0/30").unwrap();
    assert_eq!(
        got,
        vec![v4(192, 168, 1, 0), v4(192, 168, 1, 1), v4(192, 168, 1, 2), v4(192, 168, 1, 3)]
    );
}

#[test]
fn cidr_block_of_a_full_class_c() {
    let got = TargetResolver::resolve("10.1.2.0/24").unwrap();
    assert_eq!(got.len(), 256);
    assert_eq!(got[0], v4(10, 1, 2, 0));
    assert_eq!(got[255], v4(10, 1, 2, 255));
    for i in 0..got.len() {
        for j in 0..i {
            assert!(got[i] != got[j]);
        }
    }
}

#[test]
fn cidr_host_bits_are_masked_away() {
    let got = TargetResolver::resolve("192.0.2.9/30").unwrap();
    assert_eq!(
        got,
        vec![v4(192, 0, 2, 8), v4(192, 0, 2, 9), v4(192, 0, 2, 10), v4(192, 0, 2, 11)]
    );
}

#[test]
fn cidr_accepts_a_netmask_prefix() {
    let got = TargetResolver::resolve("10.0.0.0/255.255.255.252").unwrap();
    assert_eq!(got.len(), 4);
    assert_eq!(got[0], v4(10, 0, 0, 0));
}

#[test]
fn cidr_rejects_a_non_contiguous_netmask() {
    let got = TargetResolver::resolve("10.0.0.0/255.0.255.0");
    assert!(matches!(got, Err(ParseError::InvalidCidr { .. })));
}

#[test]
fn cidr_rejects_an_oversized_prefix() {
    let got = TargetResolver::resolve("10.0.0.0/33");
    assert!(matches!(got, Err(ParseError::InvalidCidr { .. })));
}

#[test]
fn ipv6_cidr_expands() {
    let got = TargetResolver::resolve("2001:db8::/126").unwrap();
    let base = 0x2001_0db8_0000_0000_0000_0000_0000_0000u128;
    assert_eq!(
        got,
        vec![
            IpAddress::V6(base),
            IpAddress::V6(base + 1),
            IpAddress::V6(base + 2),
            IpAddress::V6(base + 3)
        ]
    );
}

#[test]
fn ascending_range_expands_in_order() {
    let got = TargetResolver::resolve("10.0.0.1-10.0.0.3").unwrap();
    assert_eq!(got, vec![v4(10, 0, 0, 1), v4(10, 0, 0, 2), v4(10, 0, 0, 3)]);
}

#[test]
fn reversed_range_yields_no_addresses_and_no_error() {
    let got = TargetResolver::resolve("10.0.0.5-10.0.0.1").unwrap();
    assert_eq!(got, Vec::new());
}

#[test]
fn range_endpoints_are_trimmed() {
    let got = TargetResolver::resolve(" 10.0.0.1 - 10.0.0.2 ").unwrap();
    assert_eq!(got, vec![v4(10, 0, 0, 1), v4(10, 0, 0, 2)]);
}

#[test]
fn range_crossing_versions_is_a_version_mismatch() {
    let got = TargetResolver::resolve("10.0.0.1-::1");
    assert!(matches!(got, Err(ParseError::VersionMismatch)));
}

#[test]
fn range_with_three_endpoints_is_rejected() {
    let got = TargetResolver::resolve("1.2.3.4-5.6.7.8-9.9.9.9");
    assert!(matches!(got, Err(ParseError::InvalidRange { .. })));
}

#[test]
fn ipv6_range_varies_only_the_last_segment() {
    let got = TargetResolver::resolve("fe80::1-fe80::3").unwrap();
    let base = 0xfe80_0000_0000_0000_0000_0000_0000_0000u128;
    assert_eq!(
        got,
        vec![IpAddress::V6(base + 1), IpAddress::V6(base + 2), IpAddress::V6(base + 3)]
    );
}

#[test]
fn ipv6_range_with_differing_upper_segments_is_empty() {
    let got = TargetResolver::resolve("fe80::1-fe81::3").unwrap();
    assert_eq!(got, Vec::new());
}

#[test]
fn atoms_are_joined_and_deduplicated() {
    let got = TargetResolver::resolve("10.0.0.2, 10.0.0.1-10.0.0.3 ,10.0.0.2").unwrap();
    assert_eq!(got, vec![v4(10, 0, 0, 2), v4(10, 0, 0, 1), v4(10, 0, 0, 3)]);
}

#[test]
fn a_bad_atom_aborts_the_whole_resolution() {
    let got = TargetResolver::resolve("10.0.0.1,not-an-address");
    assert!(got.is_err());
}

#[test]
fn single_bad_address_names_the_token() {
    match TargetResolver::resolve("10.0.0.256") {
        Err(ParseError::InvalidAddress { token }) => assert_eq!(token, "10.0.0.256"),
        other => panic!("unexpected: {:?}", other.is_ok()),
    }
}

#[test]
fn default_ports_are_served_without_a_specification() {
    let got = PortSetResolver::resolve(None).unwrap();
    assert_eq!(
        got,
        vec![21, 22, 23, 25, 53, 80, 110, 139, 443, 445, 1433, 1521, 3306, 3389, 5432, 6379, 8080]
    );
}

#[test]
fn port_atoms_and_ranges_expand_exactly() {
    let got = PortSetResolver::resolve(Some("80,443,8000-8002")).unwrap();
    assert_eq!(got, vec![80, 443, 8000, 8001, 8002]);
}

#[test]
fn ports_are_deduplicated_keeping_first_occurrences() {
    let got = PortSetResolver::resolve(Some("80,443,80,443-445")).unwrap();
    assert_eq!(got, vec![80, 443, 444, 445]);
}

#[test]
fn a_non_port_fails_with_an_invalid_port_error() {
    match PortSetResolver::resolve(Some("notaport")) {
        Err(ParseError::InvalidPort { token }) => assert_eq!(token, "notaport"),
        _ => panic!("expected an invalid-port rejection"),
    }
}

#[test]
fn a_reversed_port_range_is_empty() {
    let got = PortSetResolver::resolve(Some("90-80,22")).unwrap();
    assert_eq!(got, vec![22]);
}

#[test]
fn a_dash_atom_without_two_endpoints_is_rejected() {
    match PortSetResolver::resolve(Some("1-2-3,22")) {
        Err(ParseError::InvalidPort { token }) => assert_eq!(token, "1-2-3"),
        _ => panic!("expected an invalid-port rejection"),
    }
}

#[test]
fn a_signed_port_is_accepted_as_the_integer_parser_does() {
    let got = PortSetResolver::resolve(Some("+80")).unwrap();
    assert_eq!(got, vec![80]);
}

#[test]
fn an_oversized_port_is_rejected() {
    assert!(PortSetResolver::resolve(Some("65536")).is_err());
}

#[test]
fn parse_error_messages_name_the_failure() {
    let e = TargetResolver::resolve("1.2.3.4-::1").unwrap_err();
    assert_eq!(e.message(), "IP版本不匹配");
    let e = PortSetResolver::resolve(Some("x")).unwrap_err();
    assert_eq!(e.message(), "无效的端口: x");
}
