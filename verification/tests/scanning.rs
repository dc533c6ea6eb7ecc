//! The scan state machine and service identification, driven with synthetic
//! probe outcomes.

use pocsuite_rs::addr::IpAddress;
use pocsuite_rs::discovery::scanner::{ScanEvent, ScanProbe, ScanSession, Scanner};
use pocsuite_rs::discovery::service::ServiceIdentifier;
use pocsuite_rs::discovery::DiscoveryError;

fn v4(a: u8, b: u8, c: u8, d: u8) -> IpAddress {
    IpAddress::V4(
        ((a as u32) << 24) | ((b as u32) << 16) | ((c as u32) << 8) | (d as u32),
    )
}

#[test]
fn a_dead_address_produces_no_host_entry() {
    let mut s = ScanSession::new(vec![v4(10, 0, 0, 1)], vec![80]);
    assert_eq!(s.next_probe(), Some(ScanProbe::Liveness { ip: v4(10, 0, 0, 1) }));
    s.feed(ScanEvent::ConnectResult { open: false });
    assert!(s.is_finished());
    let hosts = s.into_hosts();
    assert_eq!(hosts.len(), 0);
}

#[test]
fn end_to_end_block_scan_with_one_listener() {
    // resolve the block, probe each address once on port 80
    let ips = Scanner::new("192.0.2.0/30".to_string(), Some("80".to_string()), 4)
        .parse_target()
        .unwrap();
    assert_eq!(ips.len(), 4);
    let mut s = ScanSession::new(ips, vec![80]);
    // first address: dead
    assert_eq!(s.next_probe(), Some(ScanProbe::Liveness { ip: v4(192, 0, 2, 0) }));
    s.feed(ScanEvent::ConnectResult { open: false });
    // second address: alive, port 80 open, banner readable
    assert_eq!(s.next_probe(), Some(ScanProbe::Liveness { ip: v4(192, 0, 2, 1) }));
    s.feed(ScanEvent::ConnectResult { open: true });
    assert_eq!(s.next_probe(), Some(ScanProbe::Port { ip: v4(192, 0, 2, 1), port: 80 }));
    s.feed(ScanEvent::ConnectResult { open: true });
    assert_eq!(s.next_probe(), Some(ScanProbe::Banner { ip: v4(192, 0, 2, 1), port: 80 }));
    s.feed(ScanEvent::BannerResult { banner: Ok(None) });
    // remaining addresses: dead
    s.feed(ScanEvent::ConnectResult { open: false });
    s.feed(ScanEvent::ConnectResult { open: false });
    assert!(s.is_finished());
    assert_eq!(s.next_probe(), None);
    let hosts = s.into_hosts();
    assert_eq!(hosts.len(), 1);
    assert_eq!(hosts[0].ip, v4(192, 0, 2, 1));
    assert!(hosts[0].is_alive);
    assert!(hosts[0].hostname.is_none());
    let svc = hosts[0].ports.get(&80).expect("port 80 must be recorded");
    assert_eq!(svc.name, "http");
    assert_eq!(svc.version, None);
    assert_eq!(svc.banner, None);
}

#[test]
fn a_failed_identification_omits_the_port() {
    let mut s = ScanSession::new(vec![v4(10, 0, 0, 9)], vec![22, 23]);
    s.feed(ScanEvent::ConnectResult { open: true });
    // port 22 open but its banner read fails
    s.feed(ScanEvent::ConnectResult { open: true });
    s.feed(ScanEvent::BannerResult {
        banner: Err(DiscoveryError::NetworkError("reset".to_string())),
    });
    // port 23 closed
    s.feed(ScanEvent::ConnectResult { open: false });
    let hosts = s.into_hosts();
    assert_eq!(hosts.len(), 1);
    assert!(hosts[0].ports.is_empty());
}

#[test]
fn an_alive_host_with_no_ports_to_scan_is_still_emitted() {
    let mut s = ScanSession::new(vec![v4(10, 0, 0, 7)], Vec::new());
    s.feed(ScanEvent::ConnectResult { open: true });
    let hosts = s.into_hosts();
    assert_eq!(hosts.len(), 1);
    assert_eq!(hosts[0].ip, v4(10, 0, 0, 7));
    assert!(hosts[0].ports.is_empty());
}

#[test]
fn scanner_resolves_ports_and_reports_spec_errors() {
    let s = Scanner::new("10.0.0.1".to_string(), Some("80,x".to_string()), 1);
    match s.parse_ports() {
        Err(DiscoveryError::InvalidParameter(m)) => assert_eq!(m, "无效的端口: x"),
        _ => panic!("expected an invalid parameter"),
    }
    let s = Scanner::new("bad".to_string(), None, 1);
    assert!(matches!(s.parse_target(), Err(DiscoveryError::InvalidParameter(_))));
}

#[test]
fn begin_scan_checks_ports_before_targets() {
    let s = Scanner::new("bad".to_string(), Some("alsobad".to_string()), 1);
    match s.begin_scan() {
        Err(DiscoveryError::InvalidParameter(m)) => {
            assert_eq!(m, "无效的端口: alsobad")
        },
        _ => panic!("expected the port error first"),
    }
}

#[test]
fn begin_scan_builds_the_session_over_resolved_inputs() {
    let s = Scanner::new("10.0.0.1,10.0.0.2".to_string(), Some("80,443".to_string()), 16);
    let (config, session) = s.begin_scan().unwrap();
    assert_eq!(config.target, "10.0.0.1,10.0.0.2");
    assert_eq!(config.ports, vec![80, 443]);
    assert_eq!(config.timeout_secs, 5);
    assert_eq!(config.concurrency, 16);
    assert_eq!(session.ips, vec![v4(10, 0, 0, 1), v4(10, 0, 0, 2)]);
    assert_eq!(session.ports, vec![80, 443]);
}

#[test]
fn fallback_identification_reports_an_unknown_service() {
    let s = Scanner::new("10.0.0.1".to_string(), None, 1);
    let svc = s.identify_service(v4(10, 0, 0, 1), 4444).unwrap();
    assert_eq!(svc.name, "unknown_4444");
    assert_eq!(svc.version, None);
    assert_eq!(svc.banner, None);
}

#[test]
fn ssh_banners_yield_their_version_token() {
    let ident = ServiceIdentifier::new();
    // the version is the second whitespace-delimited token of the banner
    let banner = Some("SSH-2.0-OpenSSH_8.9 Ubuntu-3".to_string());
    assert_eq!(ident.parse_ssh_version(&banner), Some("Ubuntu-3".to_string()));
    assert_eq!(ident.parse_ssh_version(&Some("SSH-2.0".to_string())), None);
    assert_eq!(ident.parse_ssh_version(&Some("HTTP/1.1 200 OK".to_string())), None);
    assert_eq!(ident.parse_ssh_version(&None), None);
}

#[test]
fn http_banners_yield_the_server_header() {
    let ident = ServiceIdentifier::new();
    let banner = Some("HTTP/1.1 200 OK\r\nServer: nginx/1.24\r\nDate: x\r\n".to_string());
    assert_eq!(ident.parse_http_version(&banner), Some("nginx/1.24".to_string()));
    assert_eq!(ident.parse_http_version(&Some("HTTP/1.1 200 OK\r\n".to_string())), None);
}

#[test]
fn mysql_and_redis_banners_are_matched_by_substring() {
    let ident = ServiceIdentifier::new();
    assert_eq!(
        ident.parse_mysql_version(&Some("  5.7.40-mysql  ".to_string())),
        Some("5.7.40-mysql".to_string())
    );
    assert_eq!(ident.parse_mysql_version(&Some("mariadb".to_string())), None);
    assert_eq!(
        ident.parse_redis_version(&Some("redis_version:7.0\n".to_string())),
        Some("redis_version:7.0".to_string())
    );
}

#[test]
fn classification_uses_the_port_table() {
    let ident = ServiceIdentifier::new();
    let sshd = ident.classify(22, Some("SSH-2.0-OpenSSH_9.6 banner".to_string()));
    assert_eq!(sshd.name, "ssh");
    assert_eq!(sshd.version, Some("banner".to_string()));
    assert_eq!(sshd.banner, Some("SSH-2.0-OpenSSH_9.6 banner".to_string()));
    let ftp = ident.classify(21, None);
    assert_eq!(ftp.name, "ftp");
    assert_eq!(ftp.version, None);
    let other = ident.classify(31337, None);
    assert_eq!(other.name, "unknown_31337");
}

#[test]
fn discovery_error_messages_render_like_the_error_type() {
    assert_eq!(
        DiscoveryError::NetworkError("refused".to_string()).message(),
        "Network error: refused"
    );
    assert_eq!(DiscoveryError::TimeoutError.message(), "Operation timeout");
}
