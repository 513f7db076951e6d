use packet_sniffer::record::{PacketRecord, ThreatLevel};
use packet_sniffer::threat::{detect_threat_level, is_private_ip};

fn record(
    dst_ip: Option<&str>,
    src_port: Option<u16>,
    dst_port: Option<u16>,
    protocol: &str,
    packet_size: usize,
) -> PacketRecord {
    PacketRecord {
        timestamp_millis: 0,
        packet_number: 1,
        src_mac: String::new(),
        dst_mac: String::new(),
        src_ip: Some("192.168.1.2".to_string()),
        dst_ip: dst_ip.map(|s| s.to_string()),
        protocol: protocol.to_string(),
        src_port,
        dst_port,
        packet_size,
        flags: None,
        payload_size: 0,
        application_protocol: None,
        description: String::new(),
        threat_level: ThreatLevel::Safe,
        geo_info: None,
    }
}

#[test]
fn private_ranges() {
    assert!(is_private_ip("10.1.2.3"));
    assert!(is_private_ip("192.168.0.1"));
    assert!(is_private_ip("127.0.0.1"));
    assert!(is_private_ip("::1"));
    assert!(is_private_ip("fe80::1"));
    assert!(is_private_ip("172.16.0.1"));
    assert!(is_private_ip("172.31.255.255"));
    assert!(!is_private_ip("172.32.0.1"));
    assert!(!is_private_ip("172.15.0.1"));
    assert!(!is_private_ip("8.8.8.8"));
    assert!(!is_private_ip("110.1.1.1"));
}

#[test]
fn rdp_to_public_address_is_medium() {
    // Port 3389 scores three, a public destination one, a 100-byte frame
    // and TCP nothing: four in all.
    let r = record(Some("93.184.216.34"), Some(50000), Some(3389), "TCP", 100);
    assert_eq!(detect_threat_level(&r), ThreatLevel::Medium);
}

#[test]
fn plain_web_traffic_is_safe() {
    // Port 443 scores nothing, a private destination nothing, a normal
    // size nothing, TCP nothing.
    let r = record(Some("192.168.1.9"), Some(40000), Some(443), "TCP", 500);
    assert_eq!(detect_threat_level(&r), ThreatLevel::Safe);
}

#[test]
fn classification_is_deterministic() {
    let a = record(Some("93.184.216.34"), Some(50000), Some(3389), "TCP", 100);
    let b = record(Some("93.184.216.34"), Some(50000), Some(3389), "TCP", 100);
    assert_eq!(detect_threat_level(&a), detect_threat_level(&b));
}

#[test]
fn destination_port_preferred_over_source() {
    // The source port alone is used when the destination port is absent.
    let by_src = record(Some("192.168.1.9"), Some(23), None, "TCP", 500);
    assert_eq!(detect_threat_level(&by_src), ThreatLevel::Low);
    // A harmless destination port hides a risky source port.
    let by_dst = record(Some("192.168.1.9"), Some(23), Some(443), "TCP", 500);
    assert_eq!(detect_threat_level(&by_dst), ThreatLevel::Safe);
}

#[test]
fn link_local_prefix_heuristic_adds_two() {
    // 169.254.1.1 is not in the private list, so it takes the public
    // point and the two-point prefix heuristic: three in all, Low.
    let r = record(Some("169.254.1.1"), Some(40000), Some(443), "TCP", 500);
    assert_eq!(detect_threat_level(&r), ThreatLevel::Low);
}

#[test]
fn udp_off_dns_adds_one() {
    // UDP to port 9999 to a public address: one for UDP, one for public.
    let r = record(Some("93.184.216.34"), Some(40000), Some(9999), "UDP", 500);
    assert_eq!(detect_threat_level(&r), ThreatLevel::Low);
    // UDP to port 53 is DNS: the public point alone, Safe.
    let dns = record(Some("93.184.216.34"), Some(40000), Some(53), "UDP", 500);
    assert_eq!(detect_threat_level(&dns), ThreatLevel::Safe);
}

#[test]
fn icmp_adds_one() {
    let r = record(Some("93.184.216.34"), None, None, "ICMP", 500);
    assert_eq!(detect_threat_level(&r), ThreatLevel::Low);
}

#[test]
fn runt_and_jumbo_sizes_add_one() {
    let runt = record(Some("192.168.1.9"), Some(40000), Some(443), "TCP", 60);
    assert_eq!(detect_threat_level(&runt), ThreatLevel::Safe);
    let jumbo = record(Some("93.184.216.34"), Some(40000), Some(23), "TCP", 2000);
    // Three for telnet, one public, one oversize: Medium.
    assert_eq!(detect_threat_level(&jumbo), ThreatLevel::Medium);
}

#[test]
fn stacked_signals_reach_critical() {
    // Telnet port (three), public with the 169.254. heuristic (three),
    // runt frame (one), ICMP (one): eight, Critical.
    let r = record(Some("169.254.9.9"), None, Some(23), "ICMP", 32);
    assert_eq!(detect_threat_level(&r), ThreatLevel::Critical);
}

#[test]
fn high_band_scores() {
    // Telnet (three), public (one), oversize (one), UDP off DNS (one):
    // six, High.
    let r = record(Some("93.184.216.34"), None, Some(23), "UDP", 2000);
    assert_eq!(detect_threat_level(&r), ThreatLevel::High);
}

#[test]
fn absent_fields_are_neutral() {
    let r = record(None, None, None, "TCP", 500);
    assert_eq!(detect_threat_level(&r), ThreatLevel::Safe);
}
