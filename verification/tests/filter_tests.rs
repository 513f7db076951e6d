use packet_sniffer::filter::{
    is_valid_protocol, should_capture_packet, FilterSubject, FilterTransport,
};

fn tcp(src: u16, dst: u16) -> FilterSubject {
    FilterSubject::Ipv4(FilterTransport::Tcp { ports: Some((src, dst)) })
}

fn udp(src: u16, dst: u16) -> FilterSubject {
    FilterSubject::Ipv4(FilterTransport::Udp { ports: Some((src, dst)) })
}

#[test]
fn valid_protocol_names() {
    assert!(is_valid_protocol("tcp"));
    assert!(is_valid_protocol("UDP"));
    assert!(is_valid_protocol("IcMp"));
    assert!(is_valid_protocol("http"));
    assert!(is_valid_protocol("DNS"));
    assert!(!is_valid_protocol("ftp"));
    assert!(!is_valid_protocol(""));
    assert!(!is_valid_protocol("tcp "));
}

#[test]
fn http_filter_accepts_web_ports_only() {
    assert!(should_capture_packet(&tcp(50000, 80), Some("http"), None));
    assert!(should_capture_packet(&tcp(80, 50000), Some("http"), None));
    assert!(should_capture_packet(&tcp(50000, 8080), Some("http"), None));
    assert!(should_capture_packet(&tcp(8080, 50000), Some("http"), None));
    assert!(!should_capture_packet(&tcp(50000, 443), Some("http"), None));
    assert!(!should_capture_packet(&udp(50000, 80), Some("http"), None));
    assert!(!should_capture_packet(
        &FilterSubject::Ipv4(FilterTransport::Tcp { ports: None }),
        Some("http"),
        None
    ));
    assert!(!should_capture_packet(
        &FilterSubject::Ipv4(FilterTransport::Icmp),
        Some("http"),
        None
    ));
}

#[test]
fn dns_filter_accepts_udp_53_only() {
    assert!(should_capture_packet(&udp(50000, 53), Some("dns"), None));
    assert!(should_capture_packet(&udp(53, 50000), Some("dns"), None));
    assert!(!should_capture_packet(&udp(50000, 5353), Some("dns"), None));
    assert!(!should_capture_packet(&tcp(50000, 53), Some("dns"), None));
}

#[test]
fn transport_filters_match_their_transport() {
    assert!(should_capture_packet(&tcp(1, 2), Some("tcp"), None));
    assert!(!should_capture_packet(&udp(1, 2), Some("tcp"), None));
    assert!(should_capture_packet(&udp(1, 2), Some("udp"), None));
    assert!(!should_capture_packet(&tcp(1, 2), Some("udp"), None));
    assert!(should_capture_packet(
        &FilterSubject::Ipv4(FilterTransport::Icmp),
        Some("icmp"),
        None
    ));
    assert!(!should_capture_packet(&tcp(1, 2), Some("icmp"), None));
}

#[test]
fn filters_are_case_insensitive() {
    assert!(should_capture_packet(&tcp(1, 2), Some("TCP"), None));
    assert!(should_capture_packet(&tcp(50000, 80), Some("HtTp"), None));
}

#[test]
fn unrecognized_filter_accepts_everything_ipv4() {
    assert!(should_capture_packet(&tcp(1, 2), Some("quic"), None));
    assert!(should_capture_packet(&udp(1, 2), Some("quic"), None));
    assert!(should_capture_packet(
        &FilterSubject::Ipv4(FilterTransport::Other),
        Some("quic"),
        None
    ));
}

#[test]
fn port_filter_matches_either_side() {
    assert!(should_capture_packet(&tcp(443, 50000), None, Some(443)));
    assert!(should_capture_packet(&tcp(50000, 443), None, Some(443)));
    assert!(!should_capture_packet(&tcp(50000, 80), None, Some(443)));
    assert!(should_capture_packet(&udp(53, 50000), None, Some(53)));
    assert!(!should_capture_packet(
        &FilterSubject::Ipv4(FilterTransport::Icmp),
        None,
        Some(53)
    ));
}

#[test]
fn protocol_and_port_filters_combine() {
    assert!(should_capture_packet(&tcp(50000, 443), Some("tcp"), Some(443)));
    assert!(!should_capture_packet(&tcp(50000, 80), Some("tcp"), Some(443)));
    // The http filter decides alone and ignores the port filter.
    assert!(should_capture_packet(&tcp(50000, 80), Some("http"), Some(443)));
}

#[test]
fn non_ipv4_frames() {
    assert!(!should_capture_packet(&FilterSubject::NonIpv4, None, None));
    assert!(!should_capture_packet(&FilterSubject::NonIpv4, Some("quic"), None));
    assert!(should_capture_packet(&FilterSubject::NotEthernet, Some("tcp"), Some(1)));
    assert!(should_capture_packet(&FilterSubject::Ipv4Unparsed, Some("tcp"), Some(1)));
}
