use packet_sniffer::describe::{
    build_packet_record, detect_application_protocol, format_packet_description, get_geo_info,
    tcp_flags_string, DecodedEthernet, DecodedIpv4, DecodedNetwork, DecodedTcp, DecodedTransport,
    DecodedUdp,
};
use packet_sniffer::record::ThreatLevel;

#[test]
fn flag_summaries() {
    assert_eq!(tcp_flags_string(0x00), "");
    assert_eq!(tcp_flags_string(0x02), "SYN");
    assert_eq!(tcp_flags_string(0x12), "SYN ACK");
    assert_eq!(tcp_flags_string(0x3f), "FIN SYN RST PSH ACK URG");
    assert_eq!(tcp_flags_string(0x01 | 0x10), "FIN ACK");
}

#[test]
fn application_protocols_by_port() {
    assert_eq!(detect_application_protocol(443, b""), Some("HTTPS".to_string()));
    assert_eq!(detect_application_protocol(53, b""), Some("DNS".to_string()));
    assert_eq!(detect_application_protocol(22, b""), Some("SSH".to_string()));
    assert_eq!(detect_application_protocol(21, b""), Some("FTP".to_string()));
    assert_eq!(detect_application_protocol(25, b""), Some("SMTP".to_string()));
    assert_eq!(detect_application_protocol(110, b""), Some("POP3".to_string()));
    assert_eq!(detect_application_protocol(143, b""), Some("IMAP".to_string()));
    assert_eq!(detect_application_protocol(993, b""), Some("IMAPS".to_string()));
    assert_eq!(detect_application_protocol(995, b""), Some("POP3S".to_string()));
    assert_eq!(detect_application_protocol(1234, b"GET /"), None);
}

#[test]
fn http_detection_on_web_ports() {
    assert_eq!(
        detect_application_protocol(80, b"GET / HTTP/1.1"),
        Some("HTTP".to_string())
    );
    assert_eq!(
        detect_application_protocol(8080, b"POST /submit"),
        Some("HTTP".to_string())
    );
    assert_eq!(
        detect_application_protocol(80, b"HTTP/1.1 200 OK"),
        Some("HTTP".to_string())
    );
    assert_eq!(
        detect_application_protocol(80, b"xx Host: example.org"),
        Some("HTTP".to_string())
    );
    assert_eq!(
        detect_application_protocol(80, b"\x16\x03\x01"),
        Some("Web Traffic".to_string())
    );
    assert_eq!(detect_application_protocol(80, b""), Some("Web Traffic".to_string()));
}

#[test]
fn descriptions() {
    assert_eq!(
        format_packet_description(&Some("HTTP".to_string()), "TCP", Some(1), Some(80)),
        "Web browsing (HTTP request/response)"
    );
    assert_eq!(
        format_packet_description(&Some("HTTPS".to_string()), "TCP", None, None),
        "Secure web browsing (encrypted)"
    );
    assert_eq!(
        format_packet_description(&Some("DNS".to_string()), "UDP", None, None),
        "Domain name lookup"
    );
    assert_eq!(
        format_packet_description(&Some("IMAP".to_string()), "TCP", None, None),
        "IMAP communication"
    );
    assert_eq!(
        format_packet_description(&None, "TCP", Some(1000), Some(2000)),
        "TCP connection from port 1000 to port 2000"
    );
    assert_eq!(format_packet_description(&None, "TCP", None, Some(2000)), "TCP connection");
    assert_eq!(
        format_packet_description(&None, "UDP", Some(5), Some(6)),
        "UDP communication from port 5 to port 6"
    );
    assert_eq!(format_packet_description(&None, "UDP", None, None), "UDP communication");
    assert_eq!(
        format_packet_description(&None, "ICMP", None, None),
        "Network diagnostic (ping/traceroute)"
    );
    assert_eq!(
        format_packet_description(&None, "IPv6", None, None),
        "IPv6 network traffic"
    );
}

#[test]
fn geo_table() {
    let local = get_geo_info("192.168.1.1").unwrap();
    assert_eq!(local.country.as_deref(), Some("Local Network"));
    assert_eq!(local.city.as_deref(), Some("Local"));
    assert_eq!(local.latitude_e4, None);

    let us = get_geo_info("8.8.8.8").unwrap();
    assert_eq!(us.country.as_deref(), Some("United States"));
    assert_eq!(us.city.as_deref(), Some("Mountain View"));
    assert_eq!(us.latitude_e4, Some(374056));
    assert_eq!(us.longitude_e4, Some(-1220775));

    let au = get_geo_info("1.1.1.1").unwrap();
    assert_eq!(au.country.as_deref(), Some("Australia"));
    assert_eq!(au.latitude_e4, Some(-338688));
    assert_eq!(au.longitude_e4, Some(1512093));

    let unknown = get_geo_info("203.0.113.9").unwrap();
    assert_eq!(unknown.country.as_deref(), Some("Unknown"));
}

#[test]
fn builds_a_tcp_record() {
    let eth = DecodedEthernet {
        src_mac: "aa:bb:cc:dd:ee:ff".to_string(),
        dst_mac: "11:22:33:44:55:66".to_string(),
        net: DecodedNetwork::Ipv4 {
            fields: Some(DecodedIpv4 {
                src_ip: "192.168.1.2".to_string(),
                dst_ip: "8.8.8.8".to_string(),
                transport: DecodedTransport::Tcp {
                    fields: Some(DecodedTcp {
                        src_port: 50000,
                        dst_port: 80,
                        payload_len: 14,
                        flags: 0x18,
                        payload_head: b"GET / HTTP/1.1".to_vec(),
                    }),
                },
            }),
        },
    };
    let r = build_packet_record(1700000000000, 7, 74, Some(eth));
    assert_eq!(r.timestamp_millis, 1700000000000);
    assert_eq!(r.packet_number, 7);
    assert_eq!(r.packet_size, 74);
    assert_eq!(r.src_mac, "aa:bb:cc:dd:ee:ff");
    assert_eq!(r.src_ip.as_deref(), Some("192.168.1.2"));
    assert_eq!(r.dst_ip.as_deref(), Some("8.8.8.8"));
    assert_eq!(r.protocol, "TCP");
    assert_eq!(r.src_port, Some(50000));
    assert_eq!(r.dst_port, Some(80));
    assert_eq!(r.payload_size, 14);
    assert_eq!(r.flags.as_deref(), Some("PSH ACK"));
    assert_eq!(r.application_protocol.as_deref(), Some("HTTP"));
    assert_eq!(r.description, "Web browsing (HTTP request/response)");
    // Port 80 scores nothing, the public address one, the size nothing:
    // Safe.
    assert_eq!(r.threat_level, ThreatLevel::Safe);
    assert_eq!(
        r.geo_info.as_ref().unwrap().country.as_deref(),
        Some("United States")
    );
}

#[test]
fn builds_a_udp_record() {
    let eth = DecodedEthernet {
        src_mac: "aa:aa:aa:aa:aa:aa".to_string(),
        dst_mac: "bb:bb:bb:bb:bb:bb".to_string(),
        net: DecodedNetwork::Ipv4 {
            fields: Some(DecodedIpv4 {
                src_ip: "192.168.1.2".to_string(),
                dst_ip: "192.168.1.1".to_string(),
                transport: DecodedTransport::Udp {
                    fields: Some(DecodedUdp {
                        src_port: 40000,
                        dst_port: 53,
                        payload_len: 30,
                        payload_head: vec![0, 1],
                    }),
                },
            }),
        },
    };
    let r = build_packet_record(0, 1, 72, Some(eth));
    assert_eq!(r.protocol, "UDP");
    assert_eq!(r.application_protocol.as_deref(), Some("DNS"));
    assert_eq!(r.description, "Domain name lookup");
    assert_eq!(r.flags, None);
    assert_eq!(r.threat_level, ThreatLevel::Safe);
    assert_eq!(
        r.geo_info.as_ref().unwrap().country.as_deref(),
        Some("Local Network")
    );
}

#[test]
fn builds_fallback_records() {
    let r = build_packet_record(0, 1, 60, None);
    assert_eq!(r.protocol, "Unknown");
    assert_eq!(r.description, "Unknown packet");
    assert_eq!(r.src_ip, None);
    assert_eq!(r.geo_info.is_none(), true);
    // A runt frame alone scores one: Safe.
    assert_eq!(r.threat_level, ThreatLevel::Safe);

    let ipv6 = DecodedEthernet {
        src_mac: "aa".to_string(),
        dst_mac: "bb".to_string(),
        net: DecodedNetwork::Ipv6,
    };
    let r6 = build_packet_record(0, 2, 100, Some(ipv6));
    assert_eq!(r6.protocol, "IPv6");
    assert_eq!(r6.description, "IPv6 packet (parsing not fully implemented)");

    let icmp = DecodedEthernet {
        src_mac: "aa".to_string(),
        dst_mac: "bb".to_string(),
        net: DecodedNetwork::Ipv4 {
            fields: Some(DecodedIpv4 {
                src_ip: "10.0.0.1".to_string(),
                dst_ip: "10.0.0.2".to_string(),
                transport: DecodedTransport::Icmp { parsed: true },
            }),
        },
    };
    let ri = build_packet_record(0, 3, 100, Some(icmp));
    assert_eq!(ri.protocol, "ICMP");
    assert_eq!(ri.description, "ICMP ping/echo message");

    let other = DecodedEthernet {
        src_mac: "aa".to_string(),
        dst_mac: "bb".to_string(),
        net: DecodedNetwork::Other { name: "Arp".to_string() },
    };
    let ra = build_packet_record(0, 4, 100, Some(other));
    assert_eq!(ra.protocol, "Arp");
    assert_eq!(ra.description, "Unknown packet");
}
