use packet_sniffer::record::{PacketRecord, ThreatLevel};
use packet_sniffer::ring::Ring;
use packet_sniffer::stats::NetworkStats;

fn record(
    number: usize,
    timestamp_millis: u64,
    src_ip: Option<&str>,
    dst_ip: Option<&str>,
    protocol: &str,
    src_port: Option<u16>,
    dst_port: Option<u16>,
    packet_size: usize,
    threat_level: ThreatLevel,
) -> PacketRecord {
    PacketRecord {
        timestamp_millis,
        packet_number: number,
        src_mac: String::new(),
        dst_mac: String::new(),
        src_ip: src_ip.map(|s| s.to_string()),
        dst_ip: dst_ip.map(|s| s.to_string()),
        protocol: protocol.to_string(),
        src_port,
        dst_port,
        packet_size,
        flags: None,
        payload_size: 0,
        application_protocol: None,
        description: String::new(),
        threat_level,
        geo_info: None,
    }
}

fn plain(number: usize, size: usize) -> PacketRecord {
    record(
        number,
        0,
        Some("192.168.1.2"),
        Some("192.168.1.3"),
        "TCP",
        Some(1000),
        Some(2000),
        size,
        ThreatLevel::Safe,
    )
}

#[test]
fn totals_count_every_record() {
    let mut stats = NetworkStats::new(0);
    let sizes = [100usize, 200, 300, 400, 500];
    for (i, &s) in sizes.iter().enumerate() {
        stats.ingest(&plain(i + 1, s));
    }
    assert_eq!(stats.total_packets(), 5);
    assert_eq!(stats.total_bytes(), 1500);
}

#[test]
fn protocol_port_and_talker_counts() {
    let mut stats = NetworkStats::new(0);
    stats.ingest(&record(1, 0, Some("1.1.1.1"), Some("2.2.2.2"), "TCP", Some(1), Some(80), 10, ThreatLevel::Safe));
    stats.ingest(&record(2, 0, Some("1.1.1.1"), Some("2.2.2.2"), "TCP", Some(2), Some(80), 10, ThreatLevel::Safe));
    stats.ingest(&record(3, 0, Some("3.3.3.3"), Some("2.2.2.2"), "UDP", Some(3), Some(53), 10, ThreatLevel::Safe));
    // A record without a destination port counts its source port.
    stats.ingest(&record(4, 0, None, None, "ICMP", Some(7), None, 10, ThreatLevel::Safe));

    let protocols = stats.protocol_entries();
    assert_eq!(protocols.len(), 3);
    assert_eq!(protocols[0], ("TCP".to_string(), 2));
    assert_eq!(protocols[1], ("UDP".to_string(), 1));
    assert_eq!(protocols[2], ("ICMP".to_string(), 1));

    let ports = stats.port_entries();
    assert_eq!(ports[0], (80, 2));
    assert_eq!(ports[1], (53, 1));
    assert_eq!(ports[2], (7, 1));

    let talkers = stats.talker_entries();
    assert_eq!(talkers[0], ("1.1.1.1".to_string(), 2));
    assert_eq!(talkers[1], ("3.3.3.3".to_string(), 1));
}

#[test]
fn size_history_keeps_the_last_thousand() {
    let mut stats = NetworkStats::new(0);
    for i in 0..1050usize {
        stats.ingest(&plain(i + 1, i));
    }
    let sizes = stats.packet_sizes();
    assert_eq!(sizes.len(), 1000);
    // The oldest fifty were evicted; insertion order is kept.
    assert_eq!(sizes[0], 50);
    assert_eq!(sizes[999], 1049);
}

#[test]
fn alerts_record_suspicious_records_only_and_stay_bounded() {
    let mut stats = NetworkStats::new(0);
    stats.ingest(&plain(1, 100));
    assert_eq!(stats.alerts().len(), 0);
    for i in 0..150usize {
        stats.ingest(&record(
            i + 2,
            7,
            Some("10.0.0.1"),
            Some("8.8.8.8"),
            "TCP",
            Some(1),
            Some(3389),
            100,
            ThreatLevel::Medium,
        ));
    }
    let alerts = stats.alerts();
    assert_eq!(alerts.len(), 100);
    assert_eq!(alerts[0].level, ThreatLevel::Medium);
    assert_eq!(alerts[0].timestamp_millis, 7);
    assert_eq!(
        alerts[0].message,
        "Suspicious TCP traffic from 10.0.0.1 to 8.8.8.8"
    );
}

#[test]
fn alert_message_names_unknown_endpoints() {
    let mut stats = NetworkStats::new(0);
    stats.ingest(&record(1, 0, None, None, "UDP", None, Some(9), 100, ThreatLevel::Low));
    let alerts = stats.alerts();
    assert_eq!(alerts.len(), 1);
    assert_eq!(alerts[0].message, "Suspicious UDP traffic from unknown to unknown");
}

#[test]
fn flow_threat_level_is_the_running_maximum() {
    let mut stats = NetworkStats::new(0);
    let mk = |n: usize, level: ThreatLevel| {
        record(n, 5, Some("1.1.1.1"), Some("2.2.2.2"), "TCP", Some(10), Some(20), 100, level)
    };
    stats.ingest(&mk(1, ThreatLevel::Safe));
    stats.ingest(&mk(2, ThreatLevel::High));
    stats.ingest(&mk(3, ThreatLevel::Safe));
    let flows = stats.connection_entries();
    assert_eq!(flows.len(), 1);
    let (key, flow) = &flows[0];
    assert_eq!(key, "1.1.1.1:10-2.2.2.2:20/TCP");
    assert_eq!(flow.threat_level, ThreatLevel::High);
    assert_eq!(flow.packet_count, 3);
    assert_eq!(flow.total_bytes, 300);
    assert_eq!(flow.first_seen, 5);
    assert_eq!(flow.last_seen, 5);
    assert_eq!(stats.current_connections(), 1);
}

#[test]
fn flows_key_on_addresses_and_ports() {
    let mut stats = NetworkStats::new(0);
    stats.ingest(&record(1, 0, Some("1.1.1.1"), Some("2.2.2.2"), "TCP", Some(10), Some(20), 10, ThreatLevel::Safe));
    stats.ingest(&record(2, 0, Some("1.1.1.1"), Some("2.2.2.2"), "TCP", Some(11), Some(20), 10, ThreatLevel::Safe));
    // A record without both addresses joins no flow.
    stats.ingest(&record(3, 0, Some("1.1.1.1"), None, "TCP", Some(10), Some(20), 10, ThreatLevel::Safe));
    assert_eq!(stats.current_connections(), 2);
    // Absent ports render as zero in the key.
    stats.ingest(&record(4, 0, Some("5.5.5.5"), Some("6.6.6.6"), "ICMP", None, None, 10, ThreatLevel::Safe));
    let flows = stats.connection_entries();
    assert_eq!(flows[2].0, "5.5.5.5:0-6.6.6.6:0/ICMP");
}

#[test]
fn flows_are_direction_insensitive_and_protocol_aware() {
    let mut stats = NetworkStats::new(0);
    // Both directions of a conversation share one flow.
    stats.ingest(&record(1, 0, Some("2.2.2.2"), Some("1.1.1.1"), "TCP", Some(20), Some(10), 10, ThreatLevel::Safe));
    stats.ingest(&record(2, 0, Some("1.1.1.1"), Some("2.2.2.2"), "TCP", Some(10), Some(20), 10, ThreatLevel::Safe));
    assert_eq!(stats.current_connections(), 1);
    let flows = stats.connection_entries();
    assert_eq!(flows[0].0, "1.1.1.1:10-2.2.2.2:20/TCP");
    assert_eq!(flows[0].1.packet_count, 2);
    // The same endpoints under another protocol are another flow.
    stats.ingest(&record(3, 0, Some("1.1.1.1"), Some("2.2.2.2"), "UDP", Some(10), Some(20), 10, ThreatLevel::Safe));
    assert_eq!(stats.current_connections(), 2);
    assert_eq!(stats.connection_entries()[1].0, "1.1.1.1:10-2.2.2.2:20/UDP");
}

#[test]
fn bandwidth_sampling_on_hundred_boundaries_after_first_second() {
    let mut stats = NetworkStats::new(0);
    // 99 records two seconds in: no sample yet.
    for i in 0..99usize {
        stats.ingest(&record(i + 1, 2000, Some("1.1.1.1"), Some("2.2.2.2"), "TCP", Some(1), Some(2), 10, ThreatLevel::Safe));
    }
    assert_eq!(stats.bandwidth_points().len(), 0);
    // The hundredth record takes exactly one sample.
    stats.ingest(&record(100, 2000, Some("1.1.1.1"), Some("2.2.2.2"), "TCP", Some(1), Some(2), 10, ThreatLevel::Safe));
    let points = stats.bandwidth_points();
    assert_eq!(points.len(), 1);
    assert_eq!(points[0].bytes_per_sec, 500);
    assert_eq!(points[0].packets_per_sec, 50);
    assert_eq!(stats.peak_bandwidth(), 500);
    assert_eq!(stats.peak_packets_per_sec(), 50);
    // The next 99 records add none; the two-hundredth adds one more.
    for i in 0..99usize {
        stats.ingest(&record(i + 101, 2000, Some("1.1.1.1"), Some("2.2.2.2"), "TCP", Some(1), Some(2), 10, ThreatLevel::Safe));
    }
    assert_eq!(stats.bandwidth_points().len(), 1);
    stats.ingest(&record(200, 2000, Some("1.1.1.1"), Some("2.2.2.2"), "TCP", Some(1), Some(2), 10, ThreatLevel::Safe));
    assert_eq!(stats.bandwidth_points().len(), 2);
}

#[test]
fn no_sampling_at_elapsed_zero() {
    let mut stats = NetworkStats::new(1000);
    // Records timestamped within the first second: never a sample.
    for i in 0..200usize {
        stats.ingest(&record(i + 1, 1500, Some("1.1.1.1"), Some("2.2.2.2"), "TCP", Some(1), Some(2), 10, ThreatLevel::Safe));
    }
    assert_eq!(stats.bandwidth_points().len(), 0);
    assert_eq!(stats.peak_bandwidth(), 0);
}

#[test]
fn snapshot_is_a_faithful_copy() {
    let mut stats = NetworkStats::new(0);
    for i in 0..5usize {
        stats.ingest(&record(
            i + 1,
            9,
            Some("10.0.0.1"),
            Some("8.8.8.8"),
            "TCP",
            Some(1),
            Some(3389),
            100,
            ThreatLevel::Medium,
        ));
    }
    let snap = stats.snapshot();
    assert_eq!(snap.total_packets, 5);
    assert_eq!(snap.total_bytes, 500);
    assert_eq!(snap.protocol_counts, stats.protocol_entries().clone());
    assert_eq!(snap.port_activity, stats.port_entries().clone());
    assert_eq!(snap.packet_sizes, stats.packet_sizes().clone());
    assert_eq!(snap.threat_alerts.len(), stats.alerts().len());
    assert_eq!(snap.connections.len(), 1);
    assert_eq!(snap.current_connections, 1);
}

#[test]
fn ring_evicts_oldest_in_order() {
    let mut ring: Ring<usize> = Ring::new(3);
    ring.push(1);
    ring.push(2);
    ring.push(3);
    ring.push(4);
    assert_eq!(ring.len(), 3);
    assert_eq!(*ring.get(0), 2);
    assert_eq!(*ring.get(1), 3);
    assert_eq!(*ring.get(2), 4);
    assert_eq!(ring.entries().as_slice(), &[2, 3, 4]);
}
