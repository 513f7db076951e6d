use packet_sniffer::record::{GeoInfo, PacketRecord, ThreatLevel};
use packet_sniffer::render::{
    app_protocol_distribution, bandwidth_bars, count_percentage, country_counts, format_bytes,
    protocol_distribution, rank_connections, rank_counts, rank_ports, record_totals,
    size_histogram, threat_counts,
};
use packet_sniffer::stats::{BandwidthPoint, ConnectionFlow};

fn record(protocol: &str, app: Option<&str>, country: Option<&str>, level: ThreatLevel) -> PacketRecord {
    PacketRecord {
        timestamp_millis: 0,
        packet_number: 0,
        src_mac: String::new(),
        dst_mac: String::new(),
        src_ip: None,
        dst_ip: None,
        protocol: protocol.to_string(),
        src_port: None,
        dst_port: None,
        packet_size: 100,
        flags: None,
        payload_size: 0,
        application_protocol: app.map(|s| s.to_string()),
        description: String::new(),
        threat_level: level,
        geo_info: country.map(|c| GeoInfo {
            country: Some(c.to_string()),
            city: None,
            latitude_e4: None,
            longitude_e4: None,
        }),
    }
}

fn flow(count: u64) -> ConnectionFlow {
    ConnectionFlow {
        src_ip: "1.1.1.1".to_string(),
        dst_ip: "2.2.2.2".to_string(),
        src_port: Some(1),
        dst_port: Some(2),
        protocol: "TCP".to_string(),
        packet_count: count,
        total_bytes: count * 100,
        first_seen: 0,
        last_seen: 0,
        threat_level: ThreatLevel::Safe,
    }
}

#[test]
fn byte_formatting() {
    assert_eq!(format_bytes(0), "0.0 B");
    assert_eq!(format_bytes(512), "512.0 B");
    assert_eq!(format_bytes(1024), "1.0 KB");
    assert_eq!(format_bytes(1536), "1.5 KB");
    assert_eq!(format_bytes(1048576), "1.0 MB");
    assert_eq!(format_bytes(5 * 1024 * 1024 * 1024), "5.0 GB");
    assert_eq!(format_bytes(2 * 1024 * 1024 * 1024 * 1024), "2048.0 GB");
}

#[test]
fn ranking_sorts_by_count_descending_with_stable_ties() {
    let entries = vec![
        ("TCP".to_string(), 2u64),
        ("UDP".to_string(), 5u64),
        ("ICMP".to_string(), 2u64),
    ];
    let ranked = rank_counts(&entries);
    assert_eq!(
        ranked,
        vec![
            ("UDP".to_string(), 5),
            ("TCP".to_string(), 2),
            ("ICMP".to_string(), 2)
        ]
    );
}

#[test]
fn port_ranking() {
    let entries = vec![(80u16, 3u64), (443u16, 9u64), (53u16, 1u64)];
    let ranked = rank_ports(&entries);
    assert_eq!(ranked, vec![(443, 9), (80, 3), (53, 1)]);
}

#[test]
fn connection_ranking() {
    let entries = vec![
        ("a".to_string(), flow(1)),
        ("b".to_string(), flow(9)),
        ("c".to_string(), flow(4)),
    ];
    let ranked = rank_connections(&entries);
    assert_eq!(ranked[0].0, "b");
    assert_eq!(ranked[1].0, "c");
    assert_eq!(ranked[2].0, "a");
}

#[test]
fn histogram_buckets_and_percentages() {
    let sizes = vec![50usize, 99, 100, 499, 500, 1499, 1500, 9000];
    let h = size_histogram(&sizes);
    assert_eq!(h.total, 8);
    assert_eq!(h.small, 2);
    assert_eq!(h.medium, 2);
    assert_eq!(h.large, 2);
    assert_eq!(h.jumbo, 2);
    assert_eq!(h.small_pct, 25);
    assert_eq!(h.jumbo_pct, 25);
    assert_eq!(h.min_size, 50);
    assert_eq!(h.max_size, 9000);
    assert_eq!(h.avg_size, (50 + 99 + 100 + 499 + 500 + 1499 + 1500 + 9000) / 8);
}

#[test]
fn histogram_of_nothing() {
    let sizes: Vec<usize> = Vec::new();
    let h = size_histogram(&sizes);
    assert_eq!(h.total, 0);
    assert_eq!(h.small_pct, 0);
    assert_eq!(h.avg_size, 0);
    assert_eq!(h.min_size, 0);
    assert_eq!(h.max_size, 0);
}

#[test]
fn threat_counts_per_level() {
    let records = vec![
        record("TCP", None, None, ThreatLevel::Safe),
        record("TCP", None, None, ThreatLevel::Safe),
        record("TCP", None, None, ThreatLevel::Low),
        record("TCP", None, None, ThreatLevel::High),
        record("TCP", None, None, ThreatLevel::Critical),
    ];
    let c = threat_counts(&records);
    assert_eq!(c.safe, 2);
    assert_eq!(c.low, 1);
    assert_eq!(c.medium, 0);
    assert_eq!(c.high, 1);
    assert_eq!(c.critical, 1);
}

#[test]
fn bandwidth_bars_scale_to_the_window_maximum() {
    let point = |bps: u64| BandwidthPoint {
        timestamp_millis: 0,
        bytes_per_sec: bps,
        packets_per_sec: 1,
    };
    let points = vec![point(100), point(50), point(25)];
    let bars = bandwidth_bars(&points);
    assert_eq!(bars.len(), 3);
    assert_eq!(bars[0].1, 40);
    assert_eq!(bars[1].1, 20);
    assert_eq!(bars[2].1, 10);

    let many: Vec<BandwidthPoint> = (0..25).map(|i| point(i + 1)).collect();
    let bars = bandwidth_bars(&many);
    assert_eq!(bars.len(), 20);
    // The window shows the last twenty points; the last bar is the
    // maximum and fills the width.
    assert_eq!(bars[0].0.bytes_per_sec, 6);
    assert_eq!(bars[19].0.bytes_per_sec, 25);
    assert_eq!(bars[19].1, 40);

    let none: Vec<BandwidthPoint> = Vec::new();
    assert_eq!(bandwidth_bars(&none).len(), 0);

    // A spike that has left the rendered window no longer sets the
    // scale: the window's own maximum fills the width.
    let mut spiked: Vec<BandwidthPoint> = vec![point(1000)];
    for _ in 0..20 {
        spiked.push(point(100));
    }
    let bars = bandwidth_bars(&spiked);
    assert_eq!(bars.len(), 20);
    assert_eq!(bars[0].0.bytes_per_sec, 100);
    assert_eq!(bars[0].1, 40);
    assert_eq!(bars[19].1, 40);
}

#[test]
fn totals_and_percentages() {
    let records = vec![
        record("TCP", None, None, ThreatLevel::Safe),
        record("TCP", None, None, ThreatLevel::Safe),
        record("UDP", None, None, ThreatLevel::Safe),
    ];
    let (count, bytes) = record_totals(&records);
    assert_eq!(count, 3);
    assert_eq!(bytes, Some(300));
    assert_eq!(count_percentage(2, 3), 66);
    assert_eq!(count_percentage(0, 3), 0);
    assert_eq!(count_percentage(3, 3), 100);
    assert_eq!(count_percentage(0, 0), 0);
}

#[test]
fn protocol_distributions() {
    let records = vec![
        record("TCP", Some("HTTP"), None, ThreatLevel::Safe),
        record("TCP", None, None, ThreatLevel::Safe),
        record("UDP", Some("DNS"), None, ThreatLevel::Safe),
        record("UDP", Some("DNS"), None, ThreatLevel::Safe),
    ];
    let protos = protocol_distribution(&records);
    assert_eq!(
        protos.entries().as_slice(),
        &[("TCP".to_string(), 2), ("UDP".to_string(), 2)]
    );
    let apps = app_protocol_distribution(&records);
    assert_eq!(
        apps.entries().as_slice(),
        &[("HTTP".to_string(), 1), ("DNS".to_string(), 2)]
    );
}

#[test]
fn country_counts_consider_the_recent_window() {
    let records = vec![
        record("TCP", None, Some("Australia"), ThreatLevel::Safe),
        record("TCP", None, Some("United States"), ThreatLevel::Safe),
        record("TCP", None, None, ThreatLevel::Safe),
        record("TCP", None, Some("United States"), ThreatLevel::Safe),
    ];
    let all = country_counts(&records, 500);
    assert_eq!(
        all.entries().as_slice(),
        &[("Australia".to_string(), 1), ("United States".to_string(), 2)]
    );
    // A window of two sees only the last two records.
    let last_two = country_counts(&records, 2);
    assert_eq!(last_two.entries().as_slice(), &[("United States".to_string(), 1)]);
}
