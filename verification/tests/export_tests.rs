use packet_sniffer::export::{csv_header, export_to_csv_bytes, to_csv_rows};
use packet_sniffer::record::{GeoInfo, PacketRecord, ThreatLevel};

fn full_record() -> PacketRecord {
    PacketRecord {
        timestamp_millis: 1700000000123,
        packet_number: 1,
        src_mac: "aa:bb:cc:dd:ee:ff".to_string(),
        dst_mac: "11:22:33:44:55:66".to_string(),
        src_ip: Some("192.168.1.2".to_string()),
        dst_ip: Some("8.8.8.8".to_string()),
        protocol: "TCP".to_string(),
        src_port: Some(50000),
        dst_port: Some(80),
        packet_size: 74,
        flags: Some("PSH ACK".to_string()),
        payload_size: 14,
        application_protocol: Some("HTTP".to_string()),
        description: "Web browsing (HTTP request/response)".to_string(),
        threat_level: ThreatLevel::Low,
        geo_info: Some(GeoInfo {
            country: Some("United States".to_string()),
            city: Some("Mountain View".to_string()),
            latitude_e4: Some(374056),
            longitude_e4: Some(-1220775),
        }),
    }
}

fn bare_record() -> PacketRecord {
    PacketRecord {
        timestamp_millis: 0,
        packet_number: 2,
        src_mac: String::new(),
        dst_mac: String::new(),
        src_ip: None,
        dst_ip: None,
        protocol: "Unknown".to_string(),
        src_port: None,
        dst_port: None,
        packet_size: 60,
        flags: None,
        payload_size: 0,
        application_protocol: None,
        description: "Unknown packet".to_string(),
        threat_level: ThreatLevel::Safe,
        geo_info: None,
    }
}

#[test]
fn header_has_the_eleven_fixed_columns() {
    let header = csv_header();
    assert_eq!(
        header,
        vec![
            "timestamp",
            "packet_number",
            "src_ip",
            "dst_ip",
            "protocol",
            "src_port",
            "dst_port",
            "packet_size",
            "flags",
            "application_protocol",
            "description"
        ]
    );
}

#[test]
fn rows_carry_every_field_and_empty_cells_for_absent_ones() {
    let records = vec![full_record(), bare_record()];
    let rows = to_csv_rows(&records);
    assert_eq!(rows.len(), 3);
    for row in &rows {
        assert_eq!(row.len(), 11);
    }
    let expected_ts = chrono::DateTime::<chrono::Utc>::from_timestamp_millis(1700000000123)
        .unwrap()
        .to_rfc3339();
    assert_eq!(rows[1][0], expected_ts);
    assert_eq!(rows[1][1], "1");
    assert_eq!(rows[1][2], "192.168.1.2");
    assert_eq!(rows[1][3], "8.8.8.8");
    assert_eq!(rows[1][4], "TCP");
    assert_eq!(rows[1][5], "50000");
    assert_eq!(rows[1][6], "80");
    assert_eq!(rows[1][7], "74");
    assert_eq!(rows[1][8], "PSH ACK");
    assert_eq!(rows[1][9], "HTTP");
    assert_eq!(rows[1][10], "Web browsing (HTTP request/response)");

    assert_eq!(rows[2][2], "");
    assert_eq!(rows[2][3], "");
    assert_eq!(rows[2][5], "");
    assert_eq!(rows[2][6], "");
    assert_eq!(rows[2][8], "");
    assert_eq!(rows[2][9], "");
}

#[test]
fn csv_round_trip_preserves_rows_and_columns() {
    let records = vec![full_record(), bare_record(), full_record()];
    let bytes = export_to_csv_bytes(&records);

    let mut reader = csv::ReaderBuilder::new().from_reader(bytes.as_slice());
    let headers = reader.headers().unwrap().clone();
    assert_eq!(headers.len(), 11);
    assert_eq!(&headers[0], "timestamp");
    assert_eq!(&headers[10], "description");

    let rows: Vec<csv::StringRecord> = reader.records().map(|r| r.unwrap()).collect();
    assert_eq!(rows.len(), records.len());
    for (row, record) in rows.iter().zip(records.iter()) {
        assert_eq!(row.len(), 11);
        assert_eq!(&row[1], record.packet_number.to_string().as_str());
        assert_eq!(&row[2], record.src_ip.as_deref().unwrap_or(""));
        assert_eq!(&row[3], record.dst_ip.as_deref().unwrap_or(""));
        assert_eq!(&row[4], record.protocol.as_str());
        assert_eq!(
            &row[5],
            record.src_port.map(|p| p.to_string()).unwrap_or_default().as_str()
        );
        assert_eq!(&row[7], record.packet_size.to_string().as_str());
        assert_eq!(&row[8], record.flags.as_deref().unwrap_or(""));
        assert_eq!(&row[10], record.description.as_str());
    }
    // The timestamp column round-trips through the standard rendering.
    let expected_ts = chrono::DateTime::<chrono::Utc>::from_timestamp_millis(1700000000123)
        .unwrap()
        .to_rfc3339();
    assert_eq!(&rows[0][0], expected_ts.as_str());
    let parsed = chrono::DateTime::parse_from_rfc3339(&rows[0][0]).unwrap();
    assert_eq!(parsed.timestamp_millis(), 1700000000123);
}

#[test]
fn exporting_nothing_yields_only_the_header() {
    let records: Vec<PacketRecord> = Vec::new();
    let bytes = export_to_csv_bytes(&records);
    let text = String::from_utf8(bytes).unwrap();
    assert_eq!(
        text,
        "timestamp,packet_number,src_ip,dst_ip,protocol,src_port,dst_port,packet_size,flags,application_protocol,description\n"
    );
}
