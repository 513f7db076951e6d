use packet_sniffer::config::Config;
use packet_sniffer::error::PacketSnifferError;

#[test]
fn default_configuration_values() {
    let c = Config::default();
    assert_eq!(c.logging.level, "info");
    assert_eq!(c.logging.file.as_deref(), Some("packet_sniffer.log"));
    assert!(c.logging.enable_console);
    assert!(c.logging.enable_file);
    assert_eq!(c.performance.buffer_size, 4096);
    assert_eq!(c.performance.max_packets_per_second, 1000);
    assert_eq!(c.performance.dashboard_refresh_rate, 1000);
    assert_eq!(c.export.default_format, "json");
    assert_eq!(c.export.default_directory, "./exports");
    assert!(c.export.auto_backup);
    assert!(c.ui.colors_enabled);
    assert!(c.ui.emojis_enabled);
    assert_eq!(c.ui.table_style, "modern");
}

#[test]
fn error_messages() {
    assert_eq!(
        PacketSnifferError::InterfaceNotFound("eth9".to_string()).message(),
        "Network interface 'eth9' not found. Use --list-interfaces to see available interfaces."
    );
    assert_eq!(
        PacketSnifferError::PermissionDenied.message(),
        "Permission denied. Please run with administrator/root privileges to capture packets."
    );
    assert_eq!(
        PacketSnifferError::NetworkError("channel closed".to_string()).message(),
        "Network error: channel closed. Check your network connection and interface status."
    );
    assert_eq!(
        PacketSnifferError::ConfigError("bad json".to_string()).message(),
        "Configuration error: bad json. Check your config.json file."
    );
    assert_eq!(
        PacketSnifferError::ExportError("disk full".to_string()).message(),
        "Export error: disk full. Check file permissions and disk space."
    );
    assert_eq!(
        PacketSnifferError::InvalidFilter("ftp".to_string()).message(),
        "Invalid filter 'ftp'. Supported filters: tcp, udp, icmp, http, dns"
    );
}

#[test]
fn io_errors_wrap_their_text() {
    let inner = std::io::Error::new(std::io::ErrorKind::NotFound, "gone");
    let err = PacketSnifferError::from(inner);
    let msg = err.message();
    assert!(msg.starts_with("I/O error: "));
    assert!(msg.contains("gone"));
    assert!(msg.ends_with(". Check file permissions and disk space."));
}
