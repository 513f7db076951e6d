//! Configuration values, consumed as plain data. Loading and saving
//! them happens outside the library.

use vstd::prelude::*;

verus! {

/// Where and how to log.
#[derive(Debug, Clone)]
pub struct LoggingConfig {
    pub level: String,
    pub file: Option<String>,
    pub enable_console: bool,
    pub enable_file: bool,
}

/// Capture and rendering rates.
#[derive(Debug, Clone)]
pub struct PerformanceConfig {
    pub buffer_size: usize,
    pub max_packets_per_second: usize,
    pub dashboard_refresh_rate: u64,
}

/// Where exports go by default.
#[derive(Debug, Clone)]
pub struct ExportConfig {
    pub default_format: String,
    pub default_directory: String,
    pub auto_backup: bool,
}

/// How the dashboard looks.
#[derive(Debug, Clone)]
pub struct UiConfig {
    pub colors_enabled: bool,
    pub emojis_enabled: bool,
    pub table_style: String,
}

/// The whole configuration.
#[derive(Debug, Clone)]
pub struct Config {
    pub logging: LoggingConfig,
    pub performance: PerformanceConfig,
    pub export: ExportConfig,
    pub ui: UiConfig,
}

impl Default for Config {
    /// The stock configuration: info-level logging to console and file,
    /// a one-second dashboard refresh, JSON exports into ./exports, and
    /// the modern table style with colors and emojis on.
    fn default() -> (c: Config)
        ensures
            c.logging.level@ == "info"@,
            c.logging.file is Some && c.logging.file->Some_0@ == "packet_sniffer.log"@,
            c.logging.enable_console,
            c.logging.enable_file,
            c.performance.buffer_size == 4096,
            c.performance.max_packets_per_second == 1000,
            c.performance.dashboard_refresh_rate == 1000,
            c.export.default_format@ == "json"@,
            c.export.default_directory@ == "./exports"@,
            c.export.auto_backup,
            c.ui.colors_enabled,
            c.ui.emojis_enabled,
            c.ui.table_style@ == "modern"@,
    {
        Config {
            logging: LoggingConfig {
                level: "info".to_owned(),
                file: Some("packet_sniffer.log".to_owned()),
                enable_console: true,
                enable_file: true,
            },
            performance: PerformanceConfig {
                buffer_size: 4096,
                max_packets_per_second: 1000,
                dashboard_refresh_rate: 1000,
            },
            export: ExportConfig {
                default_format: "json".to_owned(),
                default_directory: "./exports".to_owned(),
                auto_backup: true,
            },
            ui: UiConfig { colors_enabled: true, emojis_enabled: true, table_style: "modern".to_owned() },
        }
    }
}

} // verus!
