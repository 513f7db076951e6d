//! Core logic of a live network-traffic telemetry tool.
//!
//! The library aggregates already-decoded packet records into rolling
//! counters, bounded histories and a connection table, classifies each
//! record with a heuristic threat level, selects and formats the data a
//! dashboard shows, and serializes a finished capture to CSV rows.
//! Capture, decoding and all I/O live outside the library and hand it
//! plain values.

pub mod config;
pub mod countmap;
pub mod describe;
pub mod error;
pub mod export;
pub mod filter;
pub mod record;
pub mod render;
pub mod ring;
pub mod stats;
pub mod strutil;
pub mod threat;
