//! The data model: one decoded packet record, its threat level, and the
//! optional geographic hint attached to it.

use vstd::prelude::*;

verus! {

/// Ordered classification of a record's risk, from harmless to critical.
#[derive(Clone, Copy, Debug, PartialEq, Eq, Structural, Hash)]
pub enum ThreatLevel {
    Safe,
    Low,
    Medium,
    High,
    Critical,
}

/// The position of a level in the order Safe < Low < Medium < High < Critical.
pub open spec fn level_rank(l: ThreatLevel) -> int {
    match l {
        ThreatLevel::Safe => 0,
        ThreatLevel::Low => 1,
        ThreatLevel::Medium => 2,
        ThreatLevel::High => 3,
        ThreatLevel::Critical => 4,
    }
}

impl ThreatLevel {
    /// The numeric rank of this level.
    pub fn rank(&self) -> (r: u8)
        ensures
            r as int == level_rank(*self),
    {
        match self {
            ThreatLevel::Safe => 0,
            ThreatLevel::Low => 1,
            ThreatLevel::Medium => 2,
            ThreatLevel::High => 3,
            ThreatLevel::Critical => 4,
        }
    }

    /// The higher of two levels.
    pub fn max_with(self, other: ThreatLevel) -> (r: ThreatLevel)
        ensures
            r == spec_max_level(self, other),
    {
        if self.rank() > other.rank() {
            self
        } else {
            other
        }
    }
}

/// The higher of two levels; `b` when they are equal.
pub open spec fn spec_max_level(a: ThreatLevel, b: ThreatLevel) -> ThreatLevel {
    if level_rank(a) > level_rank(b) {
        a
    } else {
        b
    }
}

/// A geographic hint for an address. Coordinates are in ten-thousandths
/// of a degree.
#[derive(Clone, Debug)]
pub struct GeoInfo {
    pub country: Option<String>,
    pub city: Option<String>,
    pub latitude_e4: Option<i64>,
    pub longitude_e4: Option<i64>,
}

/// One decoded packet's normalized fields. Immutable once built; the
/// timestamp is milliseconds since the Unix epoch.
#[derive(Clone, Debug)]
pub struct PacketRecord {
    pub timestamp_millis: u64,
    pub packet_number: usize,
    pub src_mac: String,
    pub dst_mac: String,
    pub src_ip: Option<String>,
    pub dst_ip: Option<String>,
    pub protocol: String,
    pub src_port: Option<u16>,
    pub dst_port: Option<u16>,
    pub packet_size: usize,
    pub flags: Option<String>,
    pub payload_size: usize,
    pub application_protocol: Option<String>,
    pub description: String,
    pub threat_level: ThreatLevel,
    pub geo_info: Option<GeoInfo>,
}

/// The port a record is attributed to: the destination port when
/// present, else the source port.
pub open spec fn spec_preferred_port(r: PacketRecord) -> Option<u16> {
    if r.dst_port is Some {
        r.dst_port
    } else {
        r.src_port
    }
}

impl PacketRecord {
    /// The destination port when present, else the source port.
    pub fn preferred_port(&self) -> (p: Option<u16>)
        ensures
            p == spec_preferred_port(*self),
    {
        match self.dst_port {
            Some(p) => Some(p),
            None => self.src_port,
        }
    }
}

} // verus!
