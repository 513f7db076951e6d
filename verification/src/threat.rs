//! The threat classifier: a pure, deterministic additive risk score over
//! one record's fields, thresholded into a `ThreatLevel`.

use vstd::prelude::*;
use crate::record::{PacketRecord, ThreatLevel};
use crate::strutil::{spec_starts_with, str_starts_with, str_eq};

verus! {

/// Whether a textual address lies in a private range: 10.0.0.0/8,
/// 172.16.0.0/12, 192.168.0.0/16, 127.0.0.0/8, the IPv6 loopback or an
/// IPv6 link-local address (all judged on the canonical dotted or
/// compressed rendering).
pub open spec fn spec_is_private_ip(s: Seq<char>) -> bool {
    ||| spec_starts_with(s, "10."@)
    ||| spec_starts_with(s, "192.168."@)
    ||| spec_starts_with(s, "127."@)
    ||| spec_starts_with(s, "::1"@)
    ||| spec_starts_with(s, "fe80::"@)
    ||| spec_starts_with(s, "172.16."@)
    ||| spec_starts_with(s, "172.17."@)
    ||| spec_starts_with(s, "172.18."@)
    ||| spec_starts_with(s, "172.19."@)
    ||| spec_starts_with(s, "172.20."@)
    ||| spec_starts_with(s, "172.21."@)
    ||| spec_starts_with(s, "172.22."@)
    ||| spec_starts_with(s, "172.23."@)
    ||| spec_starts_with(s, "172.24."@)
    ||| spec_starts_with(s, "172.25."@)
    ||| spec_starts_with(s, "172.26."@)
    ||| spec_starts_with(s, "172.27."@)
    ||| spec_starts_with(s, "172.28."@)
    ||| spec_starts_with(s, "172.29."@)
    ||| spec_starts_with(s, "172.30."@)
    ||| spec_starts_with(s, "172.31."@)
}

/// Tests whether an address in text form lies in a private range.
pub fn is_private_ip(ip: &str) -> (r: bool)
    ensures
        r == spec_is_private_ip(ip@),
{
    str_starts_with(ip, "10.") || str_starts_with(ip, "192.168.") || str_starts_with(ip, "127.")
        || str_starts_with(ip, "::1") || str_starts_with(ip, "fe80::") || str_starts_with(
        ip,
        "172.16.",
    ) || str_starts_with(ip, "172.17.") || str_starts_with(ip, "172.18.") || str_starts_with(
        ip,
        "172.19.",
    ) || str_starts_with(ip, "172.20.") || str_starts_with(ip, "172.21.") || str_starts_with(
        ip,
        "172.22.",
    ) || str_starts_with(ip, "172.23.") || str_starts_with(ip, "172.24.") || str_starts_with(
        ip,
        "172.25.",
    ) || str_starts_with(ip, "172.26.") || str_starts_with(ip, "172.27.") || str_starts_with(
        ip,
        "172.28.",
    ) || str_starts_with(ip, "172.29.") || str_starts_with(ip, "172.30.") || str_starts_with(
        ip,
        "172.31.",
    )
}

/// The port component of the risk score, over the preferred port.
pub open spec fn spec_port_signal(port: Option<u16>) -> int {
    match port {
        Some(p) => if p == 1433 || p == 3389 || p == 5900 || p == 23 || p == 135 || p == 139 || p
            == 445 {
            3
        } else if p == 21 || p == 25 || p == 110 || p == 143 || p == 993 || p == 995 {
            2
        } else if p > 49152 {
            1
        } else {
            0
        },
        None => 0,
    }
}

/// The destination-address component of the risk score: public addresses
/// add one; the fixed "10.0.0." / "169.254." prefix heuristic adds two.
pub open spec fn spec_addr_signal(dst_ip: Option<String>) -> int {
    match dst_ip {
        Some(ip) => (if !spec_is_private_ip(ip@) {
            1int
        } else {
            0int
        }) + (if spec_starts_with(ip@, "10.0.0."@) || spec_starts_with(ip@, "169.254."@) {
            2int
        } else {
            0int
        }),
        None => 0,
    }
}

/// The size component of the risk score: over-long or runt frames add one.
pub open spec fn spec_size_signal(size: int) -> int {
    if size > 1500 || size < 64 {
        1
    } else {
        0
    }
}

/// The protocol component of the risk score: ICMP adds one, UDP anywhere
/// but to port 53 adds one.
pub open spec fn spec_proto_signal(protocol: Seq<char>, dst_port: Option<u16>) -> int {
    if protocol == "ICMP"@ {
        1
    } else if protocol == "UDP"@ && dst_port != Some(53u16) {
        1
    } else {
        0
    }
}

/// The additive risk score of a record.
pub open spec fn spec_risk_score(r: PacketRecord) -> int {
    spec_port_signal(crate::record::spec_preferred_port(r)) + spec_addr_signal(r.dst_ip)
        + spec_size_signal(r.packet_size as int) + spec_proto_signal(r.protocol@, r.dst_port)
}

/// The score-to-level thresholds: 0-1 Safe, 2-3 Low, 4-5 Medium,
/// 6-7 High, 8 and above Critical.
pub open spec fn spec_level_of_score(score: int) -> ThreatLevel {
    if score <= 1 {
        ThreatLevel::Safe
    } else if score <= 3 {
        ThreatLevel::Low
    } else if score <= 5 {
        ThreatLevel::Medium
    } else if score <= 7 {
        ThreatLevel::High
    } else {
        ThreatLevel::Critical
    }
}

/// The level a record classifies to.
pub open spec fn spec_classify(r: PacketRecord) -> ThreatLevel {
    spec_level_of_score(spec_risk_score(r))
}

/// Classifies one record. Deterministic, with no side effects and no
/// failure mode: absent fields contribute nothing to the score.
pub fn detect_threat_level(r: &PacketRecord) -> (level: ThreatLevel)
    ensures
        level == spec_classify(*r),
{
    let mut score: u32 = 0;

    match r.preferred_port() {
        Some(p) => {
            if p == 1433 || p == 3389 || p == 5900 || p == 23 || p == 135 || p == 139 || p == 445 {
                score = score + 3;
            } else if p == 21 || p == 25 || p == 110 || p == 143 || p == 993 || p == 995 {
                score = score + 2;
            } else if p > 49152 {
                score = score + 1;
            }
        },
        None => {},
    }

    match &r.dst_ip {
        Some(ip) => {
            if !is_private_ip(ip.as_str()) {
                score = score + 1;
            }
            if str_starts_with(ip.as_str(), "10.0.0.") || str_starts_with(ip.as_str(), "169.254.")
            {
                score = score + 2;
            }
        },
        None => {},
    }

    if r.packet_size > 1500 || r.packet_size < 64 {
        score = score + 1;
    }

    if str_eq(r.protocol.as_str(), "ICMP") {
        score = score + 1;
    } else if str_eq(r.protocol.as_str(), "UDP") {
        let is_dns = match r.dst_port {
            Some(p) => p == 53,
            None => false,
        };
        if !is_dns {
            score = score + 1;
        }
    }

    if score <= 1 {
        ThreatLevel::Safe
    } else if score <= 3 {
        ThreatLevel::Low
    } else if score <= 5 {
        ThreatLevel::Medium
    } else if score <= 7 {
        ThreatLevel::High
    } else {
        ThreatLevel::Critical
    }
}

/// Classification is deterministic: two records whose classified fields
/// agree classify to the same level.
pub proof fn lemma_classify_deterministic(a: PacketRecord, b: PacketRecord)
    requires
        a.dst_port == b.dst_port,
        a.src_port == b.src_port,
        a.dst_ip == b.dst_ip,
        a.packet_size == b.packet_size,
        a.protocol@ == b.protocol@,
    ensures
        spec_classify(a) == spec_classify(b),
{
    assert(spec_risk_score(a) == spec_risk_score(b));
}

} // verus!
