//! Assembling one record from decoded fields: the TCP flag summary, the
//! inferred application protocol, the human-readable description, the
//! geographic hint, and the record builder itself.

use vstd::prelude::*;
use crate::record::{GeoInfo, PacketRecord, ThreatLevel};
use crate::strutil::{
    spec_bytes_contain, spec_bytes_start_with, spec_decimal, spec_starts_with, bytes_contain,
    bytes_start_with, str_eq, str_starts_with, u64_string,
};
use crate::threat::{spec_classify, spec_is_private_ip, detect_threat_level, is_private_ip};

verus! {

/// The flag names joined with single spaces and a trailing space, in
/// the fixed order FIN SYN RST PSH ACK URG.
pub open spec fn spec_flag_concat(f: u8) -> Seq<char> {
    (if f & 0x01 != 0 {
        "FIN "@
    } else {
        Seq::<char>::empty()
    }) + (if f & 0x02 != 0 {
        "SYN "@
    } else {
        Seq::<char>::empty()
    }) + (if f & 0x04 != 0 {
        "RST "@
    } else {
        Seq::<char>::empty()
    }) + (if f & 0x08 != 0 {
        "PSH "@
    } else {
        Seq::<char>::empty()
    }) + (if f & 0x10 != 0 {
        "ACK "@
    } else {
        Seq::<char>::empty()
    }) + (if f & 0x20 != 0 {
        "URG "@
    } else {
        Seq::<char>::empty()
    })
}

/// The flag summary text: the set flags' names separated by single
/// spaces.
pub open spec fn spec_tcp_flags(f: u8) -> Seq<char> {
    let c = spec_flag_concat(f);
    if c.len() > 0 {
        c.take(c.len() - 1)
    } else {
        c
    }
}

/// Renders the TCP flag summary of a flag byte.
pub fn tcp_flags_string(flags: u8) -> (r: String)
    ensures
        r@ == spec_tcp_flags(flags),
{
    let mut s = String::new();
    if flags & 0x01 != 0 {
        s.append("FIN ");
    }
    if flags & 0x02 != 0 {
        s.append("SYN ");
    }
    if flags & 0x04 != 0 {
        s.append("RST ");
    }
    if flags & 0x08 != 0 {
        s.append("PSH ");
    }
    if flags & 0x10 != 0 {
        s.append("ACK ");
    }
    if flags & 0x20 != 0 {
        s.append("URG ");
    }
    proof {
        assert(s@ =~= spec_flag_concat(flags));
    }
    let n = s.unicode_len();
    if n > 0 {
        let trimmed = s.as_str().substring_char(0, n - 1);
        let r = trimmed.to_owned();
        proof {
            assert(r@ =~= spec_tcp_flags(flags));
        }
        r
    } else {
        s
    }
}

/// Whether a payload head looks like HTTP: it starts with GET, POST or
/// HTTP, or carries a Host: header within the first hundred bytes.
pub open spec fn spec_http_payload(payload: Seq<u8>) -> bool {
    let head = if payload.len() <= 100 {
        payload
    } else {
        payload.take(100)
    };
    payload.len() > 0 && (spec_bytes_start_with(head, seq![71u8, 69u8, 84u8])  // GET
     || spec_bytes_start_with(head, seq![80u8, 79u8, 83u8, 84u8])  // POST
     || spec_bytes_start_with(head, seq![72u8, 84u8, 84u8, 80u8])  // HTTP
     || spec_bytes_contain(head, seq![72u8, 111u8, 115u8, 116u8, 58u8])  // Host:
    )
}

/// The application protocol inferred from a destination port and the
/// payload's head.
pub open spec fn spec_app_protocol(port: u16, payload: Seq<u8>) -> Option<Seq<char>> {
    if port == 80 || port == 8080 {
        if spec_http_payload(payload) {
            Some("HTTP"@)
        } else {
            Some("Web Traffic"@)
        }
    } else if port == 443 {
        Some("HTTPS"@)
    } else if port == 53 {
        Some("DNS"@)
    } else if port == 22 {
        Some("SSH"@)
    } else if port == 21 {
        Some("FTP"@)
    } else if port == 25 {
        Some("SMTP"@)
    } else if port == 110 {
        Some("POP3"@)
    } else if port == 143 {
        Some("IMAP"@)
    } else if port == 993 {
        Some("IMAPS"@)
    } else if port == 995 {
        Some("POP3S"@)
    } else {
        None
    }
}

/// Infers the application protocol from the destination port and the
/// head of the payload.
pub fn detect_application_protocol(port: u16, payload: &[u8]) -> (r: Option<String>)
    ensures
        match r {
            Some(name) => spec_app_protocol(port, payload@) == Some(name@),
            None => spec_app_protocol(port, payload@) is None,
        },
{
    if port == 80 || port == 8080 {
        let len = payload.len();
        let head = if len <= 100 {
            payload
        } else {
            vstd::slice::slice_subrange(payload, 0, 100)
        };
        proof {
            assert(head@ =~= if payload@.len() <= 100 {
                payload@
            } else {
                payload@.take(100)
            });
        }
        let is_http = len > 0 && (bytes_start_with(head, &[71u8, 69u8, 84u8]) || bytes_start_with(
            head,
            &[80u8, 79u8, 83u8, 84u8],
        ) || bytes_start_with(head, &[72u8, 84u8, 84u8, 80u8]) || bytes_contain(
            head,
            &[72u8, 111u8, 115u8, 116u8, 58u8],
        ));
        if is_http {
            Some("HTTP".to_owned())
        } else {
            Some("Web Traffic".to_owned())
        }
    } else if port == 443 {
        Some("HTTPS".to_owned())
    } else if port == 53 {
        Some("DNS".to_owned())
    } else if port == 22 {
        Some("SSH".to_owned())
    } else if port == 21 {
        Some("FTP".to_owned())
    } else if port == 25 {
        Some("SMTP".to_owned())
    } else if port == 110 {
        Some("POP3".to_owned())
    } else if port == 143 {
        Some("IMAP".to_owned())
    } else if port == 993 {
        Some("IMAPS".to_owned())
    } else if port == 995 {
        Some("POP3S".to_owned())
    } else {
        None
    }
}

/// The description of a record with an inferred application protocol.
pub open spec fn spec_app_description(app: Seq<char>) -> Seq<char> {
    if app == "HTTP"@ {
        "Web browsing (HTTP request/response)"@
    } else if app == "HTTPS"@ {
        "Secure web browsing (encrypted)"@
    } else if app == "DNS"@ {
        "Domain name lookup"@
    } else if app == "SSH"@ {
        "Secure shell connection"@
    } else if app == "FTP"@ {
        "File transfer"@
    } else if app == "SMTP"@ {
        "Email sending"@
    } else if app == "Web Traffic"@ {
        "Web-related traffic"@
    } else {
        app + " communication"@
    }
}

/// The description of a record without one, from its transport protocol
/// and ports.
pub open spec fn spec_transport_description(
    protocol: Seq<char>,
    src_port: Option<u16>,
    dst_port: Option<u16>,
) -> Seq<char> {
    if protocol == "TCP"@ {
        if src_port is Some && dst_port is Some {
            "TCP connection from port "@ + spec_decimal(src_port->Some_0 as int) + " to port "@
                + spec_decimal(dst_port->Some_0 as int)
        } else {
            "TCP connection"@
        }
    } else if protocol == "UDP"@ {
        if src_port is Some && dst_port is Some {
            "UDP communication from port "@ + spec_decimal(src_port->Some_0 as int) + " to port "@
                + spec_decimal(dst_port->Some_0 as int)
        } else {
            "UDP communication"@
        }
    } else if protocol == "ICMP"@ {
        "Network diagnostic (ping/traceroute)"@
    } else {
        protocol + " network traffic"@
    }
}

/// The whole description rule.
pub open spec fn spec_description(
    app: Option<Seq<char>>,
    protocol: Seq<char>,
    src_port: Option<u16>,
    dst_port: Option<u16>,
) -> Seq<char> {
    match app {
        Some(a) => spec_app_description(a),
        None => spec_transport_description(protocol, src_port, dst_port),
    }
}

/// Renders the human-readable description of a record from its inferred
/// application protocol, transport protocol and ports.
pub fn format_packet_description(
    application_protocol: &Option<String>,
    protocol: &str,
    src_port: Option<u16>,
    dst_port: Option<u16>,
) -> (r: String)
    ensures
        r@ == spec_description(
            match application_protocol {
                Some(a) => Some(a@),
                None => None,
            },
            protocol@,
            src_port,
            dst_port,
        ),
{
    match application_protocol {
        Some(app) => {
            if str_eq(app.as_str(), "HTTP") {
                "Web browsing (HTTP request/response)".to_owned()
            } else if str_eq(app.as_str(), "HTTPS") {
                "Secure web browsing (encrypted)".to_owned()
            } else if str_eq(app.as_str(), "DNS") {
                "Domain name lookup".to_owned()
            } else if str_eq(app.as_str(), "SSH") {
                "Secure shell connection".to_owned()
            } else if str_eq(app.as_str(), "FTP") {
                "File transfer".to_owned()
            } else if str_eq(app.as_str(), "SMTP") {
                "Email sending".to_owned()
            } else if str_eq(app.as_str(), "Web Traffic") {
                "Web-related traffic".to_owned()
            } else {
                let mut s = app.clone();
                s.append(" communication");
                s
            }
        },
        None => {
            if str_eq(protocol, "TCP") {
                match (src_port, dst_port) {
                    (Some(sp), Some(dp)) => {
                        let mut s = "TCP connection from port ".to_owned();
                        s.append(u64_string(sp as u64).as_str());
                        s.append(" to port ");
                        s.append(u64_string(dp as u64).as_str());
                        proof {
                            assert(s@ =~= spec_transport_description(
                                protocol@,
                                src_port,
                                dst_port,
                            ));
                        }
                        s
                    },
                    _ => "TCP connection".to_owned(),
                }
            } else if str_eq(protocol, "UDP") {
                match (src_port, dst_port) {
                    (Some(sp), Some(dp)) => {
                        let mut s = "UDP communication from port ".to_owned();
                        s.append(u64_string(sp as u64).as_str());
                        s.append(" to port ");
                        s.append(u64_string(dp as u64).as_str());
                        proof {
                            assert(s@ =~= spec_transport_description(
                                protocol@,
                                src_port,
                                dst_port,
                            ));
                        }
                        s
                    },
                    _ => "UDP communication".to_owned(),
                }
            } else if str_eq(protocol, "ICMP") {
                "Network diagnostic (ping/traceroute)".to_owned()
            } else {
                let mut s = protocol.to_owned();
                s.append(" network traffic");
                s
            }
        },
    }
}

/// The country of the fixed geographic table for an address.
pub open spec fn spec_geo_country(ip: Seq<char>) -> Seq<char> {
    if spec_is_private_ip(ip) {
        "Local Network"@
    } else if spec_starts_with(ip, "8.8."@) {
        "United States"@
    } else if spec_starts_with(ip, "1.1."@) {
        "Australia"@
    } else {
        "Unknown"@
    }
}

/// The city of the fixed geographic table for an address.
pub open spec fn spec_geo_city(ip: Seq<char>) -> Seq<char> {
    if spec_is_private_ip(ip) {
        "Local"@
    } else if spec_starts_with(ip, "8.8."@) {
        "Mountain View"@
    } else if spec_starts_with(ip, "1.1."@) {
        "Sydney"@
    } else {
        "Unknown"@
    }
}

/// The latitude of the fixed geographic table, in ten-thousandths of a
/// degree.
pub open spec fn spec_geo_lat(ip: Seq<char>) -> Option<i64> {
    if spec_is_private_ip(ip) {
        None
    } else if spec_starts_with(ip, "8.8."@) {
        Some(374056i64)
    } else if spec_starts_with(ip, "1.1."@) {
        Some(-338688i64)
    } else {
        None
    }
}

/// The longitude of the fixed geographic table, in ten-thousandths of a
/// degree.
pub open spec fn spec_geo_lon(ip: Seq<char>) -> Option<i64> {
    if spec_is_private_ip(ip) {
        None
    } else if spec_starts_with(ip, "8.8."@) {
        Some(-1220775i64)
    } else if spec_starts_with(ip, "1.1."@) {
        Some(1512093i64)
    } else {
        None
    }
}

/// The fixed placeholder geographic lookup: private addresses map to
/// the local network, two well-known prefixes to sample entries, and
/// everything else to Unknown.
pub fn get_geo_info(ip: &str) -> (r: Option<GeoInfo>)
    ensures
        r is Some,
        r->Some_0.country == Some(r->Some_0.country->Some_0) && r->Some_0.country->Some_0@
            == spec_geo_country(ip@),
        r->Some_0.city is Some && r->Some_0.city->Some_0@ == spec_geo_city(ip@),
        r->Some_0.latitude_e4 == spec_geo_lat(ip@),
        r->Some_0.longitude_e4 == spec_geo_lon(ip@),
{
    if is_private_ip(ip) {
        Some(
            GeoInfo {
                country: Some("Local Network".to_owned()),
                city: Some("Local".to_owned()),
                latitude_e4: None,
                longitude_e4: None,
            },
        )
    } else if str_starts_with(ip, "8.8.") {
        Some(
            GeoInfo {
                country: Some("United States".to_owned()),
                city: Some("Mountain View".to_owned()),
                latitude_e4: Some(374056),
                longitude_e4: Some(-1220775),
            },
        )
    } else if str_starts_with(ip, "1.1.") {
        Some(
            GeoInfo {
                country: Some("Australia".to_owned()),
                city: Some("Sydney".to_owned()),
                latitude_e4: Some(-338688),
                longitude_e4: Some(1512093),
            },
        )
    } else {
        Some(
            GeoInfo {
                country: Some("Unknown".to_owned()),
                city: Some("Unknown".to_owned()),
                latitude_e4: None,
                longitude_e4: None,
            },
        )
    }
}

/// TCP header fields as the decoder read them; `payload_head` holds the
/// leading bytes of the payload, at least the first hundred when the
/// payload is longer.
#[derive(Debug)]
pub struct DecodedTcp {
    pub src_port: u16,
    pub dst_port: u16,
    pub payload_len: usize,
    pub flags: u8,
    pub payload_head: Vec<u8>,
}

/// UDP header fields as the decoder read them.
#[derive(Debug)]
pub struct DecodedUdp {
    pub src_port: u16,
    pub dst_port: u16,
    pub payload_len: usize,
    pub payload_head: Vec<u8>,
}

/// The transport layer of a parsed IPv4 frame; `fields` is `None` when
/// the transport header did not parse, and `name` carries the rendered
/// name of an unrecognized IPv4 protocol.
#[derive(Debug)]
pub enum DecodedTransport {
    Tcp { fields: Option<DecodedTcp> },
    Udp { fields: Option<DecodedUdp> },
    Icmp { parsed: bool },
    Other { name: String },
}

/// A parsed IPv4 header and what follows it.
#[derive(Debug)]
pub struct DecodedIpv4 {
    pub src_ip: String,
    pub dst_ip: String,
    pub transport: DecodedTransport,
}

/// The network layer of an Ethernet frame; `name` carries the rendered
/// name of an unrecognized ethertype.
#[derive(Debug)]
pub enum DecodedNetwork {
    Ipv4 { fields: Option<DecodedIpv4> },
    Ipv6,
    Other { name: String },
}

/// A parsed Ethernet frame.
#[derive(Debug)]
pub struct DecodedEthernet {
    pub src_mac: String,
    pub dst_mac: String,
    pub net: DecodedNetwork,
}

/// The record's transport protocol name for a decoded frame.
pub open spec fn spec_protocol_name(eth: Option<DecodedEthernet>) -> Seq<char> {
    match eth {
        None => "Unknown"@,
        Some(e) => match e.net {
            DecodedNetwork::Ipv4 { fields: None } => "Unknown"@,
            DecodedNetwork::Ipv4 { fields: Some(v4) } => match v4.transport {
                DecodedTransport::Tcp { .. } => "TCP"@,
                DecodedTransport::Udp { .. } => "UDP"@,
                DecodedTransport::Icmp { .. } => "ICMP"@,
                DecodedTransport::Other { name } => name@,
            },
            DecodedNetwork::Ipv6 => "IPv6"@,
            DecodedNetwork::Other { name } => name@,
        },
    }
}

/// The record's source address for a decoded frame.
pub open spec fn spec_decoded_src_ip(eth: Option<DecodedEthernet>) -> Option<Seq<char>> {
    match eth {
        Some(e) => match e.net {
            DecodedNetwork::Ipv4 { fields: Some(v4) } => Some(v4.src_ip@),
            _ => None,
        },
        None => None,
    }
}

/// The record's destination address for a decoded frame.
pub open spec fn spec_decoded_dst_ip(eth: Option<DecodedEthernet>) -> Option<Seq<char>> {
    match eth {
        Some(e) => match e.net {
            DecodedNetwork::Ipv4 { fields: Some(v4) } => Some(v4.dst_ip@),
            _ => None,
        },
        None => None,
    }
}

/// The parsed transport of a decoded frame, if any.
pub open spec fn spec_decoded_transport(eth: Option<DecodedEthernet>) -> Option<DecodedTransport> {
    match eth {
        Some(e) => match e.net {
            DecodedNetwork::Ipv4 { fields: Some(v4) } => Some(v4.transport),
            _ => None,
        },
        None => None,
    }
}

/// The record's source port for a decoded frame.
pub open spec fn spec_decoded_src_port(eth: Option<DecodedEthernet>) -> Option<u16> {
    match spec_decoded_transport(eth) {
        Some(DecodedTransport::Tcp { fields: Some(t) }) => Some(t.src_port),
        Some(DecodedTransport::Udp { fields: Some(u) }) => Some(u.src_port),
        _ => None,
    }
}

/// The record's destination port for a decoded frame.
pub open spec fn spec_decoded_dst_port(eth: Option<DecodedEthernet>) -> Option<u16> {
    match spec_decoded_transport(eth) {
        Some(DecodedTransport::Tcp { fields: Some(t) }) => Some(t.dst_port),
        Some(DecodedTransport::Udp { fields: Some(u) }) => Some(u.dst_port),
        _ => None,
    }
}

/// The record's payload size for a decoded frame; zero when no
/// transport payload was read.
pub open spec fn spec_decoded_payload_size(eth: Option<DecodedEthernet>) -> int {
    match spec_decoded_transport(eth) {
        Some(DecodedTransport::Tcp { fields: Some(t) }) => t.payload_len as int,
        Some(DecodedTransport::Udp { fields: Some(u) }) => u.payload_len as int,
        _ => 0,
    }
}

/// The record's flag summary for a decoded frame: present exactly for a
/// parsed TCP header.
pub open spec fn spec_decoded_flags(eth: Option<DecodedEthernet>) -> Option<Seq<char>> {
    match spec_decoded_transport(eth) {
        Some(DecodedTransport::Tcp { fields: Some(t) }) => Some(spec_tcp_flags(t.flags)),
        _ => None,
    }
}

/// The record's inferred application protocol for a decoded frame:
/// judged on the destination port and the payload head of a parsed TCP
/// or UDP header.
pub open spec fn spec_decoded_app_protocol(eth: Option<DecodedEthernet>) -> Option<Seq<char>> {
    match spec_decoded_transport(eth) {
        Some(DecodedTransport::Tcp { fields: Some(t) }) => spec_app_protocol(
            t.dst_port,
            t.payload_head@,
        ),
        Some(DecodedTransport::Udp { fields: Some(u) }) => spec_app_protocol(
            u.dst_port,
            u.payload_head@,
        ),
        _ => None,
    }
}

/// The record's description for a decoded frame.
pub open spec fn spec_decoded_description(eth: Option<DecodedEthernet>) -> Seq<char> {
    match eth {
        None => "Unknown packet"@,
        Some(e) => match e.net {
            DecodedNetwork::Ipv4 { fields: None } => "Unknown packet"@,
            DecodedNetwork::Ipv4 { fields: Some(v4) } => match v4.transport {
                DecodedTransport::Tcp { fields: Some(t) } => spec_description(
                    spec_app_protocol(t.dst_port, t.payload_head@),
                    "TCP"@,
                    Some(t.src_port),
                    Some(t.dst_port),
                ),
                DecodedTransport::Udp { fields: Some(u) } => spec_description(
                    spec_app_protocol(u.dst_port, u.payload_head@),
                    "UDP"@,
                    Some(u.src_port),
                    Some(u.dst_port),
                ),
                DecodedTransport::Icmp { parsed: true } => "ICMP ping/echo message"@,
                _ => "Unknown packet"@,
            },
            DecodedNetwork::Ipv6 => "IPv6 packet (parsing not fully implemented)"@,
            DecodedNetwork::Other { .. } => "Unknown packet"@,
        },
    }
}

/// Builds one normalized record from a decoded frame: fills every
/// field, infers the application protocol and description, classifies
/// the threat level, and attaches the geographic hint for the
/// destination address. The decoder carves the transport payload out of
/// the frame, so its length never exceeds the frame size.
pub fn build_packet_record(
    timestamp_millis: u64,
    packet_number: usize,
    packet_size: usize,
    eth: Option<DecodedEthernet>,
) -> (r: PacketRecord)
    requires
        spec_decoded_payload_size(eth) <= packet_size as int,
    ensures
        r.timestamp_millis == timestamp_millis,
        r.packet_number == packet_number,
        r.packet_size == packet_size,
        r.payload_size <= r.packet_size,
        eth is Some ==> r.src_mac@ == eth->Some_0.src_mac@ && r.dst_mac@ == eth->Some_0.dst_mac@,
        eth is None ==> r.src_mac@ == Seq::<char>::empty() && r.dst_mac@ == Seq::<char>::empty(),
        match r.src_ip {
            Some(ip) => spec_decoded_src_ip(eth) == Some(ip@),
            None => spec_decoded_src_ip(eth) is None,
        },
        match r.dst_ip {
            Some(ip) => spec_decoded_dst_ip(eth) == Some(ip@),
            None => spec_decoded_dst_ip(eth) is None,
        },
        r.protocol@ == spec_protocol_name(eth),
        r.src_port == spec_decoded_src_port(eth),
        r.dst_port == spec_decoded_dst_port(eth),
        r.payload_size as int == spec_decoded_payload_size(eth),
        match r.flags {
            Some(f) => spec_decoded_flags(eth) == Some(f@),
            None => spec_decoded_flags(eth) is None,
        },
        match r.application_protocol {
            Some(a) => spec_decoded_app_protocol(eth) == Some(a@),
            None => spec_decoded_app_protocol(eth) is None,
        },
        r.description@ == spec_decoded_description(eth),
        r.threat_level == spec_classify(r),
        match r.geo_info {
            Some(g) => {
                &&& spec_decoded_dst_ip(eth) is Some
                &&& g.country is Some
                &&& g.country->Some_0@ == spec_geo_country(spec_decoded_dst_ip(eth)->Some_0)
                &&& g.city is Some
                &&& g.city->Some_0@ == spec_geo_city(spec_decoded_dst_ip(eth)->Some_0)
                &&& g.latitude_e4 == spec_geo_lat(spec_decoded_dst_ip(eth)->Some_0)
                &&& g.longitude_e4 == spec_geo_lon(spec_decoded_dst_ip(eth)->Some_0)
            },
            None => spec_decoded_dst_ip(eth) is None,
        },
{
    let mut r = PacketRecord {
        timestamp_millis,
        packet_number,
        src_mac: String::new(),
        dst_mac: String::new(),
        src_ip: None,
        dst_ip: None,
        protocol: "Unknown".to_owned(),
        src_port: None,
        dst_port: None,
        packet_size,
        flags: None,
        payload_size: 0,
        application_protocol: None,
        description: "Unknown packet".to_owned(),
        threat_level: ThreatLevel::Safe,
        geo_info: None,
    };

    match eth {
        Some(e) => {
            r.src_mac = e.src_mac;
            r.dst_mac = e.dst_mac;
            match e.net {
                DecodedNetwork::Ipv4 { fields: Some(v4) } => {
                    r.src_ip = Some(v4.src_ip);
                    r.dst_ip = Some(v4.dst_ip);
                    match v4.transport {
                        DecodedTransport::Tcp { fields } => {
                            r.protocol = "TCP".to_owned();
                            match fields {
                                Some(t) => {
                                    r.src_port = Some(t.src_port);
                                    r.dst_port = Some(t.dst_port);
                                    r.payload_size = t.payload_len;
                                    r.flags = Some(tcp_flags_string(t.flags));
                                    r.application_protocol = detect_application_protocol(
                                        t.dst_port,
                                        t.payload_head.as_slice(),
                                    );
                                    r.description = format_packet_description(
                                        &r.application_protocol,
                                        r.protocol.as_str(),
                                        r.src_port,
                                        r.dst_port,
                                    );
                                },
                                None => {},
                            }
                        },
                        DecodedTransport::Udp { fields } => {
                            r.protocol = "UDP".to_owned();
                            match fields {
                                Some(u) => {
                                    r.src_port = Some(u.src_port);
                                    r.dst_port = Some(u.dst_port);
                                    r.payload_size = u.payload_len;
                                    r.application_protocol = detect_application_protocol(
                                        u.dst_port,
                                        u.payload_head.as_slice(),
                                    );
                                    r.description = format_packet_description(
                                        &r.application_protocol,
                                        r.protocol.as_str(),
                                        r.src_port,
                                        r.dst_port,
                                    );
                                },
                                None => {},
                            }
                        },
                        DecodedTransport::Icmp { parsed } => {
                            r.protocol = "ICMP".to_owned();
                            if parsed {
                                r.description = "ICMP ping/echo message".to_owned();
                            }
                        },
                        DecodedTransport::Other { name } => {
                            r.protocol = name;
                        },
                    }
                },
                DecodedNetwork::Ipv4 { fields: None } => {},
                DecodedNetwork::Ipv6 => {
                    r.protocol = "IPv6".to_owned();
                    r.description = "IPv6 packet (parsing not fully implemented)".to_owned();
                },
                DecodedNetwork::Other { name } => {
                    r.protocol = name;
                },
            }
        },
        None => {},
    }

    r.threat_level = detect_threat_level(&r);

    match &r.dst_ip {
        Some(ip) => {
            r.geo_info = get_geo_info(ip.as_str());
        },
        None => {},
    }

    r
}

} // verus!
