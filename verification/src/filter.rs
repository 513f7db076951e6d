//! The capture filter: which decoded frames a protocol filter and a port
//! filter accept.

use vstd::prelude::*;
use crate::strutil::{spec_eq_ignore_ascii_case, str_eq_ignore_ascii_case};

verus! {

/// The transport layer of an IPv4 frame as far as the decoder could read
/// it; `ports` is `None` when the transport header did not parse.
#[derive(Clone, Copy, Debug)]
pub enum FilterTransport {
    Tcp { ports: Option<(u16, u16)> },
    Udp { ports: Option<(u16, u16)> },
    Icmp,
    Other,
}

/// What the decoder saw of one captured frame, as far as the filter
/// needs it.
#[derive(Clone, Copy, Debug)]
pub enum FilterSubject {
    /// The frame did not parse as Ethernet.
    NotEthernet,
    /// An Ethernet frame with a non-IPv4 ethertype.
    NonIpv4,
    /// An IPv4 ethertype whose IPv4 header did not parse.
    Ipv4Unparsed,
    /// A parsed IPv4 frame and its transport layer.
    Ipv4(FilterTransport),
}

/// The recognized protocol filter names.
pub open spec fn spec_is_valid_protocol(s: Seq<char>) -> bool {
    ||| spec_eq_ignore_ascii_case(s, "tcp"@)
    ||| spec_eq_ignore_ascii_case(s, "udp"@)
    ||| spec_eq_ignore_ascii_case(s, "icmp"@)
    ||| spec_eq_ignore_ascii_case(s, "http"@)
    ||| spec_eq_ignore_ascii_case(s, "dns"@)
}

/// Tests whether a filter name is one of tcp, udp, icmp, http, dns,
/// case-insensitively.
pub fn is_valid_protocol(protocol: &str) -> (r: bool)
    ensures
        r == spec_is_valid_protocol(protocol@),
{
    str_eq_ignore_ascii_case(protocol, "tcp") || str_eq_ignore_ascii_case(protocol, "udp")
        || str_eq_ignore_ascii_case(protocol, "icmp") || str_eq_ignore_ascii_case(protocol, "http")
        || str_eq_ignore_ascii_case(protocol, "dns")
}

/// Whether either port of a pair equals `p`.
pub open spec fn spec_either_port(ports: (u16, u16), p: u16) -> bool {
    ports.0 == p || ports.1 == p
}

/// What the "http" filter accepts: a parsed TCP transport with port 80
/// or 8080 on either side.
pub open spec fn spec_http_match(t: FilterTransport) -> bool {
    match t {
        FilterTransport::Tcp { ports: Some(ports) } => spec_either_port(ports, 80)
            || spec_either_port(ports, 8080),
        _ => false,
    }
}

/// What the "dns" filter accepts: a parsed UDP transport with port 53 on
/// either side.
pub open spec fn spec_dns_match(t: FilterTransport) -> bool {
    match t {
        FilterTransport::Udp { ports: Some(ports) } => spec_either_port(ports, 53),
        _ => false,
    }
}

/// The port filter's verdict on a transport: matching transports with a
/// parsed header pass by their ports, TCP or UDP without a parsed header
/// passes, and other transports fail.
pub open spec fn spec_port_filter_match(t: FilterTransport, p: u16) -> bool {
    match t {
        FilterTransport::Tcp { ports: Some(ports) } => spec_either_port(ports, p),
        FilterTransport::Tcp { ports: None } => true,
        FilterTransport::Udp { ports: Some(ports) } => spec_either_port(ports, p),
        FilterTransport::Udp { ports: None } => true,
        _ => false,
    }
}

/// The whole capture decision for a parsed IPv4 frame.
pub open spec fn spec_ipv4_capture(
    t: FilterTransport,
    filter: Option<Seq<char>>,
    port: Option<u16>,
) -> bool {
    match filter {
        Some(f) => {
            if spec_eq_ignore_ascii_case(f, "tcp"@) {
                (t is Tcp) && spec_port_stage(t, port)
            } else if spec_eq_ignore_ascii_case(f, "udp"@) {
                (t is Udp) && spec_port_stage(t, port)
            } else if spec_eq_ignore_ascii_case(f, "icmp"@) {
                (t is Icmp) && spec_port_stage(t, port)
            } else if spec_eq_ignore_ascii_case(f, "http"@) {
                spec_http_match(t)
            } else if spec_eq_ignore_ascii_case(f, "dns"@) {
                spec_dns_match(t)
            } else {
                spec_port_stage(t, port)
            }
        },
        None => spec_port_stage(t, port),
    }
}

/// The port-filter stage alone.
pub open spec fn spec_port_stage(t: FilterTransport, port: Option<u16>) -> bool {
    match port {
        Some(p) => spec_port_filter_match(t, p),
        None => true,
    }
}

/// The whole capture decision.
pub open spec fn spec_should_capture(
    subject: FilterSubject,
    filter: Option<Seq<char>>,
    port: Option<u16>,
) -> bool {
    match subject {
        FilterSubject::NotEthernet => true,
        FilterSubject::NonIpv4 => false,
        FilterSubject::Ipv4Unparsed => true,
        FilterSubject::Ipv4(t) => spec_ipv4_capture(t, filter, port),
    }
}

/// Decides whether one decoded frame passes the protocol filter and the
/// port filter. The "http" and "dns" filters decide on their own and do
/// not consult the port filter; an unrecognized filter name accepts
/// every frame (documented pass-through).
pub fn should_capture_packet(
    subject: &FilterSubject,
    protocol_filter: Option<&str>,
    port_filter: Option<u16>,
) -> (r: bool)
    ensures
        r == spec_should_capture(
            *subject,
            match protocol_filter {
                Some(f) => Some(f@),
                None => None,
            },
            port_filter,
        ),
{
    let t = match subject {
        FilterSubject::NotEthernet => {
            return true;
        },
        FilterSubject::NonIpv4 => {
            return false;
        },
        FilterSubject::Ipv4Unparsed => {
            return true;
        },
        FilterSubject::Ipv4(t) => t,
    };

    match protocol_filter {
        Some(f) => {
            if str_eq_ignore_ascii_case(f, "tcp") {
                if !(matches!(t, FilterTransport::Tcp { .. })) {
                    return false;
                }
            } else if str_eq_ignore_ascii_case(f, "udp") {
                if !(matches!(t, FilterTransport::Udp { .. })) {
                    return false;
                }
            } else if str_eq_ignore_ascii_case(f, "icmp") {
                if !(matches!(t, FilterTransport::Icmp)) {
                    return false;
                }
            } else if str_eq_ignore_ascii_case(f, "http") {
                return match t {
                    FilterTransport::Tcp { ports: Some(ports) } => ports.0 == 80 || ports.1 == 80
                        || ports.0 == 8080 || ports.1 == 8080,
                    _ => false,
                };
            } else if str_eq_ignore_ascii_case(f, "dns") {
                return match t {
                    FilterTransport::Udp { ports: Some(ports) } => ports.0 == 53 || ports.1 == 53,
                    _ => false,
                };
            }
        },
        None => {},
    }

    match port_filter {
        Some(p) => match t {
            FilterTransport::Tcp { ports: Some(ports) } => ports.0 == p || ports.1 == p,
            FilterTransport::Tcp { ports: None } => true,
            FilterTransport::Udp { ports: Some(ports) } => ports.0 == p || ports.1 == p,
            FilterTransport::Udp { ports: None } => true,
            _ => false,
        },
        None => true,
    }
}

/// The "http" filter accepts exactly the parsed TCP frames with source
/// or destination port 80 or 8080, whatever the port filter says; the
/// "dns" filter accepts exactly the parsed UDP frames with source or
/// destination port 53.
pub proof fn lemma_http_dns_filters(t: FilterTransport, port: Option<u16>)
    ensures
        spec_should_capture(FilterSubject::Ipv4(t), Some("http"@), port) == spec_http_match(t),
        spec_should_capture(FilterSubject::Ipv4(t), Some("dns"@), port) == spec_dns_match(t),
{
    reveal_strlit("http");
    reveal_strlit("dns");
    reveal_strlit("tcp");
    reveal_strlit("udp");
    reveal_strlit("icmp");
    assert(!spec_eq_ignore_ascii_case("http"@, "tcp"@)) by {
        assert("http"@.map_values(|c: char| crate::strutil::lower_char(c)).len() == 4);
        assert("tcp"@.map_values(|c: char| crate::strutil::lower_char(c)).len() == 3);
    }
    assert(!spec_eq_ignore_ascii_case("http"@, "udp"@)) by {
        assert("http"@.map_values(|c: char| crate::strutil::lower_char(c)).len() == 4);
        assert("udp"@.map_values(|c: char| crate::strutil::lower_char(c)).len() == 3);
    }
    assert(!spec_eq_ignore_ascii_case("http"@, "icmp"@)) by {
        assert("http"@.map_values(|c: char| crate::strutil::lower_char(c))[0] == 'h');
        assert("icmp"@.map_values(|c: char| crate::strutil::lower_char(c))[0] == 'i');
    }
    assert(spec_eq_ignore_ascii_case("http"@, "http"@));
    assert(!spec_eq_ignore_ascii_case("dns"@, "tcp"@)) by {
        assert("dns"@.map_values(|c: char| crate::strutil::lower_char(c))[0] == 'd');
        assert("tcp"@.map_values(|c: char| crate::strutil::lower_char(c))[0] == 't');
    }
    assert(!spec_eq_ignore_ascii_case("dns"@, "udp"@)) by {
        assert("dns"@.map_values(|c: char| crate::strutil::lower_char(c))[0] == 'd');
        assert("udp"@.map_values(|c: char| crate::strutil::lower_char(c))[0] == 'u');
    }
    assert(!spec_eq_ignore_ascii_case("dns"@, "icmp"@)) by {
        assert("dns"@.map_values(|c: char| crate::strutil::lower_char(c)).len() == 3);
        assert("icmp"@.map_values(|c: char| crate::strutil::lower_char(c)).len() == 4);
    }
    assert(!spec_eq_ignore_ascii_case("dns"@, "http"@)) by {
        assert("dns"@.map_values(|c: char| crate::strutil::lower_char(c)).len() == 3);
        assert("http"@.map_values(|c: char| crate::strutil::lower_char(c)).len() == 4);
    }
    assert(spec_eq_ignore_ascii_case("dns"@, "dns"@));
}

} // verus!
