//! The library's error kinds and their user-facing messages.

use vstd::prelude::*;

verus! {

/// Declares the standard I/O error type so a variant can carry one.
#[verifier::external_type_specification]
#[verifier::external_body]
pub struct ExIoError(std::io::Error);

/// Everything that can go wrong around a capture: interface discovery,
/// permissions, the network channel, configuration, exporting, filter
/// validation, and plain I/O.
#[derive(Debug)]
pub enum PacketSnifferError {
    InterfaceNotFound(String),
    PermissionDenied,
    NetworkError(String),
    ConfigError(String),
    ExportError(String),
    InvalidFilter(String),
    IoError(std::io::Error),
}

/// Relies on `std::io::Error`'s `Display` rendering, through `format!`,
/// for the text of a wrapped I/O error.
#[verifier::external_body]
fn io_error_text(e: &std::io::Error) -> String {
    format!("{}", e)
}

impl PacketSnifferError {
    /// The user-facing message of an error, with its fixed wording per
    /// kind; only the wrapped I/O error's own text is taken on trust.
    pub fn message(&self) -> (r: String)
        ensures
            match *self {
                PacketSnifferError::InterfaceNotFound(i) => r@ == "Network interface '"@ + i@
                    + "' not found. Use --list-interfaces to see available interfaces."@,
                PacketSnifferError::PermissionDenied => r@
                    == "Permission denied. Please run with administrator/root privileges to capture packets."@,
                PacketSnifferError::NetworkError(m) => r@ == "Network error: "@ + m@
                    + ". Check your network connection and interface status."@,
                PacketSnifferError::ConfigError(m) => r@ == "Configuration error: "@ + m@
                    + ". Check your config.json file."@,
                PacketSnifferError::ExportError(m) => r@ == "Export error: "@ + m@
                    + ". Check file permissions and disk space."@,
                PacketSnifferError::InvalidFilter(f) => r@ == "Invalid filter '"@ + f@
                    + "'. Supported filters: tcp, udp, icmp, http, dns"@,
                PacketSnifferError::IoError(_) => crate::strutil::spec_starts_with(
                    r@,
                    "I/O error: "@,
                ) && crate::strutil::spec_ends_with(
                    r@,
                    ". Check file permissions and disk space."@,
                ),
            },
    {
        match self {
            PacketSnifferError::InterfaceNotFound(i) => {
                let mut r = "Network interface '".to_owned();
                r.append(i.as_str());
                r.append("' not found. Use --list-interfaces to see available interfaces.");
                proof {
                    assert(r@ =~= "Network interface '"@ + i@
                        + "' not found. Use --list-interfaces to see available interfaces."@);
                }
                r
            },
            PacketSnifferError::PermissionDenied => {
                "Permission denied. Please run with administrator/root privileges to capture packets.".to_owned()
            },
            PacketSnifferError::NetworkError(m) => {
                let mut r = "Network error: ".to_owned();
                r.append(m.as_str());
                r.append(". Check your network connection and interface status.");
                proof {
                    assert(r@ =~= "Network error: "@ + m@
                        + ". Check your network connection and interface status."@);
                }
                r
            },
            PacketSnifferError::ConfigError(m) => {
                let mut r = "Configuration error: ".to_owned();
                r.append(m.as_str());
                r.append(". Check your config.json file.");
                proof {
                    assert(r@ =~= "Configuration error: "@ + m@
                        + ". Check your config.json file."@);
                }
                r
            },
            PacketSnifferError::ExportError(m) => {
                let mut r = "Export error: ".to_owned();
                r.append(m.as_str());
                r.append(". Check file permissions and disk space.");
                proof {
                    assert(r@ =~= "Export error: "@ + m@
                        + ". Check file permissions and disk space."@);
                }
                r
            },
            PacketSnifferError::InvalidFilter(f) => {
                let mut r = "Invalid filter '".to_owned();
                r.append(f.as_str());
                r.append("'. Supported filters: tcp, udp, icmp, http, dns");
                proof {
                    assert(r@ =~= "Invalid filter '"@ + f@
                        + "'. Supported filters: tcp, udp, icmp, http, dns"@);
                }
                r
            },
            PacketSnifferError::IoError(e) => {
                let mut r = "I/O error: ".to_owned();
                let ghost prefix = r@;
                r.append(io_error_text(e).as_str());
                r.append(". Check file permissions and disk space.");
                proof {
                    let suffix = ". Check file permissions and disk space."@;
                    assert(r@.subrange(0, prefix.len() as int) =~= prefix);
                    assert(r@.subrange(r@.len() - suffix.len(), r@.len() as int) =~= suffix);
                }
                r
            },
        }
    }
}

impl From<std::io::Error> for PacketSnifferError {
    /// Wraps a plain I/O error.
    fn from(e: std::io::Error) -> (r: PacketSnifferError)
        ensures
            r == PacketSnifferError::IoError(e),
    {
        PacketSnifferError::IoError(e)
    }
}

impl vstd::std_specs::convert::FromSpecImpl<std::io::Error> for PacketSnifferError {
    open spec fn obeys_from_spec() -> bool {
        true
    }

    open spec fn from_spec(e: std::io::Error) -> PacketSnifferError {
        PacketSnifferError::IoError(e)
    }
}

} // verus!
