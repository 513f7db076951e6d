use packet_sniffer::strutil::{
    bytes_contain, bytes_start_with, str_eq, str_eq_ignore_ascii_case, str_starts_with, u64_string,
};

#[test]
fn decimal_of_zero() {
    assert_eq!(u64_string(0), "0");
}

#[test]
fn decimal_of_single_digit() {
    assert_eq!(u64_string(7), "7");
}

#[test]
fn decimal_of_many_digits() {
    assert_eq!(u64_string(65535), "65535");
    assert_eq!(u64_string(1000), "1000");
    assert_eq!(u64_string(u64::MAX), "18446744073709551615");
}

#[test]
fn prefix_tests() {
    assert!(str_starts_with("10.0.0.1", "10."));
    assert!(!str_starts_with("110.0.0.1", "10."));
    assert!(str_starts_with("abc", ""));
    assert!(!str_starts_with("ab", "abc"));
}

#[test]
fn string_equality() {
    assert!(str_eq("TCP", "TCP"));
    assert!(!str_eq("TCP", "UDP"));
    assert!(!str_eq("TCP", "TCPX"));
}

#[test]
fn case_insensitive_equality() {
    assert!(str_eq_ignore_ascii_case("HtTp", "http"));
    assert!(str_eq_ignore_ascii_case("TCP", "tcp"));
    assert!(!str_eq_ignore_ascii_case("tcp", "udp"));
    assert!(!str_eq_ignore_ascii_case("tcp", "tcpp"));
}

#[test]
fn byte_prefix_and_search() {
    assert!(bytes_start_with(b"GET / HTTP/1.1", b"GET"));
    assert!(!bytes_start_with(b"PUT /", b"GET"));
    assert!(bytes_contain(b"abc Host: example", b"Host:"));
    assert!(!bytes_contain(b"abc", b"Host:"));
    assert!(bytes_contain(b"anything", b""));
}
