use rust_engine::config::{parse_port, resolve_host, resolve_port, DEFAULT_HOST, DEFAULT_PORT};

#[test]
fn parse_port_reads_decimal_ports() {
    assert_eq!(parse_port("8001"), Some(8001));
    assert_eq!(parse_port("0"), Some(0));
    assert_eq!(parse_port("7"), Some(7));
    assert_eq!(parse_port("65535"), Some(65535));
}

#[test]
fn parse_port_allows_leading_zeros() {
    assert_eq!(parse_port("0080"), Some(80));
    assert_eq!(parse_port("000000000000065535"), Some(65535));
}

#[test]
fn parse_port_rejects_values_above_the_largest_port() {
    assert_eq!(parse_port("65536"), None);
    assert_eq!(parse_port("70000"), None);
    assert_eq!(parse_port("99999999999999999999"), None);
}

#[test]
fn parse_port_rejects_text_that_is_not_digits() {
    assert_eq!(parse_port(""), None);
    assert_eq!(parse_port("+80"), None);
    assert_eq!(parse_port("-1"), None);
    assert_eq!(parse_port(" 80"), None);
    assert_eq!(parse_port("80 "), None);
    assert_eq!(parse_port("8o"), None);
    assert_eq!(parse_port("\u{ff18}\u{ff10}"), None);
    assert_eq!(parse_port("8é"), None);
}

#[test]
fn resolve_port_falls_back_to_the_default() {
    assert_eq!(DEFAULT_PORT, 8001);
    assert_eq!(resolve_port(None), Some(8001));
    assert_eq!(resolve_port(Some("9000")), Some(9000));
    assert_eq!(resolve_port(Some("not-a-port")), None);
    assert_eq!(resolve_port(Some("")), None);
}

#[test]
fn resolve_host_falls_back_to_every_interface() {
    assert_eq!(DEFAULT_HOST, "0.0.0.0");
    assert_eq!(resolve_host(None), "0.0.0.0");
    assert_eq!(resolve_host(Some("127.0.0.1")), "127.0.0.1");
}
