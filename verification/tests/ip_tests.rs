use vnt_dns::ip::{parse_ipv4, Ipv4};

fn ip(a: u8, b: u8, c: u8, d: u8) -> Ipv4 {
    Ipv4 { a, b, c, d }
}

#[test]
fn parses_plain_addresses() {
    assert_eq!(parse_ipv4("10.0.0.5"), Some(ip(10, 0, 0, 5)));
    assert_eq!(parse_ipv4("10.26.0.6"), Some(ip(10, 26, 0, 6)));
    assert_eq!(parse_ipv4("192.168.1.254"), Some(ip(192, 168, 1, 254)));
}

#[test]
fn parses_extremes() {
    assert_eq!(parse_ipv4("0.0.0.0"), Some(ip(0, 0, 0, 0)));
    assert_eq!(parse_ipv4("255.255.255.255"), Some(ip(255, 255, 255, 255)));
}

#[test]
fn rejects_out_of_range_octets() {
    assert_eq!(parse_ipv4("256.0.0.1"), None);
    assert_eq!(parse_ipv4("1.2.3.300"), None);
    assert_eq!(parse_ipv4("1.2.3.1000"), None);
}

#[test]
fn rejects_leading_zeros() {
    assert_eq!(parse_ipv4("01.2.3.4"), None);
    assert_eq!(parse_ipv4("1.2.3.04"), None);
    assert_eq!(parse_ipv4("00.0.0.0"), None);
}

#[test]
fn rejects_wrong_shape() {
    assert_eq!(parse_ipv4(""), None);
    assert_eq!(parse_ipv4("1.2.3"), None);
    assert_eq!(parse_ipv4("1.2.3.4.5"), None);
    assert_eq!(parse_ipv4("1..2.3"), None);
    assert_eq!(parse_ipv4(".1.2.3"), None);
    assert_eq!(parse_ipv4("1.2.3."), None);
    assert_eq!(parse_ipv4("a.b.c.d"), None);
    assert_eq!(parse_ipv4(" 1.2.3.4"), None);
    assert_eq!(parse_ipv4("1.2.3.4 "), None);
    assert_eq!(parse_ipv4("not-an-address"), None);
}
