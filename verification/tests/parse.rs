use net_analyzer::{mask_from_prefix, parse_ipv4, popcount_u32};

fn quad(a: u32, b: u32, c: u32, d: u32) -> u32 {
    (a << 24) | (b << 16) | (c << 8) | d
}

#[test]
fn parses_plain_addresses() {
    assert_eq!(parse_ipv4("0.0.0.0"), Some(0));
    assert_eq!(parse_ipv4("255.255.255.255"), Some(u32::MAX));
    assert_eq!(parse_ipv4("192.168.0.1"), Some(quad(192, 168, 0, 1)));
    assert_eq!(parse_ipv4("1.2.3.4"), Some(quad(1, 2, 3, 4)));
}

#[test]
fn leading_zeros_are_plain_digits() {
    assert_eq!(parse_ipv4("010.000.003.009"), Some(quad(10, 0, 3, 9)));
}

#[test]
fn rejects_wrong_shapes() {
    assert_eq!(parse_ipv4(""), None);
    assert_eq!(parse_ipv4("1.2.3"), None);
    assert_eq!(parse_ipv4("1.2.3.4.5"), None);
    assert_eq!(parse_ipv4("1..2.3"), None);
    assert_eq!(parse_ipv4("1.2.3."), None);
    assert_eq!(parse_ipv4(".1.2.3"), None);
    assert_eq!(parse_ipv4("a.b.c.d"), None);
    assert_eq!(parse_ipv4("1.2.3.4 "), None);
    assert_eq!(parse_ipv4("256.1.1.1"), None);
    assert_eq!(parse_ipv4("1.1.1.999"), None);
    assert_eq!(parse_ipv4("-1.2.3.4"), None);
}

#[test]
fn mask_of_each_prefix_length() {
    assert_eq!(mask_from_prefix(0), 0);
    assert_eq!(mask_from_prefix(1), quad(128, 0, 0, 0));
    assert_eq!(mask_from_prefix(8), quad(255, 0, 0, 0));
    assert_eq!(mask_from_prefix(16), quad(255, 255, 0, 0));
    assert_eq!(mask_from_prefix(24), quad(255, 255, 255, 0));
    assert_eq!(mask_from_prefix(30), quad(255, 255, 255, 252));
    assert_eq!(mask_from_prefix(32), u32::MAX);
}

#[test]
fn popcount_reads_the_prefix_back() {
    for p in 0..=32u32 {
        assert_eq!(popcount_u32(mask_from_prefix(p)), p);
    }
    assert_eq!(popcount_u32(0), 0);
    assert_eq!(popcount_u32(1), 1);
    assert_eq!(popcount_u32(quad(255, 255, 255, 1)), 25);
    assert_eq!(popcount_u32(u32::MAX), 32);
}
