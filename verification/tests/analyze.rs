use net_analyzer::{analyze, is_cidr_input, normalize, NetError, NetworkAnalyze};

fn quad(a: u32, b: u32, c: u32, d: u32) -> u32 {
    (a << 24) | (b << 16) | (c << 8) | d
}

#[test]
fn cidr_round_trip() {
    let d = analyze("192.168.1.10/24", None).unwrap();
    assert_eq!(d.ip, quad(192, 168, 1, 10));
    assert_eq!(d.mask, quad(255, 255, 255, 0));
    assert_eq!(d.network, quad(192, 168, 1, 0));
    assert_eq!(d.min_host, quad(192, 168, 1, 1));
    assert_eq!(d.max_host, quad(192, 168, 1, 254));
    assert_eq!(d.gateway, quad(192, 168, 1, 1));
    assert_eq!(d.prefix_len, 24);
    assert_eq!(d.host_count, 254);
}

#[test]
fn classic_form_slash_30() {
    let d = analyze("10.0.0.5", Some("255.255.255.252")).unwrap();
    assert_eq!(d.ip, quad(10, 0, 0, 5));
    assert_eq!(d.mask, quad(255, 255, 255, 252));
    assert_eq!(d.network, quad(10, 0, 0, 4));
    assert_eq!(d.min_host, quad(10, 0, 0, 5));
    assert_eq!(d.max_host, quad(10, 0, 0, 6));
    assert_eq!(d.gateway, quad(10, 0, 0, 5));
    assert_eq!(d.prefix_len, 30);
    assert_eq!(d.host_count, 2);
}

#[test]
fn zero_prefix_boundary() {
    let d = analyze("0.0.0.0/0", None).unwrap();
    assert_eq!(d.mask, 0);
    assert_eq!(d.network, 0);
    assert_eq!(d.prefix_len, 0);
    assert_eq!(d.host_count, u32::MAX as u64 - 1);
    assert_eq!(d.min_host, 1);
    assert_eq!(d.max_host, u32::MAX - 1);
}

#[test]
fn full_prefix_has_no_hosts() {
    let d = analyze("10.0.0.1/32", None).unwrap();
    assert_eq!(d.mask, u32::MAX);
    assert_eq!(d.network, quad(10, 0, 0, 1));
    assert_eq!(d.host_count, 0);
    assert_eq!(d.max_host, d.network);
    assert_eq!(d.min_host, d.network + 1);
}

#[test]
fn slash_31_has_no_hosts() {
    let d = analyze("10.0.0.1/31", None).unwrap();
    assert_eq!(d.prefix_len, 31);
    assert_eq!(d.host_count, 0);
    assert_eq!(d.max_host, d.network);
}

#[test]
fn degenerate_blocks_at_the_edges_of_the_space() {
    let d = analyze("0.0.0.0/32", None).unwrap();
    assert_eq!(d.network, 0);
    assert_eq!(d.host_count, 0);
    assert_eq!(d.min_host, 1);
    assert_eq!(d.max_host, 0);
    let e = analyze("255.255.255.254/31", None).unwrap();
    assert_eq!(e.network, u32::MAX - 1);
    assert_eq!(e.min_host, u32::MAX);
    assert_eq!(e.max_host, e.network);
    assert_eq!(e.host_count, 0);
}

#[test]
fn cidr_input_ignores_the_second_line() {
    assert_eq!(
        analyze("1.2.3.4/24", Some("255.0.0.0")),
        analyze("1.2.3.4/24", None)
    );
    assert_eq!(
        analyze("1.2.3.4/99", Some("nonsense")),
        Err(NetError::InvalidPrefix)
    );
}

#[test]
fn prefix_out_of_range() {
    assert_eq!(analyze("10.0.0.1/33", None), Err(NetError::InvalidPrefix));
}

#[test]
fn octet_out_of_range() {
    assert_eq!(analyze("999.1.1.1/24", None), Err(NetError::InvalidAddress));
}

#[test]
fn two_separators() {
    assert_eq!(analyze("10.0.0.1/24/5", None), Err(NetError::InvalidFormat));
}

#[test]
fn empty_prefix() {
    assert_eq!(analyze("10.0.0.1/", None), Err(NetError::InvalidPrefix));
}

#[test]
fn prefix_not_a_number() {
    assert_eq!(analyze("10.0.0.1/ab", None), Err(NetError::InvalidPrefix));
}

#[test]
fn empty_address_before_separator() {
    assert_eq!(analyze("/24", None), Err(NetError::InvalidAddress));
}

#[test]
fn classic_form_needs_a_mask() {
    assert_eq!(analyze("10.0.0.1", None), Err(NetError::InvalidMask));
}

#[test]
fn classic_form_bad_mask() {
    assert_eq!(
        analyze("10.0.0.1", Some("255.255.0")),
        Err(NetError::InvalidMask)
    );
}

#[test]
fn classic_form_bad_address_reported_first() {
    assert_eq!(
        analyze("10.0.0", Some("255.255.255.0")),
        Err(NetError::InvalidAddress)
    );
}

#[test]
fn all_ones_network_overflows() {
    assert_eq!(
        analyze("255.255.255.255/32", None),
        Err(NetError::ArithmeticOverflow)
    );
    assert_eq!(
        analyze("255.255.255.255", Some("255.255.255.255")),
        Err(NetError::ArithmeticOverflow)
    );
}

#[test]
fn non_contiguous_mask_counts_bits() {
    // The classic form takes the mask as given; the prefix length is
    // its bit count even when the 1-bits have gaps.
    let d = analyze("10.0.0.5", Some("255.255.255.1")).unwrap();
    assert_eq!(d.prefix_len, 25);
    assert_eq!(d.network, quad(10, 0, 0, 1));
    assert_eq!(d.host_count, 126);
    assert_eq!(d.min_host, quad(10, 0, 0, 2));
    assert_eq!(d.max_host, quad(10, 0, 0, 254));
}

#[test]
fn deriving_twice_is_identical() {
    let a = analyze("172.16.5.9/20", None).unwrap();
    let b = analyze("172.16.5.9/20", None).unwrap();
    assert_eq!(a, b);
    let c = analyze("172.16.5.9", Some("255.255.240.0")).unwrap();
    assert_eq!(a, c);
}

#[test]
fn network_is_block_aligned() {
    let d = analyze("203.0.113.77/26", None).unwrap();
    assert_eq!(d.network & !d.mask, 0);
    assert_eq!(d.network % (1 << (32 - d.prefix_len)), 0);
    let e = analyze("10.11.12.13", Some("255.128.0.0")).unwrap();
    assert_eq!(e.network & !e.mask, 0);
}

#[test]
fn host_range_matches_host_count() {
    let d = analyze("192.0.2.1/23", None).unwrap();
    assert_eq!(d.min_host, d.network + 1);
    assert_eq!(
        d.host_count,
        (d.max_host - d.min_host + 1) as u64
    );
}

#[test]
fn cidr_input_is_recognized() {
    assert!(is_cidr_input("10.0.0.1/24"));
    assert!(is_cidr_input("not an address, but a / is enough"));
    assert!(!is_cidr_input("10.0.0.1"));
    assert!(!is_cidr_input(""));
}

#[test]
fn normalize_returns_the_triple() {
    assert_eq!(
        normalize("192.168.0.1/16", None),
        Ok((quad(192, 168, 0, 1), quad(255, 255, 0, 0), 16))
    );
    assert_eq!(
        normalize("192.168.0.1", Some("255.255.0.0")),
        Ok((quad(192, 168, 0, 1), quad(255, 255, 0, 0), 16))
    );
    assert_eq!(normalize("192.168.0.1/99", None), Err(NetError::InvalidPrefix));
}

#[test]
fn new_packs_the_fields() {
    let d = NetworkAnalyze::new(1, 2, 3, 4, 5, 6, 7, 8);
    assert_eq!(d.ip, 1);
    assert_eq!(d.mask, 2);
    assert_eq!(d.network, 3);
    assert_eq!(d.min_host, 4);
    assert_eq!(d.max_host, 5);
    assert_eq!(d.gateway, 6);
    assert_eq!(d.prefix_len, 7);
    assert_eq!(d.host_count, 8);
}

#[test]
fn compare_reports_differing_fields() {
    let a = analyze("192.168.1.10/24", None).unwrap();
    let b = analyze("192.168.1.99/24", None).unwrap();
    let c = analyze("192.168.2.1/25", None).unwrap();
    assert_eq!(a.compare_fields(&b), (false, false, false));
    assert_eq!(a.compare_fields(&c), (true, true, true));
    let d = analyze("192.168.1.10/25", None).unwrap();
    assert_eq!(a.compare_fields(&d), (false, true, true));
    let e = analyze("192.168.1.200/25", None).unwrap();
    assert_eq!(d.compare_fields(&e), (true, false, false));
}

#[test]
fn errors_describe_themselves() {
    assert_eq!(NetError::InvalidFormat.describe(), "invalid address/prefix format");
    assert_eq!(NetError::InvalidAddress.describe(), "invalid address");
    assert_eq!(NetError::InvalidMask.describe(), "invalid mask");
    assert_eq!(NetError::InvalidPrefix.describe(), "invalid prefix length");
    assert_eq!(NetError::ArithmeticOverflow.describe(), "arithmetic overflow");
}
