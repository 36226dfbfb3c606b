use edge_beacon::payload::{format_count, parse_count};

#[test]
fn format_zero() {
    assert_eq!(format_count(0), b"0".to_vec());
}

#[test]
fn format_single_digit() {
    assert_eq!(format_count(8), b"8".to_vec());
}

#[test]
fn format_multi_digit() {
    assert_eq!(format_count(12345), b"12345".to_vec());
}

#[test]
fn format_largest_count() {
    assert_eq!(format_count(u64::MAX), b"18446744073709551615".to_vec());
}

#[test]
fn parse_valid() {
    assert_eq!(parse_count(&b"0".to_vec()), Some(0));
    assert_eq!(parse_count(&b"8".to_vec()), Some(8));
    assert_eq!(parse_count(&b"12345".to_vec()), Some(12345));
    assert_eq!(parse_count(&b"18446744073709551615".to_vec()), Some(u64::MAX));
}

#[test]
fn parse_rejects_empty() {
    assert_eq!(parse_count(&Vec::new()), None);
}

#[test]
fn parse_rejects_leading_zero() {
    assert_eq!(parse_count(&b"007".to_vec()), None);
    assert_eq!(parse_count(&b"00".to_vec()), None);
}

#[test]
fn parse_rejects_non_digit() {
    assert_eq!(parse_count(&b"12a".to_vec()), None);
    assert_eq!(parse_count(&b"-1".to_vec()), None);
    assert_eq!(parse_count(&b" 1".to_vec()), None);
}

#[test]
fn parse_rejects_overflow() {
    // One past the largest representable count, and a far larger one.
    assert_eq!(parse_count(&b"18446744073709551616".to_vec()), None);
    assert_eq!(parse_count(&b"99999999999999999999".to_vec()), None);
}

#[test]
fn round_trip() {
    for n in [0u64, 1, 9, 10, 59, 60, 999, 1_000_000, u64::MAX - 1, u64::MAX] {
        assert_eq!(parse_count(&format_count(n)), Some(n));
    }
}
