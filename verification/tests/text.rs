use potability::text::{digit, parse_count};

#[test]
fn parse_count_reads_plain_digits() {
    assert_eq!(parse_count(b"2000"), Some(2000));
    assert_eq!(parse_count(b"0"), Some(0));
    assert_eq!(parse_count(b"32"), Some(32));
    assert_eq!(parse_count(b"007"), Some(7));
}

#[test]
fn parse_count_takes_one_leading_plus() {
    assert_eq!(parse_count(b"+5"), Some(5));
    assert_eq!(parse_count(b"++5"), None);
    assert_eq!(parse_count(b"+"), None);
}

#[test]
fn parse_count_rejects_what_is_no_count() {
    assert_eq!(parse_count(b""), None);
    assert_eq!(parse_count(b"-1"), None);
    assert_eq!(parse_count(b"12a"), None);
    assert_eq!(parse_count(b" 12"), None);
    assert_eq!(parse_count(b"12 "), None);
    assert_eq!(parse_count(b"1_000"), None);
    assert_eq!(parse_count(b"0.5"), None);
    assert_eq!(parse_count("١٢".as_bytes()), None);
}

#[test]
fn parse_count_stops_at_the_largest_usize() {
    let max = usize::MAX.to_string();
    assert_eq!(parse_count(max.as_bytes()), Some(usize::MAX));
    let mut over = max.clone().into_bytes();
    let last = over.len() - 1;
    over[last] += 1;
    assert_eq!(parse_count(&over), None);
    let longer = format!("{max}0");
    assert_eq!(parse_count(longer.as_bytes()), None);
}

#[test]
fn parse_count_agrees_with_the_standard_parser() {
    for text in ["1", "+1", "10", "0010", "", "+", "-0", "a", "1a", "99999999999999999999999"] {
        assert_eq!(parse_count(text.as_bytes()), text.parse::<usize>().ok(), "{text:?}");
    }
}

#[test]
fn digit_knows_the_ten_digits() {
    for b in 0u8..=255 {
        assert_eq!(digit(b), b.is_ascii_digit());
    }
}
