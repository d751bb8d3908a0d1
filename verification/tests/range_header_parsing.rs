use simple_http_server::range::{ByteRangeSpec, RangeHeader};
use simple_http_server::rangeparse::parse_range_header;

fn bytes_of(s: &str) -> Vec<ByteRangeSpec> {
    match parse_range_header(s) {
        Some(RangeHeader::Bytes(v)) => v,
        other => panic!("expected byte ranges for {:?}, got {:?}", s, other),
    }
}

#[test]
fn parses_from_to() {
    assert_eq!(bytes_of("bytes=0-499"), vec![ByteRangeSpec::FromTo(0, 499)]);
}

#[test]
fn parses_open_ended() {
    assert_eq!(bytes_of("bytes=900-"), vec![ByteRangeSpec::AllFrom(900)]);
}

#[test]
fn parses_suffix() {
    assert_eq!(bytes_of("bytes=-100"), vec![ByteRangeSpec::Last(100)]);
}

#[test]
fn parses_list_with_whitespace() {
    assert_eq!(
        bytes_of("bytes=0-10, 20-30 ,\t-5"),
        vec![
            ByteRangeSpec::FromTo(0, 10),
            ByteRangeSpec::FromTo(20, 30),
            ByteRangeSpec::Last(5),
        ]
    );
}

#[test]
fn parses_leading_plus_like_number_parsing_does() {
    assert_eq!(bytes_of("bytes=+5-+9"), vec![ByteRangeSpec::FromTo(5, 9)]);
}

#[test]
fn drops_unparsable_items_but_keeps_the_rest() {
    assert_eq!(bytes_of("bytes=0-4,bogus"), vec![ByteRangeSpec::FromTo(0, 4)]);
}

#[test]
fn inverted_bounds_do_not_parse() {
    assert!(parse_range_header("bytes=5-2").is_none());
}

#[test]
fn all_items_unparsable_means_no_header() {
    assert!(parse_range_header("bytes=abc-def").is_none());
    assert!(parse_range_header("bytes=").is_none());
    assert!(parse_range_header("bytes=7").is_none());
}

#[test]
fn overflowing_bound_does_not_parse() {
    assert!(parse_range_header("bytes=99999999999999999999-").is_none());
    assert_eq!(
        bytes_of("bytes=18446744073709551615-"),
        vec![ByteRangeSpec::AllFrom(u64::MAX)]
    );
}

#[test]
fn other_units_are_reported_as_unsupported() {
    assert!(matches!(parse_range_header("items=0-10"), Some(RangeHeader::Unsupported)));
}

#[test]
fn missing_unit_or_rest_does_not_parse() {
    assert!(parse_range_header("nonsense").is_none());
    assert!(parse_range_header("=0-1").is_none());
    assert!(parse_range_header("items=").is_none());
}
