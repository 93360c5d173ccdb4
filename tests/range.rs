use vidserve::range::{chunk_bounds, parse_range, parse_range_header, ByteRange};

fn br(start: u64, end_inclusive: u64, total_length: u64) -> ByteRange {
    ByteRange { start, end_inclusive, total_length }
}

#[test]
fn closed_range() {
    assert_eq!(parse_range(Some("bytes=0-99"), 1000), Some(br(0, 99, 1000)));
}

#[test]
fn open_ended_range() {
    assert_eq!(parse_range(Some("bytes=500-"), 1000), Some(br(500, 999, 1000)));
}

#[test]
fn non_numeric_range() {
    assert_eq!(parse_range(Some("bytes=abc-def"), 1000), None);
}

#[test]
fn absent_header() {
    assert_eq!(parse_range(None, 1000), None);
}

#[test]
fn end_is_clamped() {
    assert_eq!(parse_range(Some("bytes=900-2000"), 1000), Some(br(900, 999, 1000)));
}

#[test]
fn malformed_headers_fail_open() {
    for h in [
        "", "bytes", "bytes=", "bytes=-5", "bytes=5", "items=0-9", "Bytes=0-9", "bytes=0-9,20-29",
        "bytes= 0-9", "bytes=0-9 ", "bytes=1-2-3", "bytes=18446744073709551616-",
    ] {
        assert_eq!(parse_range_header(h, 1000), None, "{}", h);
    }
}

#[test]
fn start_past_end_is_kept_for_the_responder() {
    let r = parse_range(Some("bytes=1500-"), 1000).unwrap();
    assert_eq!(r, br(1500, 999, 1000));
    assert!(!r.is_satisfiable());
    let r = parse_range(Some("bytes=10-5"), 1000).unwrap();
    assert!(!r.is_satisfiable());
    let r = parse_range(Some("bytes=0-"), 0).unwrap();
    assert!(!r.is_satisfiable());
}

#[test]
fn largest_positions() {
    assert_eq!(
        parse_range(Some("bytes=18446744073709551615-18446744073709551615"), u64::MAX),
        Some(br(u64::MAX, u64::MAX - 1, u64::MAX))
    );
    assert_eq!(parse_range(Some("bytes=0000-0009"), 100), Some(br(0, 9, 100)));
    let r = parse_range(Some("bytes=3-3"), 100).unwrap();
    assert_eq!(r.len(), 1);
}

#[test]
fn chunk_bounds_cut_to_length() {
    assert_eq!(chunk_bounds(100, 10, 20), Some((10, 20)));
    assert_eq!(chunk_bounds(100, 90, 500), Some((90, 100)));
    assert_eq!(chunk_bounds(100, 100, 500), Some((100, 100)));
    assert_eq!(chunk_bounds(100, 101, 500), None);
    assert_eq!(chunk_bounds(100, 30, 20), None);
}

#[test]
fn end_beyond_sixty_four_bits_is_clamped() {
    assert_eq!(
        parse_range(Some("bytes=0-99999999999999999999"), 1000),
        Some(br(0, 999, 1000))
    );
    assert_eq!(
        parse_range(Some("bytes=10-18446744073709551616"), 100),
        Some(br(10, 99, 100))
    );
}
