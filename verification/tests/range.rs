use audio_tagger::range::{
    parse_range_header, resolve, resolve_range, ByteRange, RangeStatus, ResolvedRange,
};

#[test]
fn parses_both_offsets() {
    assert_eq!(
        parse_range_header("bytes=500-699"),
        Some(ByteRange { first: 500, last: Some(699) })
    );
    assert_eq!(parse_range_header("bytes=0-0"), Some(ByteRange { first: 0, last: Some(0) }));
    assert_eq!(
        parse_range_header("bytes=18446744073709551615-18446744073709551615"),
        Some(ByteRange { first: u64::MAX, last: Some(u64::MAX) })
    );
}

#[test]
fn parses_open_end() {
    assert_eq!(parse_range_header("bytes=900-"), Some(ByteRange { first: 900, last: None }));
}

#[test]
fn accepts_a_plus_sign_before_a_number() {
    assert_eq!(parse_range_header("bytes=+5-+7"), Some(ByteRange { first: 5, last: Some(7) }));
    assert_eq!(parse_range_header("bytes=+-7"), None);
    assert_eq!(parse_range_header("bytes=++5-7"), None);
}

#[test]
fn rejects_other_shapes() {
    for header in [
        "",
        "bytes",
        "bytes=",
        "bytes=-",
        "bytes=-5",
        "bytes=5",
        "bytes=a-5",
        "bytes=5-a",
        "bytes=5-6-7",
        "bytes=5-6,8-9",
        "bytes=5 -6",
        "bytes=18446744073709551616-",
        "bytes=0-18446744073709551616",
        "BYTES=0-5",
        " bytes=0-5",
        "bytes=0x10-",
        "bytes=1_0-",
    ] {
        assert_eq!(parse_range_header(header), None, "header {:?}", header);
    }
}

#[test]
fn resolve_without_request_is_full() {
    assert_eq!(
        resolve(None, 1000),
        ResolvedRange { start: 0, end: 999, total_length: 1000, status: RangeStatus::Full }
    );
    assert_eq!(
        resolve(None, 1),
        ResolvedRange { start: 0, end: 0, total_length: 1, status: RangeStatus::Full }
    );
    let empty = resolve(None, 0);
    assert_eq!(
        empty,
        ResolvedRange { start: 0, end: 0, total_length: 0, status: RangeStatus::Full }
    );
    assert_eq!(empty.body_len(), 0);
}

#[test]
fn resolve_cuts_the_end_and_never_the_start() {
    let inside = resolve(Some(ByteRange { first: 500, last: Some(699) }), 1000);
    assert_eq!(
        inside,
        ResolvedRange { start: 500, end: 699, total_length: 1000, status: RangeStatus::Partial }
    );
    assert_eq!(inside.body_len(), 200);

    let cut = resolve(Some(ByteRange { first: 999, last: Some(u64::MAX) }), 1000);
    assert_eq!(
        cut,
        ResolvedRange { start: 999, end: 999, total_length: 1000, status: RangeStatus::Partial }
    );
    assert_eq!(cut.body_len(), 1);

    let beyond = resolve(Some(ByteRange { first: 1000, last: Some(1999) }), 1000);
    assert_eq!(beyond.status, RangeStatus::Unsatisfiable);
    assert_eq!(beyond.body_len(), 0);

    let open_beyond = resolve(Some(ByteRange { first: 1000, last: None }), 1000);
    assert_eq!(open_beyond.status, RangeStatus::Unsatisfiable);

    let backwards = resolve(Some(ByteRange { first: 10, last: Some(9) }), 1000);
    assert_eq!(backwards.status, RangeStatus::Unsatisfiable);

    let whole = resolve(Some(ByteRange { first: 0, last: None }), 1000);
    assert_eq!(
        whole,
        ResolvedRange { start: 0, end: 999, total_length: 1000, status: RangeStatus::Partial }
    );
    assert_eq!(whole.body_len(), 1000);
}

#[test]
fn resolve_range_reads_the_header() {
    assert_eq!(
        resolve_range(Some("bytes=900-"), 1000),
        ResolvedRange { start: 900, end: 999, total_length: 1000, status: RangeStatus::Partial }
    );
    assert_eq!(resolve_range(Some("bytes=-900"), 1000).status, RangeStatus::Full);
    assert_eq!(resolve_range(None, 1000).status, RangeStatus::Full);
    assert_eq!(resolve_range(Some("bytes=0-0"), 0).status, RangeStatus::Unsatisfiable);
    assert_eq!(resolve_range(Some("bytes=5-2"), 10).status, RangeStatus::Unsatisfiable);
    let max = resolve_range(Some("bytes=0-"), u64::MAX);
    assert_eq!(max.end, u64::MAX - 1);
    assert_eq!(max.body_len(), u64::MAX);
}

#[test]
fn resolved_spans_keep_within_the_file() {
    for len in [0u64, 1, 2, 10, 1000] {
        for first in [0u64, 1, 5, 9, 10, 999, 1000, u64::MAX] {
            for last in [None, Some(0u64), Some(1), Some(9), Some(10), Some(u64::MAX)] {
                let r = resolve(Some(ByteRange { first, last }), len);
                assert_eq!(r.total_length, len);
                match r.status {
                    RangeStatus::Partial => {
                        assert!(r.start <= r.end && r.end < len);
                        assert_eq!(r.start, first);
                        assert!(first < len);
                    }
                    RangeStatus::Unsatisfiable => {
                        assert!(first >= len || last.map_or(false, |l| l < first));
                    }
                    RangeStatus::Full => panic!("a request with a range is never full"),
                }
                assert!(r.start + r.body_len() <= len);
            }
        }
    }
}
