use aoska::transfer::{
    accepts_byte_ranges, chunk_ranges, decimal, first_failure, parse_decimal_u64, plan_transfer,
    range_header, worker_count, ByteRange, TransferPlan,
};

fn spans(size: u64, threads: Option<usize>) -> Vec<(u64, u64)> {
    chunk_ranges(size, threads).iter().map(|r| (r.start, r.end)).collect()
}

#[test]
fn ten_bytes_three_threads() {
    assert_eq!(spans(10, Some(3)), vec![(0, 3), (4, 7), (8, 9)]);
}

#[test]
fn default_thread_count_is_four() {
    assert_eq!(worker_count(None), 4);
    assert_eq!(spans(8, None), vec![(0, 1), (2, 3), (4, 5), (6, 7)]);
}

#[test]
fn zero_threads_means_one() {
    assert_eq!(worker_count(Some(0)), 1);
    assert_eq!(spans(10, Some(0)), vec![(0, 9)]);
}

#[test]
fn empty_resource_has_no_ranges() {
    assert!(chunk_ranges(0, Some(3)).is_empty());
}

#[test]
fn workers_past_the_end_are_not_scheduled() {
    assert_eq!(spans(9, Some(4)), vec![(0, 2), (3, 5), (6, 8)]);
    assert_eq!(spans(3, Some(8)), vec![(0, 0), (1, 1), (2, 2)]);
}

#[test]
fn last_range_is_clipped() {
    assert_eq!(spans(10, Some(4)), vec![(0, 2), (3, 5), (6, 8), (9, 9)]);
}

#[test]
fn ranges_cover_each_byte_once() {
    for size in 0u64..40 {
        for t in 0usize..12 {
            let mut hits = vec![0u32; size as usize];
            for r in chunk_ranges(size, Some(t)) {
                assert!(r.start <= r.end && r.end < size);
                for b in r.start..=r.end {
                    hits[b as usize] += 1;
                }
            }
            assert!(hits.iter().all(|&h| h == 1), "size {size} threads {t}");
        }
    }
}

#[test]
fn huge_resource_does_not_overflow() {
    let r = chunk_ranges(u64::MAX, Some(3));
    assert_eq!(r.len(), 3);
    assert_eq!(r[0].start, 0);
    assert_eq!(r[2].end, u64::MAX - 1);
}

#[test]
fn parses_content_length() {
    assert_eq!(parse_decimal_u64("123"), Some(123));
    assert_eq!(parse_decimal_u64("+5"), Some(5));
    assert_eq!(parse_decimal_u64("007"), Some(7));
    assert_eq!(parse_decimal_u64("18446744073709551615"), Some(u64::MAX));
    assert_eq!(parse_decimal_u64("18446744073709551616"), None);
    assert_eq!(parse_decimal_u64(""), None);
    assert_eq!(parse_decimal_u64("+"), None);
    assert_eq!(parse_decimal_u64("-1"), None);
    assert_eq!(parse_decimal_u64("12a"), None);
    assert_eq!(parse_decimal_u64(" 12"), None);
}

#[test]
fn parse_agrees_with_std() {
    for s in ["0", "42", "+0", "99999999999999999999", "1_000", "٣", "+-1", "4294967296"] {
        assert_eq!(parse_decimal_u64(s), s.parse::<u64>().ok(), "{s}");
    }
}

#[test]
fn accept_ranges_header() {
    assert!(accepts_byte_ranges(Some("bytes")));
    assert!(accepts_byte_ranges(Some("BYTES")));
    assert!(accepts_byte_ranges(Some("ByTeS")));
    assert!(!accepts_byte_ranges(Some("none")));
    assert!(!accepts_byte_ranges(Some("bytes ")));
    assert!(!accepts_byte_ranges(Some("")));
    assert!(!accepts_byte_ranges(None));
}

#[test]
fn chunked_only_with_size_and_ranges() {
    assert_eq!(plan_transfer(Some("100"), Some("bytes")), TransferPlan::Chunked { size: 100 });
    assert_eq!(plan_transfer(None, Some("bytes")), TransferPlan::Single);
    assert_eq!(plan_transfer(Some("100"), None), TransferPlan::Single);
    assert_eq!(plan_transfer(Some("100"), Some("none")), TransferPlan::Single);
    assert_eq!(plan_transfer(Some("lots"), Some("bytes")), TransferPlan::Single);
}

#[test]
fn range_header_is_inclusive_span() {
    assert_eq!(range_header(ByteRange { start: 0, end: 3 }), "bytes=0-3");
    assert_eq!(range_header(ByteRange { start: 4096, end: 1234567 }), "bytes=4096-1234567");
}

#[test]
fn decimal_text() {
    assert_eq!(decimal(0), "0");
    assert_eq!(decimal(10), "10");
    assert_eq!(decimal(u64::MAX), u64::MAX.to_string());
}

#[test]
fn all_workers_succeed() {
    let results: Vec<Result<(), String>> = vec![Ok(()), Ok(()), Ok(())];
    assert_eq!(first_failure(results), Ok(()));
    assert_eq!(first_failure(Vec::<Result<(), String>>::new()), Ok(()));
}

#[test]
fn first_failure_wins() {
    let results: Vec<Result<(), String>> =
        vec![Ok(()), Err("second".to_string()), Ok(()), Err("fourth".to_string())];
    assert_eq!(first_failure(results), Err("second".to_string()));
}
