//! The progress protocol parser against literal line streams, with no
//! process or socket anywhere near.

use ive::error::Ffmpeg;
use ive::protocol::{FeedResult, ParseOutcome, PendingRecord, Status, parse_line, parse_stream};

#[test]
fn two_records_from_one_stream() {
    let out: ParseOutcome =
        parse_stream(b"frame=10\nfps=29.5\nprogress=continue\nframe=20\nprogress=end\n");
    assert!(out.error.is_none());
    assert_eq!(out.records.len(), 2);

    let first = &out.records[0];
    assert_eq!(first.frame, Some(10));
    assert_eq!(first.fps_milli, Some(29500));
    assert_eq!(first.status, Status::Continue);

    // the accumulator reset after the first record: nothing carries over
    let second = &out.records[1];
    assert_eq!(second.frame, Some(20));
    assert_eq!(second.fps_milli, None);
    assert_eq!(second.status, Status::End);
}

#[test]
fn record_keeps_last_value_per_key() {
    let out = parse_stream(b"frame=1\nframe=7\ntotal_size=300\nprogress=end\n");
    assert!(out.error.is_none());
    assert_eq!(out.records.len(), 1);
    assert_eq!(out.records[0].frame, Some(7));
    assert_eq!(out.records[0].total_size, Some(300));
    assert_eq!(out.records[0].out_time_us, None);
}

#[test]
fn line_without_separator_is_fatal() {
    // valid lines after the violation are never read
    let out = parse_stream(b"foo\nframe=10\nprogress=end\n");
    assert_eq!(out.records.len(), 0);
    match out.error {
        Some(Ffmpeg::KeyValueParse { key }) => assert_eq!(key, b"foo".to_vec()),
        other => panic!("expected a key=value parse error, got {:?}", other),
    }
}

#[test]
fn unknown_status_is_fatal() {
    let out = parse_stream(b"frame=3\nprogress=later\n");
    assert_eq!(out.records.len(), 0);
    match out.error {
        Some(Ffmpeg::UnknownStatus { status }) => assert_eq!(status, b"later".to_vec()),
        other => panic!("expected an unknown-status error, got {:?}", other),
    }
}

#[test]
fn malformed_number_is_fatal() {
    let out = parse_stream(b"frame=12a\nprogress=end\n");
    assert_eq!(out.records.len(), 0);
    assert!(matches!(out.error, Some(Ffmpeg::OtherParse { .. })));
}

#[test]
fn unrecognized_keys_are_ignored() {
    let out = parse_stream(b"bitrate=512.0kbits/s\nframe=4\nprogress=end\n");
    assert!(out.error.is_none());
    assert_eq!(out.records.len(), 1);
    assert_eq!(out.records[0].frame, Some(4));
}

#[test]
fn end_of_stream_closes_cleanly() {
    // fields pending but no progress line: nothing emitted, no error
    let out = parse_stream(b"frame=10\nfps=25\n");
    assert!(out.error.is_none());
    assert_eq!(out.records.len(), 0);
}

#[test]
fn all_fields_parse() {
    let out = parse_stream(
        b"frame=100\nfps=29.97\ntotal_size=123456\nout_time_us=1500000\ndup_frames=1\ndrop_frames=2\nspeed=1.2x\nprogress=end\n",
    );
    assert!(out.error.is_none());
    assert_eq!(out.records.len(), 1);
    let r = &out.records[0];
    assert_eq!(r.frame, Some(100));
    assert_eq!(r.fps_milli, Some(29970));
    assert_eq!(r.total_size, Some(123456));
    assert_eq!(r.out_time_us, Some(1500000));
    assert_eq!(r.dup_frames, Some(1));
    assert_eq!(r.drop_frames, Some(2));
    assert_eq!(r.speed_milli, Some(1200));
    assert_eq!(r.status, Status::End);
}

#[test]
fn parse_line_trims_key_and_value() {
    let (k, v) = parse_line(b"frame = 10\n").expect("a key=value line");
    assert_eq!(k, b"frame".to_vec());
    assert_eq!(v, b"10".to_vec());
    assert!(parse_line(b"no separator here").is_none());
}

#[test]
fn feed_line_emits_and_resets() {
    let mut acc = PendingRecord::new();
    assert!(matches!(acc.feed_line(b"frame=5"), FeedResult::Accumulating));
    match acc.feed_line(b"progress=continue") {
        FeedResult::Record(p) => {
            assert_eq!(p.frame, Some(5));
            assert_eq!(p.status, Status::Continue);
        }
        other => panic!("expected a record, got {:?}", other),
    }
    assert_eq!(acc.frame, None);
}
