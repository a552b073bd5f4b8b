use srpc_client::{ChunkLimiter, ErrorKind, LineFramer};

#[test]
fn framer_splits_lines_in_order() {
    let mut framer = LineFramer::new();
    framer.push(b"first\nsec");
    assert_eq!(framer.next_line().unwrap().unwrap(), "first");
    assert!(framer.next_line().is_none());
    framer.push(b"ond\r\nthird");
    assert_eq!(framer.next_line().unwrap().unwrap(), "second");
    assert!(framer.next_line().is_none());
    assert_eq!(framer.finish().unwrap().unwrap(), "third");
    assert!(framer.finish().is_none());
    assert!(framer.is_empty());
}

#[test]
fn framer_lines_never_hold_the_newline() {
    let mut framer = LineFramer::new();
    framer.push(b"a\n\nbb\r\n\xc3\xa9t\xc3\xa9\nrest");
    let mut lines = Vec::new();
    while let Some(line) = framer.next_line() {
        lines.push(line.unwrap());
    }
    assert_eq!(lines, vec!["a", "", "bb", "\u{e9}t\u{e9}"]);
    for line in &lines {
        assert!(!line.contains('\n'));
    }
}

#[test]
fn framer_keeps_an_open_line_until_it_is_complete() {
    let mut framer = LineFramer::new();
    framer.push(b"par");
    assert!(framer.next_line().is_none());
    framer.push(b"tial");
    assert!(framer.next_line().is_none());
    assert!(!framer.is_empty());
    framer.push(b"\n");
    assert_eq!(framer.next_line().unwrap().unwrap(), "partial");
    assert!(framer.is_empty());
}

#[test]
fn framer_takes_bytes_one_at_a_time() {
    let mut framer = LineFramer::new();
    let mut lines = Vec::new();
    for byte in b"one\ntwo\n" {
        framer.push(&[*byte]);
        while let Some(line) = framer.next_line() {
            lines.push(line.unwrap());
        }
    }
    assert_eq!(lines, vec!["one", "two"]);
}

#[test]
fn framer_strips_one_carriage_return_only() {
    let mut framer = LineFramer::new();
    framer.push(b"a\r\r\n\r\n");
    assert_eq!(framer.next_line().unwrap().unwrap(), "a\r");
    assert_eq!(framer.next_line().unwrap().unwrap(), "");
}

#[test]
fn framer_reports_bytes_that_are_not_text() {
    let mut framer = LineFramer::new();
    framer.push(b"\xff\xfe\nnext\n");
    let error = framer.next_line().unwrap().unwrap_err();
    assert_eq!(error.kind, ErrorKind::IoFailure);
    assert_eq!(error.message, "Unable to decode input as UTF8");
    assert_eq!(framer.next_line().unwrap().unwrap(), "next");
}

#[test]
fn framer_finish_hands_out_complete_lines_first() {
    let mut framer = LineFramer::new();
    framer.push(b"a\nb\nc\r");
    assert_eq!(framer.finish().unwrap().unwrap(), "a");
    assert_eq!(framer.finish().unwrap().unwrap(), "b");
    assert_eq!(framer.finish().unwrap().unwrap(), "c");
    assert!(framer.finish().is_none());
}

#[test]
fn framer_finish_drops_a_lone_carriage_return() {
    let mut framer = LineFramer::new();
    framer.push(b"\r");
    assert!(framer.finish().is_none());
    let mut framer = LineFramer::new();
    assert!(framer.finish().is_none());
}

#[test]
fn chunk_limiter_caps_reads() {
    let data = b"abcdefghij".to_vec();
    let mut limiter = ChunkLimiter::new(&data[..], 4);
    assert_eq!(limiter.max_chunk_size(), 4);
    let all = limiter.read_to_end(100);
    assert_eq!(all, vec![b"abcd".to_vec(), b"efgh".to_vec(), b"ij".to_vec()]);
    assert!(limiter.get_ref().is_empty());
}

#[test]
fn chunk_limiter_loses_and_repeats_nothing() {
    let data: Vec<u8> = (0..=255u8).cycle().take(1000).collect();
    for cap in 1..40usize {
        for room in [1usize, 7, 64, 4096] {
            let mut limiter = ChunkLimiter::new(&data[..], cap);
            let all = limiter.read_to_end(room);
            for chunk in &all {
                assert!(chunk.len() <= cap);
                assert!(chunk.len() <= room);
                assert!(!chunk.is_empty());
            }
            assert_eq!(all.concat(), data);
        }
    }
}

#[test]
fn chunk_limiter_limit_is_the_smaller_of_cap_and_room() {
    let limiter = ChunkLimiter::new((), 16384);
    assert_eq!(limiter.limit(8192), 8192);
    assert_eq!(limiter.limit(16384), 16384);
    assert_eq!(limiter.limit(65536), 16384);
    assert_eq!(limiter.limit(0), 0);
    let limiter = ChunkLimiter::new((), 0);
    assert_eq!(limiter.limit(10), 0);
}

#[test]
fn chunk_limiter_reads_nothing_under_a_cap_of_zero() {
    let data = b"abc".to_vec();
    let mut limiter = ChunkLimiter::new(&data[..], 0);
    assert!(limiter.read(10).is_empty());
    assert!(limiter.read_to_end(10).is_empty());
    assert_eq!(limiter.into_inner(), b"abc");
}

#[test]
fn chunk_limiter_single_reads_advance_the_source() {
    let data = b"hello world".to_vec();
    let mut limiter = ChunkLimiter::new(&data[..], 5);
    assert_eq!(limiter.read(3), b"hel");
    assert_eq!(limiter.read(100), b"lo wo");
    assert_eq!(limiter.read(100), b"rld");
    assert_eq!(limiter.read(100), b"");
    let source = limiter.get_mut();
    *source = b"again";
    assert_eq!(limiter.read(100), b"again");
}
