use srpc_client::{ChunkLimiter, ErrorKind, Fixed, LineReceiver, ReceiveOptions, StopAfter};
use std::num::NonZeroU8;
use std::time::Duration;

fn n_message(num: NonZeroU8) -> impl FnMut(&str) -> bool {
    let mut seen = 0;
    move |_msg: &str| {
        if seen + 1 == num.get() {
            false
        } else {
            seen += 1;
            true
        }
    }
}

/// Takes every item that is due, asking `should_continue` after each line.
fn drain_with(
    receiver: &mut LineReceiver,
    should_continue: &mut impl FnMut(&str) -> bool,
) -> Vec<Result<String, srpc_client::SrpcError>> {
    let mut items = Vec::new();
    while let Some(item) = receiver.next_item() {
        if let Ok(line) = &item {
            let keep = should_continue(line);
            receiver.decide(keep);
        }
        items.push(item);
    }
    items
}

fn texts(items: &[Result<String, srpc_client::SrpcError>]) -> Vec<String> {
    items.iter().map(|item| item.clone().unwrap()).collect()
}

#[test]
fn default_options() {
    let options = ReceiveOptions::default();
    assert_eq!(options.channel_buffer_size(), 100);
    assert_eq!(options.max_chunk_size(), 16384);
    assert_eq!(options.read_next_line_duration(), Duration::from_secs(10));
    assert_eq!(options.read_next_line_duration().as_millis(), 10_000);
    assert!(options.should_continue_on_timeout());
}

#[test]
fn options_keep_what_they_are_given() {
    let options = ReceiveOptions::new(3, 512, Duration::from_millis(250), false);
    assert_eq!(options.channel_buffer_size(), 3);
    assert_eq!(options.max_chunk_size(), 512);
    assert_eq!(options.read_next_line_duration(), Duration::from_millis(250));
    assert!(!options.should_continue_on_timeout());
}

#[test]
fn acknowledgment_mode_reads_one_byte_at_a_time() {
    let options = ReceiveOptions::default();
    assert_eq!(LineReceiver::new(true, &options).max_chunk_size(), 1);
    assert_eq!(LineReceiver::new(false, &options).max_chunk_size(), 16384);
    let options = ReceiveOptions::new(10, 77, Duration::from_secs(1), true);
    assert_eq!(LineReceiver::new(true, &options).max_chunk_size(), 1);
    assert_eq!(LineReceiver::new(false, &options).max_chunk_size(), 77);
}

#[test]
fn acknowledgment_is_one_empty_line() {
    let options = ReceiveOptions::default();
    let mut receiver = LineReceiver::new(true, &options);
    receiver.on_read(b"\n");
    let mut once = Fixed(false);
    let items = receiver.drain(&mut once);
    assert_eq!(items, vec![Ok(String::new())]);
    assert!(receiver.is_done());
    assert!(receiver.poll_item(&mut once).is_none());
}

#[test]
fn acknowledgment_that_is_not_empty_is_a_violation() {
    let options = ReceiveOptions::default();
    let mut receiver = LineReceiver::new(true, &options);
    receiver.on_read(b"x\n\n");
    let mut always = Fixed(true);
    let items = receiver.drain(&mut always);
    assert_eq!(items.len(), 1);
    let error = items[0].as_ref().unwrap_err();
    assert_eq!(error.kind, ErrorKind::ProtocolViolation);
    assert_eq!(error.message, "Expected empty line, got: \"x\"");
    assert!(receiver.is_done());
    assert!(receiver.poll_item(&mut always).is_none());
}

#[test]
fn stop_after_k_lines_yields_k_items() {
    let options = ReceiveOptions::default();
    for k in 1..=5usize {
        let mut receiver = LineReceiver::new(false, &options);
        receiver.on_read(b"1\n2\n3\n4\n5\n6\n7\n");
        let mut predicate = StopAfter::new(k);
        let items = receiver.drain(&mut predicate);
        let expected: Vec<String> = (1..=k).map(|n| n.to_string()).collect();
        assert_eq!(texts(&items), expected);
        assert!(receiver.is_done());
    }
}

#[test]
fn stop_after_zero_stops_after_the_first_line() {
    let options = ReceiveOptions::default();
    let mut receiver = LineReceiver::new(false, &options);
    receiver.on_read(b"1\n2\n");
    let items = receiver.drain(&mut StopAfter::new(0));
    assert_eq!(texts(&items), vec!["1"]);
}

#[test]
fn a_counting_predicate_of_the_caller_is_asked_after_each_line() {
    let options = ReceiveOptions::default();
    let mut receiver = LineReceiver::new(false, &options);
    receiver.on_read(b"a\nb\nc\nd\n");
    let mut predicate = n_message(NonZeroU8::new(3).unwrap());
    let items = drain_with(&mut receiver, &mut predicate);
    assert_eq!(texts(&items), vec!["a", "b", "c"]);
    assert!(receiver.is_done());
}

#[test]
fn nothing_is_due_while_a_decision_is_open() {
    let options = ReceiveOptions::default();
    let mut receiver = LineReceiver::new(false, &options);
    receiver.on_read(b"a\nb\n");
    assert_eq!(receiver.next_item().unwrap().unwrap(), "a");
    assert!(receiver.next_item().is_none());
    assert!(!receiver.is_done());
    receiver.decide(true);
    assert_eq!(receiver.next_item().unwrap().unwrap(), "b");
    receiver.decide(false);
    assert!(receiver.is_done());
    receiver.decide(true);
    assert!(receiver.is_done());
    assert!(receiver.next_item().is_none());
}

#[test]
fn an_error_leaves_no_decision_open() {
    let options = ReceiveOptions::default();
    let mut receiver = LineReceiver::new(true, &options);
    receiver.on_read(b"x\n");
    assert!(receiver.next_item().unwrap().is_err());
    assert!(receiver.is_done());
}

#[test]
fn reading_goes_on_until_the_stream_ends() {
    let options = ReceiveOptions::default();
    let mut receiver = LineReceiver::new(false, &options);
    let mut always = Fixed(true);
    receiver.on_read(b"a\nb");
    assert_eq!(texts(&receiver.drain(&mut always)), vec!["a"]);
    assert!(!receiver.is_done());
    receiver.on_read(b"c\n");
    assert_eq!(texts(&receiver.drain(&mut always)), vec!["bc"]);
    receiver.on_read(b"tail");
    assert!(receiver.drain(&mut always).is_empty());
    receiver.on_read(b"");
    assert_eq!(texts(&receiver.drain(&mut always)), vec!["tail"]);
    assert!(receiver.is_done());
    receiver.on_read(b"late\n");
    assert!(receiver.drain(&mut always).is_empty());
}

#[test]
fn the_end_of_the_stream_is_no_item() {
    let options = ReceiveOptions::default();
    let mut receiver = LineReceiver::new(false, &options);
    receiver.on_read(b"");
    let mut always = Fixed(true);
    assert!(receiver.poll_item(&mut always).is_none());
    assert!(receiver.is_done());
}

#[test]
fn a_line_that_is_not_text_ends_the_stream_with_one_error() {
    let options = ReceiveOptions::default();
    let mut receiver = LineReceiver::new(false, &options);
    receiver.on_read(b"ok\n\xff\nnever\n");
    let items = receiver.drain(&mut Fixed(true));
    assert_eq!(items.len(), 2);
    assert_eq!(items[0].as_ref().unwrap(), "ok");
    let error = items[1].as_ref().unwrap_err();
    assert_eq!(error.kind, ErrorKind::IoFailure);
    assert!(receiver.is_done());
}

#[test]
fn a_timeout_ends_the_stream_only_when_asked_to() {
    let patient = ReceiveOptions::new(100, 16384, Duration::from_secs(10), true);
    let mut receiver = LineReceiver::new(false, &patient);
    receiver.on_timeout();
    assert!(!receiver.is_done());
    receiver.on_read(b"late\n");
    assert_eq!(texts(&receiver.drain(&mut Fixed(false))), vec!["late"]);

    let strict = ReceiveOptions::new(100, 16384, Duration::from_secs(10), false);
    let mut receiver = LineReceiver::new(false, &strict);
    receiver.on_read(b"half");
    receiver.on_timeout();
    assert!(receiver.is_done());
    assert!(receiver.drain(&mut Fixed(true)).is_empty());
}

#[test]
fn a_failed_read_is_the_last_item() {
    let options = ReceiveOptions::default();
    let mut receiver = LineReceiver::new(false, &options);
    let error = receiver.on_read_error("connection reset");
    assert_eq!(error.kind, ErrorKind::IoFailure);
    assert_eq!(error.message, "connection reset");
    assert!(receiver.is_done());
    receiver.on_read(b"more\n");
    assert!(receiver.drain(&mut Fixed(true)).is_empty());
}

#[test]
fn an_abandoned_receiver_is_done() {
    let options = ReceiveOptions::default();
    let mut receiver = LineReceiver::new(false, &options);
    receiver.on_read(b"a\nb\n");
    let mut always = Fixed(true);
    assert_eq!(receiver.poll_item(&mut always).unwrap().unwrap(), "a");
    receiver.abandon();
    assert!(receiver.is_done());
    assert!(receiver.poll_item(&mut always).is_none());
}

#[test]
fn the_chunk_size_does_not_change_what_is_received() {
    let input = b"alpha\nbeta\r\ngamma\n\ndelta".to_vec();
    let options = ReceiveOptions::default();
    let mut whole = LineReceiver::new(false, &options);
    whole.on_read(&input);
    whole.on_read(b"");
    let expected = texts(&whole.drain(&mut Fixed(true)));
    assert_eq!(expected, vec!["alpha", "beta", "gamma", "", "delta"]);
    for cap in 1..12usize {
        let mut source = ChunkLimiter::new(&input[..], cap);
        let mut receiver = LineReceiver::new(false, &options);
        let mut always = Fixed(true);
        let mut items = Vec::new();
        while !receiver.is_done() {
            let chunk = source.read(8192);
            receiver.on_read(&chunk);
            items.extend(receiver.drain(&mut always));
        }
        assert_eq!(texts(&items), expected);
    }
}

#[test]
fn an_acknowledgment_takes_nothing_that_follows_it() {
    let input = b"\nfirst\nsecond\n".to_vec();
    let options = ReceiveOptions::default();
    let mut source = ChunkLimiter::new(&input[..], 0);

    let mut ack = LineReceiver::new(true, &options);
    source = ChunkLimiter::new(source.into_inner(), ack.max_chunk_size());
    let mut items = Vec::new();
    while !ack.is_done() {
        let chunk = source.read(8192);
        ack.on_read(&chunk);
        items.extend(ack.drain(&mut Fixed(false)));
    }
    assert_eq!(items, vec![Ok(String::new())]);
    assert_eq!(source.get_ref(), b"first\nsecond\n");

    let mut payload = LineReceiver::new(false, &options);
    source = ChunkLimiter::new(source.into_inner(), payload.max_chunk_size());
    let mut predicate = StopAfter::new(2);
    let mut items = Vec::new();
    while !payload.is_done() {
        let chunk = source.read(8192);
        payload.on_read(&chunk);
        items.extend(payload.drain(&mut predicate));
    }
    assert_eq!(texts(&items), vec!["first", "second"]);
}
