use srpc_client::{ErrorKind, Fixed, LineReceiver, ReceiveOptions, SrpcError, StopAfter};
use std::time::Duration;

fn texts(items: &[Result<String, SrpcError>]) -> Vec<String> {
    items.iter().map(|item| item.clone().unwrap()).collect()
}

fn options_with_chunk(max_chunk_size: usize) -> ReceiveOptions {
    ReceiveOptions::new(100, max_chunk_size, Duration::from_secs(10), true)
}

#[test]
fn one_shot_receive_yields_one_line() {
    let mut receiver = LineReceiver::new(false, &ReceiveOptions::default());
    let (items, unread) = receiver.receive_from(b"Hello from server\n", &mut Fixed(false), 8192);
    assert_eq!(items, vec![Ok("Hello from server".to_string())]);
    assert!(unread.is_empty());
    assert!(receiver.is_done());
    let (items, _) = receiver.receive_from(b"more\n", &mut Fixed(false), 8192);
    assert!(items.is_empty());
}

#[test]
fn acknowledgment_then_two_lines() {
    let source = b"\nfirst\nsecond\n";
    let mut ack = LineReceiver::new(true, &ReceiveOptions::default());
    let (items, unread) = ack.receive_from(source, &mut Fixed(false), 8192);
    assert_eq!(items, vec![Ok(String::new())]);
    assert_eq!(unread, b"first\nsecond\n");

    let mut lines = LineReceiver::new(false, &ReceiveOptions::default());
    let (items, unread) = lines.receive_from(unread, &mut StopAfter::new(2), 8192);
    assert_eq!(texts(&items), vec!["first", "second"]);
    assert!(unread.is_empty());
}

#[test]
fn acknowledgment_that_is_not_empty_leaves_the_rest_unread() {
    let mut ack = LineReceiver::new(true, &ReceiveOptions::default());
    let (items, unread) = ack.receive_from(b"x\nfirst\n", &mut Fixed(false), 8192);
    assert_eq!(items.len(), 1);
    let error = items[0].as_ref().unwrap_err();
    assert_eq!(error.kind, ErrorKind::ProtocolViolation);
    assert_eq!(error.message, "Expected empty line, got: \"x\"");
    assert_eq!(unread, b"first\n");
    assert!(ack.is_done());
}

#[test]
fn single_bytes_stop_at_the_end_of_the_last_line() {
    let source = b"a\nbb\nccc\ndddd\n";
    for count in 1..=4usize {
        let mut receiver = LineReceiver::new(false, &options_with_chunk(1));
        let (items, unread) = receiver.receive_from(source, &mut StopAfter::new(count), 8192);
        assert_eq!(items.len(), count);
        let taken: usize = items.iter().map(|item| item.as_ref().unwrap().len() + 1).sum();
        assert_eq!(unread, &source[taken..]);
    }
}

#[test]
fn large_reads_take_what_they_are_given() {
    let mut receiver = LineReceiver::new(false, &ReceiveOptions::default());
    let (items, unread) = receiver.receive_from(b"a\nb\nc\n", &mut Fixed(false), 8192);
    assert_eq!(texts(&items), vec!["a"]);
    assert!(unread.is_empty());
}

#[test]
fn the_size_of_the_reads_does_not_change_the_items() {
    let source = "alpha\nbeta\r\n\ngamma \u{1f980}\ndelta".as_bytes();
    let expected = vec!["alpha", "beta", "", "gamma \u{1f980}", "delta"];
    for max_chunk_size in 1..40usize {
        for room in [1usize, 2, 3, 5, 8192] {
            let mut receiver = LineReceiver::new(false, &options_with_chunk(max_chunk_size));
            let (items, unread) = receiver.receive_from(source, &mut Fixed(true), room);
            assert_eq!(texts(&items), expected);
            assert!(unread.is_empty());
            assert!(receiver.is_done());
        }
    }
}

#[test]
fn a_cap_of_zero_is_the_end_of_the_stream() {
    let mut receiver = LineReceiver::new(false, &options_with_chunk(0));
    let (items, unread) = receiver.receive_from(b"never\n", &mut Fixed(true), 8192);
    assert!(items.is_empty());
    assert_eq!(unread, b"never\n");
    assert!(receiver.is_done());
}

#[test]
fn an_open_decision_stops_the_receive() {
    let mut receiver = LineReceiver::new(false, &ReceiveOptions::default());
    receiver.on_read(b"a\n");
    assert_eq!(receiver.next_item().unwrap().unwrap(), "a");
    assert!(receiver.is_deciding());
    let (items, unread) = receiver.receive_from(b"b\n", &mut Fixed(true), 8192);
    assert!(items.is_empty());
    assert_eq!(unread, b"b\n");
    receiver.decide(true);
    assert!(!receiver.is_deciding());
    let (items, unread) = receiver.receive_from(unread, &mut Fixed(true), 8192);
    assert_eq!(texts(&items), vec!["b"]);
    assert!(unread.is_empty());
}
