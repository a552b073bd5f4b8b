use serde_json::{Number, Value};
use srpc_client::{
    decode_json, decode_json_item, encode_json, ErrorKind, Fixed, JsonReceiver, LineFramer,
    ReceiveOptions, SrpcError,
};

fn sample_values() -> Vec<Value> {
    let mut object = serde_json::Map::new();
    object.insert("city".to_string(), Value::String("London".to_string()));
    object.insert("lines".to_string(), Value::String("one\ntwo\r\nthree".to_string()));
    object.insert("count".to_string(), Value::Number(Number::from(42u64)));
    object.insert("negative".to_string(), Value::Number(Number::from(-7i64)));
    object.insert("ratio".to_string(), Value::Number(Number::from_f64(0.5).unwrap()));
    object.insert("flag".to_string(), Value::Bool(true));
    object.insert("nothing".to_string(), Value::Null);
    object.insert(
        "list".to_string(),
        Value::Array(vec![Value::Bool(false), Value::Null, Value::String("\u{e9}".to_string())]),
    );
    let mut nested = serde_json::Map::new();
    nested.insert("inner".to_string(), Value::Object(object.clone()));
    vec![
        Value::Null,
        Value::Bool(true),
        Value::Bool(false),
        Value::Number(Number::from(0u64)),
        Value::String(String::new()),
        Value::String("plain".to_string()),
        Value::String("\n".to_string()),
        Value::String("tab\tquote\"backslash\\".to_string()),
        Value::Array(Vec::new()),
        Value::Object(serde_json::Map::new()),
        Value::Object(object),
        Value::Object(nested),
    ]
}

#[test]
fn payload_goes_out_as_compact_text_and_a_newline() {
    let mut object = serde_json::Map::new();
    object.insert("city".to_string(), Value::String("London".to_string()));
    object.insert("street".to_string(), Value::String("10 Downing Street".to_string()));
    assert_eq!(
        encode_json(&Value::Object(object)),
        "{\"city\":\"London\",\"street\":\"10 Downing Street\"}\n"
    );
    assert_eq!(encode_json(&Value::Null), "null\n");
    assert_eq!(encode_json(&Value::String("a\nb".to_string())), "\"a\\nb\"\n");
}

#[test]
fn payload_line_holds_one_line_break() {
    for value in sample_values() {
        let line = encode_json(&value);
        assert!(line.ends_with('\n'));
        let text = &line[..line.len() - 1];
        assert!(!text.contains('\n'));
        assert!(!text.contains('\r'));
    }
}

#[test]
fn payload_comes_back_as_it_was_sent() {
    for value in sample_values() {
        let line = encode_json(&value);
        let mut framer = LineFramer::new();
        framer.push(line.as_bytes());
        let received = framer.next_line().unwrap();
        let echoed = decode_json_item(received).unwrap();
        assert_eq!(echoed, value);
        assert!(framer.is_empty());
    }
}

#[test]
fn line_that_is_no_json_is_a_decode_failure() {
    let error = decode_json("{not json").unwrap_err();
    assert_eq!(error.kind, ErrorKind::DecodeFailure);
    assert_eq!(error.message, "key must be a string at line 1 column 2");
    let error = decode_json("").unwrap_err();
    assert_eq!(error.kind, ErrorKind::DecodeFailure);
    assert_eq!(decode_json("17").unwrap(), Value::Number(Number::from(17u64)));
}

#[test]
fn error_item_stays_what_it_is() {
    let error = SrpcError::new(ErrorKind::IoFailure, "reset");
    let item = decode_json_item(Err(error.clone())).unwrap_err();
    assert_eq!(item, error);
    assert_eq!(decode_json_item(Ok("true".to_string())).unwrap(), Value::Bool(true));
}

#[test]
fn malformed_line_does_not_end_the_stream() {
    let options = ReceiveOptions::default();
    let mut receiver = JsonReceiver::new(&options);
    assert_eq!(receiver.max_chunk_size(), 16384);
    receiver.on_read(b"1\nnope\n[2]\n");
    let mut always = Fixed(true);
    assert_eq!(receiver.poll_item(&mut always).unwrap().unwrap(), Value::Number(Number::from(1u64)));
    let error = receiver.poll_item(&mut always).unwrap().unwrap_err();
    assert_eq!(error.kind, ErrorKind::DecodeFailure);
    assert!(!receiver.is_done());
    assert_eq!(
        receiver.poll_item(&mut always).unwrap().unwrap(),
        Value::Array(vec![Value::Number(Number::from(2u64))])
    );
    assert!(receiver.poll_item(&mut always).is_none());
    receiver.on_read(b"");
    assert!(receiver.poll_item(&mut always).is_none());
    assert!(receiver.is_done());
}

#[test]
fn json_receiver_hands_on_the_line_for_the_decision() {
    let options = ReceiveOptions::default();
    let mut receiver = JsonReceiver::new(&options);
    receiver.on_read(b"{\"done\":false}\n{\"done\":true}\nmore\n");
    let mut values = Vec::new();
    while let Some(item) = receiver.next_item() {
        if let Some(line) = &item.line {
            receiver.decide(!line.contains("\"done\":true"));
        }
        values.push(item.value.unwrap());
    }
    assert_eq!(values.len(), 2);
    assert_eq!(values[1]["done"], Value::Bool(true));
    assert!(receiver.is_done());
}

#[test]
fn json_receiver_takes_events_as_the_line_receiver_does() {
    let strict = ReceiveOptions::new(1, 8, std::time::Duration::from_secs(1), false);
    let mut receiver = JsonReceiver::new(&strict);
    assert_eq!(receiver.max_chunk_size(), 8);
    receiver.on_timeout();
    assert!(receiver.is_done());

    let mut receiver = JsonReceiver::new(&strict);
    let error = receiver.on_read_error("reset");
    assert_eq!(error.kind, ErrorKind::IoFailure);
    assert!(receiver.is_done());

    let mut receiver = JsonReceiver::new(&strict);
    receiver.abandon();
    assert!(receiver.is_done());
}
