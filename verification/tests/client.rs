use serde_json::Value;
use srpc_client::{
    ClientConfig, ConnectedClient, CustomError, ErrorKind, ExchangeStage, IoEvent, LineReceiver,
    ReceiveOptions, SendStage, SimpleValue, SrpcError, Todo,
};
use std::num::NonZeroU8;

/// The two ends of a stream in memory: what the client has written, and what
/// the server has written and the client has not yet read.
struct Duplex {
    to_server: Vec<u8>,
    to_client: Vec<u8>,
}

fn setup_test_client() -> ConnectedClient<Duplex> {
    let config = ClientConfig::new("example.com", 443, "/", "", "");
    ConnectedClient::new(config, Duplex { to_server: Vec::new(), to_client: Vec::new() })
}

fn n_message(num: NonZeroU8) -> impl FnMut(&str) -> bool {
    let mut seen = 0;
    move |_msg: &str| {
        if seen + 1 == num.get() {
            false
        } else {
            seen += 1;
            true
        }
    }
}

fn one_message() -> impl FnMut(&str) -> bool {
    n_message(NonZeroU8::new(1).unwrap())
}

/// Runs `receiver` on what the server has written, reading as much at a time
/// as the receiver allows, until it is done or nothing is left to read.
fn receive(
    receiver: &mut LineReceiver,
    stream: &mut Duplex,
    mut should_continue: impl FnMut(&str) -> bool,
) -> Vec<Result<String, SrpcError>> {
    let mut items = Vec::new();
    loop {
        while let Some(item) = receiver.next_item() {
            if let Ok(line) = &item {
                let keep = should_continue(line);
                receiver.decide(keep);
            }
            items.push(item);
        }
        if receiver.is_done() || stream.to_client.is_empty() {
            return items;
        }
        let n = receiver.max_chunk_size().min(stream.to_client.len());
        let chunk: Vec<u8> = stream.to_client.drain(..n).collect();
        receiver.on_read(&chunk);
    }
}

fn check_message(server_message: &str, item: &Result<String, SrpcError>) {
    if let Ok(received_msg) = item {
        assert_eq!(received_msg, server_message.trim());
    } else {
        panic!("Did not receive expected message from server");
    }
}

#[test]
fn test_connected_client_send_and_receive() {
    let mut connected_client = setup_test_client();

    let client_message = "Hello from client\n";
    let bytes = connected_client.send_message(client_message);
    connected_client.stream_mut().to_server.extend_from_slice(&bytes);
    assert_eq!(&connected_client.stream().to_server, client_message.as_bytes());

    let server_message = "Hello from server\n";
    connected_client.stream_mut().to_client.extend_from_slice(server_message.as_bytes());

    let should_continue = one_message();

    let opts = ReceiveOptions::default();
    let mut rx = connected_client.receive_message(false, &opts);
    let items = receive(&mut rx, connected_client.stream_mut(), should_continue);

    assert_eq!(items.len(), 1);
    check_message(server_message, &items[0]);
    assert!(rx.is_done());
    assert!(rx.next_item().is_none());
}

#[test]
fn test_connected_client_send_and_receive_stream() {
    let mut connected_client = setup_test_client();

    let client_message = "Hello from client\n";
    let bytes = connected_client.send_message(client_message);
    connected_client.stream_mut().to_server.extend_from_slice(&bytes);
    assert_eq!(&connected_client.stream().to_server, client_message.as_bytes());

    connected_client.stream_mut().to_client.extend_from_slice("\n".as_bytes());

    let should_continue = one_message();

    let opts = ReceiveOptions::default();
    let mut rx = connected_client.receive_message(true, &opts);
    let items = receive(&mut rx, connected_client.stream_mut(), should_continue);

    assert_eq!(items.len(), 1);
    check_message("", &items[0]);

    connected_client.stream_mut().to_client.extend_from_slice("first\n".as_bytes());

    connected_client.stream_mut().to_client.extend_from_slice("second\n".as_bytes());

    let should_continue = n_message(NonZeroU8::new(2).unwrap());
    let mut rx = connected_client.receive_message(false, &opts);
    let items = receive(&mut rx, connected_client.stream_mut(), should_continue);

    assert_eq!(items.len(), 2);
    check_message("first", &items[0]);
    check_message("second", &items[1]);
}

#[test]
fn acknowledgment_leaves_the_payload_on_the_stream() {
    let connected_client = setup_test_client();
    let mut stream = Duplex { to_server: Vec::new(), to_client: b"\nfirst\nsecond\n".to_vec() };
    let opts = ReceiveOptions::default();
    let mut rx = connected_client.receive_message(true, &opts);
    let items = receive(&mut rx, &mut stream, one_message());
    assert_eq!(items, vec![Ok(String::new())]);
    assert_eq!(stream.to_client, b"first\nsecond\n");
}

#[test]
fn client_keeps_its_configuration_and_its_stream() {
    let connected_client = setup_test_client();
    assert_eq!(connected_client.connection_params.host(), "example.com");
    assert_eq!(connected_client.connection_params.port(), 443);
    assert_eq!(connected_client.connection_params.path(), "/");
    assert!(connected_client.stream().to_server.is_empty());
}

#[test]
fn client_sends_json_as_one_line() {
    let connected_client = setup_test_client();
    let mut object = serde_json::Map::new();
    object.insert("a".to_string(), Value::Array(vec![Value::Null, Value::Bool(true)]));
    assert_eq!(connected_client.send_json(&Value::Object(object)), b"{\"a\":[null,true]}\n");
}

#[test]
fn client_receives_json() {
    let connected_client = setup_test_client();
    let opts = ReceiveOptions::default();
    let mut rx = connected_client.receive_json(&opts);
    rx.on_read(b"{\"a\":1}\n");
    let item = rx.next_item().unwrap();
    assert_eq!(item.line.as_deref(), Some("{\"a\":1}"));
    assert_eq!(item.value.unwrap()["a"], Value::from(1));
}

#[test]
fn client_checks_what_it_sends() {
    let connected_client = setup_test_client();
    let mut send = connected_client.send_message_and_check("Method\n");
    assert_eq!(send.todo(), Todo::Send(b"Method\n".to_vec()));
    send.advance(IoEvent::Sent);
    assert_eq!(send.advance(IoEvent::Read(b"\n".to_vec())), Some(Ok(())));
    assert_eq!(send.stage(), SendStage::Acknowledged);

    let mut send = connected_client.send_json_and_check(&Value::Bool(false));
    assert_eq!(send.todo(), Todo::Send(b"false\n".to_vec()));
    send.advance(IoEvent::Sent);
    let error = send.advance(IoEvent::Read(b"".to_vec())).unwrap().unwrap_err();
    assert_eq!(error.kind, ErrorKind::ProtocolViolation);
}

#[test]
fn client_begins_an_exchange() {
    let connected_client = setup_test_client();
    let exchange = connected_client.request_reply::<SimpleValue>("Method\n", &Value::Null);
    assert_eq!(exchange.stage(), ExchangeStage::SendMethod);
    assert_eq!(exchange.todo(), Todo::Send(b"Method\n".to_vec()));
}

#[test]
fn errors_carry_their_message() {
    let error = SrpcError::with_detail(ErrorKind::ConnectFailure, "Failed to connect: ", "refused");
    assert_eq!(error.kind, ErrorKind::ConnectFailure);
    assert_eq!(error.message(), "Failed to connect: refused");
    let custom = error.into_custom();
    assert_eq!(custom, CustomError("Failed to connect: refused".to_string()));
    assert_eq!(custom.message(), "Failed to connect: refused");
    let error = SrpcError::from_message(ErrorKind::TlsFailure, "handshake".to_string());
    assert_eq!(error, SrpcError::new(ErrorKind::TlsFailure, "handshake"));
}
