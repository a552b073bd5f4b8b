//! An established connection, seen from the side of the protocol.
//!
//! A `ConnectedClient` keeps the stream that the handshake produced together
//! with the configuration it was made from. It does not read or write the
//! stream: for each operation it says which bytes are to be sent and hands
//! out the receiver that turns what is read into items.

use vstd::prelude::*;
use vstd::string::StringSliceAdditionalSpecFns;
use vstd::utf8::encode_utf8;
use serde_json::Value;
use crate::call::{unsent, CheckedSend, Exchange, Exchanging, RequestReply};
use crate::config::{ClientConfig, ReceiveOptions, Target};
use crate::json::{encode_json, json_line, JsonReceiver};
use crate::receive::{initial, LineReceiver};

verus! {

/// An established connection: the stream, and the configuration that led to
/// it.
pub struct ConnectedClient<T> {
    pub connection_params: ClientConfig,
    stream: T,
}

/// What a `ConnectedClient` holds.
pub struct Connected<T> {
    pub connection_params: Target,
    pub stream: T,
}

impl<T> View for ConnectedClient<T> {
    type V = Connected<T>;

    closed spec fn view(&self) -> Connected<T> {
        Connected { connection_params: self.connection_params@, stream: self.stream }
    }
}

impl<T> ConnectedClient<T> {
    /// The connection over `stream`, which was established for
    /// `connection_params`.
    pub fn new(connection_params: ClientConfig, stream: T) -> (client: Self)
        ensures
            client@ == (Connected { connection_params: connection_params@, stream }),
    {
        ConnectedClient { connection_params, stream }
    }

    /// The stream.
    pub fn stream(&self) -> (stream: &T)
        ensures
            *stream == self@.stream,
    {
        &self.stream
    }

    /// The stream, to read and write. The configuration stays as it is.
    pub fn stream_mut(&mut self) -> (stream: &mut T)
        ensures
            *stream == old(self)@.stream,
            final(self)@ == (Connected { stream: *final(stream), ..old(self)@ }),
    {
        &mut self.stream
    }

    /// Gives the stream back.
    pub fn into_stream(self) -> (stream: T)
        ensures
            stream == self@.stream,
    {
        self.stream
    }

    /// The bytes that send `message`: its text as it is, with nothing added.
    pub fn send_message(&self, message: &str) -> (bytes: Vec<u8>)
        ensures
            bytes@ == message.spec_bytes(),
    {
        message.as_bytes_vec()
    }

    /// The bytes that send `payload`: its compact text and a newline.
    pub fn send_json(&self, payload: &Value) -> (bytes: Vec<u8>)
        ensures
            bytes@ == encode_utf8(json_line(*payload)),
    {
        encode_json(payload).as_str().as_bytes_vec()
    }

    /// A receiver for lines. With `expect_empty` it is a receiver for
    /// acknowledgments.
    pub fn receive_message(&self, expect_empty: bool, opts: &ReceiveOptions) -> (receiver:
        LineReceiver)
        ensures
            receiver@ == initial(
                expect_empty,
                opts@.max_chunk_size,
                opts@.should_continue_on_timeout,
            ),
    {
        LineReceiver::new(expect_empty, opts)
    }

    /// A receiver for JSON values, one for each line.
    pub fn receive_json(&self, opts: &ReceiveOptions) -> (receiver: JsonReceiver)
        ensures
            receiver@ == initial(false, opts@.max_chunk_size, opts@.should_continue_on_timeout),
    {
        JsonReceiver::new(opts)
    }

    /// The send of `message` with the acknowledgment that must follow it.
    pub fn send_message_and_check(&self, message: &str) -> (send: CheckedSend)
        ensures
            send@ == unsent(message.spec_bytes()),
    {
        CheckedSend::new(self.send_message(message))
    }

    /// The send of `payload` with the acknowledgment that must follow it.
    pub fn send_json_and_check(&self, payload: &Value) -> (send: CheckedSend)
        ensures
            send@ == unsent(encode_utf8(json_line(*payload))),
    {
        CheckedSend::new(self.send_json(payload))
    }

    /// The exchange that calls `method` with `payload` and takes the reply
    /// as `R` says.
    pub fn request_reply<R: RequestReply>(&self, method: &str, payload: &Value) -> (exchange:
        Exchange)
        ensures
            exchange@ == (Exchanging {
                method: unsent(method.spec_bytes()),
                payload: unsent(encode_utf8(json_line(*payload))),
                streams: R::streams(),
            }),
    {
        Exchange::new::<R>(method, payload)
    }
}

} // verus!
