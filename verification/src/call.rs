//! The discipline of a call: request, acknowledgment, reply.
//!
//! Whatever the client sends, a method line or a payload, the partner
//! acknowledges with one empty line before anything else is read. A
//! `CheckedSend` leads through one message and its acknowledgment, an
//! `Exchange` through a whole call on a borrowed connection: they are told
//! what happened on the connection and say what is to be done next. A `Conn`
//! holds the right to use a connection for as long as one call lasts, and
//! gives it back when it is closed.

use vstd::prelude::*;
use vstd::slice::slice_to_vec;
use vstd::string::StringSliceAdditionalSpecFns;
use vstd::utf8::encode_utf8;
use serde_json::Value;
use std::time::Duration;
use crate::config::{duration_of_secs, ReceiveOptions};
use crate::error::{first_line_view, ErrorKind, Failure, SrpcError};
use crate::json::{encode_json, json_line, value_view};
use crate::receive::{after_read, after_timeout, initial, step, Fixed, LineReceiver, Reading};
use crate::tunnel::outcome_view;

verus! {

/// What the first item of an acknowledgment stream comes to: nothing when it
/// is an empty line, the error that came in its place, or a protocol
/// violation when the stream ended without an item or the line is not empty.
pub open spec fn acknowledged(first: Option<Result<Seq<char>, Failure>>) -> Result<(), Failure> {
    match first {
        None => Err(
            Failure { kind: ErrorKind::ProtocolViolation, message: "Expected response"@ },
        ),
        Some(Err(failure)) => Err(failure),
        Some(Ok(line)) => if line.len() == 0 {
            Ok(())
        } else {
            Err(Failure { kind: ErrorKind::ProtocolViolation, message: "Expected empty line"@ })
        },
    }
}

/// What the first item of a reply stream comes to when one value is owed:
/// that item, or a protocol violation when the stream ended without one.
pub open spec fn replied(first: Option<Result<Value, Failure>>) -> Result<Value, Failure> {
    match first {
        None => Err(
            Failure { kind: ErrorKind::ProtocolViolation, message: "Expected JSON value"@ },
        ),
        Some(item) => item,
    }
}

/// What the first item of a stream of values says, if there is one.
pub open spec fn first_value_view(first: Option<Result<Value, SrpcError>>) -> Option<
    Result<Value, Failure>,
> {
    match first {
        Some(item) => Some(value_view(item)),
        None => None,
    }
}

/// What a decision that may still be open says.
pub open spec fn decision_view(decision: Option<Result<(), SrpcError>>) -> Option<
    Result<(), Failure>,
> {
    match decision {
        Some(outcome) => Some(outcome_view(outcome)),
        None => None,
    }
}

/// Checks the acknowledgment of what was sent, given the first item of the
/// stream that was opened for it.
pub fn check_ack(first: Option<Result<String, SrpcError>>) -> (outcome: Result<(), SrpcError>)
    ensures
        outcome_view(outcome) == acknowledged(first_line_view(first)),
{
    match first {
        None => Err(SrpcError::new(ErrorKind::ProtocolViolation, "Expected response")),
        Some(Err(error)) => Err(error),
        Some(Ok(line)) => if line.as_str().is_empty() {
            Ok(())
        } else {
            Err(SrpcError::new(ErrorKind::ProtocolViolation, "Expected empty line"))
        },
    }
}

/// Takes the one value that is owed, given the first item of the stream that
/// was opened for it.
pub fn expect_reply(first: Option<Result<Value, SrpcError>>) -> (reply: Result<Value, SrpcError>)
    ensures
        value_view(reply) == replied(first_value_view(first)),
{
    match first {
        None => Err(SrpcError::new(ErrorKind::ProtocolViolation, "Expected JSON value")),
        Some(item) => item,
    }
}

/// A way to take the reply to a request.
pub trait RequestReply {
    /// Whether values are taken for as long as the partner sends them,
    /// rather than one.
    spec fn streams() -> bool;

    /// The predicate under which the reply is received.
    fn continuation() -> (predicate: Fixed)
        ensures
            predicate.0 == Self::streams(),
    ;
}

/// One value is the reply.
#[derive(Clone, Copy, Debug)]
pub struct SimpleValue;

/// The reply is every value that the partner sends until the stream ends.
#[derive(Clone, Copy, Debug)]
pub struct StreamValue;

impl RequestReply for SimpleValue {
    open spec fn streams() -> bool {
        false
    }

    fn continuation() -> (predicate: Fixed) {
        Fixed(false)
    }
}

impl RequestReply for StreamValue {
    open spec fn streams() -> bool {
        true
    }

    fn continuation() -> (predicate: Fixed) {
        Fixed(true)
    }
}

/// What happened on the connection.
#[derive(Clone, Debug, PartialEq, Eq)]
pub enum IoEvent {
    /// What was to be sent has been written and flushed.
    Sent,
    /// Sending failed, for the reason given.
    SendFailed(String),
    /// A read brought these bytes; none at the end of the stream.
    Read(Vec<u8>),
    /// A read failed, for the reason given.
    ReadFailed(String),
    /// The wait for the next line ran out.
    TimedOut,
}

/// What an `IoEvent` says.
pub enum Io {
    Sent,
    SendFailed(Seq<char>),
    Read(Seq<u8>),
    ReadFailed(Seq<char>),
    TimedOut,
}

impl View for IoEvent {
    type V = Io;

    open spec fn view(&self) -> Io {
        match self {
            IoEvent::Sent => Io::Sent,
            IoEvent::SendFailed(detail) => Io::SendFailed(detail@),
            IoEvent::Read(chunk) => Io::Read(chunk@),
            IoEvent::ReadFailed(detail) => Io::ReadFailed(detail@),
            IoEvent::TimedOut => Io::TimedOut,
        }
    }
}

/// What is to be done next on the connection.
#[derive(Debug, PartialEq, Eq)]
pub enum Todo {
    /// Write these bytes and flush.
    Send(Vec<u8>),
    /// Read once, at most `max_chunk_size` bytes, and wait no longer than
    /// `wait` for it.
    Read { max_chunk_size: usize, wait: Duration },
    /// Open a stream of values under the predicate given.
    AwaitReply(Fixed),
    /// Nothing.
    Nothing,
}

/// What a `Todo` says.
pub enum TodoView {
    Send(Seq<u8>),
    Read { max_chunk_size: usize, wait: Duration },
    AwaitReply(bool),
    Nothing,
}

impl View for Todo {
    type V = TodoView;

    open spec fn view(&self) -> TodoView {
        match self {
            Todo::Send(bytes) => TodoView::Send(bytes@),
            Todo::Read { max_chunk_size, wait } => TodoView::Read {
                max_chunk_size: *max_chunk_size,
                wait: *wait,
            },
            Todo::AwaitReply(predicate) => TodoView::AwaitReply(predicate.0),
            Todo::Nothing => TodoView::Nothing,
        }
    }
}

/// Where a checked send stands.
#[derive(Clone, Copy, Debug, PartialEq, Eq, Structural)]
pub enum SendStage {
    /// The message is to be sent.
    Send,
    /// The acknowledgment is to be received.
    AwaitAck,
    /// The message has been acknowledged.
    Acknowledged,
    /// The send has failed.
    Failed,
}

/// The state of a `CheckedSend`.
pub struct Sending {
    pub stage: SendStage,
    /// The bytes of the message.
    pub message: Seq<u8>,
    /// The state of the receiver for the acknowledgment.
    pub ack: Reading,
}

/// The state of the receiver for an acknowledgment before anything was read:
/// every line must be empty, reads take one byte, and a wait that ran out is
/// followed by another.
pub open spec fn ack_reading() -> Reading {
    initial(true, 16384, true)
}

/// The error of a send or a read that failed for the reason `detail`.
pub open spec fn io_failure(detail: Seq<char>) -> Failure {
    Failure { kind: ErrorKind::IoFailure, message: detail }
}

/// The error of an event that does not belong where things stand.
pub open spec fn out_of_order() -> Failure {
    Failure { kind: ErrorKind::ProtocolViolation, message: "Event out of order"@ }
}

/// The result of one event in a checked send.
pub struct SendStep {
    pub state: Sending,
    /// What has been decided, if anything.
    pub decision: Option<Result<(), Failure>>,
}

/// The state of an acknowledgment receiver after a read or a wait.
pub open spec fn ack_fed(ack: Reading, event: Io) -> Reading {
    match event {
        Io::Read(chunk) => after_read(ack, chunk),
        Io::TimedOut => after_timeout(ack),
        _ => ack,
    }
}

/// What comes of asking an acknowledgment receiver in state `fed` for its
/// one item.
pub open spec fn ack_decision(fed: Reading) -> Option<Result<(), Failure>> {
    let asked = step(fed, Fixed(false));
    match asked.item {
        Some(line) => Some(acknowledged(Some(line))),
        None => if asked.state.done {
            Some(acknowledged(None))
        } else {
            None
        },
    }
}

/// The stage that a decision leads to while the acknowledgment is awaited.
pub open spec fn stage_decided(decision: Option<Result<(), Failure>>) -> SendStage {
    match decision {
        None => SendStage::AwaitAck,
        Some(Ok(())) => SendStage::Acknowledged,
        Some(Err(_)) => SendStage::Failed,
    }
}

/// One event in a checked send.
///
/// While the message is to be sent, its being sent leads on to the
/// acknowledgment. While the acknowledgment is awaited, what is read is
/// handed to its receiver, which is asked for one item: an empty line
/// acknowledges the message, and anything else, the end of the stream
/// included, fails the send. An event that does not belong where the send
/// stands fails it too, unless it has ended: then nothing changes.
pub open spec fn send_step(state: Sending, event: Io) -> SendStep {
    match state.stage {
        SendStage::Send => match event {
            Io::Sent => SendStep {
                state: Sending { stage: SendStage::AwaitAck, ..state },
                decision: None,
            },
            Io::SendFailed(detail) => SendStep {
                state: Sending { stage: SendStage::Failed, ..state },
                decision: Some(Err(io_failure(detail))),
            },
            _ => SendStep {
                state: Sending { stage: SendStage::Failed, ..state },
                decision: Some(Err(out_of_order())),
            },
        },
        SendStage::AwaitAck => match event {
            Io::Read(_) | Io::TimedOut => {
                let fed = ack_fed(state.ack, event);
                SendStep {
                    state: Sending {
                        stage: stage_decided(ack_decision(fed)),
                        ack: step(fed, Fixed(false)).state,
                        ..state
                    },
                    decision: ack_decision(fed),
                }
            },
            Io::ReadFailed(detail) => SendStep {
                state: Sending {
                    stage: SendStage::Failed,
                    ack: Reading { done: true, ..state.ack },
                    ..state
                },
                decision: Some(Err(io_failure(detail))),
            },
            _ => SendStep {
                state: Sending { stage: SendStage::Failed, ..state },
                decision: Some(Err(out_of_order())),
            },
        },
        SendStage::Acknowledged | SendStage::Failed => SendStep {
            state,
            decision: Some(Err(out_of_order())),
        },
    }
}

/// What is to be done in `state`.
pub open spec fn send_todo(state: Sending) -> TodoView {
    match state.stage {
        SendStage::Send => TodoView::Send(state.message),
        SendStage::AwaitAck => TodoView::Read {
            max_chunk_size: state.ack.max_chunk_size,
            wait: duration_of_secs(10),
        },
        SendStage::Acknowledged | SendStage::Failed => TodoView::Nothing,
    }
}

/// One message and the acknowledgment that must follow it.
pub struct CheckedSend {
    stage: SendStage,
    message: Vec<u8>,
    ack: LineReceiver,
}

impl View for CheckedSend {
    type V = Sending;

    closed spec fn view(&self) -> Sending {
        Sending { stage: self.stage, message: self.message@, ack: self.ack@ }
    }
}

impl CheckedSend {
    /// A checked send of `message`, of which nothing has been sent.
    pub fn new(message: Vec<u8>) -> (send: CheckedSend)
        ensures
            send@ == (Sending { stage: SendStage::Send, message: message@, ack: ack_reading() }),
    {
        CheckedSend {
            stage: SendStage::Send,
            message,
            ack: LineReceiver::new(true, &ReceiveOptions::default()),
        }
    }

    /// Where the send stands.
    pub fn stage(&self) -> (stage: SendStage)
        ensures
            stage == self@.stage,
    {
        self.stage
    }

    /// What is to be done next on the connection.
    pub fn todo(&self) -> (todo: Todo)
        ensures
            todo@ == send_todo(self@),
    {
        match self.stage {
            SendStage::Send => Todo::Send(slice_to_vec(self.message.as_slice())),
            SendStage::AwaitAck => Todo::Read {
                max_chunk_size: self.ack.max_chunk_size(),
                wait: ReceiveOptions::default().read_next_line_duration(),
            },
            SendStage::Acknowledged | SendStage::Failed => Todo::Nothing,
        }
    }

    /// Takes note of what happened, and returns what has been decided: the
    /// acknowledgment, the error that ends the send, or nothing yet.
    pub fn advance(&mut self, event: IoEvent) -> (decision: Option<Result<(), SrpcError>>)
        ensures
            decision_view(decision) == send_step(old(self)@, event@).decision,
            final(self)@ == send_step(old(self)@, event@).state,
    {
        match self.stage {
            SendStage::Send => match event {
                IoEvent::Sent => {
                    self.stage = SendStage::AwaitAck;
                    None
                },
                IoEvent::SendFailed(detail) => {
                    self.stage = SendStage::Failed;
                    Some(Err(SrpcError::from_message(ErrorKind::IoFailure, detail)))
                },
                _ => {
                    self.stage = SendStage::Failed;
                    Some(Err(SrpcError::new(ErrorKind::ProtocolViolation, "Event out of order")))
                },
            },
            SendStage::AwaitAck => match event {
                IoEvent::Read(chunk) => {
                    self.ack.on_read(chunk.as_slice());
                    self.ask()
                },
                IoEvent::TimedOut => {
                    self.ack.on_timeout();
                    self.ask()
                },
                IoEvent::ReadFailed(detail) => {
                    self.stage = SendStage::Failed;
                    Some(Err(self.ack.on_read_error(detail.as_str())))
                },
                _ => {
                    self.stage = SendStage::Failed;
                    Some(Err(SrpcError::new(ErrorKind::ProtocolViolation, "Event out of order")))
                },
            },
            SendStage::Acknowledged | SendStage::Failed => Some(
                Err(SrpcError::new(ErrorKind::ProtocolViolation, "Event out of order")),
            ),
        }
    }

    /// Asks the receiver for the one item of the acknowledgment.
    fn ask(&mut self) -> (decision: Option<Result<(), SrpcError>>)
        requires
            old(self).stage == SendStage::AwaitAck,
        ensures
            decision_view(decision) == ack_decision(old(self).ack@),
            final(self)@ == (Sending {
                stage: stage_decided(ack_decision(old(self).ack@)),
                ack: step(old(self).ack@, Fixed(false)).state,
                ..old(self)@
            }),
    {
        let mut once = Fixed(false);
        let decision = match self.ack.poll_item(&mut once) {
            Some(item) => Some(check_ack(Some(item))),
            None => if self.ack.is_done() {
                Some(check_ack(None))
            } else {
                None
            },
        };
        self.stage = match &decision {
            None => SendStage::AwaitAck,
            Some(Ok(_)) => SendStage::Acknowledged,
            Some(Err(_)) => SendStage::Failed,
        };
        decision
    }
}

/// Where an exchange stands.
#[derive(Clone, Copy, Debug, PartialEq, Eq, Structural)]
pub enum ExchangeStage {
    /// The method line is to be sent.
    SendMethod,
    /// The acknowledgment of the method line is to be received.
    AwaitMethodAck,
    /// The payload is to be sent.
    SendPayload,
    /// The acknowledgment of the payload is to be received.
    AwaitPayloadAck,
    /// The reply is to be received.
    AwaitReply,
    /// The exchange has failed.
    Failed,
}

/// The state of an `Exchange`.
pub struct Exchanging {
    /// The send of the method line.
    pub method: Sending,
    /// The send of the payload.
    pub payload: Sending,
    /// Whether the reply is a stream of values rather than one.
    pub streams: bool,
}

/// The state of a checked send of `message` of which nothing has been sent.
pub open spec fn unsent(message: Seq<u8>) -> Sending {
    Sending { stage: SendStage::Send, message, ack: ack_reading() }
}

/// Where an exchange in `state` stands: at the method line until that is
/// acknowledged, then at the payload, then at the reply; a send that failed
/// has failed the exchange.
pub open spec fn exchange_stage(state: Exchanging) -> ExchangeStage {
    match state.method.stage {
        SendStage::Send => ExchangeStage::SendMethod,
        SendStage::AwaitAck => ExchangeStage::AwaitMethodAck,
        SendStage::Failed => ExchangeStage::Failed,
        SendStage::Acknowledged => match state.payload.stage {
            SendStage::Send => ExchangeStage::SendPayload,
            SendStage::AwaitAck => ExchangeStage::AwaitPayloadAck,
            SendStage::Acknowledged => ExchangeStage::AwaitReply,
            SendStage::Failed => ExchangeStage::Failed,
        },
    }
}

/// The result of one event in an exchange.
pub struct ExchangeStep {
    pub state: Exchanging,
    /// What has been decided, if anything: that the reply is due, or the
    /// error that ends the exchange.
    pub decision: Option<Result<(), Failure>>,
}

/// One event in an exchange: it goes to the send of the method line until
/// that has ended, and then to the send of the payload. That the method line
/// is acknowledged decides nothing yet.
pub open spec fn exchange_step(state: Exchanging, event: Io) -> ExchangeStep {
    match state.method.stage {
        SendStage::Send | SendStage::AwaitAck => {
            let sent = send_step(state.method, event);
            ExchangeStep {
                state: Exchanging { method: sent.state, ..state },
                decision: if sent.decision == Some(Ok::<(), Failure>(())) {
                    None
                } else {
                    sent.decision
                },
            }
        },
        SendStage::Failed => ExchangeStep { state, decision: Some(Err(out_of_order())) },
        SendStage::Acknowledged => {
            let sent = send_step(state.payload, event);
            ExchangeStep {
                state: Exchanging { payload: sent.state, ..state },
                decision: sent.decision,
            }
        },
    }
}

/// What is to be done in `state`.
pub open spec fn exchange_todo(state: Exchanging) -> TodoView {
    match state.method.stage {
        SendStage::Send | SendStage::AwaitAck => send_todo(state.method),
        SendStage::Failed => TodoView::Nothing,
        SendStage::Acknowledged => match state.payload.stage {
            SendStage::Acknowledged => TodoView::AwaitReply(state.streams),
            _ => send_todo(state.payload),
        },
    }
}

/// Unless the method line is acknowledged, nothing of the payload is sent
/// and no reply is awaited: while that acknowledgment is open the payload
/// stays as it is, and once it has failed nothing is to be done, whatever
/// happens.
pub proof fn lemma_method_ack_comes_first(state: Exchanging, event: Io)
    ensures
        state.method.stage != SendStage::Acknowledged ==> exchange_step(state, event).state.payload
            == state.payload,
        state.method.stage != SendStage::Acknowledged ==> !(exchange_todo(state) is AwaitReply),
        state.method.stage == SendStage::Failed ==> exchange_step(state, event).state == state
            && exchange_todo(exchange_step(state, event).state) == TodoView::Nothing,
{
}

/// A failed exchange stays failed.
pub proof fn lemma_failure_is_final(state: Exchanging, event: Io)
    requires
        exchange_stage(state) == ExchangeStage::Failed,
    ensures
        exchange_stage(exchange_step(state, event).state) == ExchangeStage::Failed,
        exchange_step(state, event).decision == Some(Err::<(), Failure>(out_of_order())),
{
}

/// One call on a borrowed connection, from the method line to the reply.
pub struct Exchange {
    method: CheckedSend,
    payload: CheckedSend,
    streams: bool,
}

impl View for Exchange {
    type V = Exchanging;

    closed spec fn view(&self) -> Exchanging {
        Exchanging { method: self.method@, payload: self.payload@, streams: self.streams }
    }
}

impl Exchange {
    /// An exchange that calls `method` with `payload` and takes the reply as
    /// `R` says. `method` goes out as it is, so it ends in a newline.
    pub fn new<R: RequestReply>(method: &str, payload: &Value) -> (exchange: Exchange)
        ensures
            exchange@ == (Exchanging {
                method: unsent(method.spec_bytes()),
                payload: unsent(encode_utf8(json_line(*payload))),
                streams: R::streams(),
            }),
    {
        let line = encode_json(payload);
        let predicate = R::continuation();
        Exchange {
            method: CheckedSend::new(method.as_bytes_vec()),
            payload: CheckedSend::new(line.as_str().as_bytes_vec()),
            streams: predicate.0,
        }
    }

    /// Where the exchange stands.
    pub fn stage(&self) -> (stage: ExchangeStage)
        ensures
            stage == exchange_stage(self@),
    {
        match self.method.stage() {
            SendStage::Send => ExchangeStage::SendMethod,
            SendStage::AwaitAck => ExchangeStage::AwaitMethodAck,
            SendStage::Failed => ExchangeStage::Failed,
            SendStage::Acknowledged => match self.payload.stage() {
                SendStage::Send => ExchangeStage::SendPayload,
                SendStage::AwaitAck => ExchangeStage::AwaitPayloadAck,
                SendStage::Acknowledged => ExchangeStage::AwaitReply,
                SendStage::Failed => ExchangeStage::Failed,
            },
        }
    }

    /// What is to be done next on the connection.
    pub fn todo(&self) -> (todo: Todo)
        ensures
            todo@ == exchange_todo(self@),
    {
        match self.method.stage() {
            SendStage::Send | SendStage::AwaitAck => self.method.todo(),
            SendStage::Failed => Todo::Nothing,
            SendStage::Acknowledged => match self.payload.stage() {
                SendStage::Acknowledged => Todo::AwaitReply(Fixed(self.streams)),
                _ => self.payload.todo(),
            },
        }
    }

    /// Takes note of what happened, and returns what has been decided: that
    /// the reply is due, the error that ends the exchange, or nothing yet.
    pub fn advance(&mut self, event: IoEvent) -> (decision: Option<Result<(), SrpcError>>)
        ensures
            decision_view(decision) == exchange_step(old(self)@, event@).decision,
            final(self)@ == exchange_step(old(self)@, event@).state,
    {
        match self.method.stage() {
            SendStage::Send | SendStage::AwaitAck => {
                match self.method.advance(event) {
                    Some(Ok(_)) => None,
                    decision => decision,
                }
            },
            SendStage::Failed => Some(
                Err(SrpcError::new(ErrorKind::ProtocolViolation, "Event out of order")),
            ),
            SendStage::Acknowledged => self.payload.advance(event),
        }
    }
}

/// The state of a `Conn`.
pub struct Calling<G> {
    /// The right to use the connection.
    pub guard: G,
    /// The send of the method line.
    pub method: Sending,
    /// Whether the reply has been taken.
    pub decoded: bool,
}

/// One call on a connection that is held for it.
pub struct Conn<G> {
    guard: G,
    method: CheckedSend,
    decoded: bool,
}

impl<G> View for Conn<G> {
    type V = Calling<G>;

    closed spec fn view(&self) -> Calling<G> {
        Calling { guard: self.guard, method: self.method@, decoded: self.decoded }
    }
}

/// Begins a call of `method` on the connection that `guard` gives the right
/// to use. The guard is held by the `Conn` that is returned, until that is
/// closed. `method` goes out as it is, so it ends in a newline.
pub fn call<G>(guard: G, method: &str) -> (conn: Conn<G>)
    ensures
        conn@ == (Calling { guard, method: unsent(method.spec_bytes()), decoded: false }),
{
    Conn { guard, method: CheckedSend::new(method.as_bytes_vec()), decoded: false }
}

/// The error of a reply that is asked for a second time.
pub open spec fn already_decoded() -> Failure {
    Failure { kind: ErrorKind::ProtocolViolation, message: "Reply already decoded"@ }
}

/// What taking the reply comes to in `state`, given the first item of the
/// stream of values that was opened for it: the one value that is owed, once
/// the method line has been acknowledged and as long as no reply has been
/// taken.
pub open spec fn decoded_reply<G>(state: Calling<G>, first: Option<Result<Value, Failure>>)
    -> Result<Value, Failure> {
    if state.decoded {
        Err(already_decoded())
    } else if state.method.stage != SendStage::Acknowledged {
        Err(out_of_order())
    } else {
        replied(first)
    }
}

impl<G> Conn<G> {
    /// The guard, to use the connection with.
    pub fn guard(&self) -> (guard: &G)
        ensures
            *guard == self@.guard,
    {
        &self.guard
    }

    /// The guard, to use the connection with. The call stays as it is.
    pub fn guard_mut(&mut self) -> (guard: &mut G)
        ensures
            *guard == old(self)@.guard,
            final(self)@ == (Calling { guard: *final(guard), ..old(self)@ }),
    {
        &mut self.guard
    }

    /// Whether the reply has been taken.
    pub fn is_decoded(&self) -> (decoded: bool)
        ensures
            decoded == self@.decoded,
    {
        self.decoded
    }

    /// What is to be done next on the connection to have the method line
    /// sent and acknowledged.
    pub fn todo(&self) -> (todo: Todo)
        ensures
            todo@ == send_todo(self@.method),
    {
        self.method.todo()
    }

    /// Takes note of what happened to the method line, and returns what has
    /// been decided: its acknowledgment, the error that ends the call, or
    /// nothing yet.
    pub fn advance(&mut self, event: IoEvent) -> (decision: Option<Result<(), SrpcError>>)
        ensures
            decision_view(decision) == send_step(old(self)@.method, event@).decision,
            final(self)@ == (Calling {
                method: send_step(old(self)@.method, event@).state,
                ..old(self)@
            }),
    {
        self.method.advance(event)
    }

    /// Takes the reply, given the first item of the stream of values that
    /// was opened for it. A call has one reply: asking again is a protocol
    /// violation, and so is asking before the method line is acknowledged.
    pub fn decode(&mut self, first: Option<Result<Value, SrpcError>>) -> (reply: Result<
        Value,
        SrpcError,
    >)
        ensures
            value_view(reply) == decoded_reply(old(self)@, first_value_view(first)),
            final(self)@ == (Calling {
                decoded: old(self)@.decoded || old(self)@.method.stage == SendStage::Acknowledged,
                ..old(self)@
            }),
    {
        if self.decoded {
            Err(SrpcError::new(ErrorKind::ProtocolViolation, "Reply already decoded"))
        } else {
            match self.method.stage() {
                SendStage::Acknowledged => {
                    self.decoded = true;
                    expect_reply(first)
                },
                _ => Err(SrpcError::new(ErrorKind::ProtocolViolation, "Event out of order")),
            }
        }
    }

    /// Ends the call and gives the guard back, for the next call on the same
    /// connection.
    pub fn close(self) -> (guard: G)
        ensures
            guard == self@.guard,
    {
        self.guard
    }
}

} // verus!
