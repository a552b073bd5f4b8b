//! JSON payloads: one value for each line.
//!
//! A payload is opaque here. It goes out as the compact text of the value
//! and a newline, and comes in as a line that is parsed. A line that does not
//! parse is an error of its own and ends nothing.

use vstd::prelude::*;
use vstd::utf8::encode_utf8;
use serde_json::Value;
use crate::error::{ErrorKind, Failure, SrpcError};
use crate::receive::{decided, handed_on, step, Continuation, LineReceiver, Reading};
use crate::config::ReceiveOptions;
use crate::framer::{complete_lines, decoded, lemma_sent_line_is_received, open_line};

verus! {

/// `serde_json::Value`: a JSON value, carried through as it is. Nothing is
/// claimed of what it holds.
#[verifier::external_type_specification]
#[verifier::external_body]
pub struct ExValue(serde_json::Value);

/// `serde_json::Error`: why a text is no JSON, carried through as it is.
/// Nothing is claimed of what it holds.
#[verifier::external_type_specification]
#[verifier::external_body]
pub struct ExJsonError(serde_json::Error);

/// The compact JSON text of `value`.
pub uninterp spec fn json_text(value: Value) -> Seq<char>;

/// What parsing `text` as JSON gives.
pub uninterp spec fn json_parse(text: Seq<char>) -> Result<Value, serde_json::Error>;

/// What `error` says, as text.
pub uninterp spec fn json_error_text(error: serde_json::Error) -> Seq<char>;

/// `to_string` on a `serde_json::Value`, which writes it with its `Display`:
/// the compact text of the value, the same for the same value. The text holds
/// no line break, since a control character inside a string is written as an
/// escape and nothing is written between the parts of a value.
#[verifier::external_body]
fn compact(value: &Value) -> (text: String)
    ensures
        text@ == json_text(*value),
        !text@.contains('\n'),
        !text@.contains('\r'),
{
    value.to_string()
}

/// `serde_json::from_str` for a `Value`: the value that `text` holds, or the
/// error that says why it holds none; the same for the same text.
#[verifier::external_body]
fn parse(text: &str) -> (parsed: Result<Value, serde_json::Error>)
    ensures
        parsed == json_parse(text@),
{
    serde_json::from_str(text)
}

/// `to_string` on a `serde_json::Error`, which writes it with its `Display`:
/// the same text for the same error.
#[verifier::external_body]
fn describe(error: &serde_json::Error) -> (text: String)
    ensures
        text@ == json_error_text(*error),
{
    error.to_string()
}

/// The line that carries `value`: its compact text and a newline.
pub open spec fn json_line(value: Value) -> Seq<char> {
    json_text(value).push('\n')
}

/// What a parsed line comes to: the value, or the decode failure that
/// carries what the parser said.
pub open spec fn json_outcome(parsed: Result<Value, serde_json::Error>) -> Result<Value, Failure> {
    match parsed {
        Ok(value) => Ok(value),
        Err(error) => Err(
            Failure { kind: ErrorKind::DecodeFailure, message: json_error_text(error) },
        ),
    }
}

/// What the item `line` of a line stream comes to in a stream of values: an
/// error stays what it is, and a line is parsed.
pub open spec fn json_item(line: Result<Seq<char>, Failure>) -> Result<Value, Failure> {
    match line {
        Ok(text) => json_outcome(json_parse(text)),
        Err(failure) => Err(failure),
    }
}

/// What an item of a stream of values says.
pub open spec fn value_view(item: Result<Value, SrpcError>) -> Result<Value, Failure> {
    match item {
        Ok(value) => Ok(value),
        Err(error) => Err(error@),
    }
}

/// A payload whose text holds no line break is received as it was sent: the
/// line that carries it is one complete line, which holds nothing but the
/// text of the payload, and nothing is left open after it.
pub proof fn lemma_payload_line_is_received(value: Value)
    requires
        !json_text(value).contains('\n'),
        !json_text(value).contains('\r'),
    ensures
        complete_lines(encode_utf8(json_line(value))) == seq![encode_utf8(json_text(value))],
        decoded(encode_utf8(json_text(value))) == Ok::<Seq<char>, Failure>(json_text(value)),
        open_line(encode_utf8(json_line(value))) == Seq::<u8>::empty(),
{
    let text = json_text(value);
    if text.len() > 0 && text.last() == '\r' {
        assert(text.contains('\r'));
    }
    lemma_sent_line_is_received(text);
}

/// The line that carries `payload`. The newline at its end is its only line
/// break, so that it is one line to whoever reads it.
pub fn encode_json(payload: &Value) -> (line: String)
    ensures
        line@ == json_line(*payload),
        !json_text(*payload).contains('\n'),
        !json_text(*payload).contains('\r'),
{
    let text = compact(payload);
    proof {
        reveal_strlit("\n");
        assert(text@ + "\n"@ =~= text@.push('\n'));
    }
    text.concat("\n")
}

/// What a parsed line comes to.
pub fn json_result(parsed: Result<Value, serde_json::Error>) -> (item: Result<Value, SrpcError>)
    ensures
        value_view(item) == json_outcome(parsed),
{
    match parsed {
        Ok(value) => Ok(value),
        Err(error) => {
            Err(SrpcError::from_message(ErrorKind::DecodeFailure, describe(&error)))
        },
    }
}

/// The value that `line` holds, or the decode failure for a line that holds
/// none.
pub fn decode_json(line: &str) -> (item: Result<Value, SrpcError>)
    ensures
        value_view(item) == json_outcome(json_parse(line@)),
{
    json_result(parse(line))
}

/// An item of a line stream as an item of a stream of values.
pub fn decode_json_item(line: Result<String, SrpcError>) -> (item: Result<Value, SrpcError>)
    ensures
        value_view(item) == json_item(crate::error::line_view(line)),
{
    match line {
        Ok(text) => decode_json(text.as_str()),
        Err(error) => Err(error),
    }
}

/// An item of a stream of values as it is handed on.
#[derive(Debug)]
pub struct JsonItem {
    /// The line that was received, unless an error came in its place.
    pub line: Option<String>,
    /// The value that the line holds, or what went wrong.
    pub value: Result<Value, SrpcError>,
}

/// The item of the line stream that `item` was made of, if there is one.
pub open spec fn json_item_view(item: Option<JsonItem>) -> Option<Result<Seq<char>, Failure>> {
    match item {
        Some(handed) => match handed.line {
            Some(line) => Some(Ok(line@)),
            None => match handed.value {
                Err(error) => Some(Err(error@)),
                Ok(_) => None,
            },
        },
        None => None,
    }
}

/// Turns the bytes that reads bring into the values of one receive
/// operation.
pub struct JsonReceiver {
    lines: LineReceiver,
}

impl View for JsonReceiver {
    type V = Reading;

    /// The state of the line receiver underneath.
    closed spec fn view(&self) -> Reading {
        self.lines@
    }
}

impl JsonReceiver {
    /// A receiver that has read nothing. Lines may hold anything, and reads
    /// take what `options` allows.
    pub fn new(options: &ReceiveOptions) -> (receiver: JsonReceiver)
        ensures
            receiver@ == crate::receive::initial(
                false,
                options@.max_chunk_size,
                options@.should_continue_on_timeout,
            ),
    {
        JsonReceiver { lines: LineReceiver::new(false, options) }
    }

    /// The most bytes that one read may take from the stream.
    pub fn max_chunk_size(&self) -> (size: usize)
        ensures
            size == self@.max_chunk_size,
    {
        self.lines.max_chunk_size()
    }

    /// Whether nothing more will be handed on.
    pub fn is_done(&self) -> (done: bool)
        ensures
            done == self@.done,
    {
        self.lines.is_done()
    }

    /// Takes in what one read brought, as the line receiver does.
    pub fn on_read(&mut self, chunk: &[u8])
        ensures
            final(self)@ == crate::receive::after_read(old(self)@, chunk@),
    {
        self.lines.on_read(chunk);
    }

    /// Takes note that the wait for the next line ran out.
    pub fn on_timeout(&mut self)
        ensures
            final(self)@ == crate::receive::after_timeout(old(self)@),
    {
        self.lines.on_timeout();
    }

    /// Takes note that a read failed: reading is done, and the error that is
    /// returned is the last item.
    pub fn on_read_error(&mut self, detail: &str) -> (error: SrpcError)
        ensures
            error@ == (Failure { kind: ErrorKind::IoFailure, message: detail@ }),
            final(self)@ == (Reading { done: true, ..old(self)@ }),
    {
        self.lines.on_read_error(detail)
    }

    /// Takes note that nobody takes the items any more: reading is done.
    pub fn abandon(&mut self)
        ensures
            final(self)@ == (Reading { done: true, ..old(self)@ }),
    {
        self.lines.abandon();
    }

    /// Hands on the item that is due, if there is one: the line that the
    /// line receiver hands on, parsed, together with the line as it came,
    /// for the decision that is open after it. The decision is open after
    /// every line, whether it parses or not.
    pub fn next_item(&mut self) -> (item: Option<JsonItem>)
        ensures
            json_item_view(item) == handed_on(old(self)@).item,
            item matches Some(handed) ==> value_view(handed.value) == json_item(
                handed_on(old(self)@).item->0,
            ),
            final(self)@ == handed_on(old(self)@).state,
    {
        match self.lines.next_item() {
            Some(Ok(line)) => {
                let value = decode_json(line.as_str());
                Some(JsonItem { line: Some(line), value })
            },
            Some(Err(error)) => Some(JsonItem { line: None, value: Err(error) }),
            None => None,
        }
    }

    /// Takes the decision on the line that was handed on last.
    pub fn decide(&mut self, keep: bool)
        ensures
            final(self)@ == decided(old(self)@, keep),
    {
        self.lines.decide(keep);
    }

    /// Hands on the item that is due, if there is one: the line that the
    /// line receiver hands on, parsed. `predicate` decides about the line as
    /// it came, whether it parses or not.
    pub fn poll_item<P: Continuation>(&mut self, predicate: &mut P) -> (item: Option<
        Result<Value, SrpcError>,
    >)
        ensures
            match item {
                Some(value) => step(old(self)@, *old(predicate)).item matches Some(line)
                    && value_view(value) == json_item(line),
                None => step(old(self)@, *old(predicate)).item is None,
            },
            final(self)@ == step(old(self)@, *old(predicate)).state,
            *final(predicate) == step(old(self)@, *old(predicate)).predicate,
    {
        match self.lines.poll_item(predicate) {
            Some(line) => Some(decode_json_item(line)),
            None => None,
        }
    }
}

} // verus!
