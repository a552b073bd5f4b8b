//! Error values: a kind that callers can branch on, and a message for people.

use vstd::prelude::*;

verus! {

/// What went wrong, by the layer that noticed it.
#[derive(Clone, Copy, Debug, PartialEq, Eq, Structural)]
pub enum ErrorKind {
    /// The TCP connection was refused or did not come up in time.
    ConnectFailure,
    /// The proxy did not grant the tunnel.
    TunnelFailure,
    /// The TLS handshake, or loading the client identity, failed.
    TlsFailure,
    /// The partner broke the line discipline.
    ProtocolViolation,
    /// A line that should have held JSON did not.
    DecodeFailure,
    /// Reading from or writing to the stream failed.
    IoFailure,
}

/// A bare error message.
#[derive(Clone, Debug, PartialEq, Eq)]
pub struct CustomError(pub String);

impl CustomError {
    /// The message, as an owned string.
    pub fn message(&self) -> (text: String)
        ensures
            text@ == self.0@,
    {
        self.0.clone()
    }
}

/// An error of this library: its kind and its message.
#[derive(Clone, Debug, PartialEq, Eq)]
pub struct SrpcError {
    pub kind: ErrorKind,
    pub message: String,
}

/// What an `SrpcError` says: its kind, and its message as characters.
pub struct Failure {
    pub kind: ErrorKind,
    pub message: Seq<char>,
}

impl View for SrpcError {
    type V = Failure;

    open spec fn view(&self) -> Failure {
        Failure { kind: self.kind, message: self.message@ }
    }
}

/// What a received line says: its text, or what went wrong with it.
pub open spec fn line_view(item: Result<String, SrpcError>) -> Result<Seq<char>, Failure> {
    match item {
        Ok(text) => Ok(text@),
        Err(error) => Err(error@),
    }
}

/// What an item that may be there says.
pub open spec fn first_line_view(first: Option<Result<String, SrpcError>>) -> Option<
    Result<Seq<char>, Failure>,
> {
    match first {
        Some(item) => Some(line_view(item)),
        None => None,
    }
}

/// What each of `items` says, in their order.
pub open spec fn lines_view(items: Seq<Result<String, SrpcError>>) -> Seq<
    Result<Seq<char>, Failure>,
> {
    items.map_values(|item: Result<String, SrpcError>| line_view(item))
}

impl SrpcError {
    /// An error of `kind` that carries `message`.
    pub fn new(kind: ErrorKind, message: &str) -> (error: SrpcError)
        ensures
            error@ == (Failure { kind, message: message@ }),
    {
        SrpcError { kind, message: message.to_owned() }
    }

    /// An error of `kind` that carries `message`, which it takes over.
    pub fn from_message(kind: ErrorKind, message: String) -> (error: SrpcError)
        ensures
            error@ == (Failure { kind, message: message@ }),
    {
        SrpcError { kind, message }
    }

    /// An error of `kind` whose message is `prefix` followed by `detail`.
    pub fn with_detail(kind: ErrorKind, prefix: &str, detail: &str) -> (error: SrpcError)
        ensures
            error@ == (Failure { kind, message: prefix@ + detail@ }),
    {
        SrpcError { kind, message: prefix.to_owned().concat(detail) }
    }

    /// The message alone, for callers that do not tell kinds apart.
    pub fn into_custom(self) -> (custom: CustomError)
        ensures
            custom.0@ == self.message@,
    {
        CustomError(self.message)
    }

    /// The message, as an owned string.
    pub fn message(&self) -> (text: String)
        ensures
            text@ == self.message@,
    {
        self.message.clone()
    }
}

} // verus!
