//! A sans-I/O core for an SRPC client: line-oriented requests and replies,
//! sent through an HTTP CONNECT tunnel and TLS.
//!
//! Nothing here touches a socket. Every operation is a value-to-value step:
//! the caller performs the reads, writes and waits, and hands the outcome
//! back. What each step returns is stated in its contract.

pub mod call;
pub mod chunk_limiter;
pub mod client;
pub mod config;
pub mod error;
pub mod framer;
pub mod handshake;
pub mod json;
pub mod receive;
pub mod replay;
pub mod text;
pub mod tunnel;

pub use call::{
    call, check_ack, expect_reply, CheckedSend, Conn, Exchange, ExchangeStage, IoEvent,
    RequestReply, SendStage, SimpleValue, StreamValue, Todo,
};
pub use chunk_limiter::ChunkLimiter;
pub use client::ConnectedClient;
pub use config::{ClientConfig, ReceiveOptions};
pub use error::{CustomError, ErrorKind, SrpcError};
pub use framer::LineFramer;
pub use handshake::{
    advance, first_stage, tls_plan, Stage, StageResult, TlsPlan, CONNECT_TIMEOUT_MILLIS,
};
pub use tunnel::{
    connect_request, NextPoll, TunnelNegotiation, NEGOTIATION_TIMEOUT_MILLIS, POLL_BACKOFF_MILLIS,
};
pub use json::{decode_json, decode_json_item, encode_json, json_result, JsonItem, JsonReceiver};
pub use receive::{Continuation, Fixed, LineReceiver, StopAfter};
