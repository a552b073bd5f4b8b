//! The way to an established connection, stage by stage.
//!
//! A connection comes up in three stages, always in this order: the TCP
//! connection to the proxy, the tunnel through it, and TLS inside the tunnel.
//! Each stage either succeeds, which leads to the next one, or fails, which
//! ends the attempt with an error that names the stage.

use vstd::prelude::*;
use crate::config::ClientConfig;
use crate::error::{ErrorKind, Failure, SrpcError};

verus! {

/// How long the TCP connection may take to come up, in milliseconds.
pub const CONNECT_TIMEOUT_MILLIS: u64 = 10_000;

/// Where an attempt to connect stands.
#[derive(Clone, Copy, Debug, PartialEq, Eq, Structural)]
pub enum Stage {
    /// The TCP connection to the proxy is to be opened.
    TcpConnect,
    /// The proxy is to be asked for the tunnel.
    TunnelNegotiate,
    /// TLS is to be set up inside the tunnel.
    TlsHandshake,
    /// The connection stands.
    Established,
}

/// What the work of a stage came to.
#[derive(Clone, Debug, PartialEq, Eq)]
pub enum StageResult {
    Succeeded,
    /// It was not done in time.
    TimedOut,
    /// It failed, for the reason given.
    Failed(String),
}

/// What a `StageResult` says.
pub enum StageOutcome {
    Succeeded,
    TimedOut,
    Failed(Seq<char>),
}

impl View for StageResult {
    type V = StageOutcome;

    open spec fn view(&self) -> StageOutcome {
        match self {
            StageResult::Succeeded => StageOutcome::Succeeded,
            StageResult::TimedOut => StageOutcome::TimedOut,
            StageResult::Failed(detail) => StageOutcome::Failed(detail@),
        }
    }
}

/// The place of `stage` in the order of stages.
pub open spec fn rank(stage: Stage) -> nat {
    match stage {
        Stage::TcpConnect => 0,
        Stage::TunnelNegotiate => 1,
        Stage::TlsHandshake => 2,
        Stage::Established => 3,
    }
}

/// The stage that follows `stage` when its work succeeds. Nothing follows an
/// established connection.
pub open spec fn following(stage: Stage) -> Stage {
    match stage {
        Stage::TcpConnect => Stage::TunnelNegotiate,
        Stage::TunnelNegotiate => Stage::TlsHandshake,
        Stage::TlsHandshake => Stage::Established,
        Stage::Established => Stage::Established,
    }
}

/// The kind of the errors of `stage`.
pub open spec fn failure_kind(stage: Stage) -> ErrorKind {
    match stage {
        Stage::TcpConnect => ErrorKind::ConnectFailure,
        Stage::TunnelNegotiate => ErrorKind::TunnelFailure,
        Stage::TlsHandshake => ErrorKind::TlsFailure,
        Stage::Established => ErrorKind::IoFailure,
    }
}

/// The message of the error for work of `stage` that was not done in time.
pub open spec fn timeout_message(stage: Stage) -> Seq<char> {
    match stage {
        Stage::TcpConnect => "Connection attempt timed out"@,
        Stage::TunnelNegotiate => "Timeout while waiting for HTTP CONNECT response"@,
        Stage::TlsHandshake => "TLS handshake timed out"@,
        Stage::Established => "Connection timed out"@,
    }
}

/// The message of the error for work of `stage` that failed for the reason
/// that `detail` gives.
pub open spec fn failure_message(stage: Stage, detail: Seq<char>) -> Seq<char> {
    match stage {
        Stage::TcpConnect => "Failed to connect: "@ + detail,
        _ => detail,
    }
}

/// Where the attempt stands after the work of `stage` came to `outcome`: at
/// the stage that follows, or at its end, with the error of `stage`.
pub open spec fn advanced(stage: Stage, outcome: StageOutcome) -> Result<Stage, Failure> {
    match outcome {
        StageOutcome::Succeeded => Ok(following(stage)),
        StageOutcome::TimedOut => Err(
            Failure { kind: failure_kind(stage), message: timeout_message(stage) },
        ),
        StageOutcome::Failed(detail) => Err(
            Failure { kind: failure_kind(stage), message: failure_message(stage, detail) },
        ),
    }
}

/// What a result of `advance` says.
pub open spec fn advance_view(result: Result<Stage, SrpcError>) -> Result<Stage, Failure> {
    match result {
        Ok(stage) => Ok(stage),
        Err(error) => Err(error@),
    }
}

/// No stage is gone through twice, and none is left out: what follows a
/// stage stands one place further on, until the connection is established.
pub proof fn lemma_stages_in_order(stage: Stage, outcome: StageOutcome)
    ensures
        advanced(stage, outcome) matches Ok(next) ==> rank(next) >= rank(stage) && (stage
            != Stage::Established ==> rank(next) == rank(stage) + 1),
        advanced(stage, outcome) is Ok <==> outcome is Succeeded,
{
}

/// The stage in which an attempt to connect begins.
pub fn first_stage() -> (stage: Stage)
    ensures
        stage == Stage::TcpConnect,
{
    Stage::TcpConnect
}

fn kind_of(stage: Stage) -> (kind: ErrorKind)
    ensures
        kind == failure_kind(stage),
{
    match stage {
        Stage::TcpConnect => ErrorKind::ConnectFailure,
        Stage::TunnelNegotiate => ErrorKind::TunnelFailure,
        Stage::TlsHandshake => ErrorKind::TlsFailure,
        Stage::Established => ErrorKind::IoFailure,
    }
}

/// Where the attempt stands after the work of `stage` came to `result`.
pub fn advance(stage: Stage, result: StageResult) -> (next: Result<Stage, SrpcError>)
    ensures
        advance_view(next) == advanced(stage, result@),
{
    match result {
        StageResult::Succeeded => Ok(
            match stage {
                Stage::TcpConnect => Stage::TunnelNegotiate,
                Stage::TunnelNegotiate => Stage::TlsHandshake,
                Stage::TlsHandshake => Stage::Established,
                Stage::Established => Stage::Established,
            },
        ),
        StageResult::TimedOut => {
            let message = match stage {
                Stage::TcpConnect => "Connection attempt timed out",
                Stage::TunnelNegotiate => "Timeout while waiting for HTTP CONNECT response",
                Stage::TlsHandshake => "TLS handshake timed out",
                Stage::Established => "Connection timed out",
            };
            Err(SrpcError::new(kind_of(stage), message))
        },
        StageResult::Failed(detail) => {
            let prefix = match stage {
                Stage::TcpConnect => "Failed to connect: ",
                _ => "",
            };
            proof {
                reveal_strlit("");
                assert(""@ + detail@ =~= detail@);
            }
            Err(SrpcError::with_detail(kind_of(stage), prefix, detail.as_str()))
        },
    }
}

/// How TLS is set up.
#[derive(Clone, Debug, PartialEq, Eq)]
pub struct TlsPlan {
    /// Whether the certificate of the peer is verified.
    pub verify_peer: bool,
    /// The files of the certificate and of the key that the client presents,
    /// if it presents any.
    pub identity: Option<(String, String)>,
}

/// What a `TlsPlan` says.
pub struct TlsSetup {
    pub verify_peer: bool,
    pub identity: Option<(Seq<char>, Seq<char>)>,
}

impl View for TlsPlan {
    type V = TlsSetup;

    open spec fn view(&self) -> TlsSetup {
        TlsSetup {
            verify_peer: self.verify_peer,
            identity: match self.identity {
                Some((cert, key)) => Some((cert@, key@)),
                None => None,
            },
        }
    }
}

/// How TLS is set up for `config`: the peer's certificate is not verified,
/// and the client presents its own when both its certificate and its key are
/// named.
pub fn tls_plan(config: &ClientConfig) -> (plan: TlsPlan)
    ensures
        plan@ == (TlsSetup {
            verify_peer: false,
            identity: if config@.cert.len() > 0 && config@.key.len() > 0 {
                Some((config@.cert, config@.key))
            } else {
                None
            },
        }),
{
    let identity = if !config.cert().is_empty() && !config.key().is_empty() {
        Some((config.cert().to_owned(), config.key().to_owned()))
    } else {
        None
    };
    TlsPlan { verify_peer: false, identity }
}

} // verus!
