//! Asking an HTTP proxy for a tunnel.
//!
//! The client sends one CONNECT request and collects what the proxy answers,
//! in as many reads as it takes, until the blank line that ends the answer is
//! there, the proxy stops sending, or time is up. The tunnel stands if the
//! answer begins with a 200 status line.

use vstd::prelude::*;
use vstd::utf8::*;
use crate::error::{ErrorKind, Failure, SrpcError};

verus! {

/// How long the proxy's answer is waited for, in milliseconds.
pub const NEGOTIATION_TIMEOUT_MILLIS: u64 = 10_000;

/// How long to sleep before the next read when one brought nothing, in
/// milliseconds.
pub const POLL_BACKOFF_MILLIS: u64 = 10;

/// The text of the request for a tunnel to `path`.
pub open spec fn connect_request_text(path: Seq<char>) -> Seq<char> {
    "CONNECT "@ + path + " HTTP/1.0\r\n\r\n"@
}

/// The request for a tunnel to `path`.
pub fn connect_request(path: &str) -> (request: String)
    ensures
        request@ == connect_request_text(path@),
{
    "CONNECT ".to_owned().concat(path).concat(" HTTP/1.0\r\n\r\n")
}

/// `pattern` stands in `bytes` at position `at`.
pub open spec fn holds_at(bytes: Seq<u8>, pattern: Seq<u8>, at: int) -> bool {
    0 <= at && at + pattern.len() <= bytes.len() && bytes.subrange(at, at + pattern.len())
        == pattern
}

/// The blank line that ends the header of an answer.
pub open spec fn header_end() -> Seq<u8> {
    seq![0x0du8, 0x0au8, 0x0du8, 0x0au8]
}

/// `bytes` holds the end of a header.
pub open spec fn header_complete(bytes: Seq<u8>) -> bool {
    exists|at: int| holds_at(bytes, header_end(), at)
}

/// `response` begins with a status line that grants the tunnel.
pub open spec fn tunnel_granted(response: Seq<u8>) -> bool {
    ||| holds_at(response, encode_utf8("HTTP/1.0 200"@), 0)
    ||| holds_at(response, encode_utf8("HTTP/1.1 200"@), 0)
}

/// `bytes` as text, with a replacement character where it is not UTF-8.
pub uninterp spec fn lossy_text(bytes: Seq<u8>) -> Seq<char>;

/// `String::from_utf8_lossy` of std: the text of `bytes`, the same for the
/// same bytes, and, where they are UTF-8, the text that they encode.
#[verifier::external_body]
fn text_lossy(bytes: &[u8]) -> (text: String)
    ensures
        text@ == lossy_text(bytes@),
        valid_utf8(bytes@) ==> text@ == decode_utf8(bytes@),
{
    String::from_utf8_lossy(bytes).into_owned()
}

/// What has come of the proxy's answer.
pub struct Negotiating {
    /// The bytes of the answer that have arrived.
    pub response: Seq<u8>,
    /// The proxy has stopped sending: after some bytes, a read brought
    /// nothing.
    pub closed: bool,
}

/// The answer in `state` is as complete as it gets: its header has ended, or
/// the proxy has stopped sending.
pub open spec fn concluded(state: Negotiating) -> bool {
    header_complete(state.response) || state.closed
}

/// What the proxy's answer comes to: nothing when it is concluded and grants
/// the tunnel, and otherwise the failure, which says that no answer came or
/// quotes the answer that did. An answer that time ran out on fails even if
/// it began well.
pub open spec fn verdict(state: Negotiating) -> Result<(), Failure> {
    if state.response.len() == 0 {
        Err(
            Failure {
                kind: ErrorKind::TunnelFailure,
                message: "Timeout while waiting for HTTP CONNECT response"@,
            },
        )
    } else if concluded(state) && tunnel_granted(state.response) {
        Ok(())
    } else {
        Err(
            Failure {
                kind: ErrorKind::TunnelFailure,
                message: "Unexpected HTTP response: "@ + lossy_text(state.response),
            },
        )
    }
}

/// What a `Result` of this module says.
pub open spec fn outcome_view(outcome: Result<(), SrpcError>) -> Result<(), Failure> {
    match outcome {
        Ok(()) => Ok(()),
        Err(error) => Err(error@),
    }
}

/// Whether `pattern` stands in `bytes` at position `at`.
fn matches_at(bytes: &[u8], pattern: &[u8], at: usize) -> (found: bool)
    ensures
        found == holds_at(bytes@, pattern@, at as int),
{
    let n = pattern.len();
    if at > bytes.len() || bytes.len() - at < n {
        return false;
    }
    let mut i: usize = 0;
    while i < n
        invariant
            i <= n,
            n == pattern@.len(),
            at + n <= bytes@.len() <= usize::MAX,
            forall|j: int| 0 <= j < i ==> bytes@[at + j] == pattern@[j],
        decreases n - i,
    {
        if bytes[at + i] != pattern[i] {
            assert(bytes@.subrange(at as int, at + n)[i as int] != pattern@[i as int]);
            return false;
        }
        i += 1;
    }
    assert(bytes@.subrange(at as int, at + n) =~= pattern@);
    true
}

/// Whether `bytes` holds the end of a header.
fn has_header_end(bytes: &[u8]) -> (found: bool)
    ensures
        found == header_complete(bytes@),
{
    let pattern: [u8; 4] = [0x0d, 0x0a, 0x0d, 0x0a];
    assert(pattern@ =~= header_end());
    let n = bytes.len();
    let mut at: usize = 0;
    while at < n
        invariant
            at <= n,
            n == bytes@.len(),
            pattern@ == header_end(),
            forall|k: int| 0 <= k < at ==> !holds_at(bytes@, header_end(), k),
        decreases n - at,
    {
        if matches_at(bytes, pattern.as_slice(), at) {
            return true;
        }
        at += 1;
    }
    assert forall|k: int| !holds_at(bytes@, header_end(), k) by {
        if k >= n {
            assert(header_end().len() == 4);
        }
    }
    false
}

/// What to do after a read.
#[derive(Clone, Copy, Debug, PartialEq, Eq, Structural)]
pub enum NextPoll {
    /// Read again at once.
    Again,
    /// Sleep for the backoff, then read again.
    Backoff,
    /// Stop reading and look at the answer.
    Conclude,
}

/// The negotiation of one tunnel, as far as it has come.
pub struct TunnelNegotiation {
    response: Vec<u8>,
    closed: bool,
}

impl View for TunnelNegotiation {
    type V = Negotiating;

    closed spec fn view(&self) -> Negotiating {
        Negotiating { response: self.response@, closed: self.closed }
    }
}

/// What follows a read that brought `chunk` in `state`: with nothing new, a
/// sleep while there is no answer yet, and the end when there is one; with
/// new bytes, the end once the header is complete.
pub open spec fn after_read(state: Negotiating, chunk: Seq<u8>) -> NextPoll {
    if chunk.len() == 0 {
        if state.response.len() == 0 {
            NextPoll::Backoff
        } else {
            NextPoll::Conclude
        }
    } else if header_complete(state.response + chunk) {
        NextPoll::Conclude
    } else {
        NextPoll::Again
    }
}

/// The state after a read that brought `chunk` in `state`: the bytes are
/// part of the answer, and a read that brought nothing after some bytes had
/// come shows that the proxy has stopped sending.
pub open spec fn fed(state: Negotiating, chunk: Seq<u8>) -> Negotiating {
    Negotiating {
        response: state.response + chunk,
        closed: state.closed || (chunk.len() == 0 && state.response.len() > 0),
    }
}

/// Reading ends exactly when the answer is concluded.
pub proof fn lemma_reading_ends_when_concluded(state: Negotiating, chunk: Seq<u8>)
    requires
        !concluded(state),
    ensures
        after_read(state, chunk) == NextPoll::Conclude <==> concluded(fed(state, chunk)),
{
    if chunk.len() == 0 {
        assert(state.response + chunk =~= state.response);
    }
}

impl TunnelNegotiation {
    /// A negotiation in which no answer has arrived.
    pub fn new() -> (negotiation: TunnelNegotiation)
        ensures
            negotiation@ == (Negotiating { response: Seq::<u8>::empty(), closed: false }),
    {
        TunnelNegotiation { response: Vec::new(), closed: false }
    }

    /// Whether another read is due when `elapsed_millis` have passed since
    /// the request was sent.
    pub fn keeps_polling(&self, elapsed_millis: u64) -> (keep: bool)
        ensures
            keep == (elapsed_millis < NEGOTIATION_TIMEOUT_MILLIS),
    {
        elapsed_millis < NEGOTIATION_TIMEOUT_MILLIS
    }

    /// Takes in what a read brought, and says what follows.
    pub fn on_read(&mut self, chunk: &[u8]) -> (next: NextPoll)
        ensures
            final(self)@ == fed(old(self)@, chunk@),
            next == after_read(old(self)@, chunk@),
    {
        if chunk.len() == 0 {
            assert(self.response@ + chunk@ =~= self.response@);
            if self.response.len() == 0 {
                NextPoll::Backoff
            } else {
                self.closed = true;
                NextPoll::Conclude
            }
        } else {
            self.response.extend_from_slice(chunk);
            assert(self.response@ == old(self).response@ + chunk@);
            if has_header_end(self.response.as_slice()) {
                NextPoll::Conclude
            } else {
                NextPoll::Again
            }
        }
    }

    /// What follows a read that would have had to wait: a sleep.
    pub fn on_would_block(&self) -> (next: NextPoll)
        ensures
            next == NextPoll::Backoff,
    {
        NextPoll::Backoff
    }

    /// The failure for a read that failed, for the reason that `detail`
    /// gives.
    pub fn on_read_error(&self, detail: &str) -> (error: SrpcError)
        ensures
            error@ == (Failure {
                kind: ErrorKind::TunnelFailure,
                message: "Error reading HTTP CONNECT response: "@ + detail@,
            }),
    {
        SrpcError::with_detail(
            ErrorKind::TunnelFailure,
            "Error reading HTTP CONNECT response: ",
            detail,
        )
    }

    /// Looks at the answer as far as it has arrived.
    pub fn conclude(&self) -> (outcome: Result<(), SrpcError>)
        ensures
            outcome_view(outcome) == verdict(self@),
    {
        let response = self.response.as_slice();
        if response.len() == 0 {
            Err(
                SrpcError::new(
                    ErrorKind::TunnelFailure,
                    "Timeout while waiting for HTTP CONNECT response",
                ),
            )
        } else if (self.closed || has_header_end(response)) && (matches_at(
            response,
            "HTTP/1.0 200".as_bytes(),
            0,
        ) || matches_at(response, "HTTP/1.1 200".as_bytes(), 0)) {
            Ok(())
        } else {
            let quoted = text_lossy(response);
            Err(
                SrpcError::with_detail(
                    ErrorKind::TunnelFailure,
                    "Unexpected HTTP response: ",
                    quoted.as_str(),
                ),
            )
        }
    }
}

} // verus!
