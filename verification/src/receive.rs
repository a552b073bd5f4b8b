//! Receiving lines: what is handed on, and when reading stops.
//!
//! A `LineReceiver` is fed what each read of the stream brought and is asked
//! for the items that are due. It reads no stream itself. After every line
//! that it hands on, it is told whether another one is to be read: by the
//! caller, who has looked at the line, or by a `Continuation` that is asked
//! on the spot.

use vstd::prelude::*;
use crate::config::ReceiveOptions;
use crate::error::{first_line_view, line_view, lines_view, ErrorKind, Failure, SrpcError};
use crate::framer::{
    complete_lines, decoded, last_frame, lemma_frame_is_first_line, next_frame, open_line,
    LineFramer,
};

verus! {

/// Decides after each line whether reading goes on. The decision may depend
/// on the line and on what was decided before.
pub trait Continuation: Sized {
    /// Whether reading goes on after `line`.
    spec fn keeps_reading(&self, line: Seq<char>) -> bool;

    /// The predicate after it has decided on `line`.
    spec fn advanced(&self, line: Seq<char>) -> Self;

    /// Decides on `line`.
    fn should_continue(&mut self, line: &str) -> (keep: bool)
        ensures
            keep == old(self).keeps_reading(line@),
            *final(self) == old(self).advanced(line@),
    ;
}

/// The same decision after every line: `Fixed(false)` reads one line,
/// `Fixed(true)` reads until the stream ends.
#[derive(Clone, Copy, Debug, PartialEq, Eq, Structural)]
pub struct Fixed(pub bool);

impl Continuation for Fixed {
    open spec fn keeps_reading(&self, line: Seq<char>) -> bool {
        self.0
    }

    open spec fn advanced(&self, line: Seq<char>) -> Self {
        *self
    }

    fn should_continue(&mut self, line: &str) -> (keep: bool) {
        self.0
    }
}

/// Stops after a number of lines.
#[derive(Clone, Copy, Debug)]
pub struct StopAfter {
    left: usize,
}

impl StopAfter {
    /// A predicate that stops after `count` lines; after the first one when
    /// `count` is 0, as no line can be taken back.
    pub fn new(count: usize) -> (predicate: StopAfter)
        ensures
            predicate.left() == count,
    {
        StopAfter { left: count }
    }

    /// How many lines are still to come, the next one included.
    pub closed spec fn left(&self) -> usize {
        self.left
    }
}

impl Continuation for StopAfter {
    open spec fn keeps_reading(&self, line: Seq<char>) -> bool {
        self.left() > 1
    }

    closed spec fn advanced(&self, line: Seq<char>) -> Self {
        if self.left > 1 {
            StopAfter { left: (self.left - 1) as usize }
        } else {
            *self
        }
    }

    fn should_continue(&mut self, line: &str) -> (keep: bool) {
        if self.left > 1 {
            self.left = self.left - 1;
            true
        } else {
            false
        }
    }
}

/// A `StopAfter` counts down by one for each line that it lets pass.
pub proof fn lemma_stop_after_counts_down(predicate: StopAfter, line: Seq<char>)
    ensures
        predicate.left() > 1 ==> predicate.advanced(line).left() == predicate.left() - 1,
        predicate.left() <= 1 ==> predicate.advanced(line) == predicate,
{
}

/// How a string is written between quotes, with what needs it escaped, by
/// the `Debug` formatting of std.
pub uninterp spec fn debug_quoted(text: Seq<char>) -> Seq<char>;

/// `format!` with `{:?}` on a string, which is its `Debug` formatting by std:
/// the same text for the same string.
#[verifier::external_body]
fn quote(text: &str) -> (quoted: String)
    ensures
        quoted@ == debug_quoted(text@),
{
    format!("{:?}", text)
}

/// The message of the error for a line that had to be empty and holds `text`.
pub open spec fn unexpected_line_message(text: Seq<char>) -> Seq<char> {
    "Expected empty line, got: "@ + debug_quoted(text)
}

/// What is handed on for the raw line `raw`: what it decodes to, or, where an
/// empty line is expected and another one came, the protocol violation that
/// shows it.
pub open spec fn judged(raw: Seq<u8>, expect_empty: bool) -> Result<Seq<char>, Failure> {
    match decoded(raw) {
        Ok(text) => if expect_empty && text.len() > 0 {
            Err(
                Failure {
                    kind: ErrorKind::ProtocolViolation,
                    message: unexpected_line_message(text),
                },
            )
        } else {
            Ok(text)
        },
        Err(failure) => Err(failure),
    }
}

/// The state of a `LineReceiver`.
pub struct Reading {
    /// The bytes that were read and not yet handed on.
    pub pending: Seq<u8>,
    /// The stream has ended.
    pub ended: bool,
    /// Nothing more will be handed on.
    pub done: bool,
    /// A line was handed on, and whether reading goes on after it is still
    /// to be decided.
    pub deciding: bool,
    /// Every line must be empty.
    pub expect_empty: bool,
    /// A wait that ran out is followed by another.
    pub continue_on_timeout: bool,
    /// The most bytes that one read may take from the stream.
    pub max_chunk_size: usize,
}

/// The state before anything was read: in acknowledgment mode a read takes
/// one byte, so that nothing is taken that follows the acknowledgment.
pub open spec fn initial(expect_empty: bool, max_chunk_size: usize, continue_on_timeout: bool)
    -> Reading {
    Reading {
        pending: Seq::empty(),
        ended: false,
        done: false,
        deciding: false,
        expect_empty,
        continue_on_timeout,
        max_chunk_size: if expect_empty {
            1
        } else {
            max_chunk_size
        },
    }
}

/// The raw line that is due in `state` and the bytes that stay behind it:
/// the first complete line, or, once the stream has ended, what is left.
/// None is due once reading is done, or while a decision is open.
pub open spec fn frame_due(state: Reading) -> Option<(Seq<u8>, Seq<u8>)> {
    if state.done || state.deciding {
        None
    } else if next_frame(state.pending) is Some {
        next_frame(state.pending)
    } else if state.ended && last_frame(state.pending) is Some {
        Some((last_frame(state.pending)->0, Seq::empty()))
    } else {
        None
    }
}

/// The state after a read in `state` brought `chunk`. A read that brought
/// nothing is the end of the stream. After the end, or once reading is done,
/// nothing is taken in.
pub open spec fn after_read(state: Reading, chunk: Seq<u8>) -> Reading {
    if state.done || state.ended {
        state
    } else if chunk.len() == 0 {
        Reading { ended: true, ..state }
    } else {
        Reading { pending: state.pending + chunk, ..state }
    }
}

/// The state after the wait for the next line ran out in `state`: reading is
/// done unless another wait is to follow.
pub open spec fn after_timeout(state: Reading) -> Reading {
    Reading { done: state.done || !state.continue_on_timeout, ..state }
}

/// The result of asking for one item.
pub struct Handing {
    /// What is handed on, if anything is due.
    pub item: Option<Result<Seq<char>, Failure>>,
    pub state: Reading,
}

/// Asking for one item in `state`. A line that is due is handed on, and the
/// decision on what follows it is open; an error in its place is handed on,
/// and reading is done. When none is due, reading is done if the stream has
/// ended and no decision is open.
pub open spec fn handed_on(state: Reading) -> Handing {
    match frame_due(state) {
        Some((raw, rest)) => match judged(raw, state.expect_empty) {
            Ok(text) => Handing {
                item: Some(Ok(text)),
                state: Reading { pending: rest, deciding: true, ..state },
            },
            Err(failure) => Handing {
                item: Some(Err(failure)),
                state: Reading { pending: rest, done: true, ..state },
            },
        },
        None => Handing {
            item: None,
            state: Reading { done: state.done || (state.ended && !state.deciding), ..state },
        },
    }
}

/// The state after the decision that is open in `state` has been taken:
/// reading is done unless it is to go on.
pub open spec fn decided(state: Reading, keep: bool) -> Reading {
    if state.deciding {
        Reading { deciding: false, done: state.done || !keep, ..state }
    } else {
        state
    }
}

/// The result of asking for one item and having a predicate decide.
pub struct Step<P> {
    /// What is handed on, if anything is due.
    pub item: Option<Result<Seq<char>, Failure>>,
    pub state: Reading,
    pub predicate: P,
}

/// Asking for one item in `state` and, when it is a line, having `predicate`
/// decide on the spot whether reading goes on.
pub open spec fn step<P: Continuation>(state: Reading, predicate: P) -> Step<P> {
    let handed = handed_on(state);
    match handed.item {
        Some(Ok(text)) => Step {
            item: handed.item,
            state: decided(handed.state, predicate.keeps_reading(text)),
            predicate: predicate.advanced(text),
        },
        _ => Step { item: handed.item, state: handed.state, predicate },
    }
}

/// The result of asking for items until none is due.
pub struct Run<P> {
    /// What was handed on, in order.
    pub items: Seq<Result<Seq<char>, Failure>>,
    pub state: Reading,
    pub predicate: P,
}

/// Asking for items in `state` until none is due.
pub open spec fn run<P: Continuation>(state: Reading, predicate: P) -> Run<P>
    decreases state.pending.len(),
    via run_decreases::<P>
{
    let first = step(state, predicate);
    match first.item {
        Some(item) => {
            let rest = run(first.state, first.predicate);
            Run { items: seq![item] + rest.items, state: rest.state, predicate: rest.predicate }
        },
        None => Run { items: Seq::empty(), state: first.state, predicate: first.predicate },
    }
}

#[via_fn]
proof fn run_decreases<P: Continuation>(state: Reading, predicate: P) {
    lemma_step_consumes(state, predicate);
}

/// A step that hands on an item leaves fewer bytes pending.
pub proof fn lemma_step_consumes<P: Continuation>(state: Reading, predicate: P)
    ensures
        step(state, predicate).item is Some ==> step(state, predicate).state.pending.len()
            < state.pending.len(),
{
    if step(state, predicate).item is Some {
        crate::framer::lemma_first_newline(state.pending);
    }
}

/// The raw lines that can become due in a state with `pending` bytes: the
/// complete lines, and, once the stream has ended, what it closes.
pub open spec fn due_lines(pending: Seq<u8>, ended: bool) -> Seq<Seq<u8>> {
    if ended && last_frame(open_line(pending)) is Some {
        complete_lines(pending).push(last_frame(open_line(pending))->0)
    } else {
        complete_lines(pending)
    }
}

/// Whatever the predicate decides, the items that are handed on are the
/// lines that were received, from the first one on, each in its place and
/// none left out.
pub proof fn lemma_items_are_leading_lines<P: Continuation>(state: Reading, predicate: P)
    ensures
        run(state, predicate).items.len() <= due_lines(state.pending, state.ended).len(),
        forall|i: int|
            0 <= i < run(state, predicate).items.len() ==> #[trigger] run(
                state,
                predicate,
            ).items[i] == judged(due_lines(state.pending, state.ended)[i], state.expect_empty),
    decreases state.pending.len(),
{
    let first = step(state, predicate);
    let lines = due_lines(state.pending, state.ended);
    lemma_frame_is_first_line(state.pending);
    if let Some(item) = first.item {
        lemma_step_consumes(state, predicate);
        let others = run(first.state, first.predicate);
        let (raw, rest) = frame_due(state)->0;
        lemma_items_are_leading_lines(first.state, first.predicate);
        let later = due_lines(rest, state.ended);
        assert(lines =~= seq![raw] + later) by {
            if next_frame(state.pending) is Some {
                assert(open_line(state.pending) == open_line(rest));
            } else {
                assert(rest.len() == 0);
                assert(open_line(rest) =~= rest);
                assert(complete_lines(rest) =~= Seq::<Seq<u8>>::empty());
                assert(last_frame(rest) is None);
            }
        }
        assert(first.state.pending == rest);
        assert(first.state.ended == state.ended);
        assert(first.state.expect_empty == state.expect_empty);
        assert forall|i: int| 0 <= i < run(state, predicate).items.len() implies #[trigger] run(
            state,
            predicate,
        ).items[i] == judged(lines[i], state.expect_empty) by {
            if i > 0 {
                assert(run(state, predicate).items[i] == others.items[i - 1]);
                assert(lines[i] == later[i - 1]);
            }
        }
    }
}

/// Once reading is done, nothing is handed on.
pub proof fn lemma_done_hands_on_nothing<P: Continuation>(state: Reading, predicate: P)
    requires
        state.done,
    ensures
        run(state, predicate).items == Seq::<Result<Seq<char>, Failure>>::empty(),
        run(state, predicate).state == state,
        run(state, predicate).predicate == predicate,
{
}

/// Under a predicate that lets no line pass, exactly one item is handed on
/// when a line is due, whatever follows that line: the line itself, or the
/// error in its place.
pub proof fn lemma_one_shot(state: Reading)
    requires
        frame_due(state) is Some,
    ensures
        frame_due(state) matches Some((raw, rest)) && run(state, Fixed(false)).items == seq![
            judged(raw, state.expect_empty),
        ],
        run(state, Fixed(false)).state.done,
{
    let first = step(state, Fixed(false));
    lemma_step_consumes(state, Fixed(false));
    lemma_done_hands_on_nothing(first.state, first.predicate);
    assert(run(state, Fixed(false)).items =~= seq![first.item->0]);
}

/// A predicate that stops after `count` lines hands on exactly `count`
/// items when that many lines are there and none of them is in error,
/// however many lines follow them: the first `count` lines, in order.
pub proof fn lemma_stop_after_yields_count(state: Reading, predicate: StopAfter, count: nat)
    requires
        !state.done,
        !state.deciding,
        count >= 1,
        predicate.left() == count,
        complete_lines(state.pending).len() >= count,
        forall|i: int|
            0 <= i < count ==> judged(
                #[trigger] complete_lines(state.pending)[i],
                state.expect_empty,
            ) is Ok,
    ensures
        run(state, predicate).items.len() == count,
        forall|i: int|
            0 <= i < count ==> #[trigger] run(state, predicate).items[i] == judged(
                complete_lines(state.pending)[i],
                state.expect_empty,
            ),
        run(state, predicate).state.done,
    decreases count,
{
    let lines = complete_lines(state.pending);
    lemma_frame_is_first_line(state.pending);
    let (raw, rest) = next_frame(state.pending)->0;
    assert(lines[0] == raw);
    assert(judged(raw, state.expect_empty) is Ok);
    let text = judged(raw, state.expect_empty)->Ok_0;
    let first = step(state, predicate);
    assert(first.item == Some(judged(raw, state.expect_empty)));
    lemma_stop_after_counts_down(predicate, text);
    let whole = run(state, predicate);
    let others = run(first.state, first.predicate);
    assert(whole.items == seq![first.item->0] + others.items);
    if count == 1 {
        lemma_done_hands_on_nothing(first.state, first.predicate);
    } else {
        assert(complete_lines(rest) =~= lines.drop_first());
        assert forall|i: int| 0 <= i < count - 1 implies judged(
            #[trigger] complete_lines(rest)[i],
            first.state.expect_empty,
        ) is Ok by {
            assert(complete_lines(rest)[i] == lines[i + 1]);
        }
        lemma_stop_after_yields_count(first.state, first.predicate, (count - 1) as nat);
        assert forall|i: int| 0 <= i < count implies #[trigger] whole.items[i] == judged(
            lines[i],
            state.expect_empty,
        ) by {
            if i > 0 {
                assert(whole.items[i] == others.items[i - 1]);
                assert(complete_lines(rest)[i - 1] == lines[i]);
            }
        }
    }
}

/// Turns the bytes that reads bring into the items of one receive operation.
pub struct LineReceiver {
    framer: LineFramer,
    ended: bool,
    done: bool,
    deciding: bool,
    expect_empty: bool,
    continue_on_timeout: bool,
    max_chunk_size: usize,
}

impl View for LineReceiver {
    type V = Reading;

    closed spec fn view(&self) -> Reading {
        Reading {
            pending: self.framer@,
            ended: self.ended,
            done: self.done,
            deciding: self.deciding,
            expect_empty: self.expect_empty,
            continue_on_timeout: self.continue_on_timeout,
            max_chunk_size: self.max_chunk_size,
        }
    }
}

impl LineReceiver {
    /// A receiver that has read nothing. With `expect_empty` every line must
    /// be empty, and reads are held to one byte.
    pub fn new(expect_empty: bool, options: &ReceiveOptions) -> (receiver: LineReceiver)
        ensures
            receiver@ == initial(
                expect_empty,
                options@.max_chunk_size,
                options@.should_continue_on_timeout,
            ),
    {
        LineReceiver {
            framer: LineFramer::new(),
            ended: false,
            done: false,
            deciding: false,
            expect_empty,
            continue_on_timeout: options.should_continue_on_timeout(),
            max_chunk_size: if expect_empty {
                1
            } else {
                options.max_chunk_size()
            },
        }
    }

    /// The most bytes that one read may take from the stream.
    pub fn max_chunk_size(&self) -> (size: usize)
        ensures
            size == self@.max_chunk_size,
    {
        self.max_chunk_size
    }

    /// Whether nothing more will be handed on.
    pub fn is_done(&self) -> (done: bool)
        ensures
            done == self@.done,
    {
        self.done
    }

    /// Whether a line was handed on and the decision on what follows it is
    /// still open.
    pub fn is_deciding(&self) -> (deciding: bool)
        ensures
            deciding == self@.deciding,
    {
        self.deciding
    }

    /// Takes in what one read brought. A read that brought nothing is the
    /// end of the stream. After the end, or once reading is done, nothing is
    /// taken in.
    pub fn on_read(&mut self, chunk: &[u8])
        ensures
            final(self)@ == after_read(old(self)@, chunk@),
    {
        if self.done || self.ended {
        } else if chunk.len() == 0 {
            self.ended = true;
        } else {
            self.framer.push(chunk);
        }
    }

    /// Takes note that the wait for the next line ran out: reading is done
    /// unless another wait is to follow.
    pub fn on_timeout(&mut self)
        ensures
            final(self)@ == after_timeout(old(self)@),
    {
        if !self.continue_on_timeout {
            self.done = true;
        }
    }

    /// Takes note that a read failed, for the reason that `detail` gives:
    /// reading is done, and the error that is returned is the last item.
    pub fn on_read_error(&mut self, detail: &str) -> (error: SrpcError)
        ensures
            error@ == (Failure { kind: ErrorKind::IoFailure, message: detail@ }),
            final(self)@ == (Reading { done: true, ..old(self)@ }),
    {
        self.done = true;
        SrpcError::new(ErrorKind::IoFailure, detail)
    }

    /// Takes note that nobody takes the items any more: reading is done.
    pub fn abandon(&mut self)
        ensures
            final(self)@ == (Reading { done: true, ..old(self)@ }),
    {
        self.done = true;
    }

    /// Hands on the item that is due, if there is one. After a line, nothing
    /// more is due until `decide` has been told whether reading goes on.
    pub fn next_item(&mut self) -> (item: Option<Result<String, SrpcError>>)
        ensures
            first_line_view(item) == handed_on(old(self)@).item,
            final(self)@ == handed_on(old(self)@).state,
    {
        if self.done || self.deciding {
            return None;
        }
        let framed = if self.ended {
            self.framer.finish()
        } else {
            self.framer.next_line()
        };
        match framed {
            None => {
                if self.ended {
                    self.done = true;
                }
                None
            },
            Some(Err(error)) => {
                self.done = true;
                Some(Err(error))
            },
            Some(Ok(line)) => {
                if self.expect_empty && !line.as_str().is_empty() {
                    self.done = true;
                    let quoted = quote(line.as_str());
                    Some(
                        Err(
                            SrpcError::with_detail(
                                ErrorKind::ProtocolViolation,
                                "Expected empty line, got: ",
                                quoted.as_str(),
                            ),
                        ),
                    )
                } else {
                    self.deciding = true;
                    Some(Ok(line))
                }
            },
        }
    }

    /// Takes the decision on the line that was handed on last: reading goes
    /// on if `keep` says so, and is done otherwise. Without an open decision
    /// nothing changes.
    pub fn decide(&mut self, keep: bool)
        ensures
            final(self)@ == decided(old(self)@, keep),
    {
        if self.deciding {
            self.deciding = false;
            if !keep {
                self.done = true;
            }
        }
    }

    /// Hands on the item that is due, if there is one, and has `predicate`
    /// decide about a line that it hands on.
    pub fn poll_item<P: Continuation>(&mut self, predicate: &mut P) -> (item: Option<
        Result<String, SrpcError>,
    >)
        ensures
            first_line_view(item) == step(old(self)@, *old(predicate)).item,
            final(self)@ == step(old(self)@, *old(predicate)).state,
            *final(predicate) == step(old(self)@, *old(predicate)).predicate,
    {
        let item = self.next_item();
        if let Some(Ok(line)) = &item {
            let keep = predicate.should_continue(line.as_str());
            self.decide(keep);
        }
        item
    }

    /// Hands on every item that is due.
    pub fn drain<P: Continuation>(&mut self, predicate: &mut P) -> (items: Vec<
        Result<String, SrpcError>,
    >)
        ensures
            lines_view(items@) == run(old(self)@, *old(predicate)).items,
            final(self)@ == run(old(self)@, *old(predicate)).state,
            *final(predicate) == run(old(self)@, *old(predicate)).predicate,
    {
        let mut items: Vec<Result<String, SrpcError>> = Vec::new();
        let ghost whole = run(self@, *predicate);
        assert(lines_view(items@) =~= Seq::empty());
        loop
            invariant
                whole.items == lines_view(items@) + run(self@, *predicate).items,
                whole.state == run(self@, *predicate).state,
                whole.predicate == run(self@, *predicate).predicate,
            ensures
                whole.items == lines_view(items@),
                whole.state == self@,
                whole.predicate == *predicate,
            decreases self@.pending.len(),
        {
            let ghost before = self@;
            let ghost asked = *predicate;
            proof {
                lemma_step_consumes(before, asked);
            }
            match self.poll_item(predicate) {
                Some(item) => {
                    let ghost collected = lines_view(items@);
                    items.push(item);
                    assert(lines_view(items@) =~= collected + seq![line_view(item)]);
                    assert(whole.items =~= lines_view(items@) + run(self@, *predicate).items);
                },
                None => {
                    assert(whole.items =~= lines_view(items@));
                    break ;
                },
            }
        }
        items
    }
}

} // verus!
