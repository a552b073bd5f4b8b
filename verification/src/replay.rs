//! Receiving from bytes that are already there.
//!
//! A receiver can be run over bytes in memory as it would be run over a
//! stream: it reads them through a chunk limiter, as many at a time as it
//! allows, and hands on the items as they become due. What comes of it
//! depends on the bytes only, not on how many each read brings; and a
//! receiver that reads single bytes takes nothing from the source that
//! follows the end of the last line it handed on.

use vstd::prelude::*;
use crate::chunk_limiter::{chunk_len, ChunkLimiter};
use crate::error::{lines_view, Failure, SrpcError};
use crate::framer::{
    first_newline, has_newline, lemma_first_newline, lemma_frame_is_first_line,
    lemma_frame_with_tail, next_frame, NEWLINE,
};
use crate::receive::{
    after_read, frame_due, lemma_step_consumes, run, step, Continuation, LineReceiver, Reading,
};

verus! {

/// The result of receiving from bytes in memory.
pub struct Received<P> {
    /// What was handed on, in order.
    pub items: Seq<Result<Seq<char>, Failure>>,
    pub state: Reading,
    pub predicate: P,
    /// The bytes of the source that were not read.
    pub unread: Seq<u8>,
}

/// Receiving in `state` from `source`, by reads that are offered `room`
/// bytes: the items that are due are handed on, then one read is taken in,
/// and so on until reading is done or a decision is left open. A read that
/// brings nothing, as every read does once the source is used up, is the end
/// of the stream.
pub open spec fn received<P: Continuation>(
    state: Reading,
    predicate: P,
    source: Seq<u8>,
    room: usize,
) -> Received<P>
    decreases source.len(), (if state.ended {
        0nat
    } else {
        1nat
    }),
    via received_decreases::<P>
{
    let drained = run(state, predicate);
    if drained.state.done || drained.state.deciding {
        Received {
            items: drained.items,
            state: drained.state,
            predicate: drained.predicate,
            unread: source,
        }
    } else {
        let n = chunk_len(source.len(), state.max_chunk_size, room) as int;
        let later = received(
            after_read(drained.state, source.take(n)),
            drained.predicate,
            source.skip(n),
            room,
        );
        Received {
            items: drained.items + later.items,
            state: later.state,
            predicate: later.predicate,
            unread: later.unread,
        }
    }
}

#[via_fn]
proof fn received_decreases<P: Continuation>(
    state: Reading,
    predicate: P,
    source: Seq<u8>,
    room: usize,
) {
    lemma_run_ends(state, predicate);
}

/// Handing on changes neither how the receiver reads nor whether the stream
/// has ended, and where it stops nothing is due; once the stream has ended,
/// it stops only when reading is done or a decision is open.
pub proof fn lemma_run_ends<P: Continuation>(state: Reading, predicate: P)
    ensures
        run(state, predicate).state.ended == state.ended,
        run(state, predicate).state.expect_empty == state.expect_empty,
        run(state, predicate).state.continue_on_timeout == state.continue_on_timeout,
        run(state, predicate).state.max_chunk_size == state.max_chunk_size,
        frame_due(run(state, predicate).state) is None,
        state.ended ==> run(state, predicate).state.done || run(state, predicate).state.deciding,
    decreases state.pending.len(),
{
    let first = step(state, predicate);
    if first.item is Some {
        lemma_step_consumes(state, predicate);
        lemma_run_ends(first.state, first.predicate);
    }
}

/// `state` with `tail` behind the bytes that it holds, and with the stream
/// ended or not as `ended` says.
pub open spec fn with_tail(state: Reading, tail: Seq<u8>, ended: bool) -> Reading {
    Reading { pending: state.pending + tail, ended, ..state }
}

/// Bytes that stand behind the bytes that a receiver holds change nothing
/// about what it hands on for the bytes that it holds: the items for all the
/// bytes are the items for the first ones, followed, unless reading is done
/// by then or a decision is open, by the items that the other bytes lead to.
pub proof fn lemma_run_with_tail<P: Continuation>(
    state: Reading,
    predicate: P,
    tail: Seq<u8>,
    ended: bool,
)
    requires
        !state.ended,
    ensures
        run(with_tail(state, tail, ended), predicate).items == run(state, predicate).items + (
        if run(state, predicate).state.done || run(state, predicate).state.deciding {
            Seq::<Result<Seq<char>, Failure>>::empty()
        } else {
            run(
                with_tail(run(state, predicate).state, tail, ended),
                run(state, predicate).predicate,
            ).items
        }),
    decreases state.pending.len(),
{
    let first = step(state, predicate);
    let all = with_tail(state, tail, ended);
    let drained = run(state, predicate);
    if first.item is Some {
        lemma_step_consumes(state, predicate);
        lemma_frame_with_tail(state.pending, tail);
        let first_of_all = step(all, predicate);
        assert(first_of_all.item == first.item);
        assert(first_of_all.state == with_tail(first.state, tail, ended));
        assert(first_of_all.predicate == first.predicate);
        lemma_run_with_tail(first.state, first.predicate, tail, ended);
        let others = run(first.state, first.predicate);
        let others_of_all = run(first_of_all.state, first_of_all.predicate);
        assert(run(all, predicate).items == seq![first.item->0] + others_of_all.items);
        assert(drained.items == seq![first.item->0] + others.items);
        assert(run(all, predicate).items =~= drained.items + (if drained.state.done
            || drained.state.deciding {
            Seq::<Result<Seq<char>, Failure>>::empty()
        } else {
            run(with_tail(drained.state, tail, ended), drained.predicate).items
        }));
    } else {
        assert(drained.state == state);
        assert(drained.items =~= Seq::<Result<Seq<char>, Failure>>::empty());
        if state.done || state.deciding {
            assert(step(all, predicate).item is None);
        } else {
            assert(run(all, predicate).items =~= drained.items + run(
                with_tail(drained.state, tail, ended),
                drained.predicate,
            ).items);
        }
    }
}

/// How many bytes each read brings does not matter: as long as each brings
/// at least one while there are any, what is handed on from a source is
/// what would be handed on if all of it had been there from the start.
pub proof fn lemma_chunks_do_not_matter<P: Continuation>(
    state: Reading,
    predicate: P,
    source: Seq<u8>,
    room: usize,
)
    requires
        state.max_chunk_size >= 1,
        room >= 1,
        !state.ended,
    ensures
        received(state, predicate, source, room).items == run(
            with_tail(state, source, true),
            predicate,
        ).items,
    decreases source.len(),
{
    let drained = run(state, predicate);
    lemma_run_ends(state, predicate);
    lemma_run_with_tail(state, predicate, source, true);
    if drained.state.done || drained.state.deciding {
        assert(drained.items + Seq::<Result<Seq<char>, Failure>>::empty() =~= drained.items);
    } else {
        let n = chunk_len(source.len(), state.max_chunk_size, room) as int;
        let fed = after_read(drained.state, source.take(n));
        let later = received(fed, drained.predicate, source.skip(n), room);
        if source.len() == 0 {
            assert(fed == Reading { ended: true, ..drained.state });
            lemma_run_ends(fed, drained.predicate);
            assert(later.items == run(fed, drained.predicate).items);
            assert(drained.state.pending + source =~= drained.state.pending);
            assert(with_tail(drained.state, source, true) == fed);
        } else {
            assert(n >= 1);
            lemma_chunks_do_not_matter(fed, drained.predicate, source.skip(n), room);
            assert(fed.pending + source.skip(n) =~= drained.state.pending + source);
            assert(with_tail(fed, source.skip(n), true) == with_tail(drained.state, source, true));
        }
    }
}

/// No newline stands in `bytes` but, at most, at its end.
pub open spec fn ends_at_most_one_line(bytes: Seq<u8>) -> bool {
    forall|i: int| 0 <= i < bytes.len() - 1 ==> bytes[i] != NEWLINE
}

/// A receiver that holds at most the end of one line holds no newline after
/// it has handed on what was due, and nothing at all if reading is done by
/// then.
proof fn lemma_run_leaves_no_line<P: Continuation>(state: Reading, predicate: P)
    requires
        !state.ended,
        !state.done,
        !state.deciding,
        ends_at_most_one_line(state.pending),
    ensures
        !has_newline(run(state, predicate).state.pending),
        !run(state, predicate).state.deciding,
        run(state, predicate).state.done ==> run(state, predicate).state.pending.len() == 0,
{
    let first = step(state, predicate);
    let drained = run(state, predicate);
    lemma_first_newline(state.pending);
    lemma_frame_is_first_line(state.pending);
    if first.item is Some {
        let (raw, rest) = next_frame(state.pending)->0;
        assert(first_newline(state.pending) == state.pending.len() - 1);
        assert(rest.len() == 0);
        assert(first.state.pending == rest);
        assert(!first.state.deciding);
        lemma_first_newline(rest);
        lemma_step_consumes(state, predicate);
        let others = run(first.state, first.predicate);
        let second = step(first.state, first.predicate);
        assert(frame_due(first.state) is None);
        assert(second.item is None);
        assert(second.state == first.state);
        assert(others.state == first.state);
        assert(drained.state == others.state);
    } else {
        assert(first.state == state);
        assert(drained.state == state);
    }
}

/// A receiver that reads single bytes takes nothing from the source that
/// follows the end of the last line it handed on: when reading is done
/// before the stream has ended, the receiver holds no byte.
pub proof fn lemma_single_bytes_read_no_further<P: Continuation>(
    state: Reading,
    predicate: P,
    source: Seq<u8>,
    room: usize,
)
    requires
        state.max_chunk_size == 1,
        room >= 1,
        !state.ended,
        !state.done,
        !state.deciding,
        ends_at_most_one_line(state.pending),
    ensures
        received(state, predicate, source, room).state.done && !received(
            state,
            predicate,
            source,
            room,
        ).state.ended ==> received(state, predicate, source, room).state.pending.len() == 0,
    decreases source.len(),
{
    let drained = run(state, predicate);
    let whole = received(state, predicate, source, room);
    lemma_run_ends(state, predicate);
    lemma_run_leaves_no_line(state, predicate);
    if drained.state.done {
        assert(whole.state == drained.state);
    } else {
        let n = chunk_len(source.len(), state.max_chunk_size, room) as int;
        let fed = after_read(drained.state, source.take(n));
        let later = received(fed, drained.predicate, source.skip(n), room);
        assert(whole.state == later.state);
        if source.len() == 0 {
            assert(fed.ended);
            lemma_run_ends(fed, drained.predicate);
            assert(later.state == run(fed, drained.predicate).state);
            assert(later.state.ended);
        } else {
            assert(n == 1);
            assert(fed.pending == drained.state.pending + source.take(1));
            assert forall|i: int| 0 <= i < fed.pending.len() - 1 implies fed.pending[i]
                != NEWLINE by {
                assert(fed.pending[i] == drained.state.pending[i]);
                assert(!drained.state.pending.contains(NEWLINE));
            }
            lemma_single_bytes_read_no_further(fed, drained.predicate, source.skip(n), room);
        }
    }
}

/// What was not read of a source is what stands at its end.
pub proof fn lemma_unread_is_the_end<P: Continuation>(
    state: Reading,
    predicate: P,
    source: Seq<u8>,
    room: usize,
)
    ensures
        received(state, predicate, source, room).unread.len() <= source.len(),
        received(state, predicate, source, room).unread == source.skip(
            source.len() - received(state, predicate, source, room).unread.len(),
        ),
    decreases source.len(), (if state.ended {
        0nat
    } else {
        1nat
    }),
{
    let drained = run(state, predicate);
    lemma_run_ends(state, predicate);
    if drained.state.done || drained.state.deciding {
        assert(source.skip(0) =~= source);
    } else {
        let n = chunk_len(source.len(), state.max_chunk_size, room) as int;
        let rest = source.skip(n);
        lemma_unread_is_the_end(
            after_read(drained.state, source.take(n)),
            drained.predicate,
            rest,
            room,
        );
        let unread = received(state, predicate, source, room).unread;
        assert(rest.skip(rest.len() - unread.len()) =~= source.skip(source.len() - unread.len()));
    }
}

impl LineReceiver {
    /// Receives from `source`, by reads that are offered `room` bytes, until
    /// reading is done or a decision is left open, and returns what was
    /// handed on together with the bytes that were not read.
    pub fn receive_from<'a, P: Continuation>(
        &mut self,
        source: &'a [u8],
        predicate: &mut P,
        room: usize,
    ) -> (result: (Vec<Result<String, SrpcError>>, &'a [u8]))
        ensures
            lines_view(result.0@) == received(old(self)@, *old(predicate), source@, room).items,
            result.1@ == received(old(self)@, *old(predicate), source@, room).unread,
            final(self)@ == received(old(self)@, *old(predicate), source@, room).state,
            *final(predicate) == received(old(self)@, *old(predicate), source@, room).predicate,
    {
        let mut items: Vec<Result<String, SrpcError>> = Vec::new();
        let mut limiter = ChunkLimiter::new(source, self.max_chunk_size());
        let ghost whole = received(self@, *predicate, source@, room);
        assert(lines_view(items@) =~= Seq::empty());
        loop
            invariant
                limiter@.max_chunk_size == self@.max_chunk_size,
                whole.items == lines_view(items@) + received(
                    self@,
                    *predicate,
                    limiter@.inner@,
                    room,
                ).items,
                whole.state == received(self@, *predicate, limiter@.inner@, room).state,
                whole.predicate == received(self@, *predicate, limiter@.inner@, room).predicate,
                whole.unread == received(self@, *predicate, limiter@.inner@, room).unread,
            ensures
                whole.items == lines_view(items@),
                whole.state == self@,
                whole.predicate == *predicate,
                whole.unread == limiter@.inner@,
            decreases limiter@.inner@.len(), (if self@.ended {
                0nat
            } else {
                1nat
            }),
        {
            let ghost before = self@;
            let ghost asked = *predicate;
            let ghost collected = lines_view(items@);
            proof {
                lemma_run_ends(before, asked);
            }
            let mut due = self.drain(predicate);
            let ghost handed = lines_view(due@);
            items.append(&mut due);
            assert(lines_view(items@) =~= collected + handed);
            if self.is_done() || self.is_deciding() {
                assert(whole.items =~= lines_view(items@));
                break ;
            }
            let chunk = limiter.read(room);
            self.on_read(chunk.as_slice());
            assert(whole.items =~= lines_view(items@) + received(
                self@,
                *predicate,
                limiter@.inner@,
                room,
            ).items);
        }
        (items, limiter.into_inner())
    }
}

} // verus!
