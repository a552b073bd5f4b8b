//! A cap on how much a single read may take from a byte source.
//!
//! The limiter holds nothing back and looks at nothing ahead: it only makes
//! the room that a reader offers smaller.

use vstd::prelude::*;
use vstd::slice::{slice_subrange, slice_to_vec};

verus! {

/// A byte source under a cap on the size of each read.
pub struct ChunkLimiter<R> {
    inner: R,
    max_chunk_size: usize,
}

/// What a `ChunkLimiter` holds.
pub struct Limited<R> {
    /// The source that is read from.
    pub inner: R,
    /// The most bytes that one read may bring.
    pub max_chunk_size: usize,
}

impl<R> View for ChunkLimiter<R> {
    type V = Limited<R>;

    closed spec fn view(&self) -> Limited<R> {
        Limited { inner: self.inner, max_chunk_size: self.max_chunk_size }
    }
}

/// How many bytes a read brings that is offered `room` bytes while
/// `available` bytes are there to be read, under a cap of `max_chunk_size`.
pub open spec fn chunk_len(available: nat, max_chunk_size: usize, room: usize) -> nat {
    if available <= max_chunk_size && available <= room {
        available
    } else if max_chunk_size <= room {
        max_chunk_size as nat
    } else {
        room as nat
    }
}

/// What the reads of `input` bring, one after the other, when each is offered
/// `room` bytes under a cap of `max_chunk_size`, until one brings nothing.
pub open spec fn chunks(input: Seq<u8>, max_chunk_size: usize, room: usize) -> Seq<Seq<u8>>
    decreases input.len(),
{
    let n = chunk_len(input.len(), max_chunk_size, room);
    if n == 0 {
        Seq::empty()
    } else {
        seq![input.take(n as int)] + chunks(input.skip(n as int), max_chunk_size, room)
    }
}

/// The bytes that each of `reads` holds, in their order.
pub open spec fn chunks_view(reads: Seq<Vec<u8>>) -> Seq<Seq<u8>> {
    reads.map_values(|chunk: Vec<u8>| chunk@)
}

/// Under a cap of at least one byte, reads that are offered at least one byte
/// bring all of `input`: each brings at least one byte and none brings more
/// than the cap or than the room it was offered, and put together in order
/// they are `input`, with nothing lost and nothing twice.
pub proof fn lemma_chunks_rebuild_input(input: Seq<u8>, max_chunk_size: usize, room: usize)
    requires
        max_chunk_size >= 1,
        room >= 1,
    ensures
        forall|i: int|
            0 <= i < chunks(input, max_chunk_size, room).len() ==> 1 <= (#[trigger] chunks(
                input,
                max_chunk_size,
                room,
            )[i]).len() <= max_chunk_size && chunks(input, max_chunk_size, room)[i].len() <= room,
        chunks(input, max_chunk_size, room).flatten() == input,
    decreases input.len(),
{
    let n = chunk_len(input.len(), max_chunk_size, room);
    let all = chunks(input, max_chunk_size, room);
    if n == 0 {
        assert(input.len() == 0);
        assert(all.flatten() =~= input);
    } else {
        let head = input.take(n as int);
        let tail = chunks(input.skip(n as int), max_chunk_size, room);
        lemma_chunks_rebuild_input(input.skip(n as int), max_chunk_size, room);
        assert(all == seq![head] + tail);
        assert forall|i: int| 0 <= i < all.len() implies 1 <= (#[trigger] all[i]).len()
            <= max_chunk_size && all[i].len() <= room by {
            if i > 0 {
                assert(all[i] == tail[i - 1]);
            }
        }
        assert(all.flatten() =~= input) by {
            assert(all.drop_first() =~= tail);
            assert(all.first() == head);
            assert(head + input.skip(n as int) =~= input);
        }
    }
}

impl<R> ChunkLimiter<R> {
    /// Puts `inner` under a cap of `max_chunk_size` bytes for each read.
    pub fn new(inner: R, max_chunk_size: usize) -> (limiter: Self)
        ensures
            limiter@ == (Limited { inner, max_chunk_size }),
    {
        Self { inner, max_chunk_size }
    }

    /// The most bytes that one read may bring.
    pub fn max_chunk_size(&self) -> (size: usize)
        ensures
            size == self@.max_chunk_size,
    {
        self.max_chunk_size
    }

    /// How many bytes the source may be asked for by a reader that offers
    /// room for `remaining` bytes: that many, but no more than the cap.
    pub fn limit(&self, remaining: usize) -> (limit: usize)
        ensures
            limit <= remaining,
            limit <= self@.max_chunk_size,
            limit == remaining || limit == self@.max_chunk_size,
    {
        if self.max_chunk_size < remaining {
            self.max_chunk_size
        } else {
            remaining
        }
    }

    /// The source.
    pub fn get_ref(&self) -> (inner: &R)
        ensures
            *inner == self@.inner,
    {
        &self.inner
    }

    /// The source, to read from. The cap stays as it is.
    pub fn get_mut(&mut self) -> (inner: &mut R)
        ensures
            *inner == old(self)@.inner,
            final(self)@ == (Limited { inner: *final(inner), max_chunk_size: old(self)@.max_chunk_size }),
    {
        &mut self.inner
    }

    /// Gives the source back.
    pub fn into_inner(self) -> (inner: R)
        ensures
            inner == self@.inner,
    {
        self.inner
    }
}

impl<'a> ChunkLimiter<&'a [u8]> {
    /// One read from bytes in memory, by a reader that offers room for `room`
    /// bytes: the bytes that it brings are taken off the front of the source.
    /// It brings nothing when nothing is left, and when the cap or the room
    /// is zero.
    pub fn read(&mut self, room: usize) -> (chunk: Vec<u8>)
        ensures
            chunk@ == old(self)@.inner@.take(
                chunk_len(old(self)@.inner@.len(), old(self)@.max_chunk_size, room) as int,
            ),
            final(self)@.inner@ == old(self)@.inner@.skip(chunk@.len() as int),
            final(self)@.max_chunk_size == old(self)@.max_chunk_size,
    {
        let limit = self.limit(room);
        let available = self.inner.len();
        let n = if available < limit {
            available
        } else {
            limit
        };
        let chunk = slice_to_vec(slice_subrange(self.inner, 0, n));
        self.inner = slice_subrange(self.inner, n, available);
        chunk
    }

    /// Reads, each time with room for `room` bytes, until a read brings
    /// nothing, and returns what each read brought.
    pub fn read_to_end(&mut self, room: usize) -> (all: Vec<Vec<u8>>)
        ensures
            chunks_view(all@) == chunks(old(self)@.inner@, old(self)@.max_chunk_size, room),
            final(self)@.max_chunk_size == old(self)@.max_chunk_size,
            chunk_len(final(self)@.inner@.len(), old(self)@.max_chunk_size, room) == 0,
    {
        let mut all: Vec<Vec<u8>> = Vec::new();
        let ghost input = self@.inner@;
        let ghost cap = self@.max_chunk_size;
        assert(chunks_view(all@) =~= Seq::empty());
        loop
            invariant
                self@.max_chunk_size == cap,
                chunks(input, cap, room) == chunks_view(all@) + chunks(self@.inner@, cap, room),
            ensures
                self@.max_chunk_size == cap,
                chunks(input, cap, room) == chunks_view(all@),
                chunk_len(self@.inner@.len(), cap, room) == 0,
            decreases self@.inner@.len(),
        {
            let ghost before = self@.inner@;
            let ghost collected = chunks_view(all@);
            let chunk = self.read(room);
            if chunk.len() == 0 {
                assert(chunks(input, cap, room) =~= chunks_view(all@));
                break ;
            }
            all.push(chunk);
            assert(chunks_view(all@) =~= collected + seq![chunk@]);
            assert(chunks(input, cap, room) =~= chunks_view(all@) + chunks(self@.inner@, cap, room));
        }
        all
    }
}

} // verus!
