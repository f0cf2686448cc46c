//! Regrouping of transport frames into application chunks of one size.

use vstd::prelude::*;

verus! {

/// Regroups a byte stream into chunks of `chunk_size` bytes.
pub struct ApplicationChunker {
    /// The length of every chunk but the last.
    pub chunk_size: usize,
    /// The bytes that do not fill a chunk yet.
    pub pending: Vec<u8>,
}

/// The full chunks of a stream.
pub open spec fn full_chunks(stream: Seq<u8>, size: nat) -> Seq<Seq<u8>>
    decreases stream.len(),
{
    if size == 0 || stream.len() < size {
        Seq::empty()
    } else {
        seq![stream.take(size as int)] + full_chunks(stream.skip(size as int), size)
    }
}

/// What follows the full chunks of a stream.
pub open spec fn remainder(stream: Seq<u8>, size: nat) -> Seq<u8>
    decreases stream.len(),
{
    if size == 0 || stream.len() < size {
        stream
    } else {
        remainder(stream.skip(size as int), size)
    }
}

/// What pushing a frame gives: the chunks that it completes, and what is pending
/// afterwards.
pub open spec fn pushed(pending: Seq<u8>, frame: Seq<u8>, size: nat) -> (Seq<Seq<u8>>, Seq<u8>) {
    (full_chunks(pending + frame, size), remainder(pending + frame, size))
}

/// The bytes behind a list of byte vectors, seen as sequences.
pub open spec fn views(chunks: Seq<Vec<u8>>) -> Seq<Seq<u8>> {
    chunks.map_values(|chunk: Vec<u8>| chunk@)
}

/// The concatenation of a list of sequences.
pub open spec fn joined(parts: Seq<Seq<u8>>) -> Seq<u8>
    decreases parts.len(),
{
    if parts.len() == 0 {
        Seq::empty()
    } else {
        parts[0] + joined(parts.drop_first())
    }
}

impl ApplicationChunker {
    /// Between calls fewer bytes are pending than a chunk holds.
    pub open spec fn well_formed(&self) -> bool {
        self.chunk_size > 0 && self.pending@.len() < self.chunk_size
    }

    /// A chunker with nothing pending.
    pub fn new(chunk_size: usize) -> (chunker: Self)
        ensures
            chunker.chunk_size == chunk_size,
            chunker.pending@ == Seq::<u8>::empty(),
            chunk_size > 0 ==> chunker.well_formed(),
    {
        ApplicationChunker { chunk_size, pending: Vec::new() }
    }

    /// Takes one frame and gives the chunks that it completes.
    pub fn push(&mut self, bytes: &[u8]) -> (chunks: Vec<Vec<u8>>)
        requires
            old(self).chunk_size > 0,
            old(self).pending@.len() + bytes@.len() <= usize::MAX,
        ensures
            final(self).chunk_size == old(self).chunk_size,
            final(self).well_formed(),
            (views(chunks@), final(self).pending@) == pushed(
                old(self).pending@,
                bytes@,
                old(self).chunk_size as nat,
            ),
    {
        self.pending.extend_from_slice(bytes);
        let ghost stream = old(self).pending@ + bytes@;
        assert(self.pending@ =~= stream);
        let size: usize = self.chunk_size;
        let mut chunks: Vec<Vec<u8>> = Vec::new();
        assert(views(chunks@) + full_chunks(stream, size as nat) =~= full_chunks(
            stream,
            size as nat,
        ));
        while self.pending.len() >= size
            invariant
                size > 0,
                self.chunk_size == size,
                views(chunks@) + full_chunks(self.pending@, size as nat) == full_chunks(
                    stream,
                    size as nat,
                ),
                remainder(self.pending@, size as nat) == remainder(stream, size as nat),
            decreases self.pending@.len(),
        {
            let ghost before = self.pending@;
            let ghost earlier = views(chunks@);
            let mut rest: Vec<u8> = self.pending.split_off(size);
            std::mem::swap(&mut self.pending, &mut rest);
            chunks.push(rest);
            proof {
                assert(rest@ =~= before.take(size as int));
                assert(self.pending@ =~= before.skip(size as int));
                assert(views(chunks@) =~= earlier.push(before.take(size as int)));
                assert(views(chunks@) + full_chunks(self.pending@, size as nat) =~= earlier
                    + full_chunks(before, size as nat));
            }
        }
        assert(views(chunks@) + full_chunks(self.pending@, size as nat) =~= views(chunks@));
        chunks
    }

    /// Ends the stream: the last, shorter chunk, if any byte is pending.
    pub fn finish(self) -> (last: Option<Vec<u8>>)
        ensures
            self.pending@.len() == 0 ==> last is None,
            self.pending@.len() > 0 ==> (last matches Some(chunk) && chunk@ == self.pending@),
    {
        if self.pending.len() == 0 {
            None
        } else {
            Some(self.pending)
        }
    }
}

/// The chunks and the remainder of a stream, end to end, are the stream; each
/// chunk has the chunk size and the remainder is shorter.
pub proof fn law_chunks_partition_the_stream(stream: Seq<u8>, size: nat)
    requires
        size > 0,
    ensures
        joined(full_chunks(stream, size)) + remainder(stream, size) == stream,
        remainder(stream, size).len() < size,
        forall|index: int|
            0 <= index < full_chunks(stream, size).len() ==> (#[trigger] full_chunks(
                stream,
                size,
            )[index]).len() == size,
        full_chunks(stream, size).len() * size + remainder(stream, size).len() == stream.len(),
    decreases stream.len(),
{
    if stream.len() < size {
        assert(joined(full_chunks(stream, size)) + remainder(stream, size) =~= stream);
        assert(full_chunks(stream, size).len() * size == 0) by (nonlinear_arith)
            requires
                full_chunks(stream, size).len() == 0,
        ;
    } else {
        let head = stream.take(size as int);
        let tail = stream.skip(size as int);
        law_chunks_partition_the_stream(tail, size);
        let chunks = full_chunks(stream, size);
        assert(chunks.drop_first() =~= full_chunks(tail, size));
        assert(joined(chunks) + remainder(stream, size) =~= head + (joined(full_chunks(tail, size))
            + remainder(tail, size)));
        assert(head + tail =~= stream);
        assert forall|index: int| 0 <= index < chunks.len() implies (#[trigger] chunks[index]).len()
            == size by {
            if index > 0 {
                assert(chunks[index] == full_chunks(tail, size)[index - 1]);
            }
        }
        assert(chunks.len() * size == full_chunks(tail, size).len() * size + size)
            by (nonlinear_arith)
            requires
                chunks.len() == full_chunks(tail, size).len() + 1,
        ;
    }
}

/// The chunks of a stream do not depend on where a frame ends in it.
pub proof fn law_frame_boundary_is_ignored(first: Seq<u8>, second: Seq<u8>, size: nat)
    requires
        size > 0,
    ensures
        full_chunks(first + second, size) == full_chunks(first, size) + full_chunks(
            remainder(first, size) + second,
            size,
        ),
        remainder(first + second, size) == remainder(remainder(first, size) + second, size),
    decreases first.len(),
{
    if first.len() < size {
        assert(full_chunks(first, size) + full_chunks(first + second, size) =~= full_chunks(
            first + second,
            size,
        ));
    } else {
        let tail = first.skip(size as int);
        law_frame_boundary_is_ignored(tail, second, size);
        let whole = first + second;
        assert(whole.take(size as int) =~= first.take(size as int));
        assert(whole.skip(size as int) =~= tail + second);
        assert(full_chunks(whole, size) =~= full_chunks(first, size) + full_chunks(
            remainder(first, size) + second,
            size,
        ));
    }
}

/// Pushing two frames gives the chunks that pushing both at once gives, and
/// leaves the same pending, wherever the frame was cut.
pub proof fn law_cuts_are_ignored(pending: Seq<u8>, first: Seq<u8>, second: Seq<u8>, size: nat)
    requires
        size > 0,
    ensures
        ({
            let (chunks, held) = pushed(pending, first, size);
            let (later, left) = pushed(held, second, size);
            pushed(pending, first + second, size) == (chunks + later, left)
        }),
{
    law_frame_boundary_is_ignored(pending + first, second, size);
    assert(pending + (first + second) =~= pending + first + second);
}

/// The chunks that a chunker gives for a list of frames, and what it then
/// holds, as its contract for one frame says.
pub open spec fn pushed_all(pending: Seq<u8>, frames: Seq<Seq<u8>>, size: nat) -> (
    Seq<Seq<u8>>,
    Seq<u8>,
)
    decreases frames.len(),
{
    if frames.len() == 0 {
        (Seq::empty(), pending)
    } else {
        let (chunks, left) = pushed(pending, frames[0], size);
        let (later, held) = pushed_all(left, frames.drop_first(), size);
        (chunks + later, held)
    }
}

/// However a stream is cut into frames, pushing them all gives the chunks of
/// the stream and leaves its remainder.
pub proof fn law_frames_are_ignored(pending: Seq<u8>, frames: Seq<Seq<u8>>, size: nat)
    requires
        size > 0,
        pending.len() < size,
    ensures
        pushed_all(pending, frames, size) == (
            full_chunks(pending + joined(frames), size),
            remainder(pending + joined(frames), size),
        ),
    decreases frames.len(),
{
    if frames.len() == 0 {
        assert(pending + joined(frames) =~= pending);
    } else {
        let stream = pending + frames[0];
        let rest = joined(frames.drop_first());
        law_chunks_partition_the_stream(stream, size);
        law_frames_are_ignored(remainder(stream, size), frames.drop_first(), size);
        law_frame_boundary_is_ignored(stream, rest, size);
        assert(pending + joined(frames) =~= stream + rest);
    }
}

} // verus!
