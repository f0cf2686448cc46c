//! The lines of a response: what a piece leaves unfinished waits for the next.

use vstd::prelude::*;

verus! {

/// The iterator over the lines of a response.
pub struct NativeLinesIterator {
    /// The iterator over pieces, once it was opened.
    pub chunks: Option<usize>,
    /// The unfinished line at the end of the last piece.
    pub pending: Option<usize>,
    /// The finished lines of the last piece.
    pub ready: Vec<usize>,
    /// How many of them were given out.
    pub ready_index: usize,
    /// There are no further pieces.
    pub done: bool,
}

/// What the iterator goes by.
pub struct LinesView {
    pub chunks: Option<usize>,
    pub pending: Option<usize>,
    /// The finished lines that were not given out yet.
    pub waiting: Seq<usize>,
    pub done: bool,
}

impl View for NativeLinesIterator {
    type V = LinesView;

    open spec fn view(&self) -> LinesView {
        LinesView {
            chunks: self.chunks,
            pending: self.pending,
            waiting: self.ready@.skip(self.ready_index as int),
            done: self.done,
        }
    }
}

/// What the iterator does next.
#[derive(Clone, Copy, Debug, PartialEq, Eq, Structural)]
pub enum LinesStep {
    Yield(usize),
    /// The iterator over pieces is to be opened.
    OpenChunks,
    /// The next piece is asked for.
    NextOf(usize),
    End,
}

impl LinesView {
    /// What the iterator does next: it gives out what waits, then asks for
    /// another piece, and at last gives out the unfinished line.
    pub open spec fn next(self) -> LinesStep {
        if self.waiting.len() > 0 {
            LinesStep::Yield(self.waiting[0])
        } else if self.done {
            match self.pending {
                Some(line) => LinesStep::Yield(line),
                None => LinesStep::End,
            }
        } else {
            match self.chunks {
                Some(chunks) => LinesStep::NextOf(chunks),
                None => LinesStep::OpenChunks,
            }
        }
    }

    /// The iterator after that.
    pub open spec fn moved(self) -> LinesView {
        if self.waiting.len() > 0 {
            LinesView { waiting: self.waiting.drop_first(), ..self }
        } else if self.done {
            LinesView { pending: None, ..self }
        } else {
            self
        }
    }

    /// The iterator after its unfinished line was put before a new piece.
    pub open spec fn without_pending(self) -> LinesView {
        LinesView { pending: None, ..self }
    }

    /// The iterator after the lines of a piece were taken in.
    pub open spec fn loaded(self, lines: Seq<usize>, facts: TailFacts) -> LinesView {
        LinesView {
            waiting: if is_unfinished(lines, facts) {
                lines.drop_last()
            } else {
                lines
            },
            pending: if is_unfinished(lines, facts) {
                Some(lines.last())
            } else {
                self.pending
            },
            ..self
        }
    }
}

/// What is so about the lines that a piece was split into.
#[derive(Clone, Copy, Debug, PartialEq, Eq, Structural)]
pub struct TailFacts {
    /// Python takes the last line for true.
    pub last_is_true: bool,
    /// Python takes the piece for true.
    pub chunk_is_true: bool,
    /// The last line and the piece end alike.
    pub same_tail: bool,
}

/// Whether the last line of a piece is unfinished.
pub open spec fn is_unfinished(lines: Seq<usize>, facts: TailFacts) -> bool {
    lines.len() > 0 && facts.last_is_true && facts.chunk_is_true && facts.same_tail
}

impl NativeLinesIterator {
    /// No more lines were given out than are ready.
    pub open spec fn well_formed(&self) -> bool {
        self.ready_index <= self.ready@.len()
    }

    /// An iterator at the start.
    pub fn new() -> (iterator: Self)
        ensures
            iterator.well_formed(),
            iterator@ == (LinesView {
                chunks: None,
                pending: None,
                waiting: Seq::empty(),
                done: false,
            }),
    {
        let iterator = NativeLinesIterator {
            chunks: None,
            pending: None,
            ready: Vec::new(),
            ready_index: 0,
            done: false,
        };
        assert(iterator.ready@.skip(0) =~= Seq::<usize>::empty());
        iterator
    }

    /// Gives out the next of the finished lines.
    pub fn take_ready(&mut self) -> (line: Option<usize>)
        requires
            old(self).well_formed(),
        ensures
            final(self).well_formed(),
            match line {
                Some(line) => old(self)@.waiting.len() > 0 && line == old(self)@.waiting[0]
                    && final(self)@ == (LinesView {
                    waiting: old(self)@.waiting.drop_first(),
                    ..old(self)@
                }),
                None => old(self)@.waiting.len() == 0 && final(self)@ == old(self)@,
            },
    {
        if self.ready_index >= self.ready.len() {
            return None;
        }
        let line = self.ready[self.ready_index];
        let ghost before = self.ready@.skip(self.ready_index as int);
        self.ready_index = self.ready_index + 1;
        assert(self.ready@.skip(self.ready_index as int) =~= before.drop_first());
        Some(line)
    }

    /// What the iterator does next.
    pub fn begin(&mut self) -> (step: LinesStep)
        requires
            old(self).well_formed(),
        ensures
            final(self).well_formed(),
            step == old(self)@.next(),
            final(self)@ == old(self)@.moved(),
    {
        match self.take_ready() {
            Some(line) => {
                return LinesStep::Yield(line);
            },
            None => {},
        }
        if self.done {
            return match self.pending.take() {
                Some(line) => LinesStep::Yield(line),
                None => LinesStep::End,
            };
        }
        match self.chunks {
            Some(chunks) => LinesStep::NextOf(chunks),
            None => LinesStep::OpenChunks,
        }
    }

    /// Keeps the iterator over pieces.
    pub fn open_chunks(&mut self, chunks: usize)
        requires
            old(self).well_formed(),
        ensures
            final(self).well_formed(),
            final(self)@ == (LinesView { chunks: Some(chunks), ..old(self)@ }),
    {
        self.chunks = Some(chunks);
    }

    /// There are no further pieces.
    pub fn end_chunks(&mut self)
        requires
            old(self).well_formed(),
        ensures
            final(self).well_formed(),
            final(self)@ == (LinesView { done: true, ..old(self)@ }),
    {
        self.done = true;
    }

    /// The unfinished line that a new piece is put behind, if there is one. It
    /// no longer waits.
    pub fn take_pending(&mut self) -> (pending: Option<usize>)
        requires
            old(self).well_formed(),
        ensures
            final(self).well_formed(),
            pending == old(self)@.pending,
            final(self)@ == old(self)@.without_pending(),
    {
        self.pending.take()
    }

    /// Takes in the lines of a piece: an unfinished last line is held back, and
    /// every other line waits to be given out.
    pub fn load_lines(&mut self, lines: Vec<usize>, facts: TailFacts)
        requires
            old(self).well_formed(),
            old(self)@.waiting.len() == 0,
        ensures
            final(self).well_formed(),
            final(self)@ == old(self)@.loaded(lines@, facts),
    {
        let mut lines = lines;
        if lines.len() > 0 && facts.last_is_true && facts.chunk_is_true && facts.same_tail {
            let ghost all = lines@;
            self.pending = lines.pop();
            assert(lines@ =~= all.drop_last());
        }
        self.ready = lines;
        self.ready_index = 0;
        assert(self.ready@.skip(0) =~= self.ready@);
    }

    /// Closes the iterator; the iterator over pieces is to be closed, if it can
    /// be.
    pub fn close(&mut self) -> (chunks: Option<usize>)
        ensures
            final(self).well_formed(),
            chunks == old(self).chunks,
            final(self)@ == (LinesView {
                chunks: None,
                pending: None,
                waiting: Seq::empty(),
                done: true,
            }),
    {
        let chunks = self.chunks.take();
        self.done = true;
        self.pending = None;
        self.ready = Vec::new();
        self.ready_index = 0;
        assert(self.ready@.skip(0) =~= Seq::<usize>::empty());
        chunks
    }
}

/// What is given out from here on, if no further piece comes.
pub open spec fn remaining(lines: LinesView) -> Seq<usize> {
    lines.waiting + (match lines.pending {
        Some(line) => seq![line],
        None => Seq::empty(),
    })
}

/// No line is lost: once there are no further pieces, what waits and then the
/// unfinished line are given out one by one, and then the end comes.
pub proof fn law_every_line_comes_out(lines: LinesView)
    requires
        lines.done,
    ensures
        match lines.next() {
            LinesStep::Yield(line) => {
                &&& remaining(lines).len() > 0
                &&& line == remaining(lines)[0]
                &&& remaining(lines.moved()) == remaining(lines).drop_first()
            },
            LinesStep::End => remaining(lines).len() == 0,
            _ => false,
        },
{
    if lines.waiting.len() > 0 {
        assert(remaining(lines.moved()) =~= remaining(lines).drop_first());
    } else {
        match lines.pending {
            Some(line) => {
                assert(remaining(lines) =~= seq![line]);
                assert(remaining(lines.moved()) =~= remaining(lines).drop_first());
            },
            None => {
                assert(remaining(lines) =~= Seq::<usize>::empty());
            },
        }
    }
}

/// A piece that is taken in adds its lines and nothing else: whether or not the
/// last of them is held back, all of them come out, in order, if no further
/// piece follows.
pub proof fn law_pieces_keep_their_lines(before: LinesView, lines: Seq<usize>, facts: TailFacts)
    requires
        before.waiting.len() == 0,
        before.pending is None,
    ensures
        remaining(before.loaded(lines, facts)) == lines,
{
    if is_unfinished(lines, facts) {
        assert(lines.drop_last() + seq![lines.last()] =~= lines);
    } else {
        assert(lines + Seq::<usize>::empty() =~= lines);
    }
}

/// The unfinished line at the end of a text: what stands behind its last line
/// end. Each line end is a single byte here.
pub open spec fn open_line(ends: Set<u8>, text: Seq<u8>) -> Seq<u8>
    decreases text.len(),
{
    if text.len() == 0 || ends.contains(text.last()) {
        Seq::empty()
    } else {
        open_line(ends, text.drop_last()).push(text.last())
    }
}

/// The lines of a text that have their line end, without it.
pub open spec fn ended_lines(ends: Set<u8>, text: Seq<u8>) -> Seq<Seq<u8>>
    decreases text.len(),
{
    if text.len() == 0 {
        Seq::empty()
    } else if ends.contains(text.last()) {
        ended_lines(ends, text.drop_last()).push(open_line(ends, text.drop_last()))
    } else {
        ended_lines(ends, text.drop_last())
    }
}

/// The lines of a text, as `splitlines` gives them.
pub open spec fn split_lines(ends: Set<u8>, text: Seq<u8>) -> Seq<Seq<u8>> {
    ended_lines(ends, text) + (if open_line(ends, text).len() > 0 {
        seq![open_line(ends, text)]
    } else {
        Seq::empty()
    })
}

/// A piece that came in, and the values that its lines became.
pub struct TakenPiece {
    pub bytes: Seq<u8>,
    pub lines: Seq<usize>,
}

/// All bytes of a list of pieces.
pub open spec fn joined(pieces: Seq<TakenPiece>) -> Seq<u8>
    decreases pieces.len(),
{
    if pieces.len() == 0 {
        Seq::empty()
    } else {
        joined(pieces.drop_last()) + pieces.last().bytes
    }
}

/// The bytes of the unfinished line.
pub open spec fn pending_bytes(lines: LinesView, texts: spec_fn(usize) -> Seq<u8>) -> Seq<u8> {
    match lines.pending {
        Some(line) => texts(line),
        None => Seq::empty(),
    }
}

/// What is so about lines that a text was split into.
pub open spec fn facts_of(
    lines: Seq<usize>,
    text: Seq<u8>,
    texts: spec_fn(usize) -> Seq<u8>,
) -> TailFacts {
    let last_is_true = lines.len() > 0 && texts(lines.last()).len() > 0;
    TailFacts {
        last_is_true,
        chunk_is_true: text.len() > 0,
        same_tail: last_is_true && text.len() > 0 && texts(lines.last()).last() == text.last(),
    }
}

/// The iterator after all that waits was given out, and what that was.
pub open spec fn given_out(lines: LinesView) -> (LinesView, Seq<usize>)
    decreases lines.waiting.len(),
{
    if lines.waiting.len() == 0 {
        (lines, Seq::empty())
    } else {
        match lines.next() {
            LinesStep::Yield(line) => {
                let (after, rest) = given_out(lines.moved());
                (after, seq![line] + rest)
            },
            _ => (lines, Seq::empty()),
        }
    }
}

/// The iterator after a list of pieces came in one by one, and what it gave out.
pub open spec fn after_pieces(
    start: LinesView,
    pieces: Seq<TakenPiece>,
    texts: spec_fn(usize) -> Seq<u8>,
) -> (LinesView, Seq<usize>)
    decreases pieces.len(),
{
    if pieces.len() == 0 {
        (start, Seq::empty())
    } else {
        let (before, out) = after_pieces(start, pieces.drop_last(), texts);
        let piece = pieces.last();
        let facts = facts_of(piece.lines, pending_bytes(before, texts) + piece.bytes, texts);
        let (after, more) = given_out(before.without_pending().loaded(piece.lines, facts));
        (after, out + more)
    }
}

/// Whether every piece, put behind the unfinished line, was split into its lines.
pub open spec fn are_split(
    ends: Set<u8>,
    start: LinesView,
    pieces: Seq<TakenPiece>,
    texts: spec_fn(usize) -> Seq<u8>,
) -> bool
    decreases pieces.len(),
{
    pieces.len() == 0 || {
        let before = after_pieces(start, pieces.drop_last(), texts).0;
        &&& are_split(ends, start, pieces.drop_last(), texts)
        &&& pieces.last().lines.map_values(texts) == split_lines(
            ends,
            pending_bytes(before, texts) + pieces.last().bytes,
        )
    }
}

/// What stands behind the last line end holds none.
proof fn lemma_open_line(ends: Set<u8>, text: Seq<u8>)
    ensures
        forall|index: int|
            0 <= index < open_line(ends, text).len() ==> !ends.contains(
                #[trigger] open_line(ends, text)[index],
            ),
        open_line(ends, text).len() > 0 ==> text.len() > 0 && open_line(ends, text).last()
            == text.last(),
        open_line(ends, text).len() == 0 ==> text.len() == 0 || ends.contains(text.last()),
    decreases text.len(),
{
    if text.len() == 0 || ends.contains(text.last()) {
    } else {
        lemma_open_line(ends, text.drop_last());
    }
}

/// No line holds a line end.
proof fn lemma_ended_lines(ends: Set<u8>, text: Seq<u8>)
    ensures
        forall|line: int, index: int|
            0 <= line < ended_lines(ends, text).len() && 0 <= index < ended_lines(
                ends,
                text,
            )[line].len() ==> !ends.contains(#[trigger] ended_lines(ends, text)[line][index]),
        text.len() > 0 && ends.contains(text.last()) ==> ended_lines(ends, text).len() > 0,
    decreases text.len(),
{
    if text.len() > 0 {
        let before = text.drop_last();
        lemma_ended_lines(ends, before);
        lemma_open_line(ends, before);
        let lines = ended_lines(ends, text);
        let earlier = ended_lines(ends, before);
        assert forall|line: int, index: int|
            0 <= line < lines.len() && 0 <= index < lines[line].len() implies !ends.contains(
            #[trigger] lines[line][index],
        ) by {
            if line < earlier.len() {
                assert(lines[line] == earlier[line]);
                assert(!ends.contains(earlier[line][index]));
            } else {
                assert(lines[line] == open_line(ends, before));
            }
        }
    }
}

/// A text without line ends is one unfinished line.
proof fn lemma_unended(ends: Set<u8>, text: Seq<u8>)
    requires
        forall|index: int| 0 <= index < text.len() ==> !ends.contains(#[trigger] text[index]),
    ensures
        open_line(ends, text) == text,
        ended_lines(ends, text) == Seq::<Seq<u8>>::empty(),
    decreases text.len(),
{
    if text.len() > 0 {
        let before = text.drop_last();
        assert forall|index: int| 0 <= index < before.len() implies !ends.contains(
            #[trigger] before[index],
        ) by {
            assert(before[index] == text[index]);
        }
        lemma_unended(ends, before);
        assert(before.push(text.last()) =~= text);
    }
}

/// Only the unfinished line of a text matters for what comes behind it.
proof fn lemma_split_behind(ends: Set<u8>, text: Seq<u8>, more: Seq<u8>)
    ensures
        ended_lines(ends, text + more) == ended_lines(ends, text) + ended_lines(
            ends,
            open_line(ends, text) + more,
        ),
        open_line(ends, text + more) == open_line(ends, open_line(ends, text) + more),
    decreases more.len(),
{
    let tail = open_line(ends, text);
    if more.len() == 0 {
        lemma_open_line(ends, text);
        lemma_unended(ends, tail);
        assert(text + more =~= text);
        assert(tail + more =~= tail);
        assert(ended_lines(ends, text) + Seq::<Seq<u8>>::empty() =~= ended_lines(ends, text));
    } else {
        let less = more.drop_last();
        lemma_split_behind(ends, text, less);
        assert((text + more).drop_last() =~= text + less);
        assert((tail + more).drop_last() =~= tail + less);
        assert((text + more).last() == more.last());
        assert((tail + more).last() == more.last());
        assert(ended_lines(ends, text + more) =~= ended_lines(ends, text) + ended_lines(
            ends,
            tail + more,
        ));
    }
}

/// All that waits is given out, in order.
proof fn lemma_given_out(lines: LinesView)
    ensures
        given_out(lines) == (
            LinesView { waiting: Seq::empty(), ..lines },
            lines.waiting,
        ),
    decreases lines.waiting.len(),
{
    if lines.waiting.len() == 0 {
        assert(lines.waiting =~= Seq::<usize>::empty());
    } else {
        lemma_given_out(lines.moved());
        assert(seq![lines.waiting[0]] + lines.waiting.drop_first() =~= lines.waiting);
    }
}

/// A piece gives out the lines that it ended, and leaves the rest unfinished.
proof fn lemma_one_piece(
    ends: Set<u8>,
    before: LinesView,
    lines: Seq<usize>,
    text: Seq<u8>,
    texts: spec_fn(usize) -> Seq<u8>,
)
    requires
        lines.map_values(texts) == split_lines(ends, text),
    ensures
        ({
            let after = before.without_pending().loaded(lines, facts_of(lines, text, texts));
            &&& after.waiting.map_values(texts) == ended_lines(ends, text)
            &&& pending_bytes(after, texts) == open_line(ends, text)
            &&& after.pending is None <==> open_line(ends, text).len() == 0
        }),
{
    let facts = facts_of(lines, text, texts);
    let after = before.without_pending().loaded(lines, facts);
    let values = lines.map_values(texts);
    lemma_open_line(ends, text);
    lemma_ended_lines(ends, text);
    assert(values.len() == lines.len());
    if lines.len() > 0 {
        assert(values.last() == texts(lines.last()));
    }
    if open_line(ends, text).len() > 0 {
        assert(values.last() == open_line(ends, text));
        assert(is_unfinished(lines, facts));
        assert(lines.drop_last().map_values(texts) =~= values.drop_last());
        assert(values.drop_last() =~= ended_lines(ends, text));
    } else {
        assert(values =~= ended_lines(ends, text));
        if lines.len() > 0 && text.len() > 0 && texts(lines.last()).len() > 0 {
            let last = texts(lines.last());
            assert(ended_lines(ends, text)[lines.len() - 1] == last);
            assert(!ends.contains(ended_lines(ends, text)[lines.len() - 1][last.len() - 1]));
        }
        assert(!is_unfinished(lines, facts));
    }
}

/// The lines that come out do not depend on how the stream was cut into pieces:
/// what was given out so far are the lines of all bytes so far that have their
/// line end, and what stands behind the last line end is held back. Once the
/// stream is at its end, what was given out and what is held back are the lines
/// of the whole stream. A piece without a line end gives out nothing.
pub proof fn law_cutting_does_not_matter(
    ends: Set<u8>,
    start: LinesView,
    pieces: Seq<TakenPiece>,
    texts: spec_fn(usize) -> Seq<u8>,
)
    requires
        start.waiting.len() == 0,
        start.pending is None,
        are_split(ends, start, pieces, texts),
    ensures
        ({
            let (after, out) = after_pieces(start, pieces, texts);
            &&& out.map_values(texts) == ended_lines(ends, joined(pieces))
            &&& pending_bytes(after, texts) == open_line(ends, joined(pieces))
            &&& (out + remaining(LinesView { done: true, ..after })).map_values(texts)
                == split_lines(ends, joined(pieces))
        }),
        pieces.len() > 0 && (forall|index: int|
            0 <= index < pieces.last().bytes.len() ==> !ends.contains(
                #[trigger] pieces.last().bytes[index],
            )) ==> after_pieces(start, pieces, texts).1 == after_pieces(
            start,
            pieces.drop_last(),
            texts,
        ).1,
    decreases pieces.len(),
{
    lemma_pieces(ends, start, pieces, texts);
    let (after, out) = after_pieces(start, pieces, texts);
    let all = joined(pieces);
    lemma_open_line(ends, all);
    let rest = remaining(LinesView { done: true, ..after });
    match after.pending {
        Some(line) => {
            assert(rest =~= seq![line]);
            assert((out + rest).map_values(texts) =~= out.map_values(texts) + seq![texts(line)]);
        },
        None => {
            assert(rest =~= Seq::<usize>::empty());
            assert((out + rest).map_values(texts) =~= out.map_values(texts));
            assert(split_lines(ends, all) =~= ended_lines(ends, all));
        },
    }
    if pieces.len() > 0 && (forall|index: int|
        0 <= index < pieces.last().bytes.len() ==> !ends.contains(
            #[trigger] pieces.last().bytes[index],
        )) {
        lemma_pieces(ends, start, pieces.drop_last(), texts);
        let before = joined(pieces.drop_last());
        let behind = open_line(ends, before) + pieces.last().bytes;
        lemma_open_line(ends, before);
        assert forall|index: int| 0 <= index < behind.len() implies !ends.contains(
            #[trigger] behind[index],
        ) by {
            let tail = open_line(ends, before);
            if index < tail.len() {
                assert(behind[index] == tail[index]);
            } else {
                assert(behind[index] == pieces.last().bytes[index - tail.len()]);
            }
        }
        lemma_unended(ends, behind);
        lemma_split_behind(ends, before, pieces.last().bytes);
        let less = after_pieces(start, pieces.drop_last(), texts).1;
        assert(out.map_values(texts) =~= less.map_values(texts));
        assert(out.len() == out.map_values(texts).len());
        assert(less.len() == less.map_values(texts).len());
        let piece = pieces.last();
        let held = after_pieces(start, pieces.drop_last(), texts).0;
        let facts = facts_of(piece.lines, pending_bytes(held, texts) + piece.bytes, texts);
        let more = given_out(held.without_pending().loaded(piece.lines, facts)).1;
        assert(out == less + more);
        assert(more.len() == 0);
        assert(out =~= less);
    }
}

/// What came out of a list of pieces, and what is held back.
proof fn lemma_pieces(
    ends: Set<u8>,
    start: LinesView,
    pieces: Seq<TakenPiece>,
    texts: spec_fn(usize) -> Seq<u8>,
)
    requires
        start.waiting.len() == 0,
        start.pending is None,
        are_split(ends, start, pieces, texts),
    ensures
        ({
            let (after, out) = after_pieces(start, pieces, texts);
            &&& after.waiting.len() == 0
            &&& out.map_values(texts) == ended_lines(ends, joined(pieces))
            &&& pending_bytes(after, texts) == open_line(ends, joined(pieces))
            &&& after.pending is None <==> open_line(ends, joined(pieces)).len() == 0
        }),
    decreases pieces.len(),
{
    if pieces.len() == 0 {
        assert(Seq::<usize>::empty().map_values(texts) =~= Seq::<Seq<u8>>::empty());
    } else {
        let fewer = pieces.drop_last();
        lemma_pieces(ends, start, fewer, texts);
        let (before, out) = after_pieces(start, fewer, texts);
        let piece = pieces.last();
        let text = pending_bytes(before, texts) + piece.bytes;
        let facts = facts_of(piece.lines, text, texts);
        let loaded = before.without_pending().loaded(piece.lines, facts);
        lemma_one_piece(ends, before, piece.lines, text, texts);
        lemma_given_out(loaded);
        lemma_split_behind(ends, joined(fewer), piece.bytes);
        assert((out + loaded.waiting).map_values(texts) =~= out.map_values(texts)
            + loaded.waiting.map_values(texts));
    }
}

} // verus!
