//! Reading the body of a native response as `urllib3` would: raw or decoded, in
//! pieces or whole.

use vstd::prelude::*;
use vstd::string::StringExecFns;

use crate::errors::urllib3_v2;
use crate::heap::list_contains;
use crate::heap::lists_text;
use crate::text::{lower_text, split_on, strip_space};
use crate::text::{lowered, pieces, stripped, text_views};

verus! {

/// How many bytes are read at once to be decoded.
pub const WIRE_PIECE: usize = 8192;

/// A decoder of a response's content.
#[derive(Clone, Copy, Debug, PartialEq, Eq, Structural)]
pub enum DecoderKind {
    Missing,
    /// It decodes all that it is given.
    Unbounded,
    /// It gives at most as much as is asked for, and keeps the rest.
    Bounded,
}

/// Where a read stands.
#[derive(Clone, Copy, Debug, PartialEq, Eq, Structural)]
pub enum RawStage {
    Idle,
    /// It is asked whether the content is decoded.
    Choose,
    LoopDecoder,
    LoopTail,
    LoopRead,
    LoopDecode,
    LastDecode,
    LastFlush,
    UnboundedRead,
    UnboundedDecode,
    UnboundedLast,
    UnboundedFlush,
    PlainRead,
}

/// The body of a native response.
pub struct RawBody {
    /// Whether there may be more on the wire.
    pub open: bool,
    /// What was decoded.
    pub decoded: Vec<u8>,
    /// How much of it was handed out.
    pub offset: usize,
    pub decoder_eof: bool,
    pub decode_started: bool,
    pub decode_failed: bool,
    pub closed: bool,
    pub stage: RawStage,
    /// How much is read, or all.
    pub amount: Option<usize>,
    pub decoder: DecoderKind,
    /// What was decoded so far of a whole body.
    pub pending: Vec<u8>,
}

/// What is known of a body.
pub struct RawView {
    pub open: bool,
    pub decoded: Seq<u8>,
    pub offset: int,
    pub decoder_eof: bool,
    pub decode_started: bool,
    pub decode_failed: bool,
    pub closed: bool,
    pub stage: RawStage,
    pub amount: Option<usize>,
    pub decoder: DecoderKind,
    pub pending: Seq<u8>,
}

impl View for RawBody {
    type V = RawView;

    open spec fn view(&self) -> RawView {
        RawView {
            open: self.open,
            decoded: self.decoded@,
            offset: self.offset as int,
            decoder_eof: self.decoder_eof,
            decode_started: self.decode_started,
            decode_failed: self.decode_failed,
            closed: self.closed,
            stage: self.stage,
            amount: self.amount,
            decoder: self.decoder,
            pending: self.pending@,
        }
    }
}

/// What a read does next.
pub enum RawCall {
    /// The read is done.
    Finished(Vec<u8>),
    /// Which decoder does the content have?
    FetchDecoder,
    /// Does the decoder keep undecoded bytes?
    AskTail,
    /// Read so many bytes from the wire.
    Read(usize),
    /// Read the wire to its end.
    ReadAll,
    /// Decode bytes, at most to so many.
    Decompress { wire: Vec<u8>, maximum: Option<usize> },
    /// Decode what the decoder keeps.
    Flush,
    /// Raise the error of the wire.
    RaiseIo,
    /// Raise the error of the decoder.
    RaiseDecode,
    /// Raise the error that undecoded bytes are asked for too late.
    RaiseStarted,
    /// The error goes on.
    RaiseCurrent,
}

/// What a call says.
pub enum RawCallView {
    Finished(Seq<u8>),
    FetchDecoder,
    AskTail,
    Read(usize),
    ReadAll,
    Decompress { wire: Seq<u8>, maximum: Option<usize> },
    Flush,
    RaiseIo,
    RaiseDecode,
    RaiseStarted,
    RaiseCurrent,
}

impl View for RawCall {
    type V = RawCallView;

    open spec fn view(&self) -> RawCallView {
        match *self {
            RawCall::Finished(bytes) => RawCallView::Finished(bytes@),
            RawCall::FetchDecoder => RawCallView::FetchDecoder,
            RawCall::AskTail => RawCallView::AskTail,
            RawCall::Read(size) => RawCallView::Read(size),
            RawCall::ReadAll => RawCallView::ReadAll,
            RawCall::Decompress { wire, maximum } => RawCallView::Decompress {
                wire: wire@,
                maximum,
            },
            RawCall::Flush => RawCallView::Flush,
            RawCall::RaiseIo => RawCallView::RaiseIo,
            RawCall::RaiseDecode => RawCallView::RaiseDecode,
            RawCall::RaiseStarted => RawCallView::RaiseStarted,
            RawCall::RaiseCurrent => RawCallView::RaiseCurrent,
        }
    }
}

/// What a call gave.
pub enum RawAnswer {
    Decoder(DecoderKind),
    Tail(bool),
    /// Bytes of the wire; none at its end.
    Wire(Vec<u8>),
    /// The wire failed. `suppressed` tells that the body is cut short and that
    /// this version of `urllib3` says nothing of it.
    IoFailed { suppressed: bool },
    Decoded(Vec<u8>),
    DecodeFailed,
    Raised,
}

/// What an answer says.
pub enum RawAnswerView {
    Decoder(DecoderKind),
    Tail(bool),
    Wire(Seq<u8>),
    IoFailed { suppressed: bool },
    Decoded(Seq<u8>),
    DecodeFailed,
    Raised,
}

impl View for RawAnswer {
    type V = RawAnswerView;

    open spec fn view(&self) -> RawAnswerView {
        match *self {
            RawAnswer::Decoder(kind) => RawAnswerView::Decoder(kind),
            RawAnswer::Tail(kept) => RawAnswerView::Tail(kept),
            RawAnswer::Wire(bytes) => RawAnswerView::Wire(bytes@),
            RawAnswer::IoFailed { suppressed } => RawAnswerView::IoFailed { suppressed },
            RawAnswer::Decoded(bytes) => RawAnswerView::Decoded(bytes@),
            RawAnswer::DecodeFailed => RawAnswerView::DecodeFailed,
            RawAnswer::Raised => RawAnswerView::Raised,
        }
    }
}

/// A body after its wire failed: nothing is left.
pub open spec fn body_failed(raw: RawView) -> RawView {
    RawView {
        open: false,
        closed: true,
        decoder_eof: true,
        decoded: Seq::empty(),
        offset: 0,
        stage: RawStage::Idle,
        ..raw
    }
}

/// A body whose read is over.
pub open spec fn idle(raw: RawView) -> RawView {
    RawView { stage: RawStage::Idle, ..raw }
}

/// A body that goes on at a stage.
pub open spec fn at_stage(raw: RawView, stage: RawStage) -> RawView {
    RawView { stage, ..raw }
}

/// Asks for bytes of the wire.
pub open spec fn wire_call(amount: Option<usize>) -> RawCallView {
    match amount {
        Some(amount) => RawCallView::Read(amount),
        None => RawCallView::ReadAll,
    }
}

/// Reads without decoding.
pub open spec fn read_plain(raw: RawView) -> (RawView, RawCallView) {
    if raw.decode_started {
        (idle(raw), RawCallView::RaiseStarted)
    } else if !raw.open {
        (RawView { closed: true, ..idle(raw) }, RawCallView::Finished(Seq::empty()))
    } else {
        (at_stage(raw, RawStage::PlainRead), wire_call(raw.amount))
    }
}

/// A body that is read to its end.
pub open spec fn read_to_end(raw: RawView) -> RawView {
    RawView { open: false, decoder_eof: true, closed: true, ..idle(raw) }
}

/// Reads through a decoder that decodes all that it is given.
pub open spec fn read_unbounded(raw: RawView) -> (RawView, RawCallView) {
    if !raw.open {
        (read_to_end(raw), RawCallView::Finished(Seq::empty()))
    } else {
        (at_stage(raw, RawStage::UnboundedRead), wire_call(raw.amount))
    }
}

/// What was decoded and not handed out.
pub open spec fn retained(raw: RawView) -> Seq<u8> {
    raw.decoded.skip(raw.offset)
}

/// A body without what was handed out.
pub open spec fn compacted(raw: RawView) -> RawView {
    RawView { decoded: retained(raw), offset: 0, ..raw }
}

/// Where the bytes to hand out end.
pub open spec fn hand_out_end(raw: RawView) -> int {
    match raw.amount {
        Some(amount) => if raw.offset + amount < raw.decoded.len() {
            raw.offset + amount
        } else {
            raw.decoded.len() as int
        },
        None => raw.decoded.len() as int,
    }
}

/// Hands out what was asked for, or all that there is.
pub open spec fn hand_out(raw: RawView) -> (RawView, RawCallView) {
    let end = hand_out_end(raw);
    (
        RawView {
            offset: end,
            closed: raw.closed || (raw.decoder_eof && end == raw.decoded.len()),
            ..idle(raw)
        },
        RawCallView::Finished(raw.decoded.subrange(raw.offset, end)),
    )
}

/// Decodes more, where more is wanted and there may be more.
pub open spec fn fill(raw: RawView) -> (RawView, RawCallView) {
    let enough = match raw.amount {
        Some(amount) => raw.decoded.len() >= amount,
        None => false,
    };
    if raw.decoder_eof || enough {
        hand_out(raw)
    } else {
        (at_stage(raw, RawStage::LoopDecoder), RawCallView::FetchDecoder)
    }
}

/// How much may be decoded at once.
pub open spec fn decode_limit(raw: RawView) -> Option<usize> {
    match raw.amount {
        None => None,
        Some(amount) => {
            let missing = if amount > raw.decoded.len() {
                amount - raw.decoded.len()
            } else {
                0
            };
            Some(
                if missing > isize::MAX {
                    isize::MAX as usize
                } else {
                    missing as usize
                },
            )
        },
    }
}

/// Decodes bytes of the wire.
pub open spec fn decode(raw: RawView, wire: Seq<u8>) -> (RawView, RawCallView) {
    if raw.decoder is Missing {
        fill(RawView { decoded: raw.decoded + wire, ..raw })
    } else {
        (
            RawView {
                decode_started: raw.decode_started || raw.decoder is Bounded,
                ..at_stage(raw, RawStage::LoopDecode)
            },
            RawCallView::Decompress { wire, maximum: decode_limit(raw) },
        )
    }
}

/// Goes on with bytes of the wire; without any, the wire is at its end.
pub open spec fn after_wire(raw: RawView, wire: Seq<u8>) -> (RawView, RawCallView) {
    if wire.len() > 0 {
        decode(raw, wire)
    } else {
        let shut = RawView { open: false, ..raw };
        if raw.decode_failed || raw.decoder is Missing {
            hand_out(RawView { decoder_eof: true, ..shut })
        } else {
            (
                at_stage(shut, RawStage::LastDecode),
                RawCallView::Decompress { wire: Seq::empty(), maximum: None },
            )
        }
    }
}

/// Reads a piece of the wire to decode it.
pub open spec fn read_wire(raw: RawView) -> (RawView, RawCallView) {
    if raw.open {
        (at_stage(raw, RawStage::LoopRead), RawCallView::Read(WIRE_PIECE))
    } else {
        after_wire(raw, Seq::empty())
    }
}

/// Begins a read of so many bytes, or of all.
pub open spec fn begun(raw: RawView, amount: Option<usize>, decode_content: bool) -> (
    RawView,
    RawCallView,
) {
    if amount == Some(0usize) || raw.closed {
        (raw, RawCallView::Finished(Seq::empty()))
    } else {
        let reading = RawView { amount, ..raw };
        if decode_content {
            (at_stage(reading, RawStage::Choose), RawCallView::FetchDecoder)
        } else {
            read_plain(reading)
        }
    }
}

/// Goes on with a read.
pub open spec fn continued(raw: RawView, answer: RawAnswerView) -> (RawView, RawCallView) {
    match (raw.stage, answer) {
        (RawStage::Choose, RawAnswerView::Decoder(DecoderKind::Missing)) => read_plain(raw),
        (RawStage::Choose, RawAnswerView::Decoder(DecoderKind::Unbounded)) => read_unbounded(raw),
        (RawStage::Choose, RawAnswerView::Decoder(DecoderKind::Bounded)) => fill(compacted(raw)),
        (RawStage::LoopDecoder, RawAnswerView::Decoder(kind)) => {
            let known = RawView { decoder: kind, ..raw };
            if kind is Bounded {
                (at_stage(known, RawStage::LoopTail), RawCallView::AskTail)
            } else {
                read_wire(known)
            }
        },
        (RawStage::LoopTail, RawAnswerView::Tail(true)) => decode(raw, Seq::empty()),
        (RawStage::LoopTail, RawAnswerView::Tail(false)) => read_wire(raw),
        (RawStage::LoopRead, RawAnswerView::Wire(wire)) => after_wire(raw, wire),
        (RawStage::LoopRead, RawAnswerView::IoFailed { .. }) => (
            body_failed(raw),
            RawCallView::RaiseIo,
        ),
        (RawStage::LoopDecode, RawAnswerView::Decoded(bytes)) => fill(
            RawView { decoded: raw.decoded + bytes, ..raw },
        ),
        (RawStage::LastDecode, RawAnswerView::Decoded(bytes)) => (
            RawView { decoded: raw.decoded + bytes, ..at_stage(raw, RawStage::LastFlush) },
            RawCallView::Flush,
        ),
        (RawStage::LastFlush, RawAnswerView::Decoded(bytes)) => hand_out(
            RawView { decoded: raw.decoded + bytes, decoder_eof: true, ..raw },
        ),
        (RawStage::UnboundedRead, RawAnswerView::Wire(wire)) => if wire.len() == 0 {
            (read_to_end(raw), RawCallView::Finished(Seq::empty()))
        } else {
            (
                at_stage(raw, RawStage::UnboundedDecode),
                RawCallView::Decompress { wire, maximum: None },
            )
        },
        (RawStage::UnboundedRead, RawAnswerView::IoFailed { .. }) => (
            body_failed(raw),
            RawCallView::RaiseIo,
        ),
        (RawStage::UnboundedDecode, RawAnswerView::Decoded(bytes)) => if raw.amount is Some {
            (idle(raw), RawCallView::Finished(bytes))
        } else {
            (
                RawView { pending: bytes, ..at_stage(raw, RawStage::UnboundedLast) },
                RawCallView::Decompress { wire: Seq::empty(), maximum: None },
            )
        },
        (RawStage::UnboundedLast, RawAnswerView::Decoded(bytes)) => (
            RawView { pending: raw.pending + bytes, ..at_stage(raw, RawStage::UnboundedFlush) },
            RawCallView::Flush,
        ),
        (RawStage::UnboundedFlush, RawAnswerView::Decoded(bytes)) => (
            RawView { pending: Seq::empty(), ..read_to_end(raw) },
            RawCallView::Finished(raw.pending + bytes),
        ),
        (RawStage::LoopDecode, RawAnswerView::DecodeFailed)
        | (RawStage::LastDecode, RawAnswerView::DecodeFailed)
        | (RawStage::LastFlush, RawAnswerView::DecodeFailed)
        | (RawStage::UnboundedDecode, RawAnswerView::DecodeFailed)
        | (RawStage::UnboundedLast, RawAnswerView::DecodeFailed)
        | (RawStage::UnboundedFlush, RawAnswerView::DecodeFailed) => (
            RawView { decode_failed: true, ..idle(raw) },
            RawCallView::RaiseDecode,
        ),
        (RawStage::PlainRead, RawAnswerView::Wire(bytes)) => if bytes.len() == 0 {
            (
                RawView { closed: true, open: false, ..idle(raw) },
                RawCallView::Finished(bytes),
            )
        } else {
            (idle(raw), RawCallView::Finished(bytes))
        },
        (RawStage::PlainRead, RawAnswerView::IoFailed { suppressed }) => (
            body_failed(raw),
            if suppressed {
                RawCallView::Finished(Seq::empty())
            } else {
                RawCallView::RaiseIo
            },
        ),
        _ => (idle(raw), RawCallView::RaiseCurrent),
    }
}

impl RawBody {
    /// A body of which nothing was handed out beyond what was decoded.
    pub open spec fn well_formed(&self) -> bool {
        self.offset <= self.decoded@.len()
    }

    /// A body that was just received.
    pub fn new() -> (raw: Self)
        ensures
            raw.well_formed(),
            raw@.open,
            !raw@.closed,
            !raw@.decoder_eof,
            !raw@.decode_started,
            !raw@.decode_failed,
            raw@.decoded == Seq::<u8>::empty(),
            raw@.offset == 0,
            raw@.stage is Idle,
    {
        RawBody {
            open: true,
            decoded: Vec::new(),
            offset: 0,
            decoder_eof: false,
            decode_started: false,
            decode_failed: false,
            closed: false,
            stage: RawStage::Idle,
            amount: None,
            decoder: DecoderKind::Missing,
            pending: Vec::new(),
        }
    }

    /// Nothing is left after the wire failed.
    fn finish_body_failure(&mut self)
        ensures
            final(self)@ == body_failed(old(self)@),
            final(self).well_formed(),
    {
        self.open = false;
        self.closed = true;
        self.decoder_eof = true;
        self.decoded = Vec::new();
        self.offset = 0;
        self.stage = RawStage::Idle;
        assert(self.decoded@ =~= Seq::<u8>::empty());
    }

    /// Asks for bytes of the wire.
    fn ask_wire(&self) -> (call: RawCall)
        ensures
            call@ == wire_call(self@.amount),
    {
        match self.amount {
            Some(amount) => RawCall::Read(amount),
            None => RawCall::ReadAll,
        }
    }

    /// Reads without decoding.
    fn plain(&mut self) -> (call: RawCall)
        requires
            old(self).well_formed(),
        ensures
            (final(self)@, call@) == read_plain(old(self)@),
            final(self).well_formed(),
    {
        if self.decode_started {
            self.stage = RawStage::Idle;
            return RawCall::RaiseStarted;
        }
        if !self.open {
            self.stage = RawStage::Idle;
            self.closed = true;
            let nothing: Vec<u8> = Vec::new();
            assert(nothing@ =~= Seq::<u8>::empty());
            return RawCall::Finished(nothing);
        }
        self.stage = RawStage::PlainRead;
        self.ask_wire()
    }

    /// The body is at its end.
    fn end(&mut self)
        requires
            old(self).well_formed(),
        ensures
            final(self)@ == read_to_end(old(self)@),
            final(self).well_formed(),
    {
        self.open = false;
        self.decoder_eof = true;
        self.closed = true;
        self.stage = RawStage::Idle;
    }

    /// Reads through a decoder that decodes all that it is given.
    fn unbounded(&mut self) -> (call: RawCall)
        requires
            old(self).well_formed(),
        ensures
            (final(self)@, call@) == read_unbounded(old(self)@),
            final(self).well_formed(),
    {
        if !self.open {
            self.end();
            let nothing: Vec<u8> = Vec::new();
            assert(nothing@ =~= Seq::<u8>::empty());
            return RawCall::Finished(nothing);
        }
        self.stage = RawStage::UnboundedRead;
        self.ask_wire()
    }

    /// Drops what was handed out.
    fn compact(&mut self)
        requires
            old(self).well_formed(),
        ensures
            final(self)@ == compacted(old(self)@),
            final(self).well_formed(),
    {
        let kept = piece(&self.decoded, self.offset, self.decoded.len());
        assert(kept@ =~= self.decoded@.skip(self.offset as int));
        self.decoded = kept;
        self.offset = 0;
    }

    /// Hands out what was asked for, or all that there is.
    fn give(&mut self) -> (call: RawCall)
        requires
            old(self).well_formed(),
        ensures
            (final(self)@, call@) == hand_out(old(self)@),
            final(self).well_formed(),
    {
        let left: usize = self.decoded.len() - self.offset;
        let end: usize = match self.amount {
            Some(amount) => if amount < left {
                self.offset + amount
            } else {
                self.decoded.len()
            },
            None => self.decoded.len(),
        };
        let bytes = piece(&self.decoded, self.offset, end);
        self.offset = end;
        if self.decoder_eof && end == self.decoded.len() {
            self.closed = true;
        }
        self.stage = RawStage::Idle;
        RawCall::Finished(bytes)
    }

    /// Decodes more, where more is wanted and there may be more.
    fn fill_decoded_bounded(&mut self) -> (call: RawCall)
        requires
            old(self).well_formed(),
        ensures
            (final(self)@, call@) == fill(old(self)@),
            final(self).well_formed(),
    {
        let enough = match self.amount {
            Some(amount) => self.decoded.len() >= amount,
            None => false,
        };
        if self.decoder_eof || enough {
            return self.give();
        }
        self.stage = RawStage::LoopDecoder;
        RawCall::FetchDecoder
    }

    /// Takes decoded bytes in.
    fn take_in(&mut self, bytes: Vec<u8>)
        requires
            old(self).well_formed(),
        ensures
            final(self)@ == (RawView { decoded: old(self)@.decoded + bytes@, ..old(self)@ }),
            final(self).well_formed(),
    {
        let mut more = bytes;
        self.decoded.append(&mut more);
    }

    /// Decodes bytes of the wire.
    fn decode_wire(&mut self, wire: Vec<u8>) -> (call: RawCall)
        requires
            old(self).well_formed(),
        ensures
            (final(self)@, call@) == decode(old(self)@, wire@),
            final(self).well_formed(),
    {
        match self.decoder {
            DecoderKind::Missing => {
                self.take_in(wire);
                return self.fill_decoded_bounded();
            },
            DecoderKind::Bounded => {
                self.decode_started = true;
            },
            DecoderKind::Unbounded => {},
        }
        let maximum: Option<usize> = match self.amount {
            None => None,
            Some(amount) => {
                let missing: usize = if amount > self.decoded.len() {
                    amount - self.decoded.len()
                } else {
                    0
                };
                Some(
                    if missing > isize::MAX as usize {
                        isize::MAX as usize
                    } else {
                        missing
                    },
                )
            },
        };
        self.stage = RawStage::LoopDecode;
        RawCall::Decompress { wire, maximum }
    }

    /// Goes on with bytes of the wire.
    fn take_wire(&mut self, wire: Vec<u8>) -> (call: RawCall)
        requires
            old(self).well_formed(),
        ensures
            (final(self)@, call@) == after_wire(old(self)@, wire@),
            final(self).well_formed(),
    {
        if wire.len() > 0 {
            return self.decode_wire(wire);
        }
        self.open = false;
        let undecoded = match self.decoder {
            DecoderKind::Missing => true,
            _ => false,
        };
        if self.decode_failed || undecoded {
            self.decoder_eof = true;
            return self.give();
        }
        self.stage = RawStage::LastDecode;
        assert(wire@ =~= Seq::<u8>::empty());
        RawCall::Decompress { wire, maximum: None }
    }

    /// Reads a piece of the wire to decode it.
    fn want_wire(&mut self) -> (call: RawCall)
        requires
            old(self).well_formed(),
        ensures
            (final(self)@, call@) == read_wire(old(self)@),
            final(self).well_formed(),
    {
        if self.open {
            self.stage = RawStage::LoopRead;
            return RawCall::Read(WIRE_PIECE);
        }
        let nothing: Vec<u8> = Vec::new();
        assert(nothing@ =~= Seq::<u8>::empty());
        self.take_wire(nothing)
    }

    /// The decoder failed.
    fn decoder_failed(&mut self) -> (call: RawCall)
        requires
            old(self).well_formed(),
        ensures
            (final(self)@, call@) == (
                RawView { decode_failed: true, ..idle(old(self)@) },
                RawCallView::RaiseDecode,
            ),
            final(self).well_formed(),
    {
        self.decode_failed = true;
        self.stage = RawStage::Idle;
        RawCall::RaiseDecode
    }

    /// Begins a read of so many bytes, or of all.
    pub fn read_amount(&mut self, amount: Option<usize>, decode_content: bool) -> (call: RawCall)
        requires
            old(self).well_formed(),
        ensures
            (final(self)@, call@) == begun(old(self)@, amount, decode_content),
            final(self).well_formed(),
    {
        let nothing_wanted = match amount {
            Some(amount) => amount == 0,
            None => false,
        };
        if nothing_wanted || self.closed {
            let nothing: Vec<u8> = Vec::new();
            assert(nothing@ =~= Seq::<u8>::empty());
            return RawCall::Finished(nothing);
        }
        self.amount = amount;
        if decode_content {
            self.stage = RawStage::Choose;
            return RawCall::FetchDecoder;
        }
        self.plain()
    }

    /// Goes on with a read.
    pub fn proceed(&mut self, answer: RawAnswer) -> (call: RawCall)
        requires
            old(self).well_formed(),
        ensures
            (final(self)@, call@) == continued(old(self)@, answer@),
            final(self).well_formed(),
    {
        match (self.stage, answer) {
            (RawStage::Choose, RawAnswer::Decoder(DecoderKind::Missing)) => self.plain(),
            (RawStage::Choose, RawAnswer::Decoder(DecoderKind::Unbounded)) => self.unbounded(),
            (RawStage::Choose, RawAnswer::Decoder(DecoderKind::Bounded)) => {
                self.compact();
                self.fill_decoded_bounded()
            },
            (RawStage::LoopDecoder, RawAnswer::Decoder(kind)) => {
                self.decoder = kind;
                match kind {
                    DecoderKind::Bounded => {
                        self.stage = RawStage::LoopTail;
                        RawCall::AskTail
                    },
                    _ => self.want_wire(),
                }
            },
            (RawStage::LoopTail, RawAnswer::Tail(kept)) => if kept {
                let nothing: Vec<u8> = Vec::new();
                assert(nothing@ =~= Seq::<u8>::empty());
                self.decode_wire(nothing)
            } else {
                self.want_wire()
            },
            (RawStage::LoopRead, RawAnswer::Wire(wire)) => self.take_wire(wire),
            (RawStage::LoopRead, RawAnswer::IoFailed { .. })
            | (RawStage::UnboundedRead, RawAnswer::IoFailed { .. }) => {
                self.finish_body_failure();
                RawCall::RaiseIo
            },
            (RawStage::LoopDecode, RawAnswer::Decoded(bytes)) => {
                self.take_in(bytes);
                self.fill_decoded_bounded()
            },
            (RawStage::LastDecode, RawAnswer::Decoded(bytes)) => {
                self.take_in(bytes);
                self.stage = RawStage::LastFlush;
                RawCall::Flush
            },
            (RawStage::LastFlush, RawAnswer::Decoded(bytes)) => {
                self.take_in(bytes);
                self.decoder_eof = true;
                self.give()
            },
            (RawStage::UnboundedRead, RawAnswer::Wire(wire)) => {
                if wire.len() == 0 {
                    self.end();
                    let nothing: Vec<u8> = Vec::new();
                    assert(nothing@ =~= Seq::<u8>::empty());
                    return RawCall::Finished(nothing);
                }
                self.stage = RawStage::UnboundedDecode;
                RawCall::Decompress { wire, maximum: None }
            },
            (RawStage::UnboundedDecode, RawAnswer::Decoded(bytes)) => {
                if self.amount.is_some() {
                    self.stage = RawStage::Idle;
                    return RawCall::Finished(bytes);
                }
                self.pending = bytes;
                self.stage = RawStage::UnboundedLast;
                let nothing: Vec<u8> = Vec::new();
                assert(nothing@ =~= Seq::<u8>::empty());
                RawCall::Decompress { wire: nothing, maximum: None }
            },
            (RawStage::UnboundedLast, RawAnswer::Decoded(bytes)) => {
                let mut more = bytes;
                self.pending.append(&mut more);
                self.stage = RawStage::UnboundedFlush;
                RawCall::Flush
            },
            (RawStage::UnboundedFlush, RawAnswer::Decoded(bytes)) => {
                let mut more = bytes;
                let mut all: Vec<u8> = Vec::new();
                std::mem::swap(&mut all, &mut self.pending);
                all.append(&mut more);
                assert(self.pending@ =~= Seq::<u8>::empty());
                self.end();
                RawCall::Finished(all)
            },
            (RawStage::LoopDecode, RawAnswer::DecodeFailed)
            | (RawStage::LastDecode, RawAnswer::DecodeFailed)
            | (RawStage::LastFlush, RawAnswer::DecodeFailed)
            | (RawStage::UnboundedDecode, RawAnswer::DecodeFailed)
            | (RawStage::UnboundedLast, RawAnswer::DecodeFailed)
            | (RawStage::UnboundedFlush, RawAnswer::DecodeFailed) => self.decoder_failed(),
            (RawStage::PlainRead, RawAnswer::Wire(bytes)) => {
                self.stage = RawStage::Idle;
                if bytes.len() == 0 {
                    self.closed = true;
                    self.open = false;
                }
                RawCall::Finished(bytes)
            },
            (RawStage::PlainRead, RawAnswer::IoFailed { suppressed }) => {
                self.finish_body_failure();
                if suppressed {
                    let nothing: Vec<u8> = Vec::new();
                    assert(nothing@ =~= Seq::<u8>::empty());
                    RawCall::Finished(nothing)
                } else {
                    RawCall::RaiseIo
                }
            },
            _ => {
                self.stage = RawStage::Idle;
                RawCall::RaiseCurrent
            },
        }
    }

    /// Closes the body; tells whether the wire has to be closed.
    pub fn close(&mut self) -> (close_wire: bool)
        requires
            old(self).well_formed(),
        ensures
            close_wire == old(self)@.open,
            final(self)@ == (RawView {
                open: false,
                closed: true,
                decoder_eof: old(self)@.decoder_eof || old(self)@.open,
                ..old(self)@
            }),
            final(self).well_formed(),
    {
        let close_wire = self.open;
        if close_wire {
            self.open = false;
            self.decoder_eof = true;
        }
        self.closed = true;
        close_wire
    }

    /// How much was decoded and not handed out.
    pub fn retained_decoded_bytes(&self) -> (count: usize)
        requires
            self.well_formed(),
        ensures
            count == retained(self@).len(),
    {
        self.decoded.len() - self.offset
    }
}

/// A piece of a byte string.
pub fn piece(bytes: &Vec<u8>, from: usize, to: usize) -> (part: Vec<u8>)
    requires
        from <= to <= bytes@.len(),
    ensures
        part@ == bytes@.subrange(from as int, to as int),
{
    let mut part: Vec<u8> = Vec::new();
    let mut index: usize = from;
    while index < to
        invariant
            from <= index <= to <= bytes@.len(),
            part@ == bytes@.subrange(from as int, index as int),
        decreases to - index,
    {
        part.push(bytes[index]);
        index = index + 1;
        assert(part@ =~= bytes@.subrange(from as int, index as int));
    }
    part
}

/// The message for undecoded bytes that are asked for too late.
pub fn decode_started_message() -> (text: String)
    ensures
        text@
            == "Calling read(decode_content=False) is not supported after read(decode_content=True) was called."@,
{
    String::from_str(
        "Calling read(decode_content=False) is not supported after read(decode_content=True) was called.",
    )
}

/// Whether a body that is cut short ends as if it were whole: `urllib3` 1.26
/// does not tell. Where the version cannot be read, it is told.
pub fn suppresses_urllib3_126_incomplete(incomplete: bool, version: Option<&str>) -> (suppressed:
    bool)
    ensures
        suppressed == (incomplete && match version {
            Some(version) => "1.26."@.is_prefix_of(version@),
            None => false,
        }),
{
    match version {
        Some(version) => incomplete && !urllib3_v2(version),
        None => false,
    }
}

/// How much an `amt` argument asks for: all, where it is missing or negative.
pub fn read_size(amount: Option<isize>) -> (size: Option<usize>)
    ensures
        size == (match amount {
            None => None,
            Some(amount) => if amount < 0 {
                None
            } else {
                Some(amount as usize)
            },
        }),
{
    match amount {
        None => None,
        Some(amount) => if amount < 0 {
            None
        } else {
            Some(amount as usize)
        },
    }
}

/// Whether a response's content can be decoded: its encoding is supported, or it
/// names several of which one is.
pub open spec fn is_decodable(encoding: Seq<char>, decoders: Seq<String>) -> bool {
    lists_text(decoders, lowered(encoding)) || (pieces(lowered(encoding), ',').len() > 1 && exists|
        index: int,
    |
        0 <= index < pieces(lowered(encoding), ',').len() && lists_text(
            decoders,
            stripped(#[trigger] pieces(lowered(encoding), ',')[index]),
        ))
}

/// Whether a response's content can be decoded.
pub fn decoder_is_wanted(encoding: Option<&str>, decoders: &Vec<String>) -> (wanted: bool)
    ensures
        wanted == (encoding matches Some(encoding) && is_decodable(encoding@, decoders@)),
{
    match encoding {
        None => false,
        Some(text) => {
            let lower = lower_text(text);
            if list_contains(decoders, lower.as_str()) {
                return true;
            }
            let parts = split_on(lower.as_str(), ',');
            let ghost expected = pieces(lowered(text@), ',');
            assert(text_views(parts@) == expected);
            assert(expected.len() == parts@.len());
            if parts.len() <= 1 {
                return false;
            }
            let mut index: usize = 0;
            while index < parts.len()
                invariant
                    index <= parts.len(),
                    parts.len() > 1,
                    encoding == Some(text),
                    expected == pieces(lowered(text@), ','),
                    text_views(parts@) == expected,
                    !lists_text(decoders@, lowered(text@)),
                    forall|i: int|
                        0 <= i < index ==> !lists_text(
                            decoders@,
                            stripped(#[trigger] expected[i]),
                        ),
                decreases parts.len() - index,
            {
                assert(expected[index as int] == parts@[index as int]@);
                if list_contains(decoders, strip_space(parts[index].as_str())) {
                    assert(lists_text(decoders@, stripped(expected[index as int])));
                    return true;
                }
                index = index + 1;
            }
            false
        },
    }
}

/// What an iteration over a body does next.
#[derive(Clone, Copy, Debug, PartialEq, Eq, Structural)]
pub enum StreamStep {
    /// Read once more.
    Read,
    /// Hand the bytes out.
    Yield,
    /// There is nothing more.
    Stop,
}

/// An iteration over a body.
#[derive(Clone, Copy, Debug, PartialEq, Eq, Structural)]
pub struct RawStream {
    pub amount: Option<usize>,
    pub decode_content: bool,
    pub done: bool,
}

impl RawStream {
    /// Begins to ask for the next piece.
    pub fn begin_next(&mut self) -> (step: StreamStep)
        ensures
            step == (if old(self).done || old(self).amount == Some(0usize) {
                StreamStep::Stop
            } else {
                StreamStep::Read
            }),
            *final(self) == (RawStream {
                done: old(self).done || old(self).amount == Some(0usize),
                ..*old(self)
            }),
    {
        if self.done {
            return StreamStep::Stop;
        }
        let empty = match self.amount {
            Some(amount) => amount == 0,
            None => false,
        };
        if empty {
            self.done = true;
            StreamStep::Stop
        } else {
            StreamStep::Read
        }
    }

    /// Goes on after a read: an empty one ends the iteration only where the body
    /// is closed.
    pub fn after_read(&mut self, length: usize, closed: bool) -> (step: StreamStep)
        ensures
            step == (if length != 0 {
                StreamStep::Yield
            } else if closed {
                StreamStep::Stop
            } else {
                StreamStep::Read
            }),
            *final(self) == (RawStream {
                done: old(self).done || (length == 0 && closed),
                ..*old(self)
            }),
    {
        if length != 0 {
            StreamStep::Yield
        } else if closed {
            self.done = true;
            StreamStep::Stop
        } else {
            StreamStep::Read
        }
    }
}

/// Handing bytes out loses none and repeats none: what is handed out and what is
/// kept make up what was kept before, and no more is handed out than was asked
/// for.
pub proof fn law_no_byte_is_lost(raw: RawView)
    requires
        0 <= raw.offset <= raw.decoded.len(),
    ensures
        hand_out(raw).1 matches RawCallView::Finished(bytes) && bytes + retained(hand_out(raw).0)
            == retained(raw),
        hand_out(raw).1 matches RawCallView::Finished(bytes) && (raw.amount matches Some(amount)
            ==> bytes.len() <= amount),
        retained(compacted(raw)) == retained(raw),
{
    let end = hand_out_end(raw);
    assert(raw.decoded.subrange(raw.offset, end) + raw.decoded.skip(end) =~= raw.decoded.skip(
        raw.offset,
    ));
    assert(retained(raw).skip(0) =~= retained(raw));
}

/// What a decoder gives is appended to what is kept, whatever is handed out of
/// it at once.
pub proof fn law_decoded_bytes_are_kept_in_order(raw: RawView, bytes: Seq<u8>)
    requires
        raw.stage is LoopDecode,
        0 <= raw.offset <= raw.decoded.len(),
    ensures
        ({
            let (after, call) = continued(raw, RawAnswerView::Decoded(bytes));
            match call {
                RawCallView::Finished(given) => given + retained(after) == retained(raw) + bytes,
                _ => retained(after) == retained(raw) + bytes,
            }
        }),
{
    let taken = RawView { decoded: raw.decoded + bytes, ..raw };
    assert(retained(taken) =~= retained(raw) + bytes);
    law_no_byte_is_lost(taken);
}

/// A closed body gives nothing more and stays closed.
pub proof fn law_closed_body_is_empty(raw: RawView, amount: Option<usize>, decode_content: bool)
    requires
        raw.closed,
    ensures
        begun(raw, amount, decode_content) == (raw, RawCallView::Finished(Seq::<u8>::empty())),
{
}

/// The content that an answer brings: what a decoder gives, and what the wire
/// gives where nothing decodes it.
pub open spec fn brought(raw: RawView, answer: RawAnswerView) -> Seq<u8> {
    match answer {
        RawAnswerView::Decoded(bytes) => bytes,
        RawAnswerView::Wire(bytes) => if raw.stage is PlainRead || (raw.stage is LoopRead
            && raw.decoder is Missing) {
            bytes
        } else {
            Seq::empty()
        },
        _ => Seq::empty(),
    }
}

/// The bytes that a call hands out.
pub open spec fn handed(call: RawCallView) -> Seq<u8> {
    match call {
        RawCallView::Finished(bytes) => bytes,
        _ => Seq::empty(),
    }
}

/// The content that came in and was not handed out.
pub open spec fn kept(raw: RawView) -> Seq<u8> {
    if raw.stage is UnboundedLast || raw.stage is UnboundedFlush {
        retained(raw) + raw.pending
    } else {
        retained(raw)
    }
}

/// Whether an answer is one that a stage waits for, and no failure, where the
/// content has this decoder.
pub open spec fn is_awaited(stage: RawStage, answer: RawAnswerView, kind: DecoderKind) -> bool {
    match stage {
        RawStage::Idle => false,
        RawStage::Choose | RawStage::LoopDecoder => answer == RawAnswerView::Decoder(kind),
        RawStage::LoopTail => answer is Tail,
        RawStage::LoopRead | RawStage::UnboundedRead | RawStage::PlainRead => answer is Wire,
        _ => answer is Decoded,
    }
}

/// Whether a read goes through a decoder that may keep bytes.
pub open spec fn is_bounded_stage(stage: RawStage) -> bool {
    stage is LoopDecoder || stage is LoopTail || stage is LoopRead || stage is LoopDecode || stage
        is LastDecode || stage is LastFlush
}

/// Whether a read goes through a decoder that decodes all at once.
pub open spec fn is_unbounded_stage(stage: RawStage) -> bool {
    stage is UnboundedRead || stage is UnboundedDecode || stage is UnboundedLast || stage
        is UnboundedFlush
}

/// What holds of a body that is always read in the same manner.
pub open spec fn is_steady(raw: RawView, kind: DecoderKind, decode_content: bool) -> bool {
    let bounded = decode_content && kind is Bounded;
    &&& 0 <= raw.offset <= raw.decoded.len()
    &&& !bounded ==> raw.decoded.len() == 0
    &&& is_bounded_stage(raw.stage) ==> bounded && raw.offset == 0
    &&& is_bounded_stage(raw.stage) && !(raw.stage is LoopDecoder) ==> raw.decoder == kind
    &&& is_unbounded_stage(raw.stage) ==> decode_content && kind is Unbounded
    &&& raw.stage is PlainRead ==> !decode_content || kind is Missing
    &&& raw.stage is Choose ==> decode_content
    &&& raw.closed ==> raw.stage is Idle && retained(raw).len() == 0
}

/// One answer loses no byte, repeats none and changes no order: what is handed
/// out and what is kept make up what was kept before and what came in.
pub proof fn law_bytes_are_conserved(
    raw: RawView,
    answer: RawAnswerView,
    kind: DecoderKind,
    decode_content: bool,
)
    requires
        is_steady(raw, kind, decode_content),
        is_awaited(raw.stage, answer, kind),
    ensures
        ({
            let (after, call) = continued(raw, answer);
            &&& handed(call) + kept(after) == kept(raw) + brought(raw, answer)
            &&& is_steady(after, kind, decode_content)
            &&& call is Finished ==> after.stage is Idle
        }),
{
    let none = Seq::<u8>::empty();
    let more = brought(raw, answer);
    match raw.stage {
        RawStage::Choose => {
            assert(retained(compacted(raw)) =~= retained(raw));
            if kind is Bounded {
                lemma_fill(compacted(raw), kind, decode_content);
            }
            lemma_nothing_brought(raw, answer);
        },
        RawStage::LoopDecoder | RawStage::LoopTail => {
            lemma_after_wire(RawView { decoder: kind, ..raw }, none, kind, decode_content);
            lemma_nothing_brought(raw, answer);
        },
        RawStage::LoopRead => {
            lemma_after_wire(raw, answer->Wire_0, kind, decode_content);
            lemma_nothing_brought(raw, answer);
        },
        RawStage::LoopDecode | RawStage::LastDecode | RawStage::LastFlush => {
            let taken = RawView { decoded: raw.decoded + more, ..raw };
            assert(retained(taken) =~= retained(raw) + more);
            lemma_fill(taken, kind, decode_content);
            lemma_hand_out(RawView { decoder_eof: true, ..taken }, kind, decode_content);
            assert(none + retained(taken) =~= retained(taken));
        },
        _ => {
            assert(retained(raw) =~= none);
            let (after, call) = continued(raw, answer);
            assert(retained(after) =~= none);
            assert(handed(call) + kept(after) =~= kept(raw) + more);
        },
    }
}

/// Nothing changes where nothing is handed out and nothing comes in.
proof fn lemma_nothing_brought(raw: RawView, answer: RawAnswerView)
    ensures
        kept(raw) + Seq::<u8>::empty() == kept(raw),
        Seq::<u8>::empty() + kept(raw) == kept(raw),
        Seq::<u8>::empty() + kept(continued(raw, answer).0) == kept(continued(raw, answer).0),
{
    assert(kept(raw) + Seq::<u8>::empty() =~= kept(raw));
    assert(Seq::<u8>::empty() + kept(raw) =~= kept(raw));
    assert(Seq::<u8>::empty() + kept(continued(raw, answer).0) =~= kept(continued(raw, answer).0));
}

/// Handing out keeps a body steady.
proof fn lemma_hand_out(raw: RawView, kind: DecoderKind, decode_content: bool)
    requires
        is_steady(idle(raw), kind, decode_content),
        !raw.closed,
    ensures
        handed(hand_out(raw).1) + kept(hand_out(raw).0) == retained(raw),
        is_steady(hand_out(raw).0, kind, decode_content),
        hand_out(raw).0.stage is Idle,
{
    law_no_byte_is_lost(raw);
}

/// Going on to decode keeps a body steady.
proof fn lemma_fill(raw: RawView, kind: DecoderKind, decode_content: bool)
    requires
        is_steady(idle(raw), kind, decode_content),
        raw.offset == 0,
        decode_content,
        kind is Bounded,
        !raw.closed,
    ensures
        handed(fill(raw).1) + kept(fill(raw).0) == retained(raw),
        is_steady(fill(raw).0, kind, decode_content),
        fill(raw).1 is Finished ==> fill(raw).0.stage is Idle,
{
    lemma_hand_out(raw, kind, decode_content);
    assert(Seq::<u8>::empty() + retained(raw) =~= retained(raw));
}

/// Bytes of the wire for a decoder leave what is kept as it was.
proof fn lemma_after_wire(raw: RawView, wire: Seq<u8>, kind: DecoderKind, decode_content: bool)
    requires
        is_steady(raw, kind, decode_content),
        is_bounded_stage(raw.stage),
        raw.decoder == kind,
    ensures
        handed(after_wire(raw, wire).1) + kept(after_wire(raw, wire).0) == retained(raw),
        is_steady(after_wire(raw, wire).0, kind, decode_content),
        after_wire(raw, wire).1 is Finished ==> after_wire(raw, wire).0.stage is Idle,
{
    lemma_hand_out(RawView { decoder_eof: true, open: false, ..raw }, kind, decode_content);
    assert(Seq::<u8>::empty() + retained(raw) =~= retained(raw));
}

/// A read that begins, or an answer that it gets.
pub enum RawMove {
    Read(Option<usize>),
    Told(RawAnswerView),
}

/// A body, what was handed out of it, and the content that came in.
pub struct RawCourse {
    pub raw: RawView,
    pub handed: Seq<u8>,
    pub brought: Seq<u8>,
}

/// What the body and the bytes are after a list of reads and answers.
pub open spec fn raw_course(start: RawView, decode_content: bool, moves: Seq<RawMove>) -> RawCourse
    decreases moves.len(),
{
    if moves.len() == 0 {
        RawCourse { raw: start, handed: Seq::empty(), brought: Seq::empty() }
    } else {
        let before = raw_course(start, decode_content, moves.drop_last());
        let (raw, call) = match moves.last() {
            RawMove::Read(amount) => begun(before.raw, amount, decode_content),
            RawMove::Told(answer) => continued(before.raw, answer),
        };
        RawCourse {
            raw,
            handed: before.handed + handed(call),
            brought: match moves.last() {
                RawMove::Read(_) => before.brought,
                RawMove::Told(answer) => before.brought + brought(before.raw, answer),
            },
        }
    }
}

/// Whether each read begins when none goes on, and each answer is awaited.
pub open spec fn is_raw_course(
    start: RawView,
    decode_content: bool,
    kind: DecoderKind,
    moves: Seq<RawMove>,
) -> bool
    decreases moves.len(),
{
    moves.len() == 0 || {
        let before = raw_course(start, decode_content, moves.drop_last()).raw;
        &&& is_raw_course(start, decode_content, kind, moves.drop_last())
        &&& match moves.last() {
            RawMove::Read(_) => before.stage is Idle,
            RawMove::Told(answer) => is_awaited(before.stage, answer, kind),
        }
    }
}

/// The beginning of a read hands nothing out.
proof fn lemma_begun(
    raw: RawView,
    amount: Option<usize>,
    kind: DecoderKind,
    decode_content: bool,
)
    requires
        is_steady(raw, kind, decode_content),
        raw.stage is Idle,
    ensures
        handed(begun(raw, amount, decode_content).1) == Seq::<u8>::empty(),
        kept(begun(raw, amount, decode_content).0) == kept(raw),
        is_steady(begun(raw, amount, decode_content).0, kind, decode_content),
{
}

/// Two steps of a course make up one.
proof fn lemma_joined(
    out: Seq<u8>,
    handed: Seq<u8>,
    left: Seq<u8>,
    kept: Seq<u8>,
    brought: Seq<u8>,
)
    requires
        handed + left == kept + brought,
    ensures
        (out + handed) + left == (out + kept) + brought,
{
    assert((out + handed) + left =~= out + (handed + left));
    assert((out + kept) + brought =~= out + (kept + brought));
}

/// Over all reads of a body, decoded or not: what was handed out, followed by what
/// is kept, is all the content that came in, in its order. Once the body is
/// closed nothing is kept, so that exactly that content was handed out.
pub proof fn law_all_content_is_handed_out(
    start: RawView,
    decode_content: bool,
    kind: DecoderKind,
    moves: Seq<RawMove>,
)
    requires
        start.stage is Idle,
        !start.closed,
        start.decoded.len() == 0,
        start.offset == 0,
        is_raw_course(start, decode_content, kind, moves),
    ensures
        ({
            let end = raw_course(start, decode_content, moves);
            &&& end.handed + kept(end.raw) == end.brought
            &&& end.raw.closed ==> end.handed == end.brought
            &&& is_steady(end.raw, kind, decode_content)
        }),
    decreases moves.len(),
{
    let none = Seq::<u8>::empty();
    let end = raw_course(start, decode_content, moves);
    if moves.len() == 0 {
        assert(kept(start) =~= none);
        assert(none + none =~= none);
    } else {
        let before = raw_course(start, decode_content, moves.drop_last());
        law_all_content_is_handed_out(start, decode_content, kind, moves.drop_last());
        match moves.last() {
            RawMove::Read(amount) => {
                lemma_begun(before.raw, amount, kind, decode_content);
                assert(before.handed + none =~= before.handed);
            },
            RawMove::Told(answer) => {
                let (raw, call) = continued(before.raw, answer);
                law_bytes_are_conserved(before.raw, answer, kind, decode_content);
                lemma_joined(
                    before.handed,
                    handed(call),
                    kept(raw),
                    kept(before.raw),
                    brought(before.raw, answer),
                );
            },
        }
    }
    if end.raw.closed {
        assert(kept(end.raw) =~= none);
        assert(end.handed + none =~= end.handed);
    }
}

/// A read through a decoder that may keep bytes gives exactly as much as was
/// asked for. It gives less only where the content is at its end, and the body is
/// then closed; asked for everything, it gives everything and closes the body.
pub proof fn law_reads_give_what_was_asked(raw: RawView, answer: RawAnswerView)
    requires
        is_steady(raw, DecoderKind::Bounded, true),
        is_awaited(raw.stage, answer, DecoderKind::Bounded),
    ensures
        ({
            let (after, call) = continued(raw, answer);
            call matches RawCallView::Finished(bytes) ==> match raw.amount {
                Some(amount) => bytes.len() == amount || (bytes.len() < amount && after.closed),
                None => after.closed,
            }
        }),
        ({
            let (after, call) = continued(raw, answer);
            after.closed ==> after.decoder_eof && retained(after).len() == 0
        }),
{
}

/// Every byte of the wire goes to the decoder as it came, and no more is asked of
/// the decoder than is still missing. At the end of the wire the decoder is asked
/// for what it keeps, and then flushed, before the content counts as complete.
pub proof fn law_the_wire_goes_through_the_decoder(raw: RawView, bytes: Seq<u8>)
    requires
        is_steady(raw, DecoderKind::Bounded, true),
    ensures
        raw.stage is LoopRead && bytes.len() > 0 ==> {
            let (after, call) = continued(raw, RawAnswerView::Wire(bytes));
            &&& call matches RawCallView::Decompress { wire, maximum } && wire == bytes && match (
                raw.amount,
                maximum,
            ) {
                (None, None) => true,
                (Some(amount), Some(maximum)) => kept(raw).len() + maximum <= amount
                    || maximum == 0,
                _ => false,
            }
            &&& after.decode_started
            &&& after.stage is LoopDecode
        },
        raw.stage is LoopRead && !raw.decode_failed ==> {
            let (after, call) = continued(raw, RawAnswerView::Wire(Seq::empty()));
            &&& call == RawCallView::Decompress { wire: Seq::empty(), maximum: None }
            &&& !after.open
            &&& continued(after, RawAnswerView::Decoded(bytes)).1 == RawCallView::Flush
        },
        raw.stage is LastFlush ==> {
            let (after, call) = continued(raw, RawAnswerView::Decoded(bytes));
            after.decoder_eof && call is Finished
        },
        is_bounded_stage(raw.stage) && !(raw.stage is LastFlush) && continued(
            raw,
            RawAnswerView::Decoded(bytes),
        ).0.decoder_eof ==> raw.decoder_eof,
{
}

/// What a failure leaves. A decoder that fails loses nothing of what was decoded
/// before it, and raises its error. A wire that fails closes the body, with
/// nothing left, and raises its error, unless an undecoded body that is cut short
/// passes for whole. Undecoded bytes are refused once decoding has begun.
pub proof fn law_failures_of_a_body(raw: RawView, suppressed: bool, amount: Option<usize>)
    requires
        0 <= raw.offset <= raw.decoded.len(),
    ensures
        raw.stage is LoopDecode || raw.stage is LastDecode || raw.stage is LastFlush || raw.stage
            is UnboundedDecode || raw.stage is UnboundedLast || raw.stage is UnboundedFlush ==> {
            let (after, call) = continued(raw, RawAnswerView::DecodeFailed);
            call is RaiseDecode && after.decode_failed && retained(after) == retained(raw)
                && after.closed == raw.closed && after.stage is Idle
        },
        raw.stage is LoopRead || raw.stage is UnboundedRead || raw.stage is PlainRead ==> {
            let (after, call) = continued(raw, RawAnswerView::IoFailed { suppressed });
            &&& after.closed && !after.open && retained(after).len() == 0 && after.stage is Idle
            &&& if raw.stage is PlainRead && suppressed {
                call == RawCallView::Finished(Seq::empty())
            } else {
                call is RaiseIo
            }
        },
        !raw.closed && amount != Some(0usize) && raw.decode_started ==> begun(
            raw,
            amount,
            false,
        ).1 is RaiseStarted,
        begun(raw, amount, false).1 is RaiseStarted ==> raw.decode_started,
{
}

/// An undecoded read asks the wire for exactly what the caller asks for, and
/// hands that out as it came. It closes the body only at the end of the wire.
pub proof fn law_undecoded_reads_ask_the_wire(
    raw: RawView,
    amount: Option<usize>,
    bytes: Seq<u8>,
    size: usize,
)
    requires
        raw.stage is Idle,
        raw.open,
        !raw.closed,
        !raw.decode_started,
        amount != Some(0usize),
    ensures
        ({
            let (asked, call) = begun(raw, amount, false);
            let (after, result) = continued(asked, RawAnswerView::Wire(bytes));
            &&& amount is None ==> call is ReadAll
            &&& amount == Some(size) ==> call == RawCallView::Read(size)
            &&& result == RawCallView::Finished(bytes)
            &&& after.closed <==> bytes.len() == 0
            &&& after.open <==> bytes.len() > 0
        }),
{
}

/// Whatever can be decoded can be decoded with more decoders, nothing can with
/// none, and a name that a decoder has can, whatever its case.
pub proof fn law_what_can_be_decoded(
    encoding: Seq<char>,
    decoders: Seq<String>,
    more: Seq<String>,
)
    ensures
        is_decodable(encoding, decoders) ==> is_decodable(encoding, decoders + more),
        !is_decodable(encoding, Seq::empty()),
        lists_text(decoders, lowered(encoding)) ==> is_decodable(encoding, decoders),
        pieces(lowered(encoding), ',').len() <= 1 ==> (is_decodable(encoding, decoders)
            <==> lists_text(decoders, lowered(encoding))),
        forall|index: int|
            0 <= index < pieces(lowered(encoding), ',').len() && pieces(
                lowered(encoding),
                ',',
            ).len() > 1 && lists_text(
                decoders,
                stripped(#[trigger] pieces(lowered(encoding), ',')[index]),
            ) ==> is_decodable(encoding, decoders),
{
    let all = decoders + more;
    assert forall|text: Seq<char>| #[trigger] lists_text(decoders, text) implies lists_text(
        all,
        text,
    ) by {
        let place = choose|place: int|
            0 <= place < decoders.len() && (#[trigger] decoders[place])@ == text;
        assert(all[place]@ == text);
    }
}

/// A body that is read to its end is closed, and nothing more comes of it.
pub proof fn law_the_end_of_a_body(raw: RawView)
    ensures
        !read_to_end(raw).open,
        read_to_end(raw).closed,
        read_to_end(raw).decoder_eof,
        read_to_end(raw).decoded == raw.decoded,
        read_to_end(raw).offset == raw.offset,
        read_to_end(raw).pending == raw.pending,
        read_to_end(raw).decode_failed == raw.decode_failed,
        read_to_end(raw).decode_started == raw.decode_started,
{
}

} // verus!
