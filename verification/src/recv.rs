//! The receiving half of a stream.
//!
//! The half moves `Receiving -> SizeKnown -> DataReceived -> DataRead` when the
//! peer ends the stream, and from any of the first three to
//! `ResetReceived -> ResetRead` when the peer abandons it. Bytes may arrive in
//! any order and more than once; the half keeps the first copy of each byte
//! until the application has read it.

use vstd::prelude::*;
use vstd::slice::slice_to_vec;
use crate::error::StreamError;
use crate::frame::{ReceivingFrame, MAX_OFFSET};

verus! {

/// State of the receiving half.
#[derive(Clone, Copy, Debug, PartialEq, Eq, Structural)]
pub enum RecvState {
    /// The size of the stream is not known yet.
    Receiving,
    /// The frame that ends the stream has arrived; bytes before it are
    /// missing.
    SizeKnown,
    /// Every byte has arrived; the application has not read them all.
    DataReceived,
    /// The application has read every byte.
    DataRead,
    /// The peer has abandoned the stream.
    ResetReceived,
    /// The application has been told that the peer abandoned the stream.
    ResetRead,
}

impl Default for RecvState {
    fn default() -> (state: RecvState)
        ensures
            state == RecvState::Receiving,
    {
        RecvState::Receiving
    }
}

impl RecvState {
    /// `DataRead` and `ResetRead` are the states no event leaves.
    pub open spec fn spec_is_terminal(self) -> bool {
        self is DataRead || self is ResetRead
    }

    /// Whether the half has finished for good.
    #[verifier::when_used_as_spec(spec_is_terminal)]
    pub fn is_terminal(self) -> (yes: bool)
        ensures
            yes == self.spec_is_terminal(),
    {
        match self {
            RecvState::DataRead | RecvState::ResetRead => true,
            _ => false,
        }
    }
}

/// What a receiving half is, as mathematics.
#[verifier::ext_equal]
pub struct RecvModel {
    pub state: RecvState,
    /// The bytes that have arrived and were not read yet, by offset.
    pub buffered: Map<int, u8>,
    /// Number of bytes the application has read so far.
    pub read_offset: nat,
    /// One past the highest offset a frame has named so far.
    pub highest: nat,
    /// The size the stream ends with, once the peer has fixed it.
    pub final_size: Option<nat>,
}

/// What an event does to a receiving half.
#[verifier::ext_equal]
pub struct RecvStep {
    /// The half after the event.
    pub next: RecvModel,
    /// How the event ended for the caller.
    pub result: Result<(), StreamError>,
}

impl RecvModel {
    /// Every byte from the read offset up to `size` has arrived.
    pub open spec fn complete_up_to(self, size: nat) -> bool {
        forall|o: int| self.read_offset <= o < size ==> self.buffered.dom().contains(o)
    }

    /// The half is consistent: what is buffered lies between the read offset
    /// and the highest offset seen, nothing lies beyond the final size, and
    /// the state says how much of the stream is known and has arrived.
    pub open spec fn wf(self) -> bool {
        &&& self.read_offset <= self.highest <= MAX_OFFSET
        &&& forall|o: int| self.buffered.dom().contains(o) ==> self.read_offset <= o < self.highest
        &&& self.final_size matches Some(size) ==> self.highest <= size <= MAX_OFFSET
        &&& match self.state {
            RecvState::Receiving => self.final_size is None,
            RecvState::SizeKnown => self.final_size matches Some(size) && !self.complete_up_to(
                size,
            ),
            RecvState::DataReceived => self.final_size matches Some(size) && self.complete_up_to(
                size,
            ),
            RecvState::DataRead => self.final_size == Some(self.read_offset)
                && self.buffered == Map::<int, u8>::empty(),
            RecvState::ResetReceived | RecvState::ResetRead => self.final_size is Some
                && self.buffered == Map::<int, u8>::empty(),
        }
    }

    /// A fresh half.
    pub open spec fn initial() -> RecvModel {
        RecvModel {
            state: RecvState::Receiving,
            buffered: Map::empty(),
            read_offset: 0,
            highest: 0,
            final_size: None,
        }
    }

    /// The half of a stream on which this endpoint never receives: an empty
    /// stream, read to its end.
    pub open spec fn inert() -> RecvModel {
        RecvModel { state: RecvState::DataRead, final_size: Some(0), ..RecvModel::initial() }
    }

    /// The event changed nothing and reported `error`.
    pub open spec fn refuse(self, error: StreamError) -> RecvStep {
        RecvStep { next: self, result: Err(error) }
    }

    /// The event changed nothing and was in order.
    pub open spec fn ignore(self) -> RecvStep {
        RecvStep { next: self, result: Ok(()) }
    }

    /// A frame with `len` bytes at `offset` agrees with what the half knows
    /// of the stream's size: it stays within 62 bits and within the final
    /// size, and where it ends the stream it does so where the stream was
    /// ended before and not before a byte already seen.
    pub open spec fn frame_fits(self, offset: u64, len: nat, fin: bool) -> bool {
        &&& offset + len <= MAX_OFFSET
        &&& match self.final_size {
            Some(size) => offset + len <= size && (fin ==> offset + len == size),
            None => fin ==> offset + len >= self.highest,
        }
    }

    /// The buffer after `data` has arrived at `offset`: bytes already read
    /// are dropped, and of a byte that arrived before the first copy stays.
    pub open spec fn record(self, offset: u64, data: Seq<u8>) -> Map<int, u8> {
        Map::new(
            |o: int|
                self.buffered.dom().contains(o) || (self.read_offset <= o && offset <= o < offset
                    + data.len()),
            |o: int|
                if self.buffered.dom().contains(o) {
                    self.buffered[o]
                } else {
                    data[o - offset]
                },
        )
    }

    /// The state of a half that the peer has not reset, from what it knows:
    /// `Receiving` until the size is known, then `SizeKnown` until every
    /// byte has arrived, then `DataReceived`.
    pub open spec fn state_for_data(self) -> RecvState {
        match self.final_size {
            None => RecvState::Receiving,
            Some(size) => if self.complete_up_to(size) {
                RecvState::DataReceived
            } else {
                RecvState::SizeKnown
            },
        }
    }

    /// A `Stream` frame arrives with `data` at `offset`; `fin` says that the
    /// stream ends with it.
    ///
    /// After `DataRead` or `ResetRead` any frame is a `ProtocolError`. After
    /// a reset that the application has not yet seen the frame is stale and
    /// dropped. Otherwise a frame that contradicts the stream's size is a
    /// `ProtocolError`, and one that fits is recorded.
    pub open spec fn stream_frame(self, offset: u64, data: Seq<u8>, fin: bool) -> RecvStep {
        match self.state {
            RecvState::DataRead | RecvState::ResetRead => self.refuse(StreamError::ProtocolError),
            RecvState::ResetReceived => self.ignore(),
            _ => if self.frame_fits(offset, data.len(), fin) {
                let end = (offset + data.len()) as nat;
                let filled = RecvModel {
                    state: self.state,
                    buffered: self.record(offset, data),
                    read_offset: self.read_offset,
                    highest: if end > self.highest {
                        end
                    } else {
                        self.highest
                    },
                    final_size: if fin {
                        Some(end)
                    } else {
                        self.final_size
                    },
                };
                RecvStep {
                    next: RecvModel { state: filled.state_for_data(), ..filled },
                    result: Ok(()),
                }
            } else {
                self.refuse(StreamError::ProtocolError)
            },
        }
    }

    /// A `ResetStream` frame arrives and names `final_size` as the size of
    /// the stream.
    ///
    /// After `DataRead` or `ResetRead` it is a `ProtocolError`. It is one too
    /// where `final_size` contradicts what the half knows. A second reset
    /// with the same size changes nothing. Otherwise what is buffered is
    /// dropped and the half is `ResetReceived`.
    pub open spec fn reset_stream(self, final_size: u64) -> RecvStep {
        match self.state {
            RecvState::DataRead | RecvState::ResetRead => self.refuse(StreamError::ProtocolError),
            RecvState::ResetReceived => if self.final_size == Some(final_size as nat) {
                self.ignore()
            } else {
                self.refuse(StreamError::ProtocolError)
            },
            _ => if final_size <= MAX_OFFSET && final_size >= self.highest && (
            self.final_size matches Some(size) ==> size == final_size) {
                RecvStep {
                    next: RecvModel {
                        state: RecvState::ResetReceived,
                        buffered: Map::empty(),
                        final_size: Some(final_size as nat),
                        ..self
                    },
                    result: Ok(()),
                }
            } else {
                self.refuse(StreamError::ProtocolError)
            },
        }
    }

    /// `bytes` is what a read hands out: the bytes that follow the read
    /// offset without a gap, up to the first byte that has not arrived.
    pub open spec fn is_available(self, bytes: Seq<u8>) -> bool {
        &&& forall|o: int|
            self.read_offset <= o < self.read_offset + bytes.len() ==> #[trigger] self.buffered.dom().contains(
                o,
            ) && self.buffered[o] == bytes[o - self.read_offset]
        &&& !self.buffered.dom().contains(self.read_offset + bytes.len() as int)
    }

    /// The half after the application has read `count` bytes. Reading the
    /// last of a stream whose bytes have all arrived makes it `DataRead`.
    pub open spec fn after_read(self, count: nat) -> RecvModel {
        RecvModel {
            state: if self.state is DataReceived {
                RecvState::DataRead
            } else {
                self.state
            },
            buffered: self.buffered.restrict(Set::new(|o: int| o >= self.read_offset + count)),
            read_offset: self.read_offset + count,
            ..self
        }
    }

    /// The application acknowledges that the peer abandoned the stream. This
    /// is allowed in `ResetReceived` only.
    pub open spec fn abort(self) -> RecvStep {
        match self.state {
            RecvState::ResetReceived => RecvStep {
                next: RecvModel { state: RecvState::ResetRead, ..self },
                result: Ok(()),
            },
            _ => self.refuse(StreamError::InvalidTransition),
        }
    }

    /// The frame by which the half tells the peer of a wider window: while
    /// the size of the stream is unknown a `MaxStreamData` frame, afterwards
    /// nothing, since the peer needs no room beyond the final size.
    pub open spec fn window_update(self, limit: u64) -> Option<ReceivingFrame> {
        if self.state is Receiving {
            Some(ReceivingFrame::MaxStreamData { limit })
        } else {
            None
        }
    }
}

/// A run of bytes that arrived in one frame.
struct Segment {
    offset: u64,
    data: Vec<u8>,
}

impl Segment {
    /// One past the offset of the segment's last byte.
    spec fn end(self) -> int {
        self.offset + self.data@.len()
    }

    /// The segment holds the byte at offset `o`.
    spec fn covers(self, o: int) -> bool {
        self.offset <= o < self.end()
    }
}

/// The byte that `segments` hold for offset `o`: that of the earliest segment
/// that covers it.
spec fn lookup(segments: Seq<Segment>, o: int) -> Option<u8>
    decreases segments.len(),
{
    if segments.len() == 0 {
        None
    } else {
        match lookup(segments.drop_last(), o) {
            Some(byte) => Some(byte),
            None => if segments.last().covers(o) {
                Some(segments.last().data@[o - segments.last().offset])
            } else {
                None
            },
        }
    }
}

/// The bytes that `segments` hold at and after offset `from`.
spec fn buffer_of(segments: Seq<Segment>, from: int) -> Map<int, u8> {
    Map::new(
        |o: int| from <= o && lookup(segments, o) is Some,
        |o: int| lookup(segments, o).unwrap(),
    )
}

/// The segments among `segments` that reach beyond offset `from`, in their
/// order.
spec fn unread(segments: Seq<Segment>, from: int) -> Seq<Segment> {
    segments.filter(|segment: Segment| segment.end() > from)
}

/// Of no segments none is unread.
proof fn lemma_unread_empty(from: int)
    ensures
        unread(Seq::empty(), from) == Seq::<Segment>::empty(),
{
    reveal(Seq::filter);
}

/// A segment added at the end is unread exactly if it reaches beyond `from`.
proof fn lemma_unread_push(segments: Seq<Segment>, segment: Segment, from: int)
    ensures
        unread(segments.push(segment), from) == if segment.end() > from {
            unread(segments, from).push(segment)
        } else {
            unread(segments, from)
        },
{
    reveal(Seq::filter);
    assert(segments.push(segment).drop_last() =~= segments);
}

/// Segments that cover nothing at `o` hold nothing for it.
proof fn lemma_lookup_none(segments: Seq<Segment>, o: int)
    requires
        forall|i: int| 0 <= i < segments.len() ==> !(#[trigger] segments[i]).covers(o),
    ensures
        lookup(segments, o) is None,
    decreases segments.len(),
{
    if segments.len() > 0 {
        lemma_lookup_none(segments.drop_last(), o);
    }
}

/// A byte that some segment covers is held.
proof fn lemma_lookup_covered(segments: Seq<Segment>, o: int, at: int)
    requires
        0 <= at < segments.len(),
        segments[at].covers(o),
    ensures
        lookup(segments, o) is Some,
    decreases segments.len(),
{
    if at < segments.len() - 1 {
        lemma_lookup_covered(segments.drop_last(), o, at);
    }
}

/// The earliest segment that covers `o` decides the byte held for it.
proof fn lemma_lookup_first(segments: Seq<Segment>, o: int, first: int)
    requires
        0 <= first < segments.len(),
        segments[first].covers(o),
        forall|i: int| 0 <= i < first ==> !(#[trigger] segments[i]).covers(o),
    ensures
        lookup(segments, o) == Some(segments[first].data@[o - segments[first].offset]),
    decreases segments.len(),
{
    if first == segments.len() - 1 {
        lemma_lookup_none(segments.drop_last(), o);
    } else {
        lemma_lookup_first(segments.drop_last(), o, first);
    }
}

/// A new segment adds the bytes that were not held before and changes none.
proof fn lemma_lookup_push(segments: Seq<Segment>, segment: Segment, o: int)
    ensures
        lookup(segments.push(segment), o) == match lookup(segments, o) {
            Some(byte) => Some(byte),
            None => if segment.covers(o) {
                Some(segment.data@[o - segment.offset])
            } else {
                None
            },
        },
{
    assert(segments.push(segment).drop_last() =~= segments);
}

/// Taking out a segment that does not cover `o` changes nothing for `o`.
proof fn lemma_lookup_remove(segments: Seq<Segment>, at: int, o: int)
    requires
        0 <= at < segments.len(),
        !segments[at].covers(o),
    ensures
        lookup(segments.remove(at), o) == lookup(segments, o),
    decreases segments.len(),
{
    if at == segments.len() - 1 {
        assert(segments.remove(at) =~= segments.drop_last());
    } else {
        lemma_lookup_remove(segments.drop_last(), at, o);
        assert(segments.remove(at).drop_last() =~= segments.drop_last().remove(at));
        assert(segments.remove(at).last() == segments.last());
    }
}

/// The receiving half of a stream.
pub struct RecvHalf {
    state: RecvState,
    segments: Vec<Segment>,
    read_offset: u64,
    highest: u64,
    final_size: Option<u64>,
}

impl View for RecvHalf {
    type V = RecvModel;

    closed spec fn view(&self) -> RecvModel {
        RecvModel {
            state: self.state,
            buffered: buffer_of(self.segments@, self.read_offset as int),
            read_offset: self.read_offset as nat,
            highest: self.highest as nat,
            final_size: match self.final_size {
                Some(size) => Some(size as nat),
                None => None,
            },
        }
    }
}

impl RecvHalf {
    /// No segment is empty and none reaches beyond the highest offset seen.
    pub closed spec fn segments_ok(&self) -> bool {
        forall|i: int|
            0 <= i < self.segments@.len() ==> 0 < (#[trigger] self.segments@[i]).data@.len()
                && self.segments@[i].end() <= self.highest
    }

    /// The half is consistent.
    pub open spec fn wf(&self) -> bool {
        self@.wf() && self.segments_ok()
    }

    /// A fresh half: `Receiving`, nothing has arrived.
    pub fn new() -> (half: RecvHalf)
        ensures
            half.wf(),
            half@ == RecvModel::initial(),
    {
        let half = RecvHalf {
            state: RecvState::Receiving,
            segments: Vec::new(),
            read_offset: 0,
            highest: 0,
            final_size: None,
        };
        assert(half@.buffered =~= Map::<int, u8>::empty());
        half
    }

    /// The half of a stream on which this endpoint never receives:
    /// `DataRead` from the start.
    pub fn inert() -> (half: RecvHalf)
        ensures
            half.wf(),
            half@ == RecvModel::inert(),
    {
        let half = RecvHalf {
            state: RecvState::DataRead,
            segments: Vec::new(),
            read_offset: 0,
            highest: 0,
            final_size: Some(0),
        };
        assert(half@.buffered =~= Map::<int, u8>::empty());
        half
    }

    /// The state the half is in.
    pub fn state(&self) -> (state: RecvState)
        ensures
            state == self@.state,
    {
        self.state
    }

    /// Number of bytes the application has read so far.
    pub fn read_offset(&self) -> (offset: u64)
        ensures
            offset == self@.read_offset,
    {
        self.read_offset
    }

    /// One past the highest offset a frame has named so far.
    pub fn highest(&self) -> (offset: u64)
        ensures
            offset == self@.highest,
    {
        self.highest
    }

    /// The size the stream ends with, once the peer has fixed it.
    pub fn final_size(&self) -> (size: Option<u64>)
        ensures
            size is Some <==> self@.final_size is Some,
            size is Some ==> size->Some_0 == self@.final_size->Some_0,
    {
        self.final_size
    }

    /// The index of the earliest segment that covers `pos`.
    fn find(&self, pos: u64) -> (found: Option<usize>)
        ensures
            match found {
                Some(at) => at < self.segments@.len() && self.segments@[at as int].covers(
                    pos as int,
                ) && forall|i: int| 0 <= i < at ==> !(#[trigger] self.segments@[i]).covers(pos as int),
                None => forall|i: int|
                    0 <= i < self.segments@.len() ==> !(#[trigger] self.segments@[i]).covers(
                        pos as int,
                    ),
            },
    {
        let mut at: usize = 0;
        while at < self.segments.len()
            invariant
                at <= self.segments@.len(),
                forall|i: int| 0 <= i < at ==> !(#[trigger] self.segments@[i]).covers(pos as int),
            decreases self.segments@.len() - at,
        {
            let segment = &self.segments[at];
            if segment.offset <= pos && pos - segment.offset < segment.data.len() as u64 {
                return Some(at);
            }
            at += 1;
        }
        None
    }

    /// The first offset at or after `from` for which no byte is held.
    fn run_end(&self, from: u64) -> (stop: u64)
        requires
            self.segments_ok(),
        ensures
            from <= stop,
            stop <= self.highest || stop == from,
            forall|o: int| from <= o < stop ==> lookup(self.segments@, o) is Some,
            lookup(self.segments@, stop as int) is None,
    {
        let mut stop = from;
        loop
            invariant
                self.segments_ok(),
                from <= stop,
                stop <= self.highest || stop == from,
                forall|o: int| from <= o < stop ==> lookup(self.segments@, o) is Some,
            ensures
                lookup(self.segments@, stop as int) is None,
            decreases self.highest - stop,
        {
            match self.find(stop) {
                None => {
                    proof {
                        lemma_lookup_none(self.segments@, stop as int);
                    }
                    break ;
                },
                Some(at) => {
                    let segment = &self.segments[at];
                    let end = segment.offset + segment.data.len() as u64;
                    proof {
                        assert forall|o: int| stop <= o < end implies lookup(
                            self.segments@,
                            o,
                        ) is Some by {
                            lemma_lookup_covered(self.segments@, o, at as int);
                        }
                    }
                    stop = end;
                },
            }
        }
        stop
    }

    /// The earliest segment that covers `pos`, and the offset up to which
    /// that segment decides the bytes held: its end, or where a segment
    /// before it begins.
    fn find_run(&self, pos: u64) -> (found: Option<(usize, u64)>)
        requires
            self.segments_ok(),
        ensures
            match found {
                Some((at, stop)) => {
                    &&& at < self.segments@.len()
                    &&& self.segments@[at as int].offset <= pos < stop
                        <= self.segments@[at as int].end()
                    &&& forall|o: int|
                        pos <= o < stop ==> lookup(self.segments@, o) == Some(
                            self.segments@[at as int].data@[o - self.segments@[at as int].offset],
                        )
                },
                None => lookup(self.segments@, pos as int) is None,
            },
    {
        let mut at: usize = 0;
        let mut stop: u64 = u64::MAX;
        while at < self.segments.len()
            invariant
                self.segments_ok(),
                at <= self.segments@.len(),
                pos < stop || stop == u64::MAX,
                forall|i: int| 0 <= i < at ==> !(#[trigger] self.segments@[i]).covers(pos as int),
                forall|i: int|
                    0 <= i < at && (#[trigger] self.segments@[i]).offset > pos ==> stop
                        <= self.segments@[i].offset,
            decreases self.segments@.len() - at,
        {
            let segment = &self.segments[at];
            if segment.offset <= pos {
                if pos - segment.offset < segment.data.len() as u64 {
                    let end = segment.offset + segment.data.len() as u64;
                    let upto = if end < stop {
                        end
                    } else {
                        stop
                    };
                    proof {
                        assert forall|o: int| pos <= o < upto implies lookup(self.segments@, o)
                            == Some(
                            self.segments@[at as int].data@[o - self.segments@[at as int].offset],
                        ) by {
                            assert forall|i: int| 0 <= i < at implies !(
                            #[trigger] self.segments@[i]).covers(o) by {
                                assert(!self.segments@[i].covers(pos as int));
                            }
                            lemma_lookup_first(self.segments@, o, at as int);
                        }
                    }
                    return Some((at, upto));
                }
            } else if segment.offset < stop {
                stop = segment.offset;
            }
            at += 1;
        }
        proof {
            lemma_lookup_none(self.segments@, pos as int);
        }
        None
    }

    /// Drops the segments that lie wholly below the read offset: what stays
    /// are the segments that reach beyond it, in their order. No byte at or
    /// after the read offset is lost by that.
    fn discard_read(&mut self)
        requires
            old(self).segments_ok(),
        ensures
            final(self).segments_ok(),
            final(self).segments@ == unread(old(self).segments@, old(self).read_offset as int),
            final(self).state == old(self).state,
            final(self).read_offset == old(self).read_offset,
            final(self).highest == old(self).highest,
            final(self).final_size == old(self).final_size,
            forall|o: int|
                old(self).read_offset <= o ==> lookup(final(self).segments@, o) == lookup(
                    old(self).segments@,
                    o,
                ),
    {
        let mut at: usize = 0;
        let ghost mut seen: int = 0;
        proof {
            lemma_unread_empty(self.read_offset as int);
            assert(self.segments@.take(0) =~= Seq::<Segment>::empty());
        }
        while at < self.segments.len()
            invariant
                self.segments_ok(),
                at <= self.segments@.len(),
                0 <= seen <= old(self).segments@.len(),
                self.segments@.take(at as int) == unread(
                    old(self).segments@.take(seen),
                    self.read_offset as int,
                ),
                self.segments@.skip(at as int) == old(self).segments@.skip(seen),
                self.state == old(self).state,
                self.read_offset == old(self).read_offset,
                self.highest == old(self).highest,
                self.final_size == old(self).final_size,
                forall|o: int|
                    self.read_offset <= o ==> lookup(self.segments@, o) == lookup(
                        old(self).segments@,
                        o,
                    ),
            decreases self.segments@.len() - at,
        {
            let ghost kept = self.segments@;
            let ghost before = old(self).segments@;
            proof {
                assert(kept.skip(at as int)[0] == before.skip(seen)[0]);
                assert(kept.skip(at as int).len() == before.skip(seen).len());
                assert(before.take(seen + 1) =~= before.take(seen).push(kept[at as int]));
                lemma_unread_push(before.take(seen), kept[at as int], self.read_offset as int);
            }
            let segment = &self.segments[at];
            if segment.offset + segment.data.len() as u64 <= self.read_offset {
                proof {
                    assert forall|o: int| self.read_offset <= o implies lookup(
                        self.segments@.remove(at as int),
                        o,
                    ) == lookup(self.segments@, o) by {
                        lemma_lookup_remove(self.segments@, at as int, o);
                    }
                }
                self.segments.remove(at);
                proof {
                    assert(self.segments@.take(at as int) =~= kept.take(at as int));
                    assert(self.segments@.skip(at as int) =~= kept.skip(at as int).skip(1));
                    assert(before.skip(seen + 1) =~= before.skip(seen).skip(1));
                    seen = seen + 1;
                }
            } else {
                proof {
                    assert(kept.take(at + 1) =~= kept.take(at as int).push(kept[at as int]));
                    assert(kept.skip(at + 1) =~= kept.skip(at as int).skip(1));
                    assert(before.skip(seen + 1) =~= before.skip(seen).skip(1));
                    seen = seen + 1;
                }
                at += 1;
            }
        }
        proof {
            assert(self.segments@.skip(at as int).len() == 0);
            assert(old(self).segments@.take(seen) =~= old(self).segments@);
            assert(self.segments@.take(at as int) =~= self.segments@);
        }
    }

    /// Whether a frame with `len` bytes at `offset` agrees with what the
    /// half knows of the stream's size.
    fn fits(&self, offset: u64, len: usize, fin: bool) -> (yes: bool)
        requires
            self.wf(),
        ensures
            yes == self@.frame_fits(offset, len as nat, fin),
    {
        if offset > MAX_OFFSET || len as u64 > MAX_OFFSET - offset {
            return false;
        }
        let end = offset + len as u64;
        match self.final_size {
            Some(size) => end <= size && (!fin || end == size),
            None => !fin || end >= self.highest,
        }
    }

    /// A `Stream` frame arrives with `data` at `offset`; `fin` says that the
    /// stream ends with it.
    pub fn on_stream_frame(&mut self, offset: u64, data: &[u8], fin: bool) -> (result: Result<
        (),
        StreamError,
    >)
        requires
            old(self).wf(),
        ensures
            final(self).wf(),
            final(self)@ == old(self)@.stream_frame(offset, data@, fin).next,
            result == old(self)@.stream_frame(offset, data@, fin).result,
    {
        match self.state {
            RecvState::DataRead | RecvState::ResetRead => Err(StreamError::ProtocolError),
            RecvState::ResetReceived => Ok(()),
            _ => {
                if !self.fits(offset, data.len(), fin) {
                    return Err(StreamError::ProtocolError);
                }
                let end = offset + data.len() as u64;
                if end > self.highest {
                    self.highest = end;
                }
                if fin {
                    self.final_size = Some(end);
                }
                let start = if offset > self.read_offset {
                    offset
                } else {
                    self.read_offset
                };
                let held_to = if start < end {
                    self.run_end(start)
                } else {
                    end
                };
                if held_to < end {
                    let segment = Segment { offset, data: slice_to_vec(data) };
                    proof {
                        assert forall|o: int|
                            lookup(self.segments@.push(segment), o) == match lookup(
                                self.segments@,
                                o,
                            ) {
                                Some(byte) => Some(byte),
                                None => if segment.covers(o) {
                                    Some(segment.data@[o - segment.offset])
                                } else {
                                    None
                                },
                            } by {
                            lemma_lookup_push(self.segments@, segment, o);
                        }
                    }
                    self.segments.push(segment);
                }
                assert(self@.buffered =~= old(self)@.record(offset, data@));
                let stop = self.run_end(self.read_offset);
                self.state = match self.final_size {
                    None => RecvState::Receiving,
                    Some(size) => if stop >= size {
                        RecvState::DataReceived
                    } else {
                        RecvState::SizeKnown
                    },
                };
                proof {
                    lemma_recv_events_keep_wf(old(self)@, offset, data@, fin, 0);
                    assert(!self@.buffered.dom().contains(stop as int));
                    assert(self@ =~= old(self)@.stream_frame(offset, data@, fin).next);
                }
                Ok(())
            },
        }
    }

    /// A `ResetStream` frame arrives and names `final_size` as the size of
    /// the stream. What is buffered is dropped.
    pub fn on_reset_stream(&mut self, final_size: u64) -> (result: Result<(), StreamError>)
        requires
            old(self).wf(),
        ensures
            final(self).wf(),
            final(self)@ == old(self)@.reset_stream(final_size).next,
            result == old(self)@.reset_stream(final_size).result,
    {
        match self.state {
            RecvState::DataRead | RecvState::ResetRead => Err(StreamError::ProtocolError),
            RecvState::ResetReceived => match self.final_size {
                Some(size) if size == final_size => Ok(()),
                _ => Err(StreamError::ProtocolError),
            },
            _ => {
                let agrees = match self.final_size {
                    Some(size) => size == final_size,
                    None => true,
                };
                if final_size <= MAX_OFFSET && final_size >= self.highest && agrees {
                    self.state = RecvState::ResetReceived;
                    self.segments = Vec::new();
                    self.final_size = Some(final_size);
                    assert(self@.buffered =~= Map::<int, u8>::empty());
                    Ok(())
                } else {
                    Err(StreamError::ProtocolError)
                }
            },
        }
    }

    /// The application reads: it gets the bytes that follow the read offset
    /// without a gap, which may be none, and never waits.
    pub fn read(&mut self) -> (bytes: Vec<u8>)
        requires
            old(self).wf(),
        ensures
            final(self).wf(),
            old(self)@.is_available(bytes@),
            final(self)@ == old(self)@.after_read(bytes@.len()),
    {
        match self.state {
            RecvState::Receiving | RecvState::SizeKnown | RecvState::DataReceived => {
                let mut bytes: Vec<u8> = Vec::new();
                let mut pos: u64 = self.read_offset;
                loop
                    invariant
                        self.segments_ok(),
                        self.state == old(self).state,
                        self.segments == old(self).segments,
                        self.read_offset == old(self).read_offset,
                        self.highest == old(self).highest,
                        self.final_size == old(self).final_size,
                        self.read_offset <= pos <= self.highest,
                        bytes@.len() == pos - self.read_offset,
                        forall|o: int|
                            self.read_offset <= o < pos ==> lookup(self.segments@, o) == Some(
                                bytes@[o - self.read_offset],
                            ),
                    ensures
                        lookup(self.segments@, pos as int) is None,
                    decreases self.highest - pos,
                {
                    match self.find_run(pos) {
                        None => {
                            break ;
                        },
                        Some((at, stop)) => {
                            let segment = &self.segments[at];
                            let len: usize = segment.data.len();
                            assert(stop - segment.offset <= len);
                            let from: usize = (pos - segment.offset) as usize;
                            let to: usize = (stop - segment.offset) as usize;
                            append_range(&mut bytes, &segment.data, from, to);
                            pos = stop;
                        },
                    }
                }
                self.read_offset = pos;
                self.discard_read();
                if self.state == RecvState::DataReceived {
                    self.state = RecvState::DataRead;
                }
                proof {
                    lemma_read_keeps_wf(old(self)@, bytes@);
                    assert(self@.buffered =~= old(self)@.after_read(bytes@.len()).buffered);
                    assert(self@ =~= old(self)@.after_read(bytes@.len()));
                }
                bytes
            },
            _ => {
                proof {
                    lemma_read_keeps_wf(old(self)@, Seq::empty());
                    assert(self@ =~= old(self)@.after_read(0));
                }
                Vec::new()
            },
        }
    }

    /// The application acknowledges that the peer abandoned the stream.
    pub fn abort(&mut self) -> (result: Result<(), StreamError>)
        requires
            old(self).wf(),
        ensures
            final(self).wf(),
            final(self)@ == old(self)@.abort().next,
            result == old(self)@.abort().result,
    {
        match self.state {
            RecvState::ResetReceived => {
                self.state = RecvState::ResetRead;
                Ok(())
            },
            _ => Err(StreamError::InvalidTransition),
        }
    }

    /// Flow control wants the peer to know that it may send up to offset
    /// `limit`. The half asks for a frame only while that is of use.
    pub fn extend_window(&self, limit: u64) -> (frame: Option<ReceivingFrame>)
        ensures
            frame == self@.window_update(limit),
    {
        match self.state {
            RecvState::Receiving => Some(ReceivingFrame::MaxStreamData { limit }),
            _ => None,
        }
    }
}

/// Appends `data[from..to]` to `out`.
fn append_range(out: &mut Vec<u8>, data: &Vec<u8>, from: usize, to: usize)
    requires
        from <= to <= data@.len(),
    ensures
        final(out)@ == old(out)@ + data@.subrange(from as int, to as int),
{
    let mut at: usize = from;
    while at < to
        invariant
            from <= at <= to <= data@.len(),
            out@ == old(out)@ + data@.subrange(from as int, at as int),
        decreases to - at,
    {
        out.push(data[at]);
        at += 1;
    }
}

/// Every event from the network, and the application's acknowledgment of a
/// reset, leaves a consistent half consistent.
pub proof fn lemma_recv_events_keep_wf(
    half: RecvModel,
    offset: u64,
    data: Seq<u8>,
    fin: bool,
    final_size: u64,
)
    requires
        half.wf(),
    ensures
        half.stream_frame(offset, data, fin).next.wf(),
        half.reset_stream(final_size).next.wf(),
        half.abort().next.wf(),
{
    let next = half.stream_frame(offset, data, fin).next;
    if next != half {
        assert(half.frame_fits(offset, data.len(), fin));
        assert(next.buffered == half.record(offset, data));
        assert forall|o: int| next.buffered.dom().contains(o) implies next.read_offset <= o
            < next.highest by {
            if half.buffered.dom().contains(o) {
            } else {
                assert(offset <= o < offset + data.len());
            }
        }
    }
}

/// A read leaves a consistent half consistent.
pub proof fn lemma_read_keeps_wf(half: RecvModel, bytes: Seq<u8>)
    requires
        half.wf(),
        half.is_available(bytes),
    ensures
        half.after_read(bytes.len()).wf(),
{
    let next = half.after_read(bytes.len());
    if bytes.len() > 0 {
        assert(half.buffered.dom().contains(half.read_offset + bytes.len() - 1));
        assert(half.buffered.dom().contains(half.read_offset as int));
    }
    match half.state {
        RecvState::Receiving => {},
        RecvState::SizeKnown => {
            let size = half.final_size->Some_0;
            let gap = choose|o: int| half.read_offset <= o < size && !half.buffered.dom().contains(o);
            assert(!next.buffered.dom().contains(gap));
            assert(next.read_offset <= gap);
        },
        RecvState::DataReceived => {
            assert(next.buffered =~= Map::<int, u8>::empty());
        },
        _ => {
            assert(next.buffered =~= Map::<int, u8>::empty());
        },
    }
}

/// What a read hands out is decided by the half: two runs of bytes that both
/// are what is available are the same run.
pub proof fn lemma_available_is_unique(half: RecvModel, first: Seq<u8>, second: Seq<u8>)
    requires
        half.is_available(first),
        half.is_available(second),
    ensures
        first == second,
{
    if first.len() < second.len() {
        assert(half.buffered.dom().contains(half.read_offset + first.len() as int));
    }
    if second.len() < first.len() {
        assert(half.buffered.dom().contains(half.read_offset + second.len() as int));
    }
    assert forall|i: int| 0 <= i < first.len() implies first[i] == second[i] by {
        assert(half.buffered.dom().contains(half.read_offset + i));
    }
    assert(first =~= second);
}

/// Once a half is `DataRead` or `ResetRead` no event moves it: frames are
/// refused with `ProtocolError`, an acknowledgment of a reset with
/// `InvalidTransition`, a read hands out nothing, and the half stays as it
/// was.
pub proof fn lemma_recv_terminal_is_absorbing(
    half: RecvModel,
    offset: u64,
    data: Seq<u8>,
    fin: bool,
    final_size: u64,
    bytes: Seq<u8>,
)
    requires
        half.wf(),
        half.state.is_terminal(),
        half.is_available(bytes),
    ensures
        half.stream_frame(offset, data, fin) == half.refuse(StreamError::ProtocolError),
        half.reset_stream(final_size) == half.refuse(StreamError::ProtocolError),
        half.abort() == half.refuse(StreamError::InvalidTransition),
        half.window_update(final_size) is None,
        bytes.len() == 0,
        half.after_read(bytes.len()) == half,
{
    if bytes.len() > 0 {
        assert(half.buffered.dom().contains(half.read_offset as int));
    }
    assert(half.after_read(0).buffered =~= half.buffered);
}

/// A read with nothing new to hand out is safe to repeat: right after a
/// read, a second one hands out nothing and leaves the half as the first
/// left it.
pub proof fn lemma_read_twice(half: RecvModel, first: Seq<u8>, second: Seq<u8>)
    requires
        half.wf(),
        half.is_available(first),
        half.after_read(first.len()).is_available(second),
    ensures
        second.len() == 0,
        half.after_read(first.len()).after_read(second.len()) == half.after_read(first.len()),
{
    let once = half.after_read(first.len());
    assert(!once.buffered.dom().contains(once.read_offset as int));
    if second.len() > 0 {
        assert(once.buffered.dom().contains(once.read_offset as int));
    }
    assert(once.after_read(0).buffered =~= once.buffered);
}

/// A read while no byte waits at the read offset hands out nothing, and
/// changes nothing unless it is the read that finishes a stream whose bytes
/// have all arrived.
pub proof fn lemma_read_without_data(half: RecvModel, bytes: Seq<u8>)
    requires
        half.wf(),
        !half.buffered.dom().contains(half.read_offset as int),
        half.is_available(bytes),
    ensures
        bytes.len() == 0,
        !(half.state is DataReceived) ==> half.after_read(bytes.len()) == half,
        half.state is DataReceived ==> half.after_read(bytes.len()) == (RecvModel {
            state: RecvState::DataRead,
            ..half
        }),
{
    if bytes.len() > 0 {
        assert(half.buffered.dom().contains(half.read_offset as int));
    }
    assert(half.after_read(0).buffered =~= half.buffered);
}

/// The read offset never goes back, and a final size, once known, never
/// changes.
pub proof fn lemma_recv_progress(
    half: RecvModel,
    offset: u64,
    data: Seq<u8>,
    fin: bool,
    final_size: u64,
    count: nat,
)
    requires
        half.wf(),
    ensures
        half.stream_frame(offset, data, fin).next.read_offset == half.read_offset,
        half.reset_stream(final_size).next.read_offset == half.read_offset,
        half.abort().next.read_offset == half.read_offset,
        half.after_read(count).read_offset >= half.read_offset,
        half.final_size is Some ==> {
            &&& half.stream_frame(offset, data, fin).next.final_size == half.final_size
            &&& half.reset_stream(final_size).next.final_size == half.final_size
            &&& half.abort().next.final_size == half.final_size
            &&& half.after_read(count).final_size == half.final_size
        },
{
}

} // verus!
