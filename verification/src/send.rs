//! The sending half of a stream.
//!
//! The half moves `Ready -> Sending -> DataSent -> Closed` when the
//! application ends the stream, and `Ready | Sending -> Resetting -> Reset`
//! when it abandons it. Every event is a total function of the half's state:
//! it is carried out, is a no-op, or reports a [`StreamError`].

use vstd::prelude::*;
use crate::error::StreamError;
use crate::frame::{SendingFrame, MAX_OFFSET};

verus! {

/// State of the sending half.
#[derive(Clone, Copy, Debug, PartialEq, Eq, Structural)]
pub enum SendState {
    /// Ready to accept application data; nothing was sent yet.
    Ready,
    /// A `Stream` or `StreamDataBlocked` frame was sent; more data may follow.
    Sending,
    /// The frame that ends the stream was sent; data is only retransmitted.
    DataSent,
    /// The end of the stream was acknowledged.
    Closed,
    /// A `ResetStream` frame was sent.
    Resetting,
    /// The reset was acknowledged.
    Reset,
}

impl Default for SendState {
    fn default() -> (state: SendState)
        ensures
            state == SendState::Ready,
    {
        SendState::Ready
    }
}

impl SendState {
    /// `Closed` and `Reset` are the states no event leaves.
    pub open spec fn spec_is_terminal(self) -> bool {
        self is Closed || self is Reset
    }

    /// Whether the half has finished for good.
    #[verifier::when_used_as_spec(spec_is_terminal)]
    pub fn is_terminal(self) -> (yes: bool)
        ensures
            yes == self.spec_is_terminal(),
    {
        match self {
            SendState::Closed | SendState::Reset => true,
            _ => false,
        }
    }

    /// In `Ready` and `Sending` the application may still write.
    pub open spec fn spec_is_open(self) -> bool {
        self is Ready || self is Sending
    }

    /// Whether the application may still write.
    #[verifier::when_used_as_spec(spec_is_open)]
    pub fn is_open(self) -> (yes: bool)
        ensures
            yes == self.spec_is_open(),
    {
        match self {
            SendState::Ready | SendState::Sending => true,
            _ => false,
        }
    }
}

/// What a sending half is, as mathematics.
#[verifier::ext_equal]
pub struct SendModel {
    pub state: SendState,
    /// Bytes written and not yet known to have arrived.
    pub unacked: Seq<u8>,
    /// Number of bytes the application has written so far.
    pub offset: nat,
    /// Highest offset the peer's flow control allows.
    pub limit: nat,
}

/// What an event does to a sending half.
#[verifier::ext_equal]
pub struct SendStep {
    /// The half after the event.
    pub next: SendModel,
    /// How the event ended for the caller.
    pub result: Result<(), StreamError>,
    /// The frame to send, if the event asks for one.
    pub frame: Option<SendingFrame>,
}

impl SendModel {
    /// The half is consistent: offsets fit in 62 bits, nothing was written
    /// while `Ready`, and the buffer holds every byte written until the half
    /// is closed or reset, and none afterwards.
    pub open spec fn wf(self) -> bool {
        &&& self.offset <= MAX_OFFSET
        &&& self.limit <= MAX_OFFSET
        &&& self.state is Ready ==> self.offset == 0
        &&& self.unacked.len() == if self.state is Ready || self.state is Sending
            || self.state is DataSent {
            self.offset
        } else {
            0
        }
    }

    /// A fresh half.
    pub open spec fn initial() -> SendModel {
        SendModel {
            state: SendState::Ready,
            unacked: Seq::empty(),
            offset: 0,
            limit: MAX_OFFSET as nat,
        }
    }

    /// The half of a stream on which this endpoint never sends.
    pub open spec fn inert() -> SendModel {
        SendModel { state: SendState::Closed, ..SendModel::initial() }
    }

    /// The event changed nothing and reported `error`.
    pub open spec fn refuse(self, error: StreamError) -> SendStep {
        SendStep { next: self, result: Err(error), frame: None }
    }

    /// The event changed nothing and was in order.
    pub open spec fn ignore(self) -> SendStep {
        SendStep { next: self, result: Ok(()), frame: None }
    }

    /// The size the stream ends with, once it is fixed.
    pub open spec fn final_size(self) -> Option<nat> {
        if self.state is DataSent || self.state is Closed {
            Some(self.offset)
        } else {
            None
        }
    }

    /// The application writes `data`.
    ///
    /// While open, the half takes all of `data` if it fits under the limit
    /// and asks for a `Stream` frame; if it does not fit the half takes
    /// nothing, asks for a `StreamDataBlocked` frame and reports `Blocked`.
    /// Either way a frame has left, so the half is `Sending`.
    pub open spec fn write(self, data: Seq<u8>) -> SendStep {
        match self.state {
            SendState::Ready | SendState::Sending => {
                if self.offset + data.len() <= self.limit {
                    SendStep {
                        next: SendModel {
                            state: SendState::Sending,
                            unacked: self.unacked + data,
                            offset: self.offset + data.len(),
                            limit: self.limit,
                        },
                        result: Ok(()),
                        frame: Some(
                            SendingFrame::Stream {
                                offset: self.offset as u64,
                                len: data.len() as u64,
                                fin: false,
                            },
                        ),
                    }
                } else {
                    SendStep {
                        next: SendModel { state: SendState::Sending, ..self },
                        result: Err(StreamError::Blocked),
                        frame: Some(SendingFrame::StreamDataBlocked { limit: self.limit as u64 }),
                    }
                }
            },
            SendState::DataSent => self.refuse(StreamError::InvalidTransition),
            SendState::Closed | SendState::Resetting | SendState::Reset => self.refuse(
                StreamError::StreamClosed,
            ),
        }
    }

    /// The application ends the stream.
    pub open spec fn end(self) -> SendStep {
        match self.state {
            SendState::Ready | SendState::Sending => SendStep {
                next: SendModel { state: SendState::DataSent, ..self },
                result: Ok(()),
                frame: Some(SendingFrame::Stream { offset: self.offset as u64, len: 0, fin: true }),
            },
            SendState::Closed => self.ignore(),
            _ => self.refuse(StreamError::InvalidTransition),
        }
    }

    /// The application abandons the stream.
    pub open spec fn reset(self) -> SendStep {
        match self.state {
            SendState::Ready | SendState::Sending => SendStep {
                next: SendModel { state: SendState::Resetting, unacked: Seq::empty(), ..self },
                result: Ok(()),
                frame: Some(SendingFrame::ResetStream { final_size: self.offset as u64 }),
            },
            _ => self.refuse(StreamError::InvalidTransition),
        }
    }

    /// The peer acknowledged the frame that ends the stream.
    pub open spec fn fin_acked(self) -> SendStep {
        match self.state {
            SendState::DataSent => SendStep {
                next: SendModel { state: SendState::Closed, unacked: Seq::empty(), ..self },
                result: Ok(()),
                frame: None,
            },
            SendState::Closed => self.ignore(),
            _ => self.refuse(StreamError::ProtocolError),
        }
    }

    /// The peer acknowledged the `ResetStream` frame.
    pub open spec fn reset_acked(self) -> SendStep {
        match self.state {
            SendState::Resetting => SendStep {
                next: SendModel { state: SendState::Reset, ..self },
                result: Ok(()),
                frame: None,
            },
            SendState::Reset => self.ignore(),
            _ => self.refuse(StreamError::ProtocolError),
        }
    }

    /// The frame that a loss signal asks to send again: in `DataSent` the
    /// whole stream with its end, in any other state nothing.
    pub open spec fn retransmission(self) -> Option<SendingFrame> {
        if self.state is DataSent {
            Some(SendingFrame::Stream { offset: 0, len: self.offset as u64, fin: true })
        } else {
            None
        }
    }

    /// Flow control supplies a new limit. One beyond `MAX_OFFSET` counts as
    /// `MAX_OFFSET`.
    pub open spec fn with_limit(self, limit: u64) -> SendModel {
        SendModel {
            limit: if limit <= MAX_OFFSET {
                limit as nat
            } else {
                MAX_OFFSET as nat
            },
            ..self
        }
    }
}

/// The sending half of a stream.
pub struct SendHalf {
    state: SendState,
    buffer: Vec<u8>,
    offset: u64,
    limit: u64,
}

impl View for SendHalf {
    type V = SendModel;

    closed spec fn view(&self) -> SendModel {
        SendModel {
            state: self.state,
            unacked: self.buffer@,
            offset: self.offset as nat,
            limit: self.limit as nat,
        }
    }
}

impl SendHalf {
    /// The half is consistent.
    pub open spec fn wf(&self) -> bool {
        self@.wf()
    }

    /// A fresh half: `Ready`, nothing written, the widest limit.
    pub fn new() -> (half: SendHalf)
        ensures
            half.wf(),
            half@ == SendModel::initial(),
    {
        SendHalf { state: SendState::Ready, buffer: Vec::new(), offset: 0, limit: MAX_OFFSET }
    }

    /// The half of a stream on which this endpoint never sends: `Closed`
    /// from the start.
    pub fn inert() -> (half: SendHalf)
        ensures
            half.wf(),
            half@ == SendModel::inert(),
    {
        SendHalf { state: SendState::Closed, buffer: Vec::new(), offset: 0, limit: MAX_OFFSET }
    }

    /// The state the half is in.
    pub fn state(&self) -> (state: SendState)
        ensures
            state == self@.state,
    {
        self.state
    }

    /// Number of bytes the application has written so far.
    pub fn offset(&self) -> (offset: u64)
        ensures
            offset == self@.offset,
    {
        self.offset
    }

    /// Highest offset the peer's flow control allows.
    pub fn limit(&self) -> (limit: u64)
        ensures
            limit == self@.limit,
    {
        self.limit
    }

    /// The size the stream ends with, once the application has ended it.
    pub fn final_size(&self) -> (size: Option<u64>)
        ensures
            size is Some <==> self@.final_size() is Some,
            size is Some ==> size->Some_0 == self@.final_size()->Some_0,
    {
        match self.state {
            SendState::DataSent | SendState::Closed => Some(self.offset),
            _ => None,
        }
    }

    /// The bytes written and not yet known to have arrived, from offset 0.
    pub fn unacked(&self) -> (bytes: &[u8])
        ensures
            bytes@ == self@.unacked,
    {
        self.buffer.as_slice()
    }

    /// The application writes `data`.
    pub fn write(&mut self, data: &[u8]) -> (out: (Result<(), StreamError>, Option<SendingFrame>))
        requires
            old(self).wf(),
        ensures
            final(self).wf(),
            final(self)@ == old(self)@.write(data@).next,
            out.0 == old(self)@.write(data@).result,
            out.1 == old(self)@.write(data@).frame,
    {
        match self.state {
            SendState::Ready | SendState::Sending => {
                self.state = SendState::Sending;
                if self.offset <= self.limit && data.len() as u64 <= self.limit - self.offset {
                    let frame = SendingFrame::Stream {
                        offset: self.offset,
                        len: data.len() as u64,
                        fin: false,
                    };
                    let mut i: usize = 0;
                    while i < data.len()
                        invariant
                            i <= data@.len(),
                            self.buffer@ == old(self).buffer@ + data@.subrange(0, i as int),
                            self.offset == old(self).offset,
                            self.limit == old(self).limit,
                            self.state == SendState::Sending,
                        decreases data@.len() - i,
                    {
                        self.buffer.push(data[i]);
                        i += 1;
                    }
                    assert(data@.subrange(0, data@.len() as int) == data@);
                    self.offset = self.offset + data.len() as u64;
                    (Ok(()), Some(frame))
                } else {
                    (
                        Err(StreamError::Blocked),
                        Some(SendingFrame::StreamDataBlocked { limit: self.limit }),
                    )
                }
            },
            SendState::DataSent => (Err(StreamError::InvalidTransition), None),
            SendState::Closed | SendState::Resetting | SendState::Reset => (
                Err(StreamError::StreamClosed),
                None,
            ),
        }
    }

    /// The application ends the stream.
    pub fn end(&mut self) -> (out: (Result<(), StreamError>, Option<SendingFrame>))
        requires
            old(self).wf(),
        ensures
            final(self).wf(),
            final(self)@ == old(self)@.end().next,
            out.0 == old(self)@.end().result,
            out.1 == old(self)@.end().frame,
    {
        match self.state {
            SendState::Ready | SendState::Sending => {
                self.state = SendState::DataSent;
                (Ok(()), Some(SendingFrame::Stream { offset: self.offset, len: 0, fin: true }))
            },
            SendState::Closed => (Ok(()), None),
            _ => (Err(StreamError::InvalidTransition), None),
        }
    }

    /// The application abandons the stream. What was written and not yet
    /// acknowledged is dropped.
    pub fn reset(&mut self) -> (out: (Result<(), StreamError>, Option<SendingFrame>))
        requires
            old(self).wf(),
        ensures
            final(self).wf(),
            final(self)@ == old(self)@.reset().next,
            out.0 == old(self)@.reset().result,
            out.1 == old(self)@.reset().frame,
    {
        match self.state {
            SendState::Ready | SendState::Sending => {
                self.state = SendState::Resetting;
                self.buffer = Vec::new();
                (Ok(()), Some(SendingFrame::ResetStream { final_size: self.offset }))
            },
            _ => (Err(StreamError::InvalidTransition), None),
        }
    }

    /// The peer acknowledged the frame that ends the stream. A second
    /// acknowledgment changes nothing; one for an end that was never sent is
    /// a `ProtocolError`.
    pub fn on_fin_acked(&mut self) -> (result: Result<(), StreamError>)
        requires
            old(self).wf(),
        ensures
            final(self).wf(),
            final(self)@ == old(self)@.fin_acked().next,
            result == old(self)@.fin_acked().result,
    {
        match self.state {
            SendState::DataSent => {
                self.state = SendState::Closed;
                self.buffer = Vec::new();
                Ok(())
            },
            SendState::Closed => Ok(()),
            _ => Err(StreamError::ProtocolError),
        }
    }

    /// The peer acknowledged the `ResetStream` frame. A second acknowledgment
    /// changes nothing; one for a reset that was never sent is a
    /// `ProtocolError`.
    pub fn on_reset_acked(&mut self) -> (result: Result<(), StreamError>)
        requires
            old(self).wf(),
        ensures
            final(self).wf(),
            final(self)@ == old(self)@.reset_acked().next,
            result == old(self)@.reset_acked().result,
    {
        match self.state {
            SendState::Resetting => {
                self.state = SendState::Reset;
                Ok(())
            },
            SendState::Reset => Ok(()),
            _ => Err(StreamError::ProtocolError),
        }
    }

    /// The network lost what was sent. Only in `DataSent` does the half ask
    /// for the stream to be sent again.
    pub fn on_loss(&self) -> (frame: Option<SendingFrame>)
        ensures
            frame == self@.retransmission(),
    {
        match self.state {
            SendState::DataSent => Some(
                SendingFrame::Stream { offset: 0, len: self.offset, fin: true },
            ),
            _ => None,
        }
    }

    /// Flow control supplies the highest offset the peer allows.
    pub fn set_limit(&mut self, limit: u64)
        requires
            old(self).wf(),
        ensures
            final(self).wf(),
            final(self)@ == old(self)@.with_limit(limit),
    {
        self.limit = if limit <= MAX_OFFSET {
            limit
        } else {
            MAX_OFFSET
        };
    }
}

/// The half after the application has made the writes in `writes`, one after
/// the other, whatever each of them reported.
pub open spec fn after_writes(half: SendModel, writes: Seq<Seq<u8>>) -> SendModel
    decreases writes.len(),
{
    if writes.len() == 0 {
        half
    } else {
        after_writes(half, writes.drop_last()).write(writes.last()).next
    }
}

/// Every event leaves a consistent half consistent.
pub proof fn lemma_send_events_keep_wf(half: SendModel, data: Seq<u8>, limit: u64)
    requires
        half.wf(),
    ensures
        half.write(data).next.wf(),
        half.end().next.wf(),
        half.reset().next.wf(),
        half.fin_acked().next.wf(),
        half.reset_acked().next.wf(),
        half.with_limit(limit).wf(),
{
}

/// Writing alone never finishes a stream: after any number of writes, a half
/// that could still be written to can still be written to, so it is neither
/// `Closed` nor `Reset`.
pub proof fn lemma_writes_never_finish(half: SendModel, writes: Seq<Seq<u8>>)
    requires
        half.state.is_open(),
    ensures
        after_writes(half, writes).state.is_open(),
        !after_writes(half, writes).state.is_terminal(),
    decreases writes.len(),
{
    if writes.len() > 0 {
        lemma_writes_never_finish(half, writes.drop_last());
    }
}

/// Once a half is `Closed` or `Reset` no event moves it: every one of them
/// leaves the half as it was.
pub proof fn lemma_terminal_is_absorbing(half: SendModel, data: Seq<u8>)
    requires
        half.state.is_terminal(),
    ensures
        half.write(data).next == half,
        half.end().next == half,
        half.reset().next == half,
        half.fin_acked().next == half,
        half.reset_acked().next == half,
        half.retransmission() is None,
{
}

/// On a half that is `Reset` neither a write nor an end succeeds.
pub proof fn lemma_reset_refuses(half: SendModel, data: Seq<u8>)
    requires
        half.state is Reset,
    ensures
        half.write(data).result == Err::<(), StreamError>(StreamError::StreamClosed),
        half.end().result == Err::<(), StreamError>(StreamError::InvalidTransition),
        half.write(data).frame is None,
        half.end().frame is None,
{
}

/// The write offset never goes back, whatever the event.
pub proof fn lemma_offset_is_monotonic(half: SendModel, data: Seq<u8>, limit: u64)
    ensures
        half.write(data).next.offset >= half.offset,
        half.end().next.offset == half.offset,
        half.reset().next.offset == half.offset,
        half.fin_acked().next.offset == half.offset,
        half.reset_acked().next.offset == half.offset,
        half.with_limit(limit).offset == half.offset,
{
}

} // verus!
