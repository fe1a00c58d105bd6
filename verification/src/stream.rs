//! A stream: an identifier, a sending half, a receiving half, and the one
//! state that the two halves present together.
//!
//! The application and the network both act on a stream through the
//! functions here. Each hands the event to the half it concerns and queues
//! the frame that the half asks for; the packet layer collects the queue with
//! [`Stream::take_frames`]. The composite state is never stored: it is
//! computed from the two halves whenever it is asked for.

use vstd::prelude::*;
use crate::error::StreamError;
use crate::frame::{Frame, ReceivingFrame, SendingFrame};
use crate::id::{initiator_of, kind_of, Id, IdOutOfBoundsErr, Initiator, Kind, MAX_ID};
use crate::recv::{RecvHalf, RecvModel, RecvState, RecvStep};
use crate::send::{SendHalf, SendModel, SendState, SendStep};

verus! {

/// The state that the two halves of a stream present together.
#[derive(Clone, Copy, Debug, PartialEq, Eq, Structural)]
pub enum BidiState {
    /// Nothing was sent and the size of what the peer sends is unknown.
    Idle,
    /// This endpoint has begun to send; neither side has begun to close.
    Open,
    /// The peer has ended or abandoned its direction; this endpoint may
    /// still write.
    RemoteClosing,
    /// This endpoint has ended or abandoned its direction; the stream as a
    /// whole has not finished.
    LocallyClosing,
    /// Both halves have finished.
    Closed,
}

/// The composite state of a stream whose halves are in `send` and `recv`.
///
/// `Closed` means that both halves are terminal. Short of that, a sending
/// half that no longer takes writes makes the stream `LocallyClosing`,
/// whatever the receiving half does. With a sending half that still takes
/// writes, a receiving half that has left `Receiving` makes the stream
/// `RemoteClosing`. Otherwise the stream is `Open` once something was sent and
/// `Idle` before.
pub open spec fn composite(send: SendState, recv: RecvState) -> BidiState {
    if send.is_terminal() && recv.is_terminal() {
        BidiState::Closed
    } else if !send.is_open() {
        BidiState::LocallyClosing
    } else if !(recv is Receiving) {
        BidiState::RemoteClosing
    } else if send is Sending {
        BidiState::Open
    } else {
        BidiState::Idle
    }
}

impl BidiState {
    /// Computes the composite state from the states of the two halves.
    pub fn of(send: SendState, recv: RecvState) -> (state: BidiState)
        ensures
            state == composite(send, recv),
            state is Closed <==> send.is_terminal() && recv.is_terminal(),
    {
        if send.is_terminal() && recv.is_terminal() {
            BidiState::Closed
        } else if !send.is_open() {
            BidiState::LocallyClosing
        } else if recv != RecvState::Receiving {
            BidiState::RemoteClosing
        } else if send == SendState::Sending {
            BidiState::Open
        } else {
            BidiState::Idle
        }
    }
}

/// Whether the endpoint `local` sends on the stream `raw`: on a
/// bidirectional stream always, on a unidirectional one if it opened it.
pub open spec fn sends_on(raw: u64, local: Initiator) -> bool {
    kind_of(raw) is Bidirectional || initiator_of(raw) == local
}

/// Whether the endpoint `local` receives on the stream `raw`: on a
/// bidirectional stream always, on a unidirectional one if the peer opened it.
pub open spec fn receives_on(raw: u64, local: Initiator) -> bool {
    kind_of(raw) is Bidirectional || initiator_of(raw) != local
}

/// What a stream is, as mathematics.
#[verifier::ext_equal]
pub struct StreamModel {
    /// The identifier, below `2^62`.
    pub id: u64,
    /// The role of this endpoint.
    pub local: Initiator,
    pub send: SendModel,
    pub recv: RecvModel,
    /// The frames that wait for the packet layer, oldest first.
    pub outbox: Seq<Frame>,
}

impl StreamModel {
    /// The stream is consistent: so are its halves, and a half that this
    /// endpoint does not use is as it was made, finished and empty.
    pub open spec fn wf(self) -> bool {
        &&& self.id <= MAX_ID
        &&& self.send.wf()
        &&& self.recv.wf()
        &&& !sends_on(self.id, self.local) ==> self.send.state is Closed && self.send.offset == 0
        &&& !receives_on(self.id, self.local) ==> self.recv == RecvModel::inert()
    }

    /// The stream `raw` as the endpoint `local` first has it: a half that the
    /// endpoint uses is fresh, the other is finished from the start.
    pub open spec fn opened(raw: u64, local: Initiator) -> StreamModel {
        StreamModel {
            id: raw,
            local,
            send: if sends_on(raw, local) {
                SendModel::initial()
            } else {
                SendModel::inert()
            },
            recv: if receives_on(raw, local) {
                RecvModel::initial()
            } else {
                RecvModel::inert()
            },
            outbox: Seq::empty(),
        }
    }

    /// The composite state.
    pub open spec fn state(self) -> BidiState {
        composite(self.send.state, self.recv.state)
    }

    /// The queue after `frame`, if there is one, has joined it.
    pub open spec fn queued(self, frame: Option<Frame>) -> Seq<Frame> {
        match frame {
            Some(frame) => self.outbox.push(frame),
            None => self.outbox,
        }
    }

    /// The stream after an event on its sending half.
    pub open spec fn with_send(self, step: SendStep) -> StreamModel {
        StreamModel {
            send: step.next,
            outbox: self.queued(
                match step.frame {
                    Some(frame) => Some(Frame::Sending(frame)),
                    None => None,
                },
            ),
            ..self
        }
    }

    /// The stream after an event on its receiving half.
    pub open spec fn with_recv(self, step: RecvStep) -> StreamModel {
        StreamModel { recv: step.next, ..self }
    }
}

/// A stream.
pub struct Stream {
    id: Id,
    local: Initiator,
    send: SendHalf,
    recv: RecvHalf,
    outbox: Vec<Frame>,
}

impl View for Stream {
    type V = StreamModel;

    closed spec fn view(&self) -> StreamModel {
        StreamModel {
            id: self.id.value(),
            local: self.local,
            send: self.send@,
            recv: self.recv@,
            outbox: self.outbox@,
        }
    }
}

/// Puts `frame`, if there is one, at the end of `outbox`.
fn queue(outbox: &mut Vec<Frame>, frame: Option<Frame>)
    ensures
        final(outbox)@ == match frame {
            Some(frame) => old(outbox)@.push(frame),
            None => old(outbox)@,
        },
{
    if let Some(frame) = frame {
        outbox.push(frame);
    }
}

/// A frame of the sending half as a frame of the stream.
fn from_sending(frame: Option<SendingFrame>) -> (out: Option<Frame>)
    ensures
        out == match frame {
            Some(frame) => Some(Frame::Sending(frame)),
            None => None,
        },
{
    match frame {
        Some(frame) => Some(Frame::Sending(frame)),
        None => None,
    }
}

/// A frame of the receiving half as a frame of the stream.
fn from_receiving(frame: Option<ReceivingFrame>) -> (out: Option<Frame>)
    ensures
        out == match frame {
            Some(frame) => Some(Frame::Receiving(frame)),
            None => None,
        },
{
    match frame {
        Some(frame) => Some(Frame::Receiving(frame)),
        None => None,
    }
}

impl Stream {
    /// Both halves are consistent in what they hold.
    pub closed spec fn halves_ok(&self) -> bool {
        self.send.wf() && self.recv.wf()
    }

    /// The stream is consistent.
    pub open spec fn wf(&self) -> bool {
        self@.wf() && self.halves_ok()
    }

    /// Opens the stream `raw` for the endpoint `local`. The identifier must
    /// be below `2^62`.
    pub fn new(raw: u64, local: Initiator) -> (opened: Result<Stream, IdOutOfBoundsErr>)
        ensures
            opened is Ok <==> raw <= MAX_ID,
            opened matches Ok(stream) ==> stream.wf() && stream@ == StreamModel::opened(
                raw,
                local,
            ),
    {
        let id = match Id::try_from(raw) {
            Ok(id) => id,
            Err(error) => {
                return Err(error);
            },
        };
        let two_way = id.kind() == Kind::Bidirectional;
        let ours = id.initiator() == local;
        let send = if two_way || ours {
            SendHalf::new()
        } else {
            SendHalf::inert()
        };
        let recv = if two_way || !ours {
            RecvHalf::new()
        } else {
            RecvHalf::inert()
        };
        Ok(Stream { id, local, send, recv, outbox: Vec::new() })
    }

    /// The identifier of the stream.
    pub fn id(&self) -> (id: Id)
        ensures
            id.value() == self@.id,
    {
        self.id
    }

    /// The role of this endpoint.
    pub fn local(&self) -> (local: Initiator)
        ensures
            local == self@.local,
    {
        self.local
    }

    /// The sending half, to look at.
    pub fn send_half(&self) -> (half: &SendHalf)
        ensures
            half@ == self@.send,
            self.wf() ==> half.wf(),
    {
        &self.send
    }

    /// The receiving half, to look at.
    pub fn recv_half(&self) -> (half: &RecvHalf)
        ensures
            half@ == self@.recv,
            self.wf() ==> half.wf(),
    {
        &self.recv
    }

    /// The state of the sending half.
    pub fn send_state(&self) -> (state: SendState)
        ensures
            state == self@.send.state,
    {
        self.send.state()
    }

    /// The state of the receiving half.
    pub fn recv_state(&self) -> (state: RecvState)
        ensures
            state == self@.recv.state,
    {
        self.recv.state()
    }

    /// The composite state, computed from the two halves. It is `Closed`
    /// exactly when both halves are terminal.
    pub fn state(&self) -> (state: BidiState)
        ensures
            state == self@.state(),
            state is Closed <==> self@.send.state.is_terminal() && self@.recv.state.is_terminal(),
    {
        BidiState::of(self.send.state(), self.recv.state())
    }

    /// The application writes `data`.
    pub fn write(&mut self, data: &[u8]) -> (result: Result<(), StreamError>)
        requires
            old(self).wf(),
        ensures
            final(self).wf(),
            final(self)@ == old(self)@.with_send(old(self)@.send.write(data@)),
            result == old(self)@.send.write(data@).result,
    {
        let (result, frame) = self.send.write(data);
        queue(&mut self.outbox, from_sending(frame));
        result
    }

    /// The application ends the stream.
    pub fn end(&mut self) -> (result: Result<(), StreamError>)
        requires
            old(self).wf(),
        ensures
            final(self).wf(),
            final(self)@ == old(self)@.with_send(old(self)@.send.end()),
            result == old(self)@.send.end().result,
    {
        let (result, frame) = self.send.end();
        queue(&mut self.outbox, from_sending(frame));
        result
    }

    /// The application abandons what it sends on the stream.
    pub fn reset(&mut self) -> (result: Result<(), StreamError>)
        requires
            old(self).wf(),
        ensures
            final(self).wf(),
            final(self)@ == old(self)@.with_send(old(self)@.send.reset()),
            result == old(self)@.send.reset().result,
    {
        let (result, frame) = self.send.reset();
        queue(&mut self.outbox, from_sending(frame));
        result
    }

    /// The application reads: it gets the bytes that follow the read offset
    /// without a gap, which may be none, and never waits.
    pub fn read(&mut self) -> (bytes: Vec<u8>)
        requires
            old(self).wf(),
        ensures
            final(self).wf(),
            old(self)@.recv.is_available(bytes@),
            final(self)@ == (StreamModel {
                recv: old(self)@.recv.after_read(bytes@.len()),
                ..old(self)@
            }),
    {
        let bytes = self.recv.read();
        proof {
            if !receives_on(old(self)@.id, old(self)@.local) {
                lemma_one_way_read_is_empty(old(self)@, bytes@);
            }
        }
        bytes
    }

    /// The application acknowledges that the peer abandoned the stream.
    pub fn abort(&mut self) -> (result: Result<(), StreamError>)
        requires
            old(self).wf(),
        ensures
            final(self).wf(),
            final(self)@ == old(self)@.with_recv(old(self)@.recv.abort()),
            result == old(self)@.recv.abort().result,
    {
        self.recv.abort()
    }

    /// A `Stream` frame arrives with `data` at `offset`; `fin` says that the
    /// stream ends with it.
    pub fn on_stream_frame(&mut self, offset: u64, data: &[u8], fin: bool) -> (result: Result<
        (),
        StreamError,
    >)
        requires
            old(self).wf(),
        ensures
            final(self).wf(),
            final(self)@ == old(self)@.with_recv(old(self)@.recv.stream_frame(offset, data@, fin)),
            result == old(self)@.recv.stream_frame(offset, data@, fin).result,
    {
        self.recv.on_stream_frame(offset, data, fin)
    }

    /// A `ResetStream` frame arrives and names `final_size` as the size of
    /// the stream.
    pub fn on_reset_stream(&mut self, final_size: u64) -> (result: Result<(), StreamError>)
        requires
            old(self).wf(),
        ensures
            final(self).wf(),
            final(self)@ == old(self)@.with_recv(old(self)@.recv.reset_stream(final_size)),
            result == old(self)@.recv.reset_stream(final_size).result,
    {
        self.recv.on_reset_stream(final_size)
    }

    /// The peer acknowledged the frame that ends the stream.
    pub fn on_fin_acked(&mut self) -> (result: Result<(), StreamError>)
        requires
            old(self).wf(),
        ensures
            final(self).wf(),
            final(self)@ == old(self)@.with_send(old(self)@.send.fin_acked()),
            result == old(self)@.send.fin_acked().result,
    {
        self.send.on_fin_acked()
    }

    /// The peer acknowledged the `ResetStream` frame.
    pub fn on_reset_acked(&mut self) -> (result: Result<(), StreamError>)
        requires
            old(self).wf(),
        ensures
            final(self).wf(),
            final(self)@ == old(self)@.with_send(old(self)@.send.reset_acked()),
            result == old(self)@.send.reset_acked().result,
    {
        self.send.on_reset_acked()
    }

    /// The network lost what was sent. The frame that sends it again, if the
    /// sending half asks for one, joins the queue.
    pub fn on_loss(&mut self)
        requires
            old(self).wf(),
        ensures
            final(self).wf(),
            final(self)@ == (StreamModel {
                outbox: old(self)@.queued(
                    match old(self)@.send.retransmission() {
                        Some(frame) => Some(Frame::Sending(frame)),
                        None => None,
                    },
                ),
                ..old(self)@
            }),
    {
        let frame = self.send.on_loss();
        queue(&mut self.outbox, from_sending(frame));
    }

    /// Flow control supplies the highest offset the peer allows this
    /// endpoint to send.
    pub fn set_send_limit(&mut self, limit: u64)
        requires
            old(self).wf(),
        ensures
            final(self).wf(),
            final(self)@ == (StreamModel { send: old(self)@.send.with_limit(limit), ..old(self)@ }),
    {
        self.send.set_limit(limit);
    }

    /// Flow control wants the peer to know that it may send up to offset
    /// `limit`. The frame that says so, if the receiving half asks for one,
    /// joins the queue.
    pub fn extend_recv_window(&mut self, limit: u64)
        requires
            old(self).wf(),
        ensures
            final(self).wf(),
            final(self)@ == (StreamModel {
                outbox: old(self)@.queued(
                    match old(self)@.recv.window_update(limit) {
                        Some(frame) => Some(Frame::Receiving(frame)),
                        None => None,
                    },
                ),
                ..old(self)@
            }),
    {
        let frame = self.recv.extend_window(limit);
        queue(&mut self.outbox, from_receiving(frame));
    }

    /// Hands out the frames that wait for the packet layer, oldest first,
    /// and empties the queue.
    pub fn take_frames(&mut self) -> (frames: Vec<Frame>)
        requires
            old(self).wf(),
        ensures
            final(self).wf(),
            frames@ == old(self)@.outbox,
            final(self)@ == (StreamModel { outbox: Seq::empty(), ..old(self)@ }),
    {
        let mut frames: Vec<Frame> = Vec::new();
        frames.append(&mut self.outbox);
        frames
    }
}

/// A stream is `Closed` exactly when both of its halves are terminal,
/// whatever the states of the halves are.
pub proof fn lemma_closed_iff_both_terminal(send: SendState, recv: RecvState)
    ensures
        composite(send, recv) is Closed <==> send.is_terminal() && recv.is_terminal(),
{
}

/// On a stream that runs in one direction only, the composite state follows
/// the half that is in use: the stream is `Closed` exactly when that half is
/// terminal.
pub proof fn lemma_one_way_follows_active_half(stream: StreamModel)
    requires
        stream.wf(),
    ensures
        !receives_on(stream.id, stream.local) ==> (stream.state() is Closed
            <==> stream.send.state.is_terminal()),
        !sends_on(stream.id, stream.local) ==> (stream.state() is Closed
            <==> stream.recv.state.is_terminal()),
{
}

/// On a stream on which this endpoint does not receive, a read hands out
/// nothing and leaves the receiving half as it is.
pub proof fn lemma_one_way_read_is_empty(stream: StreamModel, bytes: Seq<u8>)
    requires
        stream.wf(),
        !receives_on(stream.id, stream.local),
        stream.recv.is_available(bytes),
    ensures
        bytes.len() == 0,
        stream.recv.after_read(bytes.len()) == stream.recv,
{
    if bytes.len() > 0 {
        assert(stream.recv.buffered.dom().contains(stream.recv.read_offset as int));
    }
    assert(stream.recv.after_read(0).buffered =~= stream.recv.buffered);
}

/// Every event leaves a consistent stream consistent. In particular the
/// half that a one-way stream does not use stays as it was made.
pub proof fn lemma_events_keep_stream_wf(
    stream: StreamModel,
    data: Seq<u8>,
    offset: u64,
    fin: bool,
    size: u64,
    bytes: Seq<u8>,
)
    requires
        stream.wf(),
        stream.recv.is_available(bytes),
    ensures
        stream.with_send(stream.send.write(data)).wf(),
        stream.with_send(stream.send.end()).wf(),
        stream.with_send(stream.send.reset()).wf(),
        stream.with_send(stream.send.fin_acked()).wf(),
        stream.with_send(stream.send.reset_acked()).wf(),
        stream.with_recv(stream.recv.stream_frame(offset, data, fin)).wf(),
        stream.with_recv(stream.recv.reset_stream(size)).wf(),
        stream.with_recv(stream.recv.abort()).wf(),
        (StreamModel { recv: stream.recv.after_read(bytes.len()), ..stream }).wf(),
        (StreamModel { send: stream.send.with_limit(size), ..stream }).wf(),
{
    crate::send::lemma_send_events_keep_wf(stream.send, data, size);
    crate::recv::lemma_recv_events_keep_wf(stream.recv, offset, data, fin, size);
    crate::recv::lemma_read_keeps_wf(stream.recv, bytes);
    if !receives_on(stream.id, stream.local) {
        lemma_one_way_read_is_empty(stream, bytes);
    }
}

} // verus!
