use quic_stream::error::StreamError;
use quic_stream::frame::{Frame, ReceivingFrame, SendingFrame};
use quic_stream::id::{IdOutOfBoundsErr, Initiator, Kind, MAX_ID};
use quic_stream::recv::RecvState;
use quic_stream::send::SendState;
use quic_stream::stream::{BidiState, Stream};

const SEND: [SendState; 6] = [
    SendState::Ready,
    SendState::Sending,
    SendState::DataSent,
    SendState::Closed,
    SendState::Resetting,
    SendState::Reset,
];

const RECV: [RecvState; 6] = [
    RecvState::Receiving,
    RecvState::SizeKnown,
    RecvState::DataReceived,
    RecvState::DataRead,
    RecvState::ResetReceived,
    RecvState::ResetRead,
];

fn open(raw: u64, local: Initiator) -> Stream {
    match Stream::new(raw, local) {
        Ok(stream) => stream,
        Err(_) => panic!("identifier {} was refused", raw),
    }
}

fn drive_send(stream: &mut Stream, state: SendState) {
    match state {
        SendState::Ready => {}
        SendState::Sending => stream.write(&[1]).unwrap(),
        SendState::DataSent => stream.end().unwrap(),
        SendState::Closed => {
            stream.end().unwrap();
            stream.on_fin_acked().unwrap();
        }
        SendState::Resetting => stream.reset().unwrap(),
        SendState::Reset => {
            stream.reset().unwrap();
            stream.on_reset_acked().unwrap();
        }
    }
    assert_eq!(stream.send_state(), state);
}

fn drive_recv(stream: &mut Stream, state: RecvState) {
    match state {
        RecvState::Receiving => {}
        RecvState::SizeKnown => stream.on_stream_frame(1, &[2], true).unwrap(),
        RecvState::DataReceived => stream.on_stream_frame(0, &[1, 2], true).unwrap(),
        RecvState::DataRead => {
            stream.on_stream_frame(0, &[1, 2], true).unwrap();
            assert_eq!(stream.read(), vec![1, 2]);
        }
        RecvState::ResetReceived => stream.on_reset_stream(0).unwrap(),
        RecvState::ResetRead => {
            stream.on_reset_stream(0).unwrap();
            stream.abort().unwrap();
        }
    }
    assert_eq!(stream.recv_state(), state);
}

fn expected_composite(send: SendState, recv: RecvState) -> BidiState {
    let send_done = matches!(send, SendState::Closed | SendState::Reset);
    let recv_done = matches!(recv, RecvState::DataRead | RecvState::ResetRead);
    let send_open = matches!(send, SendState::Ready | SendState::Sending);
    if send_done && recv_done {
        BidiState::Closed
    } else if !send_open {
        BidiState::LocallyClosing
    } else if recv != RecvState::Receiving {
        BidiState::RemoteClosing
    } else if send == SendState::Sending {
        BidiState::Open
    } else {
        BidiState::Idle
    }
}

#[test]
fn stream_construction_checks_the_identifier() {
    assert!(Stream::new(0, Initiator::Client).is_ok());
    assert!(Stream::new(MAX_ID, Initiator::Server).is_ok());
    assert!(matches!(Stream::new(MAX_ID + 1, Initiator::Client), Err(IdOutOfBoundsErr)));
    assert!(matches!(Stream::new(u64::MAX, Initiator::Server), Err(IdOutOfBoundsErr)));
}

#[test]
fn stream_keeps_identifier_and_role() {
    let stream = open(7, Initiator::Server);
    assert_eq!(stream.id().as_u64(), 7);
    assert_eq!(stream.id().kind(), Kind::Unidirectional);
    assert_eq!(stream.id().initiator(), Initiator::Server);
    assert_eq!(stream.local(), Initiator::Server);
}

#[test]
fn stream_bidirectional_starts_idle() {
    for (raw, local) in [
        (0, Initiator::Client),
        (0, Initiator::Server),
        (1, Initiator::Client),
        (1, Initiator::Server),
        (4, Initiator::Client),
    ] {
        let mut stream = open(raw, local);
        assert_eq!(stream.send_state(), SendState::Ready);
        assert_eq!(stream.recv_state(), RecvState::Receiving);
        assert_eq!(stream.state(), BidiState::Idle);
        assert!(stream.take_frames().is_empty());
    }
}

#[test]
fn scenario_write_end_ack_then_remote_fin_and_read() {
    let mut stream = open(0, Initiator::Client);
    assert_eq!(stream.state(), BidiState::Idle);

    assert_eq!(stream.write(&[1, 2, 3]), Ok(()));
    assert_eq!(stream.send_state(), SendState::Sending);
    assert_eq!(stream.state(), BidiState::Open);

    assert_eq!(stream.end(), Ok(()));
    assert_eq!(stream.send_state(), SendState::DataSent);
    assert_eq!(stream.state(), BidiState::LocallyClosing);

    assert_eq!(stream.on_fin_acked(), Ok(()));
    assert_eq!(stream.send_state(), SendState::Closed);
    assert_eq!(stream.state(), BidiState::LocallyClosing);

    assert_eq!(stream.on_stream_frame(0, &[9, 8], true), Ok(()));
    assert_eq!(stream.recv_state(), RecvState::DataReceived);
    assert_eq!(stream.state(), BidiState::LocallyClosing);

    assert_eq!(stream.read(), vec![9, 8]);
    assert_eq!(stream.recv_state(), RecvState::DataRead);
    assert_eq!(stream.state(), BidiState::Closed);

    assert_eq!(
        stream.take_frames(),
        vec![
            Frame::Sending(SendingFrame::Stream { offset: 0, len: 3, fin: false }),
            Frame::Sending(SendingFrame::Stream { offset: 3, len: 0, fin: true }),
        ]
    );
    assert!(stream.take_frames().is_empty());
}

#[test]
fn scenario_one_way_stream_opened_here_never_receives() {
    let mut stream = open(2, Initiator::Client);
    assert_eq!(stream.recv_state(), RecvState::DataRead);
    assert_eq!(stream.send_state(), SendState::Ready);
    for _ in 0..5 {
        assert_eq!(stream.read(), Vec::<u8>::new());
        assert_eq!(stream.recv_state(), RecvState::DataRead);
    }
    assert_eq!(stream.write(&[1]), Ok(()));
    assert_eq!(stream.read(), Vec::<u8>::new());
    assert_eq!(stream.recv_state(), RecvState::DataRead);
    assert_eq!(stream.on_stream_frame(0, &[1], false), Err(StreamError::ProtocolError));
    assert_eq!(stream.on_reset_stream(0), Err(StreamError::ProtocolError));
    assert_eq!(stream.abort(), Err(StreamError::InvalidTransition));
    assert_eq!(stream.recv_state(), RecvState::DataRead);
    assert_eq!(stream.read(), Vec::<u8>::new());
}

#[test]
fn scenario_reset_received_then_abort_then_frames_refused() {
    let mut stream = open(0, Initiator::Client);
    assert_eq!(stream.recv_state(), RecvState::Receiving);
    assert_eq!(stream.on_reset_stream(0), Ok(()));
    assert_eq!(stream.recv_state(), RecvState::ResetReceived);
    assert_eq!(stream.state(), BidiState::RemoteClosing);
    assert_eq!(stream.abort(), Ok(()));
    assert_eq!(stream.recv_state(), RecvState::ResetRead);
    assert_eq!(stream.on_stream_frame(0, &[1, 2, 3], false), Err(StreamError::ProtocolError));
    assert_eq!(stream.on_stream_frame(0, &[], true), Err(StreamError::ProtocolError));
    assert_eq!(stream.recv_state(), RecvState::ResetRead);
    assert!(stream.take_frames().is_empty());
}

#[test]
fn stream_one_way_opened_by_peer_never_sends() {
    for (raw, local) in [(2, Initiator::Server), (3, Initiator::Client)] {
        let mut stream = open(raw, local);
        assert_eq!(stream.send_state(), SendState::Closed);
        assert_eq!(stream.recv_state(), RecvState::Receiving);
        assert_eq!(stream.state(), BidiState::LocallyClosing);
        assert_eq!(stream.write(&[1]), Err(StreamError::StreamClosed));
        assert_eq!(stream.end(), Ok(()));
        assert_eq!(stream.reset(), Err(StreamError::InvalidTransition));
        assert_eq!(stream.on_reset_acked(), Err(StreamError::ProtocolError));
        stream.set_send_limit(0);
        stream.on_loss();
        assert_eq!(stream.send_state(), SendState::Closed);
        assert!(stream.take_frames().is_empty());

        assert_eq!(stream.on_stream_frame(0, &[5], true), Ok(()));
        assert_eq!(stream.state(), BidiState::LocallyClosing);
        assert_eq!(stream.read(), vec![5]);
        assert_eq!(stream.state(), BidiState::Closed);
    }
}

#[test]
fn stream_one_way_opened_here_follows_the_sending_half() {
    for (raw, local) in [(2, Initiator::Client), (3, Initiator::Server)] {
        let mut stream = open(raw, local);
        assert_eq!(stream.state(), BidiState::RemoteClosing);
        stream.write(&[1]).unwrap();
        assert_eq!(stream.state(), BidiState::RemoteClosing);
        stream.end().unwrap();
        assert_eq!(stream.state(), BidiState::LocallyClosing);
        stream.on_fin_acked().unwrap();
        assert_eq!(stream.state(), BidiState::Closed);
    }
}

#[test]
fn composite_of_every_pair_of_states() {
    for send in SEND {
        for recv in RECV {
            let state = BidiState::of(send, recv);
            assert_eq!(state, expected_composite(send, recv));
            assert_eq!(state == BidiState::Closed, send.is_terminal() && recv.is_terminal());
        }
    }
}

#[test]
fn composite_named_pairs() {
    assert_eq!(BidiState::of(SendState::Ready, RecvState::Receiving), BidiState::Idle);
    assert_eq!(BidiState::of(SendState::Sending, RecvState::Receiving), BidiState::Open);
    assert_eq!(BidiState::of(SendState::Ready, RecvState::SizeKnown), BidiState::RemoteClosing);
    assert_eq!(BidiState::of(SendState::Sending, RecvState::DataReceived), BidiState::RemoteClosing);
    assert_eq!(BidiState::of(SendState::Sending, RecvState::ResetReceived), BidiState::RemoteClosing);
    assert_eq!(BidiState::of(SendState::Ready, RecvState::DataRead), BidiState::RemoteClosing);
    assert_eq!(BidiState::of(SendState::DataSent, RecvState::Receiving), BidiState::LocallyClosing);
    assert_eq!(BidiState::of(SendState::Resetting, RecvState::Receiving), BidiState::LocallyClosing);
    assert_eq!(BidiState::of(SendState::Closed, RecvState::Receiving), BidiState::LocallyClosing);
    assert_eq!(BidiState::of(SendState::DataSent, RecvState::SizeKnown), BidiState::LocallyClosing);
    assert_eq!(BidiState::of(SendState::Closed, RecvState::DataReceived), BidiState::LocallyClosing);
    assert_eq!(BidiState::of(SendState::DataSent, RecvState::DataRead), BidiState::LocallyClosing);
    assert_eq!(BidiState::of(SendState::Closed, RecvState::DataRead), BidiState::Closed);
    assert_eq!(BidiState::of(SendState::Closed, RecvState::ResetRead), BidiState::Closed);
    assert_eq!(BidiState::of(SendState::Reset, RecvState::DataRead), BidiState::Closed);
    assert_eq!(BidiState::of(SendState::Reset, RecvState::ResetRead), BidiState::Closed);
}

#[test]
fn stream_reaches_every_pair_and_is_closed_iff_both_halves_are_terminal() {
    for send in SEND {
        for recv in RECV {
            let mut stream = open(0, Initiator::Client);
            drive_send(&mut stream, send);
            drive_recv(&mut stream, recv);
            assert_eq!(stream.send_state(), send);
            assert_eq!(stream.recv_state(), recv);
            assert_eq!(stream.state(), expected_composite(send, recv));
            assert_eq!(
                stream.state() == BidiState::Closed,
                send.is_terminal() && recv.is_terminal()
            );
        }
    }
}

#[test]
fn stream_halves_advance_independently() {
    let mut a = open(1, Initiator::Server);
    let mut b = open(1, Initiator::Server);
    a.write(&[1]).unwrap();
    a.on_stream_frame(0, &[2], true).unwrap();
    b.on_stream_frame(0, &[2], true).unwrap();
    b.write(&[1]).unwrap();
    assert_eq!(a.send_state(), b.send_state());
    assert_eq!(a.recv_state(), b.recv_state());
    assert_eq!(a.state(), b.state());
    assert_eq!(a.take_frames(), b.take_frames());
}

#[test]
fn stream_blocked_write_queues_blocked_frame() {
    let mut stream = open(0, Initiator::Client);
    stream.set_send_limit(2);
    assert_eq!(stream.write(&[1, 2, 3]), Err(StreamError::Blocked));
    assert_eq!(stream.send_state(), SendState::Sending);
    assert_eq!(stream.state(), BidiState::Open);
    assert_eq!(stream.write(&[1, 2]), Ok(()));
    assert_eq!(
        stream.take_frames(),
        vec![
            Frame::Sending(SendingFrame::StreamDataBlocked { limit: 2 }),
            Frame::Sending(SendingFrame::Stream { offset: 0, len: 2, fin: false }),
        ]
    );
    assert_eq!(stream.send_half().unacked(), &[1, 2]);
    assert_eq!(stream.send_half().offset(), 2);
}

#[test]
fn stream_reset_queues_reset_frame() {
    let mut stream = open(0, Initiator::Client);
    stream.write(&[1, 2, 3]).unwrap();
    assert_eq!(stream.reset(), Ok(()));
    assert_eq!(stream.state(), BidiState::LocallyClosing);
    assert_eq!(stream.write(&[4]), Err(StreamError::StreamClosed));
    assert_eq!(stream.end(), Err(StreamError::InvalidTransition));
    assert_eq!(stream.on_reset_acked(), Ok(()));
    assert_eq!(stream.send_state(), SendState::Reset);
    assert_eq!(
        stream.take_frames(),
        vec![
            Frame::Sending(SendingFrame::Stream { offset: 0, len: 3, fin: false }),
            Frame::Sending(SendingFrame::ResetStream { final_size: 3 }),
        ]
    );
}

#[test]
fn stream_loss_in_data_sent_queues_retransmission() {
    let mut stream = open(0, Initiator::Client);
    stream.write(&[1, 2, 3]).unwrap();
    stream.on_loss();
    stream.end().unwrap();
    stream.take_frames();
    stream.on_loss();
    assert_eq!(
        stream.take_frames(),
        vec![Frame::Sending(SendingFrame::Stream { offset: 0, len: 3, fin: true })]
    );
    stream.on_fin_acked().unwrap();
    stream.on_loss();
    assert!(stream.take_frames().is_empty());
}

#[test]
fn stream_window_extension_queues_max_stream_data_while_receiving() {
    let mut stream = open(0, Initiator::Client);
    stream.extend_recv_window(4096);
    stream.on_stream_frame(0, &[1], false).unwrap();
    stream.extend_recv_window(8192);
    stream.on_stream_frame(1, &[2], true).unwrap();
    stream.extend_recv_window(16384);
    assert_eq!(
        stream.take_frames(),
        vec![
            Frame::Receiving(ReceivingFrame::MaxStreamData { limit: 4096 }),
            Frame::Receiving(ReceivingFrame::MaxStreamData { limit: 8192 }),
        ]
    );
    assert_eq!(stream.recv_half().highest(), 2);
    assert_eq!(stream.read(), vec![1, 2]);
}

#[test]
fn stream_received_frames_without_fin_leave_it_idle() {
    let mut stream = open(0, Initiator::Client);
    stream.on_stream_frame(0, &[1, 2], false).unwrap();
    assert_eq!(stream.state(), BidiState::Idle);
    assert_eq!(stream.read(), vec![1, 2]);
    assert_eq!(stream.state(), BidiState::Idle);
}
