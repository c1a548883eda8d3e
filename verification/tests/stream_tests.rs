use crossbeam_channel::{bounded, Receiver, Sender};
use yamux::error::Error;
use yamux::frame::{Flag, Flags, Frame, Type};
use yamux::stream::{Stream, StreamEvent, StreamState};

struct Ends {
    events: Receiver<StreamEvent>,
    frames: Sender<Frame>,
}

fn make_stream(id: u32, state: StreamState, window: u32) -> (Stream, Ends) {
    let (event_sender, events) = bounded(64);
    let (frames, frame_receiver) = bounded(64);
    let stream = Stream::new(id, event_sender, frame_receiver, state, window, window);
    (stream, Ends { events, frames })
}

fn next_frame(ends: &Ends) -> Frame {
    match ends.events.try_recv() {
        Ok(StreamEvent::SendFrame(frame)) => frame,
        _ => panic!("expected a frame"),
    }
}

fn established(ends: &Ends, id: u32) {
    match ends.events.try_recv() {
        Ok(StreamEvent::StateChanged((i, StreamState::Established))) if i == id => {}
        _ => panic!("expected the established state"),
    }
}

fn data_frame(flags: Flags, id: u32, data: &[u8]) -> Frame {
    Frame::new_data(flags, id, data.to_vec())
}

#[test]
fn new_stream_fields() {
    let (stream, ends) = make_stream(3, StreamState::Init, 1000);
    assert_eq!(stream.id(), 3);
    assert_eq!(stream.state(), StreamState::Init);
    assert_eq!(stream.recv_window(), 1000);
    assert_eq!(stream.send_window(), 1000);
    assert!(ends.events.try_recv().is_err());
}

#[test]
fn opened_stream_announces_with_syn() {
    let (mut stream, ends) = make_stream(1, StreamState::Init, 1000);
    assert_eq!(stream.send_window_update(), Ok(()));
    assert_eq!(stream.state(), StreamState::SynSent);
    let frame = next_frame(&ends);
    assert_eq!(frame.ty(), Type::WindowUpdate);
    assert_eq!(frame.flags().value(), Flag::Syn.value());
    assert_eq!(frame.stream_id(), 1);
    assert_eq!(frame.length(), 0);
}

#[test]
fn accepted_stream_answers_with_ack() {
    let (mut stream, ends) = make_stream(2, StreamState::SynReceived, 1000);
    assert_eq!(stream.send_window_update(), Ok(()));
    assert_eq!(stream.state(), StreamState::Established);
    let frame = next_frame(&ends);
    assert_eq!(frame.flags().value(), Flag::Ack.value());
    assert_eq!(frame.length(), 0);
    established(&ends, 2);
    assert!(ends.events.try_recv().is_err());
}

#[test]
fn small_window_update_is_left_out() {
    let (mut stream, ends) = make_stream(2, StreamState::SynReceived, 1000);
    stream.send_window_update().unwrap();
    let _ = next_frame(&ends);
    established(&ends, 2);
    // established, full window: credit 0 < 500 and no flag
    assert_eq!(stream.send_window_update(), Ok(()));
    assert!(ends.events.try_recv().is_err());
}

#[test]
fn data_is_buffered_and_read_in_order() {
    let (mut stream, ends) = make_stream(2, StreamState::SynReceived, 1000);
    stream.send_window_update().unwrap();
    let _ = next_frame(&ends);
    established(&ends, 2);
    assert_eq!(stream.handle_frame(data_frame(Flags::default(), 2, b"hello")), Ok(()));
    assert_eq!(stream.recv_window(), 995);
    assert_eq!(stream.handle_frame(data_frame(Flags::default(), 2, b" world")), Ok(()));
    assert_eq!(stream.recv_window(), 989);
    let mut buf = [0u8; 4];
    assert_eq!(stream.read(&mut buf), 4);
    assert_eq!(&buf, b"hell");
    let mut buf = [0u8; 20];
    assert_eq!(stream.read(&mut buf), 7);
    assert_eq!(&buf[..7], b"o world");
    assert_eq!(&buf[7..], &[0u8; 13][..]);
    // 11 bytes freed: less than half the window, no flag: no update yet
    assert_eq!(stream.recv_window(), 989);
    assert!(ends.events.try_recv().is_err());
}

#[test]
fn read_grants_credit_back_once_half_the_window_is_used() {
    let (mut stream, ends) = make_stream(2, StreamState::SynReceived, 10);
    stream.send_window_update().unwrap();
    let _ = next_frame(&ends);
    established(&ends, 2);
    stream.handle_frame(data_frame(Flags::default(), 2, b"abcdef")).unwrap();
    assert_eq!(stream.recv_window(), 4);
    let mut buf = [0u8; 6];
    assert_eq!(stream.read(&mut buf), 6);
    assert_eq!(&buf, b"abcdef");
    assert_eq!(stream.recv_window(), 10);
    let frame = next_frame(&ends);
    assert_eq!(frame.ty(), Type::WindowUpdate);
    assert_eq!(frame.length(), 6);
    assert_eq!(frame.flags().value(), 0);
}

#[test]
fn read_takes_frames_from_the_channel() {
    let (mut stream, ends) = make_stream(4, StreamState::SynReceived, 100);
    ends.frames.send(data_frame(Flags::default(), 4, b"abc")).unwrap();
    ends.frames.send(data_frame(Flags::default(), 4, b"de")).unwrap();
    let mut buf = [0u8; 8];
    assert_eq!(stream.read(&mut buf), 5);
    assert_eq!(&buf[..5], b"abcde");
}

#[test]
fn data_beyond_window_is_refused() {
    let (mut stream, _ends) = make_stream(2, StreamState::SynReceived, 4);
    assert_eq!(
        stream.handle_frame(data_frame(Flags::default(), 2, b"12345")),
        Err(Error::RecvWindowExceeded)
    );
    assert_eq!(stream.recv_window(), 4);
}

#[test]
fn body_longer_than_length_is_refused() {
    let (mut stream, _ends) = make_stream(2, StreamState::SynReceived, 100);
    let mut frame = Frame::new(Type::Data, Flags::default(), 2, 2);
    frame.set_body(Some(b"four".to_vec()));
    assert_eq!(stream.handle_frame(frame), Err(Error::RecvWindowExceeded));
    assert_eq!(stream.recv_window(), 100);
}

#[test]
fn ping_frames_do_not_belong_to_streams() {
    let (mut stream, _ends) = make_stream(2, StreamState::SynReceived, 100);
    let frame = Frame::new_ping(Flags::from(Flag::Syn), 1);
    assert_eq!(stream.handle_frame(frame), Err(Error::InvalidMsgType));
}

#[test]
fn window_update_grants_send_credit() {
    let (mut stream, _ends) = make_stream(2, StreamState::SynReceived, 100);
    let frame = Frame::new_window_update(Flags::default(), 2, 50);
    assert_eq!(stream.handle_frame(frame), Ok(()));
    assert_eq!(stream.send_window(), 150);
}

#[test]
fn send_credit_wraps_at_u32() {
    let (mut stream, _ends) = make_stream(2, StreamState::SynReceived, u32::MAX);
    let frame = Frame::new_window_update(Flags::default(), 2, 3);
    assert_eq!(stream.handle_frame(frame), Ok(()));
    assert_eq!(stream.send_window(), 2);
}

#[test]
fn ack_completes_an_opening() {
    let (mut stream, ends) = make_stream(1, StreamState::Init, 100);
    stream.send_window_update().unwrap();
    let _ = next_frame(&ends);
    assert_eq!(stream.state(), StreamState::SynSent);
    let frame = Frame::new_window_update(Flags::from(Flag::Ack), 1, 0);
    stream.handle_frame(frame).unwrap();
    assert_eq!(stream.state(), StreamState::SynReceived);
}

#[test]
fn fin_half_closes_then_second_fin_is_refused() {
    let (mut stream, _ends) = make_stream(2, StreamState::SynReceived, 100);
    let fin = Frame::new_window_update(Flags::from(Flag::Fin), 2, 0);
    assert_eq!(stream.handle_frame(fin), Ok(()));
    assert_eq!(stream.state(), StreamState::RemoteClosing);
    let fin = Frame::new_window_update(Flags::from(Flag::Fin), 2, 0);
    assert_eq!(stream.handle_frame(fin), Err(Error::UnexpectedFlag));
    assert_eq!(stream.state(), StreamState::RemoteClosing);
}

#[test]
fn close_then_remote_fin_closes() {
    let (mut stream, ends) = make_stream(2, StreamState::SynReceived, 100);
    stream.send_window_update().unwrap();
    let _ = next_frame(&ends);
    established(&ends, 2);
    assert_eq!(stream.close(), Ok(()));
    assert_eq!(stream.state(), StreamState::LocalClosing);
    let frame = next_frame(&ends);
    assert_eq!(frame.ty(), Type::WindowUpdate);
    assert_eq!(frame.flags().value(), Flag::Fin.value());
    assert_eq!(frame.length(), 0);
    let fin = Frame::new_window_update(Flags::from(Flag::Fin), 2, 0);
    assert_eq!(stream.handle_frame(fin), Ok(()));
    assert_eq!(stream.state(), StreamState::Closed);
    match ends.events.try_recv() {
        Ok(StreamEvent::StateChanged((2, StreamState::Closed))) => {}
        _ => panic!("expected the closed state"),
    }
}

#[test]
fn remote_fin_then_close_closes() {
    let (mut stream, ends) = make_stream(2, StreamState::SynReceived, 100);
    let fin = Frame::new_window_update(Flags::from(Flag::Fin), 2, 0);
    stream.handle_frame(fin).unwrap();
    assert_eq!(stream.close(), Ok(()));
    assert_eq!(stream.state(), StreamState::Closed);
    let frame = next_frame(&ends);
    assert_eq!(frame.flags().value(), Flag::Fin.value());
    match ends.events.try_recv() {
        Ok(StreamEvent::StateChanged((2, StreamState::Closed))) => {}
        _ => panic!("expected the closed state"),
    }
}

#[test]
fn close_before_opening_does_nothing() {
    let (mut stream, ends) = make_stream(1, StreamState::Init, 100);
    assert_eq!(stream.close(), Ok(()));
    assert_eq!(stream.state(), StreamState::Init);
    assert!(ends.events.try_recv().is_err());
}

#[test]
fn close_without_session_fails() {
    let (mut stream, ends) = make_stream(2, StreamState::SynReceived, 100);
    drop(ends.events);
    assert_eq!(stream.close(), Err(Error::SessionShutdown));
    assert_eq!(stream.state(), StreamState::LocalClosing);
}

#[test]
fn rst_resets() {
    let (mut stream, ends) = make_stream(2, StreamState::SynReceived, 100);
    let rst = Frame::new_window_update(Flags::from(Flag::Rst), 2, 0);
    assert_eq!(stream.handle_frame(rst), Ok(()));
    assert_eq!(stream.state(), StreamState::Reset);
    match ends.events.try_recv() {
        Ok(StreamEvent::StateChanged((2, StreamState::Reset))) => {}
        _ => panic!("expected the reset state"),
    }
}

#[test]
fn write_uses_send_credit() {
    let (mut stream, ends) = make_stream(1, StreamState::Init, 4);
    assert_eq!(stream.write(b"abcdef"), Some(4));
    assert_eq!(stream.send_window(), 0);
    assert_eq!(stream.state(), StreamState::SynSent);
    let frame = next_frame(&ends);
    assert_eq!(frame.ty(), Type::Data);
    assert_eq!(frame.flags().value(), Flag::Syn.value());
    assert_eq!(frame.length(), 4);
    let (_h, body) = frame.into_parts();
    assert_eq!(body, Some(b"abcd".to_vec()));
    // no credit left: nothing is written
    assert_eq!(stream.write(b"ef"), None);
    assert!(ends.events.try_recv().is_err());
}

#[test]
fn write_waits_for_window_updates_from_the_channel() {
    let (mut stream, ends) = make_stream(1, StreamState::SynReceived, 0);
    assert_eq!(stream.write(b"xy"), None);
    ends.frames.send(Frame::new_window_update(Flags::default(), 1, 1)).unwrap();
    assert_eq!(stream.write(b"xy"), Some(1));
    assert_eq!(stream.send_window(), 0);
}

#[test]
fn what_one_stream_writes_the_other_reads() {
    let (mut writer, writer_ends) = make_stream(5, StreamState::SynReceived, 100);
    let (mut reader, _reader_ends) = make_stream(5, StreamState::SynReceived, 100);
    assert_eq!(writer.write(b"ping pong"), Some(9));
    let frame = next_frame(&writer_ends);
    assert_eq!(reader.handle_frame(frame), Ok(()));
    let mut buf = [0u8; 9];
    assert_eq!(reader.read(&mut buf), 9);
    assert_eq!(&buf, b"ping pong");
}

#[test]
fn flush_without_session_fails() {
    let (mut stream, ends) = make_stream(2, StreamState::SynReceived, 100);
    drop(ends.events);
    assert_eq!(stream.flush(), Err(Error::SessionShutdown));
}

#[test]
fn shutdown_sends_rst() {
    let (mut stream, ends) = make_stream(6, StreamState::SynReceived, 100);
    stream.shutdown();
    let frame = next_frame(&ends);
    assert_eq!(frame.ty(), Type::WindowUpdate);
    assert_eq!(frame.flags().value(), Flag::Rst.value());
    assert_eq!(frame.stream_id(), 6);
    assert_eq!(frame.length(), 0);
}

#[test]
fn read_drains_every_waiting_frame() {
    let (mut stream, ends) = make_stream(4, StreamState::SynReceived, 100);
    for _ in 0..40 {
        ends.frames.send(data_frame(Flags::default(), 4, b"x")).unwrap();
    }
    let mut buf = [0u8; 64];
    assert_eq!(stream.read(&mut buf), 40);
    assert!(ends.frames.is_empty());
}

#[test]
fn frame_after_a_failing_one_stays_queued() {
    let (mut stream, ends) = make_stream(4, StreamState::SynReceived, 100);
    ends.frames.send(Frame::new_ping(Flags::default(), 1)).unwrap();
    ends.frames.send(data_frame(Flags::default(), 4, b"ok")).unwrap();
    let mut buf = [0u8; 4];
    assert_eq!(stream.read(&mut buf), 0);
    assert_eq!(ends.frames.len(), 1);
    assert_eq!(stream.read(&mut buf), 2);
    assert_eq!(&buf[..2], b"ok");
}

#[test]
fn opened_stream_is_established_after_the_ack() {
    let (mut stream, ends) = make_stream(1, StreamState::Init, 100);
    stream.send_window_update().unwrap();
    let _ = next_frame(&ends);
    assert!(ends.events.try_recv().is_err());
    stream.handle_frame(Frame::new_window_update(Flags::from(Flag::Ack), 1, 0)).unwrap();
    assert_eq!(stream.write(b"hi"), Some(2));
    assert_eq!(stream.state(), StreamState::Established);
    let frame = next_frame(&ends);
    assert_eq!(frame.ty(), Type::Data);
    assert_eq!(frame.flags().value(), Flag::Ack.value());
    established(&ends, 1);
}
