use yamux::config::Config;
use yamux::error::Error;
use yamux::frame::{Flag, Flags, Frame, Type};
use yamux::session::{PollOutcome, Session, SessionType};
use yamux::stream::{StreamEvent, StreamState};
use yamux::INITIAL_STREAM_WINDOW;

fn take(session: &mut Session) -> Frame {
    session.take_frame_to_send().expect("a frame to send")
}

#[test]
fn client_opens_odd_ids() {
    let mut session = Session::new_client(Config::default());
    assert_eq!(session.next_stream_id(), 1);
    let a = session.open_stream().unwrap();
    let b = session.open_stream().unwrap();
    assert_eq!(a.id(), 1);
    assert_eq!(b.id(), 3);
    assert_eq!(session.next_stream_id(), 5);
}

#[test]
fn server_opens_even_ids() {
    let mut session = Session::new(Config::default(), SessionType::Server);
    let a = session.open_stream().unwrap();
    let b = session.open_stream().unwrap();
    assert_eq!(a.id(), 2);
    assert_eq!(b.id(), 4);
    let mut other = Session::new_server(Config::default());
    assert_eq!(other.open_stream().unwrap().id(), 2);
}

#[test]
fn opened_stream_announces_itself_to_the_session() {
    let mut session = Session::new_client(Config::default());
    let stream = session.open_stream().unwrap();
    assert_eq!(stream.state(), StreamState::SynSent);
    assert_eq!(stream.recv_window(), INITIAL_STREAM_WINDOW);
    assert_eq!(stream.send_window(), INITIAL_STREAM_WINDOW);
    match session.poll_event() {
        Some(event) => {
            match &event {
                StreamEvent::SendFrame(frame) => {
                    assert_eq!(frame.ty(), Type::WindowUpdate);
                    assert_eq!(frame.flags().value(), Flag::Syn.value());
                    assert_eq!(frame.stream_id(), 1);
                    assert_eq!(frame.length(), 0);
                }
                _ => panic!("expected a frame"),
            }
            assert!(session.handle_event(event).is_none());
        }
        None => panic!("expected an event"),
    }
    let frame = take(&mut session);
    assert_eq!(frame.stream_id(), 1);
    assert!(session.take_frame_to_send().is_none());
    assert!(session.poll_event().is_none());
}

#[test]
fn remote_stream_is_accepted_and_gets_its_data() {
    let mut session = Session::new_server(Config::default());
    let frame = Frame::new_data(Flags::from(Flag::Syn), 1, b"hi".to_vec());
    session.handle_frame(frame);
    let mut stream = session.pop_pending_stream().expect("an accepted stream");
    assert_eq!(stream.id(), 1);
    assert_eq!(stream.state(), StreamState::Established);
    let mut buf = [0u8; 2];
    assert_eq!(stream.read(&mut buf), 2);
    assert_eq!(&buf, b"hi");
    assert!(session.pop_pending_stream().is_none());
    // the stream acknowledged with ACK
    match session.poll_event() {
        Some(StreamEvent::SendFrame(frame)) => {
            assert_eq!(frame.flags().value(), Flag::Ack.value());
            assert_eq!(frame.stream_id(), 1);
        }
        _ => panic!("expected the ACK"),
    }
}

#[test]
fn frames_reach_their_stream() {
    let mut session = Session::new_client(Config::default());
    let mut stream = session.open_stream().unwrap();
    session.handle_frame(Frame::new_data(Flags::from(Flag::Ack), 1, b"abc".to_vec()));
    session.handle_frame(Frame::new_data(Flags::default(), 9, b"zzz".to_vec()));
    let mut buf = [0u8; 8];
    assert_eq!(stream.read(&mut buf), 3);
    assert_eq!(&buf[..3], b"abc");
    // the ACK completed the opening; the read's window update then carries ACK too
    assert_eq!(stream.state(), StreamState::Established);
}

#[test]
fn closed_stream_gets_no_more_frames() {
    let mut session = Session::new_client(Config::default());
    let mut stream = session.open_stream().unwrap();
    let _ = session.poll_event();
    let changed = StreamEvent::StateChanged((1, StreamState::Closed));
    assert!(session.handle_event(changed).is_none());
    session.handle_frame(Frame::new_data(Flags::default(), 1, b"late".to_vec()));
    let mut buf = [0u8; 4];
    assert_eq!(stream.read(&mut buf), 0);
}

#[test]
fn flush_request_is_given_back() {
    let mut session = Session::new_client(Config::default());
    let (sender, receiver) = crossbeam_channel::bounded(1);
    let responder = session.handle_event(StreamEvent::Flush((1, sender)));
    let responder = responder.expect("the flush channel");
    responder.send(()).unwrap();
    assert_eq!(receiver.try_recv(), Ok(()));
}

#[test]
fn send_frame_event_is_queued() {
    let mut session = Session::new_client(Config::default());
    let frame = Frame::new_window_update(Flags::default(), 3, 10);
    assert!(session.handle_event(StreamEvent::SendFrame(frame)).is_none());
    let sent = take(&mut session);
    assert_eq!(sent.stream_id(), 3);
    assert_eq!(sent.length(), 10);
}

#[test]
fn ping_is_echoed_with_ack() {
    let mut session = Session::new_server(Config::default());
    session.handle_frame(Frame::new_ping(Flags::from(Flag::Syn), 77));
    let frame = take(&mut session);
    assert_eq!(frame.ty(), Type::Ping);
    assert_eq!(frame.flags().value(), Flag::Ack.value());
    assert_eq!(frame.length(), 77);
    assert_eq!(frame.stream_id(), 0);
}

#[test]
fn pings_count_up() {
    let mut session = Session::new_client(Config::default());
    assert_eq!(session.send_ping(None), 1);
    assert_eq!(session.send_ping(None), 2);
    assert_eq!(session.send_ping(Some(40)), 40);
    let first = take(&mut session);
    assert_eq!(first.flags().value(), Flag::Syn.value());
    assert_eq!(first.length(), 1);
    let _ = take(&mut session);
    let answer = take(&mut session);
    assert_eq!(answer.flags().value(), Flag::Ack.value());
    assert_eq!(answer.length(), 40);
    // an ACK settles a ping and queues nothing
    session.handle_frame(Frame::new_ping(Flags::from(Flag::Ack), 1));
    assert!(session.take_frame_to_send().is_none());
}

#[test]
fn keep_alive_is_due_after_the_interval() {
    let mut session = Session::new_client(Config::default());
    assert!(session.ping_due(0));
    let id = session.send_ping(None);
    session.record_ping(id, 1000);
    assert!(!session.ping_due(1000));
    assert!(!session.ping_due(30999));
    assert!(session.ping_due(31000));
    assert!(!session.ping_due(500));
}

#[test]
fn remote_go_away_stops_opening() {
    let mut session = Session::new_client(Config::default());
    session.handle_frame(Frame::new(Type::GoAway, Flags::default(), 0, 0));
    assert!(session.remote_go_away());
    assert_eq!(session.open_stream().err(), Some(Error::RemoteGoAway));
}

#[test]
fn go_away_with_error_code_changes_nothing() {
    let mut session = Session::new_client(Config::default());
    session.handle_frame(Frame::new(Type::GoAway, Flags::default(), 0, 1));
    assert!(!session.remote_go_away());
    assert!(session.open_stream().is_ok());
}

#[test]
fn local_go_away_refuses_remote_streams() {
    let mut session = Session::new_server(Config::default());
    session.send_go_away();
    let go_away = take(&mut session);
    assert_eq!(go_away.ty(), Type::GoAway);
    assert_eq!(go_away.length(), 0);
    session.handle_frame(Frame::new_window_update(Flags::from(Flag::Syn), 5, 0));
    assert!(session.pop_pending_stream().is_none());
    let rst = take(&mut session);
    assert_eq!(rst.ty(), Type::WindowUpdate);
    assert_eq!(rst.flags().value(), Flag::Rst.value());
    assert_eq!(rst.stream_id(), 5);
}

#[test]
fn shutdown_is_final() {
    let mut session = Session::new_client(Config::default());
    assert!(!session.is_dead());
    session.shutdown();
    assert!(session.is_dead());
    assert_eq!(session.open_stream().err(), Some(Error::SessionShutdown));
    // the go-away is still written
    let go_away = take(&mut session);
    assert_eq!(go_away.ty(), Type::GoAway);
    assert_eq!(go_away.stream_id(), 0);
    assert_eq!(go_away.length(), 0);
    assert!(session.take_frame_to_send().is_none());
    session.shutdown();
    assert!(session.take_frame_to_send().is_none());
    assert!(!session.ping_due(0));
}

#[test]
fn ended_connection_writes_nothing() {
    let mut session = Session::new_client(Config::default());
    session.send_ping(None);
    session.mark_eof();
    assert!(session.take_frame_to_send().is_none());
    assert!(session.take_frame_to_send().is_none());
}

#[test]
fn end_of_connection_kills_the_session() {
    let mut session = Session::new_client(Config::default());
    session.mark_eof();
    assert!(session.is_dead());
    assert_eq!(session.open_stream().err(), Some(Error::SessionShutdown));
}

#[test]
fn requeued_frame_goes_first() {
    let mut session = Session::new_client(Config::default());
    session.send_ping(None);
    let first = take(&mut session);
    session.send_ping(None);
    session.requeue_frame(first);
    assert_eq!(take(&mut session).length(), 1);
    assert_eq!(take(&mut session).length(), 2);
}

#[test]
fn accepted_streams_come_out_in_order() {
    let mut session = Session::new_server(Config::default());
    for id in [5u32, 1, 3] {
        session.handle_frame(Frame::new_window_update(Flags::from(Flag::Syn), id, 0));
    }
    let ids: Vec<u32> = (0..3)
        .map(|_| session.pop_pending_stream().expect("an accepted stream").id())
        .collect();
    assert_eq!(ids, vec![5, 1, 3]);
    assert!(session.pop_pending_stream().is_none());
}

#[test]
fn poll_outcome_hands_out_then_parks() {
    let mut session = Session::new_server(Config::default());
    session.handle_frame(Frame::new_window_update(Flags::from(Flag::Syn), 7, 0));
    match session.poll_outcome(true, true) {
        PollOutcome::Accepted(stream) => assert_eq!(stream.id(), 7),
        _ => panic!("expected the accepted stream"),
    }
    assert!(matches!(session.poll_outcome(false, true), PollOutcome::Continue));
    assert!(matches!(session.poll_outcome(true, false), PollOutcome::Continue));
    assert!(matches!(session.poll_outcome(true, true), PollOutcome::Park));
}
