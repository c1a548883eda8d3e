use yamux::config::Config;
use yamux::frame::{
    Flag, Flags, Frame, FrameCodec, FrameDecodeError, FrameEncodeError, GoAwayCode, Type,
};
use yamux::{HEADER_SIZE, PROTOCOL_VERSION, RESERVED_STREAM_ID};

#[test]
fn flag_values_are_single_bits() {
    assert_eq!(Flag::Syn.value(), 0x1);
    assert_eq!(Flag::Ack.value(), 0x2);
    assert_eq!(Flag::Fin.value(), 0x4);
    assert_eq!(Flag::Rst.value(), 0x8);
}

#[test]
fn flags_default_is_empty() {
    let flags = Flags::default();
    assert_eq!(flags.value(), 0);
    assert!(!flags.has(Flag::Syn));
    assert!(!flags.has(Flag::Rst));
}

#[test]
fn flags_add_then_has() {
    let mut flags = Flags::default();
    flags.add(Flag::Fin);
    assert!(flags.has(Flag::Fin));
    assert_eq!(flags.value(), 0x4);
    flags.add(Flag::Ack);
    assert!(flags.has(Flag::Fin));
    assert!(flags.has(Flag::Ack));
    assert!(!flags.has(Flag::Syn));
    assert_eq!(flags.value(), 0x6);
    // adding twice changes nothing
    flags.add(Flag::Ack);
    assert_eq!(flags.value(), 0x6);
}

#[test]
fn flags_remove_after_add_clears() {
    let mut flags = Flags::from(Flag::Syn);
    flags.add(Flag::Rst);
    flags.remove(Flag::Rst);
    assert!(!flags.has(Flag::Rst));
    assert!(flags.has(Flag::Syn));
    assert_eq!(flags.value(), 0x1);
}

#[test]
fn flags_remove_toggles() {
    // removing a flag that is not there sets it
    let mut flags = Flags::default();
    flags.remove(Flag::Ack);
    assert!(flags.has(Flag::Ack));
    flags.remove(Flag::Ack);
    assert_eq!(flags.value(), 0);
}

#[test]
fn flags_from_flag_has_only_it() {
    let all = [Flag::Syn, Flag::Ack, Flag::Fin, Flag::Rst];
    for f in all.iter() {
        let flags = Flags::from(*f);
        assert_eq!(flags.value(), f.value());
        for g in all.iter() {
            assert_eq!(flags.has(*g), f == g);
        }
    }
}

#[test]
fn go_away_codes() {
    assert_eq!(GoAwayCode::Normal.value(), 0);
    assert_eq!(GoAwayCode::ProtocolError.value(), 1);
    assert_eq!(GoAwayCode::InternalError.value(), 2);
    assert_eq!(GoAwayCode::from(0u32), GoAwayCode::Normal);
    assert_eq!(GoAwayCode::from(1u32), GoAwayCode::ProtocolError);
    assert_eq!(GoAwayCode::from(2u32), GoAwayCode::InternalError);
    assert_eq!(GoAwayCode::from(7u32), GoAwayCode::ProtocolError);
}

#[test]
fn go_away_code_round_trip() {
    for code in [GoAwayCode::Normal, GoAwayCode::ProtocolError, GoAwayCode::InternalError].iter() {
        assert_eq!(GoAwayCode::from(code.value()), *code);
    }
}

#[test]
fn frame_new_keeps_fields() {
    let frame = Frame::new(Type::Data, Flags::from(Flag::Syn), 7, 42);
    assert_eq!(frame.ty(), Type::Data);
    assert_eq!(frame.stream_id(), 7);
    assert_eq!(frame.flags().value(), 0x1);
    assert_eq!(frame.length(), 42);
    let (_header, body) = frame.into_parts();
    assert!(body.is_none());
}

#[test]
fn frame_constructors() {
    let wu = Frame::new_window_update(Flags::from(Flag::Ack), 3, 1000);
    assert_eq!(wu.ty(), Type::WindowUpdate);
    assert_eq!(wu.stream_id(), 3);
    assert_eq!(wu.flags().value(), 0x2);
    assert_eq!(wu.length(), 1000);

    let ping = Frame::new_ping(Flags::from(Flag::Syn), 99);
    assert_eq!(ping.ty(), Type::Ping);
    assert_eq!(ping.stream_id(), RESERVED_STREAM_ID);
    assert_eq!(ping.length(), 99);

    let go_away = Frame::new_go_away(GoAwayCode::InternalError);
    assert_eq!(go_away.ty(), Type::GoAway);
    assert_eq!(go_away.stream_id(), 0);
    assert_eq!(go_away.flags().value(), 0);
    assert_eq!(go_away.length(), 2);

    let data = Frame::new_data(Flags::default(), 5, vec![1, 2, 3]);
    assert_eq!(data.ty(), Type::Data);
    assert_eq!(data.length(), 3);
    let (_header, body) = data.into_parts();
    assert_eq!(body, Some(vec![1, 2, 3]));
}

#[test]
fn frame_set_body() {
    let mut frame = Frame::new(Type::Data, Flags::default(), 1, 2);
    frame.set_body(Some(vec![9, 8]));
    assert_eq!(frame.length(), 2);
    let (_header, body) = frame.into_parts();
    assert_eq!(body, Some(vec![9, 8]));
}

#[test]
fn codec_writes_header_then_body() {
    let mut codec = FrameCodec::new();
    let mut dst = vec![0xaa];
    let frame = Frame::new_data(Flags::from(Flag::Syn), 0x01020304, vec![7, 8, 9]);
    assert!(codec.encode(frame, &mut dst).is_ok());
    assert_eq!(dst, vec![0xaa, 0, 0, 0, 1, 1, 2, 3, 4, 0, 0, 0, 3, 7, 8, 9]);
    assert_eq!(dst.len(), 1 + HEADER_SIZE + 3);
    let mut dst = Vec::new();
    let ping = Frame::new_ping(Flags::from(Flag::Ack), 0xdeadbeef);
    assert!(codec.encode(ping, &mut dst).is_ok());
    assert_eq!(dst, vec![0, 2, 0, 2, 0, 0, 0, 0, 0xde, 0xad, 0xbe, 0xef]);
}

#[test]
fn codec_reads_back_what_it_writes() {
    let mut codec = FrameCodec::default();
    let mut buf = Vec::new();
    codec.encode(Frame::new_data(Flags::from(Flag::Fin), 9, b"abc".to_vec()), &mut buf).ok().unwrap();
    codec.encode(Frame::new_window_update(Flags::from(Flag::Rst), 9, 500), &mut buf).ok().unwrap();
    buf.push(0x55);
    let data = codec.decode(&mut buf).ok().unwrap().unwrap();
    assert_eq!(data.ty(), Type::Data);
    assert_eq!(data.flags().value(), Flag::Fin.value());
    assert_eq!(data.stream_id(), 9);
    assert_eq!(data.length(), 3);
    let update = codec.decode(&mut buf).ok().unwrap().unwrap();
    assert_eq!(update.ty(), Type::WindowUpdate);
    assert_eq!(update.flags().value(), Flag::Rst.value());
    assert_eq!(update.length(), 500);
    assert_eq!(buf, vec![0x55]);
    let (_h, body) = data.into_parts();
    assert_eq!(body, Some(b"abc".to_vec()));
}

#[test]
fn codec_waits_for_the_whole_frame() {
    let mut codec = FrameCodec::new();
    let mut short = vec![0u8; HEADER_SIZE - 1];
    assert!(matches!(codec.decode(&mut short), Ok(None)));
    assert_eq!(short.len(), HEADER_SIZE - 1);
    // a data header announcing 4 bytes, only 2 of them there
    let mut partial = vec![0, 0, 0, 0, 0, 0, 0, 1, 0, 0, 0, 4, 1, 2];
    assert!(matches!(codec.decode(&mut partial), Ok(None)));
    assert_eq!(partial.len(), 14);
}

#[test]
fn codec_refuses_bad_headers() {
    let mut codec = FrameCodec::new();
    let mut bad_version = vec![1, 0, 0, 0, 0, 0, 0, 1, 0, 0, 0, 0];
    assert!(matches!(codec.decode(&mut bad_version), Err(FrameDecodeError::InvalidVersion(1))));
    assert_eq!(bad_version.len(), HEADER_SIZE);
    let mut bad_type = vec![0, 9, 0, 0, 0, 0, 0, 1, 0, 0, 0, 0];
    assert!(matches!(codec.decode(&mut bad_type), Err(FrameDecodeError::InvalidType(9))));
}

#[test]
fn codec_errors_wrap_io_errors() {
    let err = std::io::Error::new(std::io::ErrorKind::Other, "broken");
    match FrameDecodeError::from(err) {
        FrameDecodeError::Io(e) => assert_eq!(e.kind(), std::io::ErrorKind::Other),
        _ => panic!("expected an io error"),
    }
    let err = std::io::Error::new(std::io::ErrorKind::BrokenPipe, "broken");
    match FrameEncodeError::from(err) {
        FrameEncodeError::Io(e) => assert_eq!(e.kind(), std::io::ErrorKind::BrokenPipe),
    }
}

#[test]
fn protocol_constants() {
    assert_eq!(PROTOCOL_VERSION, 0);
    assert_eq!(RESERVED_STREAM_ID, 0);
    assert_eq!(HEADER_SIZE, 12);
}

#[test]
fn config_default_keeps_alive() {
    assert!(Config::default().enable_keepalive());
}
