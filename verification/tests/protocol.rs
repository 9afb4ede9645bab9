use game_tunnel::config::Protocol;
use game_tunnel::protocol::{
    frame_payload_len, read_frame, write_control, write_data, write_frame, write_stream_close,
    DecodeError, Frame, FrameError, Message, TunnelProtocol, FRAME_TYPE_STREAM_CLOSE,
    MAX_PAYLOAD_SIZE,
};

fn every_message() -> Vec<Message> {
    vec![
        Message::Auth { secret: "s3cret".to_string(), client_uuid: None },
        Message::Auth { secret: "".to_string(), client_uuid: Some("ab-cd".to_string()) },
        Message::Auth { secret: "gr\u{fc}n".to_string(), client_uuid: Some("\u{e4}".to_string()) },
        Message::AuthOk,
        Message::AuthFailed { reason: "invalid secret".to_string() },
        Message::OpenTunnel {
            tunnel_id: 7,
            remote_port: 25565,
            protocol: TunnelProtocol::Both,
        },
        Message::OpenTunnel { tunnel_id: 8, remote_port: 80, protocol: TunnelProtocol::Udp },
        Message::TunnelOpened { tunnel_id: u32::MAX },
        Message::CloseTunnel { tunnel_id: 0 },
        Message::NewConnection { tunnel_id: 3, stream_id: 0x0102_0304_0506_0708, is_udp: true },
        Message::NewConnection { tunnel_id: 3, stream_id: u64::MAX, is_udp: false },
        Message::Ping,
        Message::Pong,
    ]
}

#[test]
fn decode_gives_back_what_was_encoded() {
    for m in every_message() {
        assert_eq!(Message::decode(&m.encode()), Ok(m));
    }
}

#[test]
fn different_messages_have_different_bytes() {
    let all = every_message();
    for (i, a) in all.iter().enumerate() {
        for (j, b) in all.iter().enumerate() {
            assert_eq!(a.encode() == b.encode(), i == j);
        }
    }
}

#[test]
fn message_bytes_are_fixed() {
    let auth = Message::Auth { secret: "x".to_string(), client_uuid: Some("id".to_string()) };
    assert_eq!(auth.encode(), vec![1, 0, 2, b'i', b'd', b'x']);
    let plain = Message::Auth { secret: "x".to_string(), client_uuid: None };
    assert_eq!(plain.encode(), vec![1, 0, 0, b'x']);
    let open = Message::OpenTunnel {
        tunnel_id: 0x0102_0304,
        remote_port: 0x0506,
        protocol: TunnelProtocol::Udp,
    };
    assert_eq!(open.encode(), vec![4, 1, 2, 3, 4, 5, 6, 2]);
    let new = Message::NewConnection { tunnel_id: 1, stream_id: 2, is_udp: true };
    assert_eq!(new.encode(), vec![7, 0, 0, 0, 1, 0, 0, 0, 0, 0, 0, 0, 2, 1]);
    assert_eq!(Message::Ping.encode(), vec![9]);
    assert_eq!(Message::Pong.encode(), vec![10]);
    assert_eq!(Message::AuthOk.encode(), vec![2]);
}

#[test]
fn empty_uuid_is_read_as_none() {
    let m = Message::Auth { secret: "s".to_string(), client_uuid: Some("".to_string()) };
    assert_eq!(
        Message::decode(&m.encode()),
        Ok(Message::Auth { secret: "s".to_string(), client_uuid: None })
    );
}

#[test]
fn short_new_connection_is_tcp() {
    let bytes = [7, 0, 0, 0, 1, 0, 0, 0, 0, 0, 0, 0, 2];
    assert_eq!(
        Message::decode(&bytes),
        Ok(Message::NewConnection { tunnel_id: 1, stream_id: 2, is_udp: false })
    );
}

#[test]
fn what_follows_a_fixed_body_is_ignored() {
    assert_eq!(Message::decode(&[9, 1, 2, 3]), Ok(Message::Ping));
    assert_eq!(
        Message::decode(&[5, 0, 0, 0, 9, 77]),
        Ok(Message::TunnelOpened { tunnel_id: 9 })
    );
}

#[test]
fn every_decode_error() {
    assert_eq!(Message::decode(&[]), Err(DecodeError::Empty));
    assert_eq!(Message::decode(&[1, 0]), Err(DecodeError::AuthTooShort));
    assert_eq!(Message::decode(&[1, 0, 3, b'a']), Err(DecodeError::AuthTooShortForUuid));
    assert_eq!(Message::decode(&[1, 0, 1, 0xff]), Err(DecodeError::UuidNotUtf8));
    assert_eq!(Message::decode(&[1, 0, 0, 0xff]), Err(DecodeError::SecretNotUtf8));
    assert_eq!(Message::decode(&[3, 0xc3]), Err(DecodeError::ReasonNotUtf8));
    assert_eq!(Message::decode(&[4, 0, 0, 0, 1, 0, 1]), Err(DecodeError::OpenTunnelTooShort));
    assert_eq!(
        Message::decode(&[4, 0, 0, 0, 1, 0, 1, 9]),
        Err(DecodeError::UnknownProtocol(9))
    );
    assert_eq!(Message::decode(&[5, 0, 0, 1]), Err(DecodeError::TunnelOpenedTooShort));
    assert_eq!(Message::decode(&[6]), Err(DecodeError::CloseTunnelTooShort));
    assert_eq!(Message::decode(&[7, 0, 0]), Err(DecodeError::NewConnectionTooShort));
    assert_eq!(Message::decode(&[8]), Err(DecodeError::UnknownMessageType(8)));
}

#[test]
fn configured_protocols_have_wire_names() {
    assert_eq!(TunnelProtocol::from(Protocol::Tcp), TunnelProtocol::Tcp);
    assert_eq!(TunnelProtocol::from(Protocol::Udp), TunnelProtocol::Udp);
    assert_eq!(TunnelProtocol::from(Protocol::Both), TunnelProtocol::Both);
}

#[test]
fn frame_bytes_are_fixed() {
    let mut out = Vec::new();
    write_data(&mut out, 5, &[10, 11]);
    assert_eq!(out, vec![0, 0, 0, 2, 0, 0, 0, 0, 0, 0, 0, 5, 10, 11]);
    let mut out = Vec::new();
    write_stream_close(&mut out, 6);
    assert_eq!(out, vec![255, 255, 255, 255, 0, 0, 0, 0, 0, 0, 0, 6]);
    let mut out = Vec::new();
    write_control(&mut out, &Message::Ping);
    assert_eq!(out, vec![0, 0, 0, 1, 0, 0, 0, 0, 0, 0, 0, 0, 9]);
}

#[test]
fn frames_are_read_one_after_the_other() {
    let frames = vec![
        Frame::Control(Message::Auth {
            secret: "k".to_string(),
            client_uuid: Some("u".to_string()),
        }),
        Frame::Data { stream_id: 9, payload: vec![] },
        Frame::StreamClose { stream_id: 0 },
        Frame::Data { stream_id: u64::MAX, payload: vec![0; 1000] },
        Frame::Control(Message::Pong),
    ];
    let mut wire = Vec::new();
    for f in &frames {
        write_frame(&mut wire, f);
    }
    let mut at = 0;
    let mut read = Vec::new();
    while at < wire.len() {
        let (f, n) = read_frame(&wire[at..]).unwrap();
        read.push(f);
        at += n;
    }
    assert_eq!(at, wire.len());
    assert_eq!(read, frames);
}

#[test]
fn part_of_a_frame_is_not_a_frame() {
    let mut wire = Vec::new();
    write_data(&mut wire, 1, &[1, 2, 3]);
    for k in 0..wire.len() {
        let want = if k < 4 {
            FrameError::LengthMissing
        } else if k < 12 {
            FrameError::StreamIdMissing
        } else {
            FrameError::PayloadMissing
        };
        assert_eq!(read_frame(&wire[..k]), Err(want));
    }
}

#[test]
fn frames_over_the_limit_are_refused() {
    let mut wire = Vec::new();
    write_data(&mut wire, 1, &vec![7; MAX_PAYLOAD_SIZE as usize]);
    assert!(read_frame(&wire).is_ok());
    let mut wire = Vec::new();
    write_data(&mut wire, 1, &vec![7; MAX_PAYLOAD_SIZE as usize + 1]);
    assert_eq!(read_frame(&wire), Err(FrameError::TooLarge(MAX_PAYLOAD_SIZE + 1)));
}

#[test]
fn bad_control_payload_is_reported() {
    let wire = [0, 0, 0, 1, 0, 0, 0, 0, 0, 0, 0, 0, 99];
    assert_eq!(
        read_frame(&wire),
        Err(FrameError::BadMessage(DecodeError::UnknownMessageType(99)))
    );
}

#[test]
fn header_tells_the_length() {
    let mut wire = Vec::new();
    write_data(&mut wire, 1, &[0; 300]);
    assert_eq!(frame_payload_len(&wire[..12]), Ok(300));
    let mut wire = Vec::new();
    write_stream_close(&mut wire, 1);
    assert_eq!(frame_payload_len(&wire), Ok(0));
    let big = [0, 0x20, 0, 0, 0, 0, 0, 0, 0, 0, 0, 1];
    assert_eq!(frame_payload_len(&big), Err(FrameError::TooLarge(0x20_0000)));
    assert_eq!(FRAME_TYPE_STREAM_CLOSE, u32::MAX);
}

#[test]
fn errors_have_texts() {
    assert_eq!(DecodeError::AuthTooShort.message(), "Auth payload too short");
    assert_eq!(DecodeError::UnknownProtocol(200).message(), "unknown protocol: 200");
    assert_eq!(FrameError::TooLarge(2_000_000).message(), "frame too large: 2000000 bytes");
    assert_eq!(FrameError::BadMessage(DecodeError::Empty).message(), "empty control message");
}
