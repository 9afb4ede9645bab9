use game_tunnel::auth::{
    authenticate, read_auth_answer, AuthAnswer, AuthVerdict, FirstFrame, PreAuthCache,
    NANOS_PER_SEC,
};
use game_tunnel::client::{ClientAction, ClientState};
use game_tunnel::protocol::{read_frame, write_control, write_frame, Frame, Message};
use game_tunnel::registry::ConnRegistry;
use game_tunnel::server::{FrameAction, ServerState, StreamIds};
use game_tunnel::stats::Stats;

fn over_the_wire(f: &Frame) -> Frame {
    let mut wire = Vec::new();
    write_frame(&mut wire, f);
    wire.extend_from_slice(&[1, 2, 3]);
    let (read, n) = read_frame(&wire).unwrap();
    assert_eq!(n, wire.len() - 3);
    read
}

#[test]
fn announced_client_is_let_in_over_the_wire() {
    let mut cache = PreAuthCache::new();
    cache.grant("uuid-1", 0);
    let mut wire = Vec::new();
    write_control(
        &mut wire,
        &Message::Auth { secret: "key".to_string(), client_uuid: Some("uuid-1".to_string()) },
    );
    let (first, _) = read_frame(&wire).unwrap();
    let verdict =
        authenticate("key", &mut cache, &FirstFrame::Frame(first), 9 * NANOS_PER_SEC);
    assert_eq!(verdict, AuthVerdict::Accepted);
    let reply = over_the_wire(&Frame::Control(verdict.reply().unwrap()));
    assert_eq!(read_auth_answer(&reply), AuthAnswer::Accepted);
}

#[test]
fn refused_client_hears_why() {
    let mut cache = PreAuthCache::new();
    let first = over_the_wire(&Frame::Control(Message::Auth {
        secret: "wrong".to_string(),
        client_uuid: None,
    }));
    let verdict = authenticate("key", &mut cache, &FirstFrame::Frame(first), 0);
    let reply = over_the_wire(&Frame::Control(verdict.reply().unwrap()));
    assert_eq!(read_auth_answer(&reply), AuthAnswer::Refused("invalid secret".to_string()));
}

#[test]
fn data_travels_both_ways() {
    let mut server = ServerState::new("0.0.0.0".to_string());
    let mut reg = ConnRegistry::new();
    let mut ids = StreamIds::new();
    let mut client = ClientState::new();
    let mut stats = Stats::new(0);

    let (sid, announce) = server.accept_player(&mut reg, &mut ids, 1, "p".to_string(), 0);
    let announce = over_the_wire(&Frame::Control(announce));
    assert!(matches!(
        client.handle_server_frame(&mut stats, announce),
        ClientAction::Connect { .. }
    ));

    let up = over_the_wire(&Frame::Data { stream_id: sid, payload: b"hello".to_vec() });
    match client.handle_server_frame(&mut stats, up) {
        ClientAction::ToLocal { stream_id, payload } => {
            assert_eq!((stream_id, payload), (sid, b"hello".to_vec()));
        }
        other => panic!("{:?}", other),
    }

    let down = over_the_wire(&Frame::Data { stream_id: sid, payload: b"welcome".to_vec() });
    match server.handle_frame(&mut reg, down, 0) {
        FrameAction::ToPlayer { stream_id, payload } => {
            assert_eq!((stream_id, payload), (sid, b"welcome".to_vec()));
        }
        other => panic!("{:?}", other),
    }

    let close = over_the_wire(&server.player_ended(&mut reg, sid));
    client.handle_server_frame(&mut stats, close);
    let late = over_the_wire(&Frame::Data { stream_id: sid, payload: vec![1] });
    assert!(matches!(
        client.handle_server_frame(&mut stats, late),
        ClientAction::Nothing
    ));
}
