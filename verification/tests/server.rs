use game_tunnel::config::ServerConfig;
use game_tunnel::protocol::{Frame, Message, TunnelProtocol};
use game_tunnel::registry::ConnRegistry;
use game_tunnel::server::{
    close_frames, is_scanner_noise, is_valid_game_port, public_bind_address,
    session_error_loudness, Admission, ControlAction, FrameAction, Loudness, OpenPlan, PeerAddr,
    ServerState, StreamIds, UdpPeer, MAX_CONNECTIONS,
};

fn open(st: &mut ServerState, reg: &mut ConnRegistry, id: u32, port: u16) -> ControlAction {
    st.handle_control_message(
        reg,
        &Message::OpenTunnel { tunnel_id: id, remote_port: port, protocol: TunnelProtocol::Both },
        40 + id,
    )
}

fn opened(st: &mut ServerState, reg: &mut ConnRegistry, id: u32, port: u16) -> OpenPlan {
    match open(st, reg, id, port) {
        ControlAction::Open(plan) => {
            assert_eq!(st.open_finished(&plan, true), Message::TunnelOpened { tunnel_id: id });
            plan
        }
        other => panic!("{:?}", other),
    }
}

fn peer(port: u16) -> PeerAddr {
    PeerAddr { is_v6: false, ip: 0x0a00_0001, port, flowinfo: 0, scope_id: 0 }
}

fn data(st: &mut ServerState, reg: &mut ConnRegistry, sid: u64) -> FrameAction {
    st.handle_frame(reg, Frame::Data { stream_id: sid, payload: vec![1, 2, 3] }, 0)
}

#[test]
fn ports_for_games() {
    for p in [80, 443, 1024, 8999, 9002, 25565, 65535] {
        assert!(is_valid_game_port(p), "{}", p);
    }
    for p in [0, 1, 22, 79, 81, 442, 444, 1023, 9000, 9001] {
        assert!(!is_valid_game_port(p), "{}", p);
    }
}

#[test]
fn only_so_many_connections_are_taken() {
    let mut a = Admission::new();
    for _ in 0..MAX_CONNECTIONS {
        assert!(a.enter());
    }
    assert!(!a.enter());
    assert_eq!(a.active(), MAX_CONNECTIONS);
    assert_eq!(a.leave(), MAX_CONNECTIONS - 1);
    assert_eq!(a.active(), MAX_CONNECTIONS - 1);
    assert!(a.enter());
    assert!(!a.enter());
}

#[test]
fn session_errors_are_classified() {
    assert_eq!(session_error_loudness("peer closed connection"), Loudness::Silent);
    assert_eq!(session_error_loudness("no close_notify seen"), Loudness::Silent);
    assert_eq!(session_error_loudness("idle timeout"), Loudness::Silent);
    for e in [
        "malformed auth frame",
        "expected Auth frame",
        "authentication timeout",
        "authentication failed",
        "pre-auth expired",
        "not pre-authorized",
        "Auth payload too short",
    ] {
        assert_eq!(session_error_loudness(e), Loudness::Warning);
    }
    assert_eq!(session_error_loudness("frame too large: 9 bytes"), Loudness::Error);
}

#[test]
fn scanner_errors_are_noise() {
    for e in [
        "InvalidContentType",
        "close_notify",
        "UnknownIssuer",
        "Tls12NotOffered",
        "PeerIncompatible(x)",
        "Connection reset by peer (os error 104)",
        "ConnectionReset",
        "Os { code: 104 }",
    ] {
        assert!(is_scanner_noise(e), "{}", e);
    }
    assert!(!is_scanner_noise("BadCertificate"));
}

#[test]
fn tunnels_listen_everywhere_by_default() {
    let mut c = ServerConfig {
        server_id: 1,
        bind_address: "x".to_string(),
        secret: "s".to_string(),
        public_bind_address: None,
        tls_cert: "c".to_string(),
        tls_key: "k".to_string(),
        mgmt_bind_address: "m".to_string(),
    };
    assert_eq!(public_bind_address(&c), "0.0.0.0");
    c.public_bind_address = Some("10.1.1.1".to_string());
    assert_eq!(public_bind_address(&c), "10.1.1.1");
}

#[test]
fn streams_are_numbered_from_one() {
    let mut ids = StreamIds::new();
    assert_eq!(ids.take(), 1);
    assert_eq!(ids.take(), 2);
}

#[test]
fn open_request_becomes_a_plan() {
    let mut st = ServerState::new("1.2.3.4".to_string());
    let mut reg = ConnRegistry::new();
    match open(&mut st, &mut reg, 3, 25565) {
        ControlAction::Open(plan) => {
            assert_eq!(plan.address, "1.2.3.4:25565");
            assert!(plan.tcp && plan.udp);
            assert_eq!(plan.tunnel.tunnel_id, 3);
            assert_eq!(plan.tunnel.remote_port, 25565);
            assert_eq!(plan.tunnel.db_id, 43);
            assert_eq!(st.open_finished(&plan, false), Message::CloseTunnel { tunnel_id: 3 });
        }
        other => panic!("{:?}", other),
    }
    // A tunnel whose port could not be bound is not open.
    assert!(matches!(open(&mut st, &mut reg, 3, 25565), ControlAction::Open(_)));
}

#[test]
fn transports_choose_the_sockets() {
    for (protocol, tcp, udp) in [
        (TunnelProtocol::Tcp, true, false),
        (TunnelProtocol::Udp, false, true),
        (TunnelProtocol::Both, true, true),
    ] {
        let mut st = ServerState::new("0.0.0.0".to_string());
        let mut reg = ConnRegistry::new();
        let msg = Message::OpenTunnel { tunnel_id: 1, remote_port: 80, protocol };
        match st.handle_control_message(&mut reg, &msg, 0) {
            ControlAction::Open(plan) => assert_eq!((plan.tcp, plan.udp), (tcp, udp)),
            other => panic!("{:?}", other),
        }
    }
}

#[test]
fn refused_port_opens_nothing() {
    let mut st = ServerState::new("0.0.0.0".to_string());
    let mut reg = ConnRegistry::new();
    match open(&mut st, &mut reg, 3, 22) {
        ControlAction::Send(m) => assert_eq!(m, Message::CloseTunnel { tunnel_id: 3 }),
        other => panic!("{:?}", other),
    }
    assert_eq!(st.db_id_of_tunnel(3), 0);
}

#[test]
fn open_tunnel_is_not_opened_again() {
    let mut st = ServerState::new("0.0.0.0".to_string());
    let mut reg = ConnRegistry::new();
    opened(&mut st, &mut reg, 3, 25565);
    assert_eq!(st.db_id_of_tunnel(3), 43);
    assert!(matches!(open(&mut st, &mut reg, 3, 25566), ControlAction::Duplicate));
}

#[test]
fn closing_a_tunnel_takes_its_streams_alone() {
    let mut st = ServerState::new("0.0.0.0".to_string());
    let mut reg = ConnRegistry::new();
    let mut ids = StreamIds::new();
    opened(&mut st, &mut reg, 1, 25565);
    opened(&mut st, &mut reg, 2, 25566);
    let (a, announce) = st.accept_player(&mut reg, &mut ids, 1, "p".to_string(), 0);
    assert_eq!(
        announce,
        Message::NewConnection { tunnel_id: 1, stream_id: a, is_udp: false }
    );
    let (b, _) = st.accept_player(&mut reg, &mut ids, 2, "q".to_string(), 0);
    st.add_peer(77, UdpPeer { addr: peer(5), tunnel_id: 1 });
    assert_eq!(reg.get(a).unwrap().db_id, 41);
    let mut closed = match st.handle_control_message(
        &mut reg,
        &Message::CloseTunnel { tunnel_id: 1 },
        0,
    ) {
        ControlAction::Close(plan) => {
            assert!(plan.was_open);
            assert_eq!(plan.tunnel_id, 1);
            plan.streams
        }
        other => panic!("{:?}", other),
    };
    closed.sort();
    assert_eq!(closed, vec![a, 77]);
    assert_eq!(
        close_frames(&closed),
        vec![Frame::StreamClose { stream_id: a }, Frame::StreamClose { stream_id: 77 }]
    );
    assert!(matches!(data(&mut st, &mut reg, a), FrameAction::Dropped));
    assert!(matches!(data(&mut st, &mut reg, 77), FrameAction::Dropped));
    assert!(matches!(data(&mut st, &mut reg, b), FrameAction::ToPlayer { .. }));
    assert!(reg.get(a).is_none());
    assert!(reg.get(b).is_some());
    // Closing again finds nothing.
    match st.handle_control_message(&mut reg, &Message::CloseTunnel { tunnel_id: 1 }, 0) {
        ControlAction::Close(plan) => assert!(!plan.was_open && plan.streams.is_empty()),
        other => panic!("{:?}", other),
    }
    // And the tunnel can be opened anew.
    opened(&mut st, &mut reg, 1, 25565);
}

#[test]
fn heartbeat_is_answered() {
    let mut st = ServerState::new("0.0.0.0".to_string());
    let mut reg = ConnRegistry::new();
    match st.handle_control_message(&mut reg, &Message::Ping, 0) {
        ControlAction::TrySend(m) => assert_eq!(m, Message::Pong),
        other => panic!("{:?}", other),
    }
    for m in [Message::Pong, Message::AuthOk, Message::TunnelOpened { tunnel_id: 1 }] {
        assert!(matches!(
            st.handle_control_message(&mut reg, &m, 0),
            ControlAction::Unexpected
        ));
    }
}

#[test]
fn data_finds_its_player() {
    let mut st = ServerState::new("0.0.0.0".to_string());
    let mut reg = ConnRegistry::new();
    let mut ids = StreamIds::new();
    let (sid, _) = st.accept_player(&mut reg, &mut ids, 1, "p".to_string(), 0);
    match data(&mut st, &mut reg, sid) {
        FrameAction::ToPlayer { stream_id, payload } => {
            assert_eq!(stream_id, sid);
            assert_eq!(payload, vec![1, 2, 3]);
        }
        other => panic!("{:?}", other),
    }
    assert_eq!(reg.get(sid).unwrap().bytes_out, 0);
    let to = UdpPeer { addr: peer(9), tunnel_id: 1 };
    reg.register(50, 0, 1, "u".to_string(), 0);
    st.add_peer(50, to);
    match data(&mut st, &mut reg, 50) {
        FrameAction::ToPeer { peer, payload } => {
            assert_eq!(peer, to);
            assert_eq!(payload, vec![1, 2, 3]);
        }
        other => panic!("{:?}", other),
    }
    assert_eq!(reg.get(50).unwrap().bytes_out, 3);
    assert!(matches!(data(&mut st, &mut reg, 51), FrameAction::Dropped));
}

#[test]
fn closed_stream_is_gone() {
    let mut st = ServerState::new("0.0.0.0".to_string());
    let mut reg = ConnRegistry::new();
    let mut ids = StreamIds::new();
    let (sid, _) = st.accept_player(&mut reg, &mut ids, 1, "p".to_string(), 0);
    assert!(matches!(
        st.handle_frame(&mut reg, Frame::StreamClose { stream_id: sid }, 0),
        FrameAction::Closed
    ));
    assert!(matches!(data(&mut st, &mut reg, sid), FrameAction::Dropped));
    assert!(reg.get(sid).is_none());
}

#[test]
fn failed_sends_and_ended_players_are_announced() {
    let mut st = ServerState::new("0.0.0.0".to_string());
    let mut reg = ConnRegistry::new();
    let mut ids = StreamIds::new();
    let (a, _) = st.accept_player(&mut reg, &mut ids, 1, "p".to_string(), 0);
    let (b, _) = st.accept_player(&mut reg, &mut ids, 1, "p".to_string(), 0);
    assert_eq!(st.send_failed(a), Frame::StreamClose { stream_id: a });
    assert!(reg.get(a).is_some());
    assert_eq!(st.player_ended(&mut reg, b), Frame::StreamClose { stream_id: b });
    assert!(reg.get(b).is_none());
    assert!(matches!(data(&mut st, &mut reg, a), FrameAction::Dropped));
    assert!(matches!(data(&mut st, &mut reg, b), FrameAction::Dropped));
}

#[test]
fn session_end_closes_every_tunnel() {
    let mut st = ServerState::new("0.0.0.0".to_string());
    let mut reg = ConnRegistry::new();
    let mut ids = StreamIds::new();
    opened(&mut st, &mut reg, 1, 25565);
    opened(&mut st, &mut reg, 2, 25566);
    let (a, _) = st.accept_player(&mut reg, &mut ids, 1, "p".to_string(), 0);
    let mut gone = st.end_session();
    gone.sort();
    assert_eq!(gone, vec![1, 2]);
    assert!(st.end_session().is_empty());
    assert!(matches!(data(&mut st, &mut reg, a), FrameAction::Dropped));
}
