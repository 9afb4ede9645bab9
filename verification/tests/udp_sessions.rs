use game_tunnel::auth::NANOS_PER_SEC;
use game_tunnel::protocol::{Frame, Message};
use game_tunnel::registry::ConnRegistry;
use game_tunnel::server::{FrameAction, PeerAddr, ServerState, StreamIds, UdpPeer};
use game_tunnel::udp_sessions::{PacketStep, Placement, UdpSessions};

const SEC: u64 = NANOS_PER_SEC;

fn addr(ip: u128, port: u16) -> PeerAddr {
    PeerAddr { is_v6: false, ip, port, flowinfo: 0, scope_id: 0 }
}

struct Tunnel {
    sessions: UdpSessions,
    state: ServerState,
    reg: ConnRegistry,
    ids: StreamIds,
}

impl Tunnel {
    fn new() -> Tunnel {
        Tunnel {
            sessions: UdpSessions::new(),
            state: ServerState::new("0.0.0.0".to_string()),
            reg: ConnRegistry::new(),
            ids: StreamIds::new(),
        }
    }

    fn packet(&mut self, from: PeerAddr, n: usize, now: u64) -> PacketStep {
        self.sessions.packet(
            &mut self.state,
            &mut self.reg,
            &mut self.ids,
            UdpPeer { addr: from, tunnel_id: 6 },
            "ip".to_string(),
            vec![9; n],
            now,
        )
    }

    fn close(&mut self, sid: u64) {
        self.state.handle_frame(&mut self.reg, Frame::StreamClose { stream_id: sid }, 0);
    }
}

fn place(step: &PacketStep) -> Placement {
    step.placement
}

#[test]
fn first_packet_makes_a_stream() {
    let mut t = Tunnel::new();
    let step = t.packet(addr(1, 100), 4, SEC);
    assert_eq!(place(&step), Placement::New { stream_id: 1 });
    assert_eq!(
        step.frames,
        vec![
            Frame::Control(Message::NewConnection { tunnel_id: 6, stream_id: 1, is_udp: true }),
            Frame::Data { stream_id: 1, payload: vec![9; 4] },
        ]
    );
    assert_eq!(t.reg.get(1).unwrap().bytes_in, 4);
    assert_eq!(t.state.peer_of(1), Some(UdpPeer { addr: addr(1, 100), tunnel_id: 6 }));
    let step = t.packet(addr(1, 100), 3, 2 * SEC);
    assert_eq!(place(&step), Placement::Known { stream_id: 1 });
    assert_eq!(step.frames, vec![Frame::Data { stream_id: 1, payload: vec![9; 3] }]);
    assert_eq!(t.reg.get(1).unwrap().bytes_in, 7);
}

#[test]
fn changed_port_keeps_the_stream() {
    let mut t = Tunnel::new();
    t.packet(addr(1, 100), 1, 0);
    let step = t.packet(addr(1, 200), 1, 60 * SEC - 1);
    assert_eq!(place(&step), Placement::Moved { from: addr(1, 100), stream_id: 1 });
    assert_eq!(step.frames, vec![Frame::Data { stream_id: 1, payload: vec![9] }]);
    // Answers go to the new port.
    match t.state.handle_frame(&mut t.reg, Frame::Data { stream_id: 1, payload: vec![] }, 0) {
        FrameAction::ToPeer { peer, .. } => assert_eq!(peer.addr, addr(1, 200)),
        other => panic!("{:?}", other),
    }
    assert!(t.sessions.get(addr(1, 100)).is_none());
}

#[test]
fn changed_port_after_a_minute_is_a_new_player() {
    let mut t = Tunnel::new();
    t.packet(addr(1, 100), 1, 0);
    let step = t.packet(addr(1, 200), 1, 60 * SEC);
    assert_eq!(place(&step), Placement::New { stream_id: 2 });
}

#[test]
fn other_ip_is_a_new_player() {
    let mut t = Tunnel::new();
    t.packet(addr(1, 100), 1, 0);
    assert_eq!(place(&t.packet(addr(2, 100), 1, 0)), Placement::New { stream_id: 2 });
    let v6 = PeerAddr { is_v6: true, ip: 1, port: 300, flowinfo: 0, scope_id: 0 };
    assert_eq!(place(&t.packet(v6, 1, 0)), Placement::New { stream_id: 3 });
}

#[test]
fn players_behind_one_ip_are_not_merged() {
    let mut t = Tunnel::new();
    t.packet(addr(1, 100), 1, 0);
    // The second port takes the first one's stream, and frees its address.
    t.packet(addr(1, 200), 1, SEC);
    // From the old port a player comes back: again a single candidate.
    assert_eq!(
        place(&t.packet(addr(1, 100), 1, 2 * SEC)),
        Placement::Moved { from: addr(1, 200), stream_id: 1 }
    );
    // A quiet minute later another player of that IP is one of their own.
    assert_eq!(place(&t.packet(addr(1, 300), 1, 70 * SEC)), Placement::New { stream_id: 2 });
    t.packet(addr(1, 100), 1, 71 * SEC);
    // Now two are active: a third port is not taken for either.
    assert_eq!(place(&t.packet(addr(1, 400), 1, 72 * SEC)), Placement::New { stream_id: 3 });
    assert_eq!(place(&t.packet(addr(1, 100), 1, 73 * SEC)), Placement::Known { stream_id: 1 });
    assert_eq!(place(&t.packet(addr(1, 300), 1, 73 * SEC)), Placement::Known { stream_id: 2 });
    assert_eq!(place(&t.packet(addr(1, 400), 1, 73 * SEC)), Placement::Known { stream_id: 3 });
}

#[test]
fn stream_closed_by_the_client_is_replaced() {
    let mut t = Tunnel::new();
    t.packet(addr(1, 100), 1, 0);
    t.close(1);
    let step = t.packet(addr(1, 100), 1, SEC);
    assert_eq!(place(&step), Placement::New { stream_id: 2 });
    assert_eq!(t.sessions.get(addr(1, 100)).unwrap().last_seen, SEC);
    // It is a session like any other: it follows the player's port ...
    assert_eq!(
        place(&t.packet(addr(1, 200), 1, 2 * SEC)),
        Placement::Moved { from: addr(1, 100), stream_id: 2 }
    );
    // ... and ends in silence.
    assert!(t.sessions.expire(&mut t.state, &mut t.reg, 303 * SEC - 1).is_empty());
    assert_eq!(t.sessions.expire(&mut t.state, &mut t.reg, 303 * SEC), vec![2]);
}

#[test]
fn replaced_stream_ends_in_silence() {
    let mut t = Tunnel::new();
    t.packet(addr(1, 100), 1, 0);
    t.close(1);
    t.packet(addr(1, 100), 1, SEC);
    assert_eq!(t.sessions.expire(&mut t.state, &mut t.reg, 302 * SEC), vec![2]);
    assert!(t.sessions.get(addr(1, 100)).is_none());
    assert!(t.reg.get(2).is_none());
}

#[test]
fn silent_sessions_expire() {
    let mut t = Tunnel::new();
    t.packet(addr(1, 100), 1, 0);
    t.packet(addr(2, 100), 1, 10 * SEC);
    assert!(t.sessions.expire(&mut t.state, &mut t.reg, 301 * SEC - 1).is_empty());
    assert_eq!(t.sessions.expire(&mut t.state, &mut t.reg, 301 * SEC), vec![1]);
    assert_eq!(t.state.peer_of(1), None);
    assert!(t.reg.get(1).is_none());
    assert!(t.sessions.get(addr(1, 100)).is_none());
    assert!(t.state.peer_of(2).is_some());
    assert!(t.reg.get(2).is_some());
    assert_eq!(t.sessions.expire(&mut t.state, &mut t.reg, 400 * SEC), vec![2]);
}

#[test]
fn closed_socket_clears_the_registry() {
    let mut t = Tunnel::new();
    t.packet(addr(1, 100), 1, 0);
    t.packet(addr(2, 100), 1, 0);
    t.reg.register(99, 0, 0, "other".to_string(), 0);
    t.sessions.close(&mut t.reg);
    assert!(t.reg.get(1).is_none());
    assert!(t.reg.get(2).is_none());
    assert!(t.reg.get(99).is_some());
}

#[test]
fn streams_are_never_shared() {
    let mut t = Tunnel::new();
    let mut seen = Vec::new();
    for round in 0..4u64 {
        let (tcp, _) =
            t.state.accept_player(&mut t.reg, &mut t.ids, 6, "tcp".to_string(), round * SEC);
        seen.push(tcp);
        // A quiet minute lies between two players of one IP.
        let step = t.packet(addr(1, 100 + round as u16), 1, round * 100 * SEC);
        match place(&step) {
            Placement::New { stream_id } => seen.push(stream_id),
            other => panic!("{:?}", other),
        }
        // Neither kind of stream is taken for the other.
        assert!(t.state.peer_of(tcp).is_none());
    }
    let gone = t.sessions.expire(&mut t.state, &mut t.reg, 301 * SEC);
    assert_eq!(gone, vec![seen[1]]);
    let data = Frame::Data { stream_id: seen[0], payload: vec![] };
    assert!(matches!(
        t.state.handle_frame(&mut t.reg, data, 0),
        FrameAction::ToPlayer { .. }
    ));
    let mut unique = seen.clone();
    unique.sort();
    unique.dedup();
    assert_eq!(unique.len(), seen.len());
}
