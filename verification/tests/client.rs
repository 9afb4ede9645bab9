use game_tunnel::client::{
    choose_server, entry_exists, local_address, open_message, plan_add, protocol_from_text, ClientAction,
    ClientState, DbTunnel, TunnelIds, TunnelMove,
};
use game_tunnel::config::ServerEntry;
use game_tunnel::protocol::{Frame, Message, TunnelProtocol};
use game_tunnel::stats::Stats;
use std::collections::{HashMap, HashSet};

fn tunnel(id: u32, server_id: Option<u32>) -> DbTunnel {
    DbTunnel {
        id,
        uuid: "u".to_string(),
        name: format!("t{}", id),
        online: true,
        server_ip: "10.0.0.9".to_string(),
        server_port: 7000 + id as u16,
        remote_port: 25565,
        protocol: "udp".to_string(),
        server_id,
        subdomain: "sub".to_string(),
        domain: "dom".to_string(),
    }
}

fn entry(id: u32) -> ServerEntry {
    ServerEntry {
        id,
        name: format!("s{}", id),
        address: "a".to_string(),
        secret: "k".to_string(),
        tls_ca: "ca".to_string(),
    }
}

struct Client {
    state: ClientState,
    stats: Stats,
}

impl Client {
    fn new() -> Client {
        Client { state: ClientState::new(), stats: Stats::new(0) }
    }

    fn add(&mut self, id: u32, tunnel_id: u32, server_id: u32) {
        self.state.add_row(&mut self.stats, &tunnel(id, None), tunnel_id, server_id);
    }

    fn frame(&mut self, f: Frame) -> ClientAction {
        self.state.handle_server_frame(&mut self.stats, f)
    }

    fn connect(&mut self, tunnel_id: u32, stream_id: u64) -> ClientAction {
        self.frame(Frame::Control(Message::NewConnection { tunnel_id, stream_id, is_udp: false }))
    }

    fn active(&self, tunnel_id: u32) -> u64 {
        self.stats.tunnels[&tunnel_id].active_connections
    }
}

#[test]
fn database_names_of_transports() {
    assert_eq!(protocol_from_text("udp"), TunnelProtocol::Udp);
    assert_eq!(protocol_from_text("both"), TunnelProtocol::Both);
    assert_eq!(protocol_from_text("tcp"), TunnelProtocol::Tcp);
    assert_eq!(protocol_from_text("UDP"), TunnelProtocol::Tcp);
    assert_eq!(protocol_from_text(""), TunnelProtocol::Tcp);
}

#[test]
fn requests_and_addresses_of_tunnels() {
    assert_eq!(local_address(&tunnel(3, None)), "10.0.0.9:7003");
    assert_eq!(
        open_message(&tunnel(3, None), 8),
        Message::OpenTunnel {
            tunnel_id: 8,
            remote_port: 25565,
            protocol: TunnelProtocol::Udp
        }
    );
}

#[test]
fn tunnels_are_numbered_from_one() {
    let mut ids = TunnelIds::new();
    assert_eq!((ids.take(), ids.take()), (1, 2));
}

#[test]
fn new_connection_leads_to_its_tunnel() {
    let mut c = Client::new();
    c.add(5, 50, 1);
    match c.connect(50, 700) {
        ClientAction::Connect { tunnel_id, stream_id, is_udp, local_address } => {
            assert_eq!((tunnel_id, stream_id, is_udp), (50, 700, false));
            assert_eq!(local_address, "10.0.0.9:7005");
        }
        other => panic!("{:?}", other),
    }
    assert_eq!(c.active(50), 1);
    assert_eq!(c.stats.total_connections, 1);
    match c.connect(51, 701) {
        ClientAction::Connect { local_address, .. } => {
            assert_eq!(local_address, "127.0.0.1:25565");
        }
        other => panic!("{:?}", other),
    }
}

#[test]
fn opened_tunnel_is_acknowledged() {
    let mut c = Client::new();
    c.add(5, 50, 1);
    match c.frame(Frame::Control(Message::TunnelOpened { tunnel_id: 50 })) {
        ClientAction::Opened { tunnel_id, local_address } => {
            assert_eq!(tunnel_id, 50);
            assert_eq!(local_address, Some("10.0.0.9:7005".to_string()));
        }
        other => panic!("{:?}", other),
    }
    match c.frame(Frame::Control(Message::TunnelOpened { tunnel_id: 51 })) {
        ClientAction::Opened { local_address, .. } => assert_eq!(local_address, None),
        other => panic!("{:?}", other),
    }
}

#[test]
fn server_data_goes_to_the_local_end() {
    let mut c = Client::new();
    c.add(5, 50, 1);
    c.connect(50, 700);
    match c.frame(Frame::Data { stream_id: 700, payload: vec![1, 2] }) {
        ClientAction::ToLocal { stream_id, payload } => {
            assert_eq!((stream_id, payload), (700, vec![1, 2]));
        }
        other => panic!("{:?}", other),
    }
    assert!(matches!(
        c.frame(Frame::Data { stream_id: 999, payload: vec![1] }),
        ClientAction::Nothing
    ));
    assert_eq!(c.stats.total_bytes_in, 3);
    assert_eq!(c.stats.tunnels[&50].bytes_in, 2);
}

#[test]
fn closed_streams_are_counted_once() {
    let mut c = Client::new();
    c.add(5, 50, 1);
    c.connect(50, 700);
    c.connect(50, 701);
    assert_eq!(c.active(50), 2);
    c.frame(Frame::StreamClose { stream_id: 700 });
    assert_eq!(c.active(50), 1);
    // The local end closes too: the stream was counted already.
    assert_eq!(
        c.state.local_ended(&mut c.stats, 700, 50),
        Frame::StreamClose { stream_id: 700 }
    );
    assert_eq!(c.active(50), 1);
    c.state.local_ended(&mut c.stats, 701, 50);
    assert_eq!(c.active(50), 0);
    c.frame(Frame::StreamClose { stream_id: 701 });
    assert_eq!(c.active(50), 0);
    assert!(matches!(
        c.frame(Frame::Data { stream_id: 701, payload: vec![] }),
        ClientAction::Nothing
    ));
}

#[test]
fn unreachable_local_ends_are_reported() {
    let mut c = Client::new();
    c.add(5, 50, 1);
    c.connect(50, 700);
    assert_eq!(
        c.state.connect_failed(&mut c.stats, 700, 50),
        Frame::StreamClose { stream_id: 700 }
    );
    assert_eq!(c.active(50), 0);
    c.connect(50, 701);
    assert_eq!(c.state.send_failed(701), Frame::StreamClose { stream_id: 701 });
    assert!(matches!(
        c.frame(Frame::Data { stream_id: 701, payload: vec![] }),
        ClientAction::Nothing
    ));
}

#[test]
fn server_can_close_a_tunnel() {
    let mut c = Client::new();
    c.add(5, 50, 1);
    c.add(6, 60, 1);
    assert!(matches!(
        c.frame(Frame::Control(Message::CloseTunnel { tunnel_id: 50 })),
        ClientAction::Nothing
    ));
    assert_eq!(c.state.tunnel_of_row(5), None);
    assert_eq!(c.state.tunnel_of_row(6), Some((60, 1)));
    assert_eq!(c.state.row_of_tunnel(60), Some(6));
    assert_eq!(c.state.row_of_tunnel(50), None);
    // What was counted stays.
    assert!(c.stats.tunnels.contains_key(&50));
    assert!(matches!(c.frame(Frame::Control(Message::Pong)), ClientAction::Nothing));
    assert!(matches!(c.frame(Frame::Control(Message::Ping)), ClientAction::Unexpected));
}

#[test]
fn lost_server_takes_its_tunnels() {
    let mut c = Client::new();
    c.add(5, 50, 1);
    c.add(6, 60, 2);
    c.add(7, 70, 1);
    assert_eq!(c.state.server_lost(&mut c.stats, 1), 2);
    assert_eq!(c.state.tunnel_of_row(5), None);
    assert_eq!(c.state.tunnel_of_row(7), None);
    assert_eq!(c.state.tunnel_of_row(6), Some((60, 2)));
    assert_eq!(c.stats.tunnels.len(), 1);
    assert_eq!(c.state.server_lost(&mut c.stats, 1), 0);
}

#[test]
fn sync_finds_what_differs() {
    let mut c = Client::new();
    c.add(1, 10, 1);
    c.add(2, 20, 1);
    c.add(3, 30, 1);
    let db = vec![
        tunnel(9, None),
        tunnel(1, Some(2)),
        tunnel(2, Some(1)),
        tunnel(8, Some(2)),
    ];
    let plan = c.state.plan_sync(&db, &[entry(1), entry(2)]);
    assert_eq!(plan.add, vec![0, 3]);
    assert_eq!(plan.remove, vec![3]);
    assert_eq!(plan.update, vec![TunnelMove { index: 1, from_server: 1, to_server: 2 }]);
    // A server that is not configured is no reason to move.
    let plan = c.state.plan_sync(&[tunnel(1, Some(7))], &[entry(1)]);
    assert!(plan.update.is_empty());
}

#[test]
fn following_the_plan_reaches_the_database() {
    let mut c = Client::new();
    let mut ids = TunnelIds::new();
    let entries = [entry(1), entry(2)];
    let lists = [
        vec![tunnel(1, None), tunnel(2, Some(2)), tunnel(3, Some(1))],
        vec![tunnel(3, Some(2)), tunnel(4, None), tunnel(2, Some(2))],
        vec![],
    ];
    for db in lists {
        let plan = c.state.plan_sync(&db, &entries);
        for row in plan.remove {
            c.state.remove_row(&mut c.stats, row);
        }
        for m in plan.update {
            c.state.move_row(&mut c.stats, &mut ids, &db[m.index], m.to_server, true);
        }
        let counts = c.state.tunnel_counts();
        for i in plan.add {
            let sid = choose_server(db[i].server_id, &entries, &counts);
            let id = ids.take();
            c.state.add_row(&mut c.stats, &db[i], id, sid);
        }
        let after = c.state.plan_sync(&db, &entries);
        assert!(after.add.is_empty() && after.remove.is_empty() && after.update.is_empty());
        assert_eq!(c.stats.tunnels.len(), db.len());
        // Exactly the rows of the database have tunnels, each with an id of its own.
        let held: Vec<u32> =
            (0..6).filter_map(|row| c.state.tunnel_of_row(row)).map(|t| t.0).collect();
        assert_eq!(held.len(), db.len());
        assert!(db.iter().all(|t| c.state.tunnel_of_row(t.id).is_some()));
        assert_eq!(held.iter().collect::<HashSet<_>>().len(), held.len());
    }
    // The counter is ahead of them all.
    assert_eq!(ids.take(), 6);
}

#[test]
fn removed_row_is_announced_to_its_server() {
    let mut c = Client::new();
    c.add(1, 10, 4);
    let r = c.state.remove_row(&mut c.stats, 1).unwrap();
    assert_eq!((r.tunnel_id, r.server_id), (10, 4));
    assert_eq!(r.notice, Message::CloseTunnel { tunnel_id: 10 });
    assert!(c.stats.tunnels.is_empty());
    assert!(c.state.remove_row(&mut c.stats, 1).is_none());
    // A tunnel without an id is left alone.
    c.add(2, 0, 4);
    assert!(c.state.remove_row(&mut c.stats, 2).is_none());
    assert_eq!(c.state.tunnel_of_row(2), Some((0, 4)));
}

#[test]
fn moved_row_gets_a_new_id() {
    let mut c = Client::new();
    let mut ids = TunnelIds::new();
    assert_eq!(ids.take(), 1);
    c.add(1, 1, 4);
    let step = c.state.move_row(&mut c.stats, &mut ids, &tunnel(1, Some(5)), 5, true).unwrap();
    assert_eq!(step.notice, Message::CloseTunnel { tunnel_id: 1 });
    assert_eq!(step.request, Some(open_message(&tunnel(1, Some(5)), 2)));
    assert_eq!(c.state.tunnel_of_row(1), Some((2, 5)));
    assert!(c.stats.tunnels.contains_key(&2) && !c.stats.tunnels.contains_key(&1));
    // To a server that is not connected it only leaves.
    let step = c.state.move_row(&mut c.stats, &mut ids, &tunnel(1, Some(6)), 6, false).unwrap();
    assert_eq!(step.request, None);
    assert_eq!(c.state.tunnel_of_row(1), None);
    assert_eq!(ids.take(), 4);
    assert!(c
        .state
        .move_row(&mut c.stats, &mut ids, &tunnel(1, Some(6)), 6, true)
        .is_none());
}

#[test]
fn new_tunnels_go_where_fewest_are() {
    let entries = [entry(3), entry(1), entry(2)];
    let counts = HashMap::from([(3, 2), (1, 1), (2, 1)]);
    assert_eq!(choose_server(None, &entries, &counts), 1);
    assert_eq!(choose_server(Some(3), &entries, &counts), 3);
    assert_eq!(choose_server(Some(9), &entries, &counts), 1);
    assert_eq!(choose_server(None, &entries, &HashMap::new()), 3);
    assert_eq!(choose_server(None, &[], &counts), 1);
    assert!(entry_exists(&entries, 2) && !entry_exists(&entries, 4));
}

#[test]
fn tunnels_are_asked_for_on_connected_servers() {
    let entries = [entry(1), entry(2)];
    let counts = HashMap::from([(1, 3)]);
    let mut ids = TunnelIds::new();
    let step =
        plan_add(&mut ids, &tunnel(5, None), &entries, &counts, &HashSet::from([2])).unwrap();
    assert_eq!((step.tunnel_id, step.server_id), (1, 2));
    assert_eq!(step.request, open_message(&tunnel(5, None), 1));
    assert!(plan_add(&mut ids, &tunnel(5, Some(1)), &entries, &counts, &HashSet::from([2]))
        .is_none());
    // Nothing was taken for the tunnel that has to wait.
    assert_eq!(ids.take(), 2);
}

#[test]
fn tunnels_are_counted_per_server() {
    let mut c = Client::new();
    c.add(1, 10, 4);
    c.add(2, 20, 5);
    c.add(3, 30, 4);
    let counts = c.state.tunnel_counts();
    assert_eq!(counts.get(&4), Some(&2));
    assert_eq!(counts.get(&5), Some(&1));
    assert_eq!(counts.get(&6), None);
}

#[test]
fn status_is_running_with_players() {
    let mut c = Client::new();
    c.add(1, 10, 4);
    c.add(2, 20, 4);
    c.stats.add_tunnel(99, 77, "lost".to_string(), "x".to_string());
    c.connect(20, 5);
    let mut u: Vec<(u32, &str)> =
        c.state.status_updates(&c.stats).iter().map(|s| (s.db_id, s.status)).collect();
    u.sort();
    assert_eq!(u, vec![(1, "idle"), (2, "running")]);
}

#[test]
fn other_tunnels_keep_their_addresses() {
    let mut c = Client::new();
    c.add(1, 10, 4);
    c.add(2, 20, 5);
    c.add(3, 30, 4);
    c.add(4, 40, 5);
    c.state.remove_row(&mut c.stats, 4);
    c.state.server_lost(&mut c.stats, 4);
    match c.connect(20, 900) {
        ClientAction::Connect { local_address, .. } => assert_eq!(local_address, "10.0.0.9:7002"),
        other => panic!("{:?}", other),
    }
    for gone in [10, 30, 40] {
        match c.connect(gone, 901) {
            ClientAction::Connect { local_address, .. } => {
                assert_eq!(local_address, "127.0.0.1:25565");
            }
            other => panic!("{:?}", other),
        }
    }
}
