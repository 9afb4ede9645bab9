use game_tunnel::config::{ManagedClient, ManagedServer};
use game_tunnel::database::{ClientServerMapping, DnsTunnel, Timestamp, TunnelRow};
use game_tunnel::manager::{
    refresh_stats, unreachable_client, ClientStatsResponse, ClientTunnelStats, ManagerState,
    ServerConnData,
};
use game_tunnel::manager_api::{
    announcements, client_stats_url, connections_url, disconnect_result, dns_target, find_server,
    pre_auth_url, resolve_client, server_answer, server_for_client, servers_for_client,
    ClientIdentity, DisconnectPlan, ForwardOutcome, MappingLookup, NotifyOutcome, Reply,
};

fn row(id: u32, name: &str, client: Option<&str>) -> TunnelRow {
    TunnelRow {
        id,
        name: name.to_string(),
        subdomain: "sub".to_string(),
        domain: "dom".to_string(),
        online: id % 2 == 1,
        client_id: client.map(|c| c.to_string()),
        server_id: Some(4),
        tunnel_status: "running".to_string(),
        last_seen: Some(Timestamp { secs: 1_700_000_000, nanos: 0 }),
        remote_port: 25565,
        protocol: "tcp".to_string(),
    }
}

fn managed(id: &str, urls: &[&str]) -> ManagedClient {
    ManagedClient {
        id: id.to_string(),
        name: format!("name of {}", id),
        stats_url: None,
        stats_urls: urls.iter().map(|u| u.to_string()).collect(),
    }
}

fn server(id: u32) -> ManagedServer {
    ManagedServer {
        id,
        name: format!("s{}", id),
        public_ip: format!("10.0.0.{}", id),
        mgmt_url: format!("http://s{}:9001/", id),
    }
}

fn said(db_id: u32, n: u64) -> ClientTunnelStats {
    ClientTunnelStats {
        db_id,
        bytes_in: n,
        bytes_out: n + 1,
        active_connections: n + 2,
        bytes_in_per_sec: n + 3,
        bytes_out_per_sec: n + 4,
    }
}

fn answer(uptime: u64, total: u64, tunnels: Vec<ClientTunnelStats>) -> ClientStatsResponse {
    ClientStatsResponse {
        uptime_secs: uptime,
        total_bytes_in: total,
        total_bytes_out: total + 1,
        total_connections: 0,
        servers: vec![serde_json::Value::Bool(total > 10)],
        tunnels,
    }
}

fn conn(stream_id: u64, db_id: u32) -> ServerConnData {
    ServerConnData {
        stream_id,
        db_id,
        tunnel_id: 1,
        peer_ip: format!("9.9.9.{}", stream_id),
        bytes_in: 1,
        bytes_out: 2,
        bytes_in_per_sec: 3,
        bytes_out_per_sec: 4,
        connected_secs: 5,
    }
}

fn picture() -> ManagerState {
    refresh_stats(
        vec![row(1, "zeta", Some("a")), row(2, "alpha", Some("a")), row(3, "mid", None)],
        &[managed("a", &["u1", "u2", "u3"]), managed("b", &["u4"]), managed("c", &[])],
        vec![
            vec![
                Some(answer(50, 5, vec![said(1, 10), said(77, 100)])),
                None,
                Some(answer(40, 20, vec![said(1, 20), said(2, 30)])),
            ],
            vec![None],
            vec![],
        ],
        &[server(4), server(5)],
        &[Some(vec![conn(1, 1), conn(2, 1)]), Some(vec![conn(3, 2), conn(2, 2)])],
    )
}

#[test]
fn tunnels_are_sorted_and_complete() {
    let s = picture();
    let names: Vec<&str> = s.tunnels.iter().map(|t| t.name.as_str()).collect();
    assert_eq!(names, vec!["alpha", "mid", "zeta"]);
    let ids: Vec<u32> = s.tunnels.iter().map(|t| t.id).collect();
    assert_eq!(ids, vec![2, 3, 1]);
    assert_eq!(s.tunnels[0].last_seen, Some("2023-11-14 22:13:20".to_string()));
    assert_eq!(s.tunnels[0].client_id, Some("a".to_string()));
    assert_eq!(s.tunnels[0].remote_port, 25565);
}

#[test]
fn last_report_on_a_tunnel_counts() {
    let s = picture();
    let zeta = &s.tunnels[2];
    assert_eq!(zeta.bytes_in, 20);
    assert_eq!(zeta.bytes_out, 21);
    assert_eq!(zeta.active_connections, 22);
    assert_eq!(zeta.bytes_in_per_sec, 23);
    assert_eq!(zeta.bytes_out_per_sec, 24);
    // Nobody reports on this one.
    assert_eq!(s.tunnels[1].bytes_in, 0);
    assert_eq!(s.tunnels[1].active_connections, 0);
}

#[test]
fn answers_of_a_client_are_summed() {
    let s = picture();
    let a = &s.clients[0];
    assert!(a.reachable);
    assert_eq!(a.id, "a");
    assert_eq!(a.name, "name of a");
    assert_eq!(a.stats_url, "u1, u2, u3");
    assert_eq!(a.tunnel_count, 2);
    assert_eq!(a.total_bytes_in, 25);
    assert_eq!(a.total_bytes_out, 27);
    assert_eq!(a.active_connections, 12 + 102 + 22 + 32);
    assert_eq!(a.bytes_in_per_sec, 13 + 103 + 23 + 33);
    assert_eq!(a.bytes_out_per_sec, 14 + 104 + 24 + 34);
    assert_eq!(a.uptime_secs, 50);
    assert_eq!(
        a.servers,
        vec![serde_json::Value::Bool(false), serde_json::Value::Bool(true)]
    );
    for c in &s.clients[1..] {
        assert!(!c.reachable);
        assert_eq!(c.tunnel_count, 0);
        assert!(c.servers.is_empty());
    }
    let u = unreachable_client(&managed("b", &["u4"]));
    assert_eq!((u.id.as_str(), u.stats_url.as_str(), u.reachable), ("b", "u4", false));
}

#[test]
fn connections_are_grouped_by_row() {
    let s = picture();
    let of = |id| -> Vec<u64> { s.connections_of(id).iter().map(|c| c.stream_id).collect() };
    assert_eq!(of(1), vec![1, 2]);
    assert_eq!(of(2), vec![3, 2]);
    assert_eq!(of(9), Vec::<u64>::new());
    assert_eq!(s.connections_of(1)[0].peer_ip, "9.9.9.1");
    assert_eq!(s.connections_of(1)[0].connected_secs, 5);
    assert_eq!(s.stream_server_map[&1], 4);
    // The later report on a stream counts.
    assert_eq!(s.stream_server_map[&2], 5);
}

#[test]
fn totals_add_up() {
    let t = picture().totals();
    assert_eq!(t.total_tunnels, 3);
    assert_eq!(t.online_tunnels, 2);
    assert_eq!(t.total_active_connections, 22 + 32);
    assert_eq!(t.total_bytes_in, 25);
    assert_eq!(t.total_bytes_out, 27);
    assert_eq!(t.total_bytes_in_per_sec, 13 + 103 + 23 + 33);
    assert_eq!(t.total_bytes_out_per_sec, 14 + 104 + 24 + 34);
    let none = ManagerState::new().totals();
    assert_eq!((none.total_tunnels, none.total_bytes_in), (0, 0));
}

#[test]
fn rows_with_one_id_are_one_tunnel() {
    let s = refresh_stats(
        vec![row(1, "first", None), row(1, "second", None)],
        &[],
        vec![],
        &[],
        &[],
    );
    assert_eq!(s.tunnels.len(), 1);
    assert_eq!(s.tunnels[0].name, "second");
}

#[test]
fn disconnects_go_to_the_right_server() {
    let s = picture();
    match s.plan_disconnect(&[server(4), server(5)], 3) {
        DisconnectPlan::Forward(url) => assert_eq!(url, "http://s5:9001/api/connections/3"),
        other => panic!("{:?}", other),
    }
    match s.plan_disconnect(&[server(4)], 3) {
        DisconnectPlan::Refuse(r) => {
            assert_eq!((r.status, r.text.as_str()), (500, "server config not found"));
        }
        other => panic!("{:?}", other),
    }
    match s.plan_disconnect(&[server(4)], 99) {
        DisconnectPlan::Refuse(r) => {
            assert_eq!((r.status, r.text.as_str()), (404, "connection not found"));
        }
        other => panic!("{:?}", other),
    }
}

fn refused(status: u16, text: &str) -> Reply {
    Reply { status, text: text.to_string() }
}

#[test]
fn forwarded_disconnects_are_answered() {
    assert_eq!(disconnect_result(ForwardOutcome::Accepted), Ok(()));
    assert_eq!(
        disconnect_result(ForwardOutcome::Rejected("404 Not Found".to_string())),
        Err(refused(502, "server returned 404 Not Found"))
    );
    assert_eq!(
        disconnect_result(ForwardOutcome::Unreachable("refused".to_string())),
        Err(refused(502, "cannot reach server: refused"))
    );
}

fn mapping(server_id: u32, allowed: bool) -> MappingLookup {
    MappingLookup::Found(ClientServerMapping {
        client_uuid: "uu".to_string(),
        client_id: "cid".to_string(),
        server_id,
        allowed,
    })
}

#[test]
fn client_is_sent_to_its_server() {
    let servers = [server(4), server(5)];
    let a = server_for_client(&mapping(5, true), &servers).unwrap();
    assert_eq!((a.server_id, a.url.as_str()), (5, "http://s5:9001/api/manager/pre-auth"));
    let err = |l: &MappingLookup| server_for_client(l, &servers).unwrap_err();
    assert_eq!(err(&mapping(5, false)), refused(403, "client not allowed"));
    assert_eq!(err(&mapping(9, true)), refused(500, "server config not found"));
    assert_eq!(err(&MappingLookup::Missing), refused(404, "no server mapping found"));
    assert_eq!(err(&MappingLookup::Failed), refused(500, "database error"));
}

#[test]
fn client_hears_of_its_server_once_that_agreed() {
    assert_eq!(server_answer(5, NotifyOutcome::Accepted), Ok(5));
    assert_eq!(
        server_answer(5, NotifyOutcome::TimedOut),
        Err(refused(503, "server did not respond to pre-auth in time"))
    );
    assert_eq!(
        server_answer(5, NotifyOutcome::Unreachable),
        Err(refused(503, "could not reach server management API"))
    );
    assert_eq!(
        server_answer(5, NotifyOutcome::Rejected),
        Err(refused(502, "server rejected pre-auth"))
    );
}

#[test]
fn client_is_known_by_its_uuid() {
    let clients = [
        ClientIdentity { id: "x".to_string(), uuid: None },
        ClientIdentity { id: "y".to_string(), uuid: Some("uy".to_string()) },
        ClientIdentity { id: "z".to_string(), uuid: Some("uy".to_string()) },
    ];
    let c = resolve_client(&mapping(5, true), "whatever", &clients).unwrap();
    assert_eq!((c.client_id.as_str(), c.fallback), ("cid", Some(5)));
    let c = resolve_client(&MappingLookup::Missing, "uy", &clients).unwrap();
    assert_eq!((c.client_id.as_str(), c.fallback), ("y", None));
    assert_eq!(
        resolve_client(&MappingLookup::Missing, "nobody", &clients).unwrap_err(),
        refused(404, "no server mapping found")
    );
    assert_eq!(
        resolve_client(&mapping(5, false), "uy", &clients).unwrap_err(),
        refused(403, "client not allowed")
    );
    assert_eq!(
        resolve_client(&MappingLookup::Failed, "uy", &clients).unwrap_err(),
        refused(500, "database error")
    );
}

#[test]
fn client_is_sent_to_all_its_servers() {
    let servers = [server(4), server(5)];
    assert_eq!(servers_for_client(vec![7, 5], Some(4), &servers), Ok(vec![7, 5]));
    assert_eq!(servers_for_client(vec![7], None, &[]), Ok(vec![7]));
}

#[test]
fn client_without_a_placed_tunnel_falls_back() {
    let servers = [server(4), server(5)];
    // To the last server, also where it is not configured, else to the first one.
    assert_eq!(servers_for_client(vec![], Some(3), &servers), Ok(vec![3]));
    assert_eq!(servers_for_client(vec![], Some(5), &[]), Ok(vec![5]));
    assert_eq!(servers_for_client(vec![], None, &servers), Ok(vec![4]));
    assert_eq!(
        servers_for_client(vec![], None, &[]),
        Err(refused(503, "no servers configured"))
    );
}

#[test]
fn configured_servers_are_told() {
    let told = announcements(&[5, 9, 4, 5], &[server(4), server(5)]);
    let ids: Vec<u32> = told.iter().map(|a| a.server_id).collect();
    assert_eq!(ids, vec![5, 4, 5]);
    assert_eq!(told[1].url, "http://s4:9001/api/manager/pre-auth");
}

#[test]
fn urls_of_the_others() {
    assert_eq!(connections_url(&server(4)), "http://s4:9001/api/connections");
    assert_eq!(pre_auth_url(&server(4)), "http://s4:9001/api/manager/pre-auth");
    assert_eq!(client_stats_url("http://c:9090"), "http://c:9090/api/stats");
    assert_eq!(find_server(&[server(4), server(5)], 5).unwrap().name, "s5");
    assert!(find_server(&[server(4)], 5).is_none());
}

#[test]
fn dns_points_to_the_tunnels_server() {
    let mut t = DnsTunnel {
        id: 1,
        subdomain: "s".to_string(),
        domain: "d".to_string(),
        remote_port: 1,
        server_id: Some(5),
        create_srv: true,
    };
    let servers = [server(4), server(5)];
    assert_eq!(dns_target(&t, &servers), Some("10.0.0.5"));
    t.server_id = Some(6);
    assert_eq!(dns_target(&t, &servers), None);
    t.server_id = None;
    assert_eq!(dns_target(&t, &servers), Some("10.0.0.4"));
    assert_eq!(dns_target(&t, &[]), None);
}
