use game_tunnel::auth::NANOS_PER_SEC;
use game_tunnel::stats::Stats;

fn with_tunnel() -> Stats {
    let mut s = Stats::new(0);
    s.add_tunnel(1, 10, "name".to_string(), "sub".to_string());
    s
}

#[test]
fn server_states_follow_the_connection() {
    let mut s = Stats::new(0);
    s.add_server(3, "n".to_string(), "a:1".to_string());
    let at = |s: &Stats| {
        let r = &s.servers[&3];
        (r.connected, r.tls_ok, r.auth_ok)
    };
    assert_eq!(at(&s), (false, false, false));
    s.set_server_tls_ok(3);
    assert_eq!(at(&s), (true, true, false));
    s.set_server_auth_ok(3);
    assert_eq!(at(&s), (true, true, true));
    s.set_server_disconnected(3);
    assert_eq!(at(&s), (false, true, false));
    s.set_server_tls_ok(99);
    assert_eq!(s.servers.len(), 1);
}

#[test]
fn added_tunnel_replaces_its_row() {
    let mut s = with_tunnel();
    s.add_tunnel(2, 20, "other".to_string(), "o".to_string());
    s.add_bytes_in(Some(1), 5);
    s.add_tunnel(3, 10, "name".to_string(), "sub".to_string());
    assert!(!s.tunnels.contains_key(&1));
    assert_eq!(s.tunnels[&3].bytes_in, 0);
    assert_eq!(s.tunnels[&2].db_id, 20);
    assert_eq!(s.tunnels.values().filter(|t| t.db_id == 10).count(), 1);
    s.remove_tunnel(3);
    assert_eq!(s.tunnels.len(), 1);
}

#[test]
fn active_connections_stop_at_zero() {
    let mut s = with_tunnel();
    s.saturating_decrement_active(1);
    assert_eq!(s.tunnels[&1].active_connections, 0);
    s.connection_opened(1);
    s.connection_opened(1);
    s.saturating_decrement_active(1);
    assert_eq!(s.tunnels[&1].active_connections, 1);
    assert_eq!(s.tunnels[&1].total_connections, 2);
    s.saturating_decrement_active(7);
    s.connection_opened(7);
    assert_eq!(s.total_connections, 3);
    let mut t = s.tunnels[&1].clone();
    t.saturating_decrement_active();
    t.saturating_decrement_active();
    assert_eq!(t.active_connections, 0);
}

#[test]
fn tunnel_rates_are_what_came_between_ticks() {
    let mut s = with_tunnel();
    s.add_bytes_in(Some(1), 1000);
    s.add_bytes_out(1, 50);
    s.tick_rates();
    assert_eq!(s.tunnels[&1].bytes_in_per_sec, 1000);
    assert_eq!(s.tunnels[&1].bytes_out_per_sec, 50);
    s.add_bytes_in(Some(1), 7);
    s.tick_rates();
    assert_eq!(s.tunnels[&1].bytes_in_per_sec, 7);
    assert_eq!(s.tunnels[&1].bytes_out_per_sec, 0);
    s.tick_rates();
    assert_eq!(s.tunnels[&1].bytes_in_per_sec, 0);
}

#[test]
fn unknown_tunnels_count_in_the_totals_alone() {
    let mut s = with_tunnel();
    s.add_bytes_in(None, 3);
    s.add_bytes_in(Some(9), 4);
    s.add_bytes_out(9, 5);
    assert_eq!(s.total_bytes_in, 7);
    assert_eq!(s.total_bytes_out, 5);
    assert_eq!(s.tunnels[&1].bytes_in, 0);
}

#[test]
fn report_holds_everything() {
    let mut s = Stats::new(5 * NANOS_PER_SEC);
    s.add_server(1, "one".to_string(), "a".to_string());
    s.add_server(2, "two".to_string(), "b".to_string());
    s.add_tunnel(4, 40, "t".to_string(), "sub".to_string());
    s.connection_opened(4);
    s.add_bytes_in(Some(4), 11);
    let mut r = s.to_response(65 * NANOS_PER_SEC);
    r.servers.sort_by_key(|x| x.id);
    assert_eq!(r.uptime_secs, 60);
    assert_eq!(r.total_bytes_in, 11);
    assert_eq!(r.total_connections, 1);
    assert_eq!(r.servers.len(), 2);
    assert_eq!(r.servers[1].name, "two");
    assert_eq!(r.servers[1].address, "b");
    assert_eq!(r.tunnels.len(), 1);
    assert_eq!(r.tunnels[0].db_id, 40);
    assert_eq!(r.tunnels[0].name, "t");
    assert_eq!(r.tunnels[0].subdomain, "sub");
    assert_eq!(r.tunnels[0].bytes_in, 11);
    assert_eq!(r.tunnels[0].active_connections, 1);
}
