use game_tunnel::auth::NANOS_PER_SEC;
use game_tunnel::registry::{ConnRegistry, Disconnect, RateSnapshot};

#[test]
fn connections_are_listed_with_their_counts() {
    let mut reg = ConnRegistry::new();
    reg.register(4, 40, 7, "10.0.0.1".to_string(), 2 * NANOS_PER_SEC);
    reg.register(5, 50, 8, "::1".to_string(), 3 * NANOS_PER_SEC);
    reg.add_in(4, 100);
    reg.add_out(4, 30);
    reg.add_in(99, 1);
    let mut all = reg.list(9 * NANOS_PER_SEC + 1);
    all.sort_by_key(|c| c.stream_id);
    assert_eq!(all.len(), 2);
    assert_eq!(all[0].stream_id, 4);
    assert_eq!(all[0].db_id, 40);
    assert_eq!(all[0].tunnel_id, 7);
    assert_eq!(all[0].peer_ip, "10.0.0.1");
    assert_eq!(all[0].bytes_in, 100);
    assert_eq!(all[0].bytes_out, 30);
    assert_eq!(all[0].bytes_in_per_sec, 0);
    assert_eq!(all[0].connected_secs, 7);
    assert_eq!(all[1].stream_id, 5);
    assert_eq!(all[1].connected_secs, 6);
}

#[test]
fn forced_disconnect_happens_once() {
    let mut reg = ConnRegistry::new();
    reg.register(4, 0, 7, "a".to_string(), 0);
    assert_eq!(reg.disconnect(4), Disconnect::Kicked);
    assert_eq!(reg.disconnect(4), Disconnect::NotFound);
    assert_eq!(Disconnect::Kicked.status(), 200);
    assert_eq!(Disconnect::NotFound.status(), 404);
}

#[test]
fn rates_are_what_came_between_ticks() {
    let mut reg = ConnRegistry::new();
    let mut snap = RateSnapshot::new();
    reg.register(1, 0, 0, "a".to_string(), 0);
    reg.add_in(1, 500);
    reg.update_rates(&mut snap);
    // The first tick knows no earlier count.
    assert_eq!(reg.get(1).unwrap().bytes_in_per_sec, 0);
    reg.add_in(1, 70);
    reg.add_out(1, 7);
    reg.update_rates(&mut snap);
    assert_eq!(reg.get(1).unwrap().bytes_in_per_sec, 70);
    assert_eq!(reg.get(1).unwrap().bytes_out_per_sec, 7);
    reg.update_rates(&mut snap);
    assert_eq!(reg.get(1).unwrap().bytes_in_per_sec, 0);
    assert_eq!(reg.get(1).unwrap().bytes_in, 570);
}

#[test]
fn closed_connections_leave_the_snapshot() {
    let mut reg = ConnRegistry::new();
    let mut snap = RateSnapshot::new();
    reg.register(1, 0, 0, "a".to_string(), 0);
    reg.add_in(1, 5);
    reg.update_rates(&mut snap);
    reg.remove(1);
    reg.update_rates(&mut snap);
    // A later connection under the same stream id starts without a past.
    reg.register(1, 0, 0, "b".to_string(), 0);
    reg.add_in(1, 1000);
    reg.update_rates(&mut snap);
    assert_eq!(reg.get(1).unwrap().bytes_in_per_sec, 0);
}

#[test]
fn counters_wrap_around() {
    let mut reg = ConnRegistry::new();
    let mut snap = RateSnapshot::new();
    reg.register(1, 0, 0, "a".to_string(), 0);
    reg.add_in(1, u64::MAX);
    reg.update_rates(&mut snap);
    reg.add_in(1, 3);
    reg.update_rates(&mut snap);
    assert_eq!(reg.get(1).unwrap().bytes_in, 2);
    assert_eq!(reg.get(1).unwrap().bytes_in_per_sec, 0);
}

#[test]
fn several_connections_are_removed_at_once() {
    let mut reg = ConnRegistry::new();
    for i in 0..5 {
        reg.register(i, 0, 0, "a".to_string(), 0);
    }
    reg.remove_all(&[1, 3, 3, 77]);
    let mut left: Vec<u64> = reg.list(0).iter().map(|c| c.stream_id).collect();
    left.sort();
    assert_eq!(left, vec![0, 2, 4]);
}
