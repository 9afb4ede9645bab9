use game_tunnel::client_tasks::{
    holds_id, is_read_error_loud, manager_error_text, plan_connections, servers_url, tunnels_url,
    udp_stream_idle, PollBackoff, ServerTask, TaskStep,
};
use game_tunnel::auth::NANOS_PER_SEC;
use game_tunnel::config::ServerEntry;
use std::collections::HashMap;

fn configured(ids: &[u32]) -> Vec<ServerEntry> {
    ids.iter()
        .map(|id| ServerEntry {
            id: *id,
            name: "n".to_string(),
            address: "a".to_string(),
            secret: "k".to_string(),
            tls_ca: "c".to_string(),
        })
        .collect()
}

#[test]
fn task_waits_longer_and_longer() {
    let mut t = ServerTask::new(7);
    let waits: Vec<u64> = (0..7).map(|_| t.manager_failed()).collect();
    assert_eq!(waits, vec![2, 4, 8, 16, 32, 60, 60]);
    assert_eq!(t.manager_answered(&[1, 7]), TaskStep::Connect);
    let waits: Vec<u64> = (0..6).map(|_| t.attempt_over()).collect();
    assert_eq!(waits, vec![2, 4, 8, 16, 30, 30]);
    t.connected();
    assert_eq!(t.attempt_over(), 2);
}

#[test]
fn task_stops_without_its_server() {
    let mut t = ServerTask::new(7);
    t.manager_failed();
    assert_eq!(t.manager_answered(&[1, 2]), TaskStep::Stop);
    assert_eq!(t.attempt_over(), 4);
}

#[test]
fn poll_waits_longer_and_longer() {
    let mut b = PollBackoff::new();
    let waits: Vec<u64> = (0..6).map(|_| b.failed()).collect();
    assert_eq!(waits, vec![5, 10, 20, 40, 60, 60]);
    assert_eq!(b.succeeded(), 10);
    assert_eq!(b.failed(), 5);
}

#[test]
fn every_assigned_server_gets_one_task() {
    // Server 1 runs, 2 has finished, 3 is new, 9 is not configured, 5 is no
    // longer assigned.
    let tasks = HashMap::from([(1, false), (2, true), (5, false)]);
    let plan = plan_connections(&[3, 1, 2, 9, 3, 2], &tasks, &configured(&[1, 2, 3, 5]));
    assert_eq!(plan.spawn, vec![3, 2]);
    assert_eq!(plan.unknown, vec![9]);
    assert_eq!(plan.abort, vec![5]);
    let plan = plan_connections(&[], &HashMap::new(), &configured(&[1]));
    assert!(plan.spawn.is_empty() && plan.unknown.is_empty() && plan.abort.is_empty());
}

#[test]
fn ids_are_found() {
    assert!(holds_id(&[1, 2, 3], 3));
    assert!(!holds_id(&[1, 2, 3], 4));
    assert!(!holds_id(&[], 4));
}

#[test]
fn manager_is_asked_at_its_url() {
    assert_eq!(servers_url("http://m:8080//", "ab"), "http://m:8080/api/client/ab/servers");
    assert_eq!(tunnels_url("http://m:8080", "c1"), "http://m:8080/api/client/c1/tunnels");
    assert_eq!(
        manager_error_text("404 Not Found", " no server \n"),
        "manager returned HTTP 404 Not Found: no server"
    );
}

#[test]
fn ordinary_disconnects_are_quiet() {
    assert!(!is_read_error_loud("peer closed connection"));
    assert!(!is_read_error_loud("close_notify"));
    assert!(is_read_error_loud("frame too large"));
}

#[test]
fn udp_streams_end_when_the_game_is_silent() {
    let sec = NANOS_PER_SEC;
    assert!(!udp_stream_idle(7 * sec, 7 * sec));
    assert!(!udp_stream_idle(7 * sec, 127 * sec - 1));
    assert!(udp_stream_idle(7 * sec, 127 * sec));
    assert!(udp_stream_idle(7 * sec, 9999 * sec));
    // A clock that stands earlier is no silence.
    assert!(!udp_stream_idle(500 * sec, sec));
}
