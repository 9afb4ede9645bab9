use game_tunnel::config::{
    default_assign_interval, default_mgmt_bind, default_poll, DatabaseConfig, ManagedClient,
};
use game_tunnel::database::{
    add_column_sql, client_server_mapping, columns, date_text, dns_tunnel, is_duplicate_column,
    tunnel_row, unassigned_tunnel, Program, RawTunnelRow, Timestamp,
};

#[test]
fn dates_are_written_by_the_calendar() {
    let text = |secs, nanos| date_text(Some(Timestamp { secs, nanos }));
    assert_eq!(text(0, 0), Some("1970-01-01 00:00:00".to_string()));
    assert_eq!(text(951_782_400, 0), Some("2000-02-29 00:00:00".to_string()));
    assert_eq!(text(-1, 0), Some("1969-12-31 23:59:59".to_string()));
    assert_eq!(text(0, 1_000), Some("1970-01-01 00:00:00.000001".to_string()));
    assert_eq!(text(i64::MAX, 0), None);
    assert_eq!(date_text(None), None);
}

#[test]
fn rows_get_defaults() {
    let u = unassigned_tunnel(None, None, Some("s".to_string()));
    assert_eq!((u.id, u.name.as_str(), u.subdomain.as_str()), (0, "", "s"));
    let d = dns_tunnel(Some(4), None, None, None, None, None);
    assert_eq!((d.id, d.remote_port, d.server_id, d.create_srv), (4, 0, None, true));
    assert!(!dns_tunnel(None, None, None, Some(5), Some(6), Some(false)).create_srv);
    let m = client_server_mapping(Some("u".to_string()), None, None, None);
    assert_eq!((m.client_uuid.as_str(), m.server_id, m.allowed), ("u", 0, false));
    let t = tunnel_row(RawTunnelRow {
        id: None,
        name: None,
        subdomain: None,
        domain: None,
        online: None,
        client_id: None,
        server_id: None,
        tunnel_status: None,
        last_seen: None,
        remote_port: None,
        protocol: None,
    });
    assert_eq!((t.id, t.online, t.tunnel_status.as_str()), (0, false, "stopped"));
}

#[test]
fn columns_of_each_program() {
    let names = |p| -> Vec<&str> { columns(p).iter().map(|c| c.name).collect() };
    assert_eq!(names(Program::Client), vec!["client_id", "tunnel_status", "last_seen"]);
    assert_eq!(
        names(Program::Manager),
        vec!["client_id", "tunnel_status", "last_seen", "dns_set"]
    );
    assert_eq!(
        names(Program::Web),
        vec!["create_srv", "client_id", "tunnel_status", "last_seen", "dns_set", "proxy_protocol"]
    );
    for c in names(Program::Client) {
        assert!(names(Program::Manager).contains(&c));
        assert!(names(Program::Web).contains(&c));
    }
}

#[test]
fn columns_are_added() {
    let c = columns(Program::Manager)[1];
    assert_eq!(
        add_column_sql(Program::Manager, &c),
        "ALTER TABLE tunnels ADD COLUMN tunnel_status VARCHAR(20) NOT NULL DEFAULT 'stopped'"
    );
    assert_eq!(
        add_column_sql(Program::Client, &c),
        "ALTER TABLE tunnels ADD COLUMN IF NOT EXISTS tunnel_status VARCHAR(20) NOT NULL \
         DEFAULT 'stopped'"
    );
    assert!(is_duplicate_column("1060: Duplicate column name 'x'"));
    assert!(!is_duplicate_column("access denied"));
}

#[test]
fn configuration_defaults() {
    assert_eq!(default_poll(), 5);
    assert_eq!(default_assign_interval(), 5);
    assert_eq!(default_mgmt_bind(), "0.0.0.0:9001");
}

#[test]
fn database_url_is_complete() {
    let c = DatabaseConfig {
        host: "h".to_string(),
        port: 3306,
        user: "u".to_string(),
        password: "p".to_string(),
        database: "d".to_string(),
        poll_interval_secs: 5,
    };
    assert_eq!(c.url(), "mysql://u:p@h:3306/d");
}

#[test]
fn stats_urls_are_merged() {
    let client = |single: Option<&str>, many: &[&str]| ManagedClient {
        id: "i".to_string(),
        name: "n".to_string(),
        stats_url: single.map(|s| s.to_string()),
        stats_urls: many.iter().map(|s| s.to_string()).collect(),
    };
    assert_eq!(client(None, &[]).all_stats_urls(), Vec::<&str>::new());
    assert_eq!(client(Some("a"), &[]).all_stats_urls(), vec!["a"]);
    assert_eq!(client(Some("a"), &["b", "c"]).all_stats_urls(), vec!["b", "c", "a"]);
    assert_eq!(client(Some("c"), &["b", "c"]).all_stats_urls(), vec!["b", "c"]);
}
