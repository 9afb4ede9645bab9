use game_tunnel::database::Timestamp;
use game_tunnel::web::{
    check_config, complete_tunnel, default_true, lowest_free_id, new_tunnel, plan_update,
    route_to_manager, row_to_tunnel, Bind, ConfigError, CreateTunnelRequest, ManagerRequest,
    RawTunnel, UpdateTunnelRequest, WithoutManager,
};

fn request() -> CreateTunnelRequest {
    CreateTunnelRequest {
        name: None,
        server_ip: "10.0.0.1".to_string(),
        server_port: 25565,
        remote_port: 25566,
        protocol: None,
        subdomain: "mc".to_string(),
        domain: None,
        server_id: Some(3),
        client_id: None,
        create_srv: default_true(),
        proxy_protocol: false,
    }
}

fn no_change() -> UpdateTunnelRequest {
    UpdateTunnelRequest {
        name: None,
        server_ip: None,
        server_port: None,
        remote_port: None,
        protocol: None,
        subdomain: None,
        domain: None,
        online: None,
        server_id: None,
        client_id: None,
        create_srv: None,
        proxy_protocol: None,
    }
}

fn unread() -> RawTunnel {
    RawTunnel {
        id: None,
        uuid: None,
        name: None,
        status: None,
        online: None,
        server_ip: None,
        server_port: None,
        remote_ip: None,
        remote_port: None,
        protocol: None,
        domain: None,
        subdomain: None,
        server_id: None,
        client_id: None,
        tunnel_status: None,
        last_seen: None,
        created_at: None,
        create_srv: None,
        proxy_protocol: None,
    }
}

#[test]
fn unread_columns_get_defaults() {
    let t = row_to_tunnel(unread());
    assert_eq!((t.id, t.server_port, t.remote_port), (0, 0, 0));
    assert_eq!((t.name.as_str(), t.created_at.as_str()), ("", ""));
    assert_eq!(t.tunnel_status, "stopped");
    assert!(!t.online && t.create_srv && !t.proxy_protocol);
    assert_eq!(t.last_seen, None);
}

#[test]
fn read_columns_are_kept() {
    let mut raw = unread();
    raw.id = Some(8);
    raw.name = Some("n".to_string());
    raw.tunnel_status = Some("running".to_string());
    raw.create_srv = Some(false);
    raw.last_seen = Some(Timestamp { secs: 0, nanos: 0 });
    raw.created_at = Some(Timestamp { secs: 86_399, nanos: 500_000_000 });
    let t = row_to_tunnel(raw);
    assert_eq!(t.id, 8);
    assert_eq!(t.name, "n");
    assert_eq!(t.tunnel_status, "running");
    assert!(!t.create_srv);
    assert_eq!(t.last_seen, Some("1970-01-01 00:00:00".to_string()));
    assert_eq!(t.created_at, "1970-01-01 23:59:59.500");
}

#[test]
fn lowest_free_id_is_taken() {
    assert_eq!(lowest_free_id(&[]), 1);
    assert_eq!(lowest_free_id(&[1, 2, 3]), 4);
    assert_eq!(lowest_free_id(&[3, 1, 0, 1, 5]), 2);
    assert_eq!(lowest_free_id(&[2, 3]), 1);
    assert_eq!(lowest_free_id(&[1, u64::MAX, 4_294_967_297]), 2);
}

#[test]
fn requests_are_completed() {
    let t = complete_tunnel(request(), 4, "uu".to_string());
    assert_eq!((t.id, t.uuid.as_str()), (4, "uu"));
    assert_eq!(t.name, "");
    assert_eq!(t.protocol, "tcp");
    assert_eq!(t.domain, "sinomcit.com");
    assert_eq!(t.subdomain, "mc");
    assert_eq!(t.server_id, Some(3));
    assert!(t.create_srv);
    let mut req = request();
    req.name = Some("n".to_string());
    req.protocol = Some("udp".to_string());
    req.domain = Some("d.com".to_string());
    let t = complete_tunnel(req, 4, "uu".to_string());
    assert_eq!((t.name.as_str(), t.protocol.as_str(), t.domain.as_str()), ("n", "udp", "d.com"));
}

#[test]
fn new_tunnels_get_random_uuids() {
    let a = new_tunnel(request(), &[1, 2]);
    let b = new_tunnel(request(), &[1, 2]);
    assert_eq!((a.id, b.id), (3, 3));
    assert_ne!(a.uuid, b.uuid);
    for u in [&a.uuid, &b.uuid] {
        assert_eq!(u.len(), 36);
        for (i, c) in u.chars().enumerate() {
            match i {
                8 | 13 | 18 | 23 => assert_eq!(c, '-'),
                14 => assert_eq!(c, '4'),
                19 => assert!("89ab".contains(c)),
                _ => assert!("0123456789abcdef".contains(c)),
            }
        }
    }
}

#[test]
fn empty_change_is_none() {
    assert!(plan_update(&no_change(), 5).is_none());
}

#[test]
fn full_change_sets_every_column() {
    let req = UpdateTunnelRequest {
        name: Some("n".to_string()),
        server_ip: Some("i".to_string()),
        server_port: Some(1),
        remote_port: Some(2),
        protocol: Some("udp".to_string()),
        subdomain: Some("s".to_string()),
        domain: Some("d".to_string()),
        online: Some(true),
        server_id: Some(7),
        client_id: Some("c".to_string()),
        create_srv: Some(false),
        proxy_protocol: Some(true),
    };
    let p = plan_update(&req, 5).unwrap();
    assert_eq!(
        p.sql,
        "UPDATE tunnels SET name = ?, server_ip = ?, server_port = ?, remote_port = ?, \
         protocol = ?, subdomain = ?, domain = ?, online = ?, server_id = ?, client_id = ?, \
         create_srv = ?, proxy_protocol = ?, dns_set = FALSE WHERE id = ?"
    );
    let text = |s: &str| Bind::Text(s.to_string());
    assert_eq!(
        p.binds,
        vec![
            text("n"),
            text("i"),
            Bind::U16(1),
            Bind::U16(2),
            text("udp"),
            text("s"),
            text("d"),
            Bind::Bool(true),
            Bind::OptU32(Some(7)),
            Bind::OptText(Some("c".to_string())),
            Bind::Bool(false),
            Bind::Bool(true),
            Bind::U32(5),
        ]
    );
    assert_eq!(p.sql.matches('?').count(), p.binds.len());
}

#[test]
fn only_dns_changes_reset_dns() {
    let mut req = no_change();
    req.online = Some(false);
    let p = plan_update(&req, 5).unwrap();
    assert_eq!(p.sql, "UPDATE tunnels SET online = ? WHERE id = ?");
    assert_eq!(p.binds, vec![Bind::Bool(false), Bind::U32(5)]);
    let mut req = no_change();
    req.create_srv = Some(true);
    let p = plan_update(&req, 5).unwrap();
    assert_eq!(p.sql, "UPDATE tunnels SET create_srv = ?, dns_set = FALSE WHERE id = ?");
    // The port at the server is in the service record; the local one is not.
    let mut req = no_change();
    req.remote_port = Some(25566);
    let p = plan_update(&req, 5).unwrap();
    assert_eq!(p.sql, "UPDATE tunnels SET remote_port = ?, dns_set = FALSE WHERE id = ?");
    assert_eq!(p.binds, vec![Bind::U16(25566), Bind::U32(5)]);
    let mut req = no_change();
    req.server_port = Some(25566);
    let p = plan_update(&req, 5).unwrap();
    assert_eq!(p.sql, "UPDATE tunnels SET server_port = ? WHERE id = ?");
}

#[test]
fn servers_and_clients_can_be_taken_away() {
    let mut req = no_change();
    req.server_id = Some(-1);
    req.client_id = Some("-".to_string());
    let p = plan_update(&req, 5).unwrap();
    assert_eq!(p.binds, vec![Bind::OptU32(None), Bind::OptText(None), Bind::U32(5)]);
    assert_eq!(
        p.sql,
        "UPDATE tunnels SET server_id = ?, client_id = ?, dns_set = FALSE WHERE id = ?"
    );
}

#[test]
fn open_panels_do_not_start() {
    assert_eq!(check_config(false, true, true), Err(ConfigError::NoCredentials));
    assert_eq!(check_config(true, true, false), Err(ConfigError::NoApiKey));
    assert_eq!(check_config(true, false, false), Ok(()));
    assert_eq!(check_config(true, true, true), Ok(()));
}

#[test]
fn requests_go_to_the_manager() {
    let all = [
        (ManagerRequest::Stats, "http://m/api/stats"),
        (ManagerRequest::Clients, "http://m/api/clients"),
        (ManagerRequest::Connections { tunnel: 7 }, "http://m/api/tunnels/7/connections"),
        (
            ManagerRequest::Disconnect { tunnel: 7, stream_id: 99 },
            "http://m/api/tunnels/7/connections/99",
        ),
    ];
    for (req, url) in all {
        assert_eq!(route_to_manager(Some("http://m"), req), Ok(url.to_string()));
    }
    assert_eq!(
        route_to_manager(None, ManagerRequest::Stats),
        Err(WithoutManager::ErrorObject)
    );
    assert_eq!(
        route_to_manager(None, ManagerRequest::Clients),
        Err(WithoutManager::EmptyList)
    );
    assert_eq!(
        route_to_manager(None, ManagerRequest::Connections { tunnel: 1 }),
        Err(WithoutManager::EmptyList)
    );
    assert_eq!(
        route_to_manager(None, ManagerRequest::Disconnect { tunnel: 1, stream_id: 2 }),
        Err(WithoutManager::Unavailable)
    );
}
