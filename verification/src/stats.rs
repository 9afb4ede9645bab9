//! What a client counts: traffic and connections per tunnel, and the state of
//! each server.

use std::collections::HashMap;
use vstd::prelude::*;
use vstd::string::*;
use crate::auth::{elapsed_secs, secs_since};
use crate::maps::{keys_of, lists};
use crate::registry::{gain, wrapped_sum};

verus! {

/// The counters of a client process.
#[derive(Debug)]
pub struct Stats {
    pub start_time: u64,
    pub tunnels: HashMap<u32, TunnelStats>,
    pub servers: HashMap<u32, ServerStatus>,
    pub total_bytes_in: u64,
    pub total_bytes_out: u64,
    pub total_connections: u64,
}

/// How the connection to a server stands.
#[derive(Debug, Clone, PartialEq, Eq)]
pub struct ServerStatus {
    pub id: u32,
    pub name: String,
    pub address: String,
    pub connected: bool,
    pub tls_ok: bool,
    pub auth_ok: bool,
}

/// The counters of one tunnel.
#[derive(Debug, Clone, PartialEq, Eq)]
pub struct TunnelStats {
    pub db_id: u32,
    pub name: String,
    pub subdomain: String,
    pub bytes_in: u64,
    pub bytes_out: u64,
    pub active_connections: u64,
    pub total_connections: u64,
    /// Bytes in the second before the last tick.
    pub bytes_in_per_sec: u64,
    pub bytes_out_per_sec: u64,
    /// The byte counts at the last tick.
    pub prev_bytes_in: u64,
    pub prev_bytes_out: u64,
}

/// The counters as they are reported.
#[derive(Debug, Clone)]
pub struct StatsResponse {
    pub uptime_secs: u64,
    pub total_bytes_in: u64,
    pub total_bytes_out: u64,
    pub total_connections: u64,
    pub servers: Vec<ServerStatusResponse>,
    pub tunnels: Vec<TunnelStatsResponse>,
}

/// A server's state as it is reported.
#[derive(Debug, Clone, PartialEq, Eq)]
pub struct ServerStatusResponse {
    pub id: u32,
    pub name: String,
    pub address: String,
    pub connected: bool,
    pub tls_ok: bool,
    pub auth_ok: bool,
}

/// A tunnel's counters as they are reported.
#[derive(Debug, Clone, PartialEq, Eq)]
pub struct TunnelStatsResponse {
    pub db_id: u32,
    pub name: String,
    pub subdomain: String,
    pub bytes_in: u64,
    pub bytes_out: u64,
    pub active_connections: u64,
    pub total_connections: u64,
    pub bytes_in_per_sec: u64,
    pub bytes_out_per_sec: u64,
}

/// What a client has counted.
#[verifier::ext_equal]
pub struct StatsView {
    pub start_time: u64,
    pub tunnels: Map<u32, TunnelStats>,
    pub servers: Map<u32, ServerStatus>,
    pub total_bytes_in: u64,
    pub total_bytes_out: u64,
    pub total_connections: u64,
}

impl View for Stats {
    type V = StatsView;

    open spec fn view(&self) -> StatsView {
        StatsView {
            start_time: self.start_time,
            tunnels: self.tunnels@,
            servers: self.servers@,
            total_bytes_in: self.total_bytes_in,
            total_bytes_out: self.total_bytes_out,
            total_connections: self.total_connections,
        }
    }
}

/// The value of a key, where there is one, put through a function.
pub open spec fn adjusted<V>(m: Map<u32, V>, k: u32, f: spec_fn(V) -> V) -> Map<u32, V> {
    if m.contains_key(k) {
        m.insert(k, f(m[k]))
    } else {
        m
    }
}

/// Counters at zero.
pub open spec fn fresh_tunnel(db_id: u32, name: String, subdomain: String) -> TunnelStats {
    TunnelStats {
        db_id,
        name,
        subdomain,
        bytes_in: 0,
        bytes_out: 0,
        active_connections: 0,
        total_connections: 0,
        bytes_in_per_sec: 0,
        bytes_out_per_sec: 0,
        prev_bytes_in: 0,
        prev_bytes_out: 0,
    }
}

/// One connection less, but never fewer than none.
pub open spec fn one_less_active(t: TunnelStats) -> TunnelStats {
    TunnelStats {
        active_connections: if t.active_connections == 0 {
            0
        } else {
            (t.active_connections - 1) as u64
        },
        ..t
    }
}

/// One connection more.
pub open spec fn one_more_active(t: TunnelStats) -> TunnelStats {
    TunnelStats {
        active_connections: wrapped_sum(t.active_connections, 1),
        total_connections: wrapped_sum(t.total_connections, 1),
        ..t
    }
}

/// The counters after a tick: the rates are what came since the tick before.
pub open spec fn tunnel_ticked(t: TunnelStats) -> TunnelStats {
    TunnelStats {
        bytes_in_per_sec: gain(t.bytes_in, t.prev_bytes_in),
        bytes_out_per_sec: gain(t.bytes_out, t.prev_bytes_out),
        prev_bytes_in: t.bytes_in,
        prev_bytes_out: t.bytes_out,
        ..t
    }
}

/// The counters after a connection of a tunnel has ended.
pub open spec fn connection_gone(v: StatsView, tunnel_id: u32) -> StatsView {
    StatsView {
        tunnels: adjusted(v.tunnels, tunnel_id, |t: TunnelStats| one_less_active(t)),
        ..v
    }
}

/// The counters after a connection of a tunnel has begun.
pub open spec fn connection_begun(v: StatsView, tunnel_id: u32) -> StatsView {
    StatsView {
        total_connections: wrapped_sum(v.total_connections, 1),
        tunnels: adjusted(v.tunnels, tunnel_id, |t: TunnelStats| one_more_active(t)),
        ..v
    }
}

/// The counters after `n` bytes came from a server, for a tunnel if it is known.
pub open spec fn bytes_came(v: StatsView, tunnel_id: Option<u32>, n: nat) -> StatsView {
    StatsView {
        total_bytes_in: wrapped_sum(v.total_bytes_in, n as u64),
        tunnels: match tunnel_id {
            Some(tid) => adjusted(
                v.tunnels,
                tid,
                |t: TunnelStats|
                    TunnelStats { bytes_in: wrapped_sum(t.bytes_in, n as u64), ..t },
            ),
            None => v.tunnels,
        },
        ..v
    }
}

/// The counters after `n` bytes went to a server, for a tunnel.
pub open spec fn bytes_went(v: StatsView, tunnel_id: u32, n: nat) -> StatsView {
    StatsView {
        total_bytes_out: wrapped_sum(v.total_bytes_out, n as u64),
        tunnels: adjusted(
            v.tunnels,
            tunnel_id,
            |t: TunnelStats| TunnelStats { bytes_out: wrapped_sum(t.bytes_out, n as u64), ..t },
        ),
        ..v
    }
}

/// The counters after a tunnel was added: whatever counted for the same
/// database row before is gone.
pub open spec fn tunnel_added(
    v: StatsView,
    tunnel_id: u32,
    db_id: u32,
    name: String,
    subdomain: String,
) -> StatsView {
    StatsView {
        tunnels: v.tunnels.remove_keys(
            v.tunnels.dom().filter(|t: u32| v.tunnels[t].db_id == db_id),
        ).insert(tunnel_id, fresh_tunnel(db_id, name, subdomain)),
        ..v
    }
}

/// `r` reports the state `s` of a server.
pub open spec fn reports_server(r: ServerStatusResponse, s: ServerStatus) -> bool {
    &&& r.id == s.id
    &&& r.name@ == s.name@
    &&& r.address@ == s.address@
    &&& r.connected == s.connected
    &&& r.tls_ok == s.tls_ok
    &&& r.auth_ok == s.auth_ok
}

/// `r` reports the counters `t` of a tunnel.
pub open spec fn reports_tunnel(r: TunnelStatsResponse, t: TunnelStats) -> bool {
    &&& r.db_id == t.db_id
    &&& r.name@ == t.name@
    &&& r.subdomain@ == t.subdomain@
    &&& r.bytes_in == t.bytes_in
    &&& r.bytes_out == t.bytes_out
    &&& r.active_connections == t.active_connections
    &&& r.total_connections == t.total_connections
    &&& r.bytes_in_per_sec == t.bytes_in_per_sec
    &&& r.bytes_out_per_sec == t.bytes_out_per_sec
}

/// `rs` reports every server once, in the order of `keys`.
pub open spec fn lists_servers(
    rs: Seq<ServerStatusResponse>,
    keys: Seq<u32>,
    m: Map<u32, ServerStatus>,
) -> bool {
    &&& lists(keys, m.dom())
    &&& rs.len() == keys.len()
    &&& forall|j: int| 0 <= j < keys.len() ==> reports_server(#[trigger] rs[j], m[keys[j]])
}

/// `rs` reports every tunnel once, in the order of `keys`.
pub open spec fn lists_tunnels(
    rs: Seq<TunnelStatsResponse>,
    keys: Seq<u32>,
    m: Map<u32, TunnelStats>,
) -> bool {
    &&& lists(keys, m.dom())
    &&& rs.len() == keys.len()
    &&& forall|j: int| 0 <= j < keys.len() ==> reports_tunnel(#[trigger] rs[j], m[keys[j]])
}

impl TunnelStats {
    /// Takes one from `active_connections`, but leaves zero at zero: a
    /// connection may close whose beginning was never counted.
    pub fn saturating_decrement_active(&mut self)
        ensures
            *final(self) == one_less_active(*old(self)),
    {
        if self.active_connections > 0 {
            self.active_connections = self.active_connections - 1;
        }
    }
}

impl Stats {
    /// Nothing counted yet.
    pub fn new(start_time: u64) -> (r: Self)
        ensures
            r@ == (StatsView {
                start_time,
                tunnels: Map::empty(),
                servers: Map::empty(),
                total_bytes_in: 0,
                total_bytes_out: 0,
                total_connections: 0,
            }),
    {
        Stats {
            start_time,
            tunnels: HashMap::new(),
            servers: HashMap::new(),
            total_bytes_in: 0,
            total_bytes_out: 0,
            total_connections: 0,
        }
    }

    /// A server of the configuration, not connected yet.
    pub fn add_server(&mut self, id: u32, name: String, address: String)
        ensures
            final(self)@ == (StatsView {
                servers: old(self)@.servers.insert(
                    id,
                    ServerStatus {
                        id,
                        name,
                        address,
                        connected: false,
                        tls_ok: false,
                        auth_ok: false,
                    },
                ),
                ..old(self)@
            }),
    {
        broadcast use vstd::std_specs::hash::group_hash_axioms;

        self.servers.insert(
            id,
            ServerStatus { id, name, address, connected: false, tls_ok: false, auth_ok: false },
        );
    }

    /// The TLS connection to a server stands.
    pub fn set_server_tls_ok(&mut self, id: u32)
        ensures
            final(self)@ == (StatsView {
                servers: adjusted(
                    old(self)@.servers,
                    id,
                    |s: ServerStatus| ServerStatus { connected: true, tls_ok: true, ..s },
                ),
                ..old(self)@
            }),
    {
        broadcast use vstd::std_specs::hash::group_hash_axioms;

        if let Some(s) = self.servers.remove(&id) {
            let mut s = s;
            s.connected = true;
            s.tls_ok = true;
            self.servers.insert(id, s);
        }
        assert(self.servers@ =~= adjusted(
            old(self)@.servers,
            id,
            |s: ServerStatus| ServerStatus { connected: true, tls_ok: true, ..s },
        ));
    }

    /// A server has accepted the client.
    pub fn set_server_auth_ok(&mut self, id: u32)
        ensures
            final(self)@ == (StatsView {
                servers: adjusted(
                    old(self)@.servers,
                    id,
                    |s: ServerStatus| ServerStatus { auth_ok: true, ..s },
                ),
                ..old(self)@
            }),
    {
        broadcast use vstd::std_specs::hash::group_hash_axioms;

        if let Some(s) = self.servers.remove(&id) {
            let mut s = s;
            s.auth_ok = true;
            self.servers.insert(id, s);
        }
        assert(self.servers@ =~= adjusted(
            old(self)@.servers,
            id,
            |s: ServerStatus| ServerStatus { auth_ok: true, ..s },
        ));
    }

    /// A server is no longer connected.
    pub fn set_server_disconnected(&mut self, id: u32)
        ensures
            final(self)@ == (StatsView {
                servers: adjusted(
                    old(self)@.servers,
                    id,
                    |s: ServerStatus| ServerStatus { connected: false, auth_ok: false, ..s },
                ),
                ..old(self)@
            }),
    {
        broadcast use vstd::std_specs::hash::group_hash_axioms;

        if let Some(s) = self.servers.remove(&id) {
            let mut s = s;
            s.connected = false;
            s.auth_ok = false;
            self.servers.insert(id, s);
        }
        assert(self.servers@ =~= adjusted(
            old(self)@.servers,
            id,
            |s: ServerStatus| ServerStatus { connected: false, auth_ok: false, ..s },
        ));
    }

    /// A tunnel begins to count. What counted for the same database row before
    /// goes first: a leftover would be counted twice.
    pub fn add_tunnel(&mut self, tunnel_id: u32, db_id: u32, name: String, subdomain: String)
        ensures
            final(self)@ == tunnel_added(old(self)@, tunnel_id, db_id, name, subdomain),
    {
        broadcast use vstd::std_specs::hash::group_hash_axioms;

        let ghost start = self@.tunnels;
        let keys = keys_of(&self.tunnels);
        let mut i: usize = 0;
        while i < keys.len()
            invariant
                i <= keys@.len(),
                lists(keys@, start.dom()),
                self@ == (StatsView { tunnels: self@.tunnels, ..old(self)@ }),
                self@.tunnels.submap_of(start),
                forall|j: int|
                    0 <= j < i ==> (self@.tunnels.contains_key(#[trigger] keys@[j])
                        <==> start[keys@[j]].db_id != db_id),
                forall|j: int|
                    i <= j < keys@.len() ==> self@.tunnels.contains_key(#[trigger] keys@[j]),
            decreases keys@.len() - i,
        {
            let k: u32 = keys[i];
            assert(keys@.contains(k));
            assert(start.dom().contains(k));
            let same = match self.tunnels.get(&k) {
                Some(t) => t.db_id == db_id,
                None => false,
            };
            let ghost at = self@.tunnels;
            if same {
                self.tunnels.remove(&k);
            }
            assert forall|j: int| 0 <= j < keys@.len() && j != i implies (
            self@.tunnels.contains_key(#[trigger] keys@[j]) <==> at.contains_key(keys@[j])) by {
                assert(keys@[j] != k);
            }
            i += 1;
        }
        proof {
            let stale = start.dom().filter(|t: u32| start[t].db_id == db_id);
            assert forall|t: u32| self@.tunnels.contains_key(t) <==> start.contains_key(t)
                && !stale.contains(t) by {
                if start.dom().contains(t) {
                    let j = keys@.index_of(t);
                    assert(keys@[j] == t);
                }
            }
            assert(self@.tunnels =~= start.remove_keys(stale));
        }
        self.tunnels.insert(
            tunnel_id,
            TunnelStats {
                db_id,
                name,
                subdomain,
                bytes_in: 0,
                bytes_out: 0,
                active_connections: 0,
                total_connections: 0,
                bytes_in_per_sec: 0,
                bytes_out_per_sec: 0,
                prev_bytes_in: 0,
                prev_bytes_out: 0,
            },
        );
    }

    /// A tunnel counts no longer.
    pub fn remove_tunnel(&mut self, tunnel_id: u32)
        ensures
            final(self)@ == (StatsView {
                tunnels: old(self)@.tunnels.remove(tunnel_id),
                ..old(self)@
            }),
    {
        broadcast use vstd::std_specs::hash::group_hash_axioms;

        self.tunnels.remove(&tunnel_id);
        assert(self.tunnels@ =~= old(self)@.tunnels.remove(tunnel_id));
    }

    /// A connection of a tunnel has ended.
    pub fn saturating_decrement_active(&mut self, tunnel_id: u32)
        ensures
            final(self)@ == connection_gone(old(self)@, tunnel_id),
    {
        broadcast use vstd::std_specs::hash::group_hash_axioms;

        if let Some(t) = self.tunnels.remove(&tunnel_id) {
            let mut t = t;
            t.saturating_decrement_active();
            self.tunnels.insert(tunnel_id, t);
        }
        assert(self@ =~= connection_gone(old(self)@, tunnel_id));
    }

    /// A connection of a tunnel has begun.
    pub fn connection_opened(&mut self, tunnel_id: u32)
        ensures
            final(self)@ == connection_begun(old(self)@, tunnel_id),
    {
        broadcast use vstd::std_specs::hash::group_hash_axioms;

        self.total_connections = self.total_connections.wrapping_add(1);
        if let Some(t) = self.tunnels.remove(&tunnel_id) {
            let mut t = t;
            t.active_connections = t.active_connections.wrapping_add(1);
            t.total_connections = t.total_connections.wrapping_add(1);
            self.tunnels.insert(tunnel_id, t);
        }
        assert(self@ =~= connection_begun(old(self)@, tunnel_id));
    }

    /// Bytes came from a server, for a tunnel if it is known.
    pub fn add_bytes_in(&mut self, tunnel_id: Option<u32>, n: u64)
        ensures
            final(self)@ == bytes_came(old(self)@, tunnel_id, n as nat),
    {
        broadcast use vstd::std_specs::hash::group_hash_axioms;

        self.total_bytes_in = self.total_bytes_in.wrapping_add(n);
        if let Some(tid) = tunnel_id {
            if let Some(t) = self.tunnels.remove(&tid) {
                let mut t = t;
                t.bytes_in = t.bytes_in.wrapping_add(n);
                self.tunnels.insert(tid, t);
            }
        }
        assert(self@ =~= bytes_came(old(self)@, tunnel_id, n as nat));
    }

    /// Bytes go to a server, for a tunnel.
    pub fn add_bytes_out(&mut self, tunnel_id: u32, n: u64)
        ensures
            final(self)@ == bytes_went(old(self)@, tunnel_id, n as nat),
    {
        broadcast use vstd::std_specs::hash::group_hash_axioms;

        self.total_bytes_out = self.total_bytes_out.wrapping_add(n);
        if let Some(t) = self.tunnels.remove(&tunnel_id) {
            let mut t = t;
            t.bytes_out = t.bytes_out.wrapping_add(n);
            self.tunnels.insert(tunnel_id, t);
        }
        assert(self@ =~= bytes_went(old(self)@, tunnel_id, n as nat));
    }

    /// The rates tick, once a second: each tunnel's rates become what came
    /// since the tick before.
    pub fn tick_rates(&mut self)
        ensures
            final(self)@ == (StatsView {
                tunnels: old(self)@.tunnels.map_values(|t: TunnelStats| tunnel_ticked(t)),
                ..old(self)@
            }),
    {
        broadcast use vstd::std_specs::hash::group_hash_axioms;

        let ghost start = self@.tunnels;
        let keys = keys_of(&self.tunnels);
        let mut i: usize = 0;
        while i < keys.len()
            invariant
                i <= keys@.len(),
                lists(keys@, start.dom()),
                self@ == (StatsView { tunnels: self@.tunnels, ..old(self)@ }),
                self@.tunnels.dom() == start.dom(),
                forall|j: int|
                    0 <= j < i ==> self@.tunnels[#[trigger] keys@[j]] == tunnel_ticked(
                        start[keys@[j]],
                    ),
                forall|j: int|
                    i <= j < keys@.len() ==> self@.tunnels[#[trigger] keys@[j]] == start[keys@[j]],
            decreases keys@.len() - i,
        {
            let k: u32 = keys[i];
            assert(keys@.contains(k));
            assert(start.dom().contains(k));
            if let Some(t) = self.tunnels.remove(&k) {
                let mut t = t;
                t.bytes_in_per_sec = t.bytes_in.saturating_sub(t.prev_bytes_in);
                t.bytes_out_per_sec = t.bytes_out.saturating_sub(t.prev_bytes_out);
                t.prev_bytes_in = t.bytes_in;
                t.prev_bytes_out = t.bytes_out;
                self.tunnels.insert(k, t);
            }
            assert(self@.tunnels.dom() =~= start.dom());
            i += 1;
        }
        proof {
            assert forall|t: u32| start.contains_key(t) implies self@.tunnels[t] == tunnel_ticked(
                start[t],
            ) by {
                assert(start.dom().contains(t));
                let j = keys@.index_of(t);
                assert(keys@[j] == t);
            }
            assert(self@.tunnels =~= start.map_values(|t: TunnelStats| tunnel_ticked(t)));
        }
    }

    /// The report: the totals, every server and every tunnel.
    pub fn to_response(&self, now: u64) -> (r: StatsResponse)
        ensures
            r.uptime_secs == secs_since(self@.start_time, now),
            r.total_bytes_in == self@.total_bytes_in,
            r.total_bytes_out == self@.total_bytes_out,
            r.total_connections == self@.total_connections,
            exists|keys: Seq<u32>| #[trigger] lists_servers(r.servers@, keys, self@.servers),
            exists|keys: Seq<u32>| #[trigger] lists_tunnels(r.tunnels@, keys, self@.tunnels),
    {
        broadcast use vstd::std_specs::hash::group_hash_axioms;

        let server_ids = keys_of(&self.servers);
        let mut servers: Vec<ServerStatusResponse> = Vec::new();
        let mut i: usize = 0;
        while i < server_ids.len()
            invariant
                i <= server_ids@.len(),
                servers@.len() == i,
                lists(server_ids@, self@.servers.dom()),
                forall|j: int|
                    0 <= j < i ==> reports_server(
                        #[trigger] servers@[j],
                        self@.servers[server_ids@[j]],
                    ),
            decreases server_ids@.len() - i,
        {
            let k: u32 = server_ids[i];
            assert(server_ids@.contains(k));
            assert(self@.servers.dom().contains(k));
            if let Some(s) = self.servers.get(&k) {
                servers.push(
                    ServerStatusResponse {
                        id: s.id,
                        name: s.name.clone(),
                        address: s.address.clone(),
                        connected: s.connected,
                        tls_ok: s.tls_ok,
                        auth_ok: s.auth_ok,
                    },
                );
            }
            i += 1;
        }
        let tunnel_ids = keys_of(&self.tunnels);
        let mut tunnels: Vec<TunnelStatsResponse> = Vec::new();
        let mut i: usize = 0;
        while i < tunnel_ids.len()
            invariant
                i <= tunnel_ids@.len(),
                tunnels@.len() == i,
                lists(tunnel_ids@, self@.tunnels.dom()),
                forall|j: int|
                    0 <= j < i ==> reports_tunnel(
                        #[trigger] tunnels@[j],
                        self@.tunnels[tunnel_ids@[j]],
                    ),
            decreases tunnel_ids@.len() - i,
        {
            let k: u32 = tunnel_ids[i];
            assert(tunnel_ids@.contains(k));
            assert(self@.tunnels.dom().contains(k));
            if let Some(t) = self.tunnels.get(&k) {
                tunnels.push(
                    TunnelStatsResponse {
                        db_id: t.db_id,
                        name: t.name.clone(),
                        subdomain: t.subdomain.clone(),
                        bytes_in: t.bytes_in,
                        bytes_out: t.bytes_out,
                        active_connections: t.active_connections,
                        total_connections: t.total_connections,
                        bytes_in_per_sec: t.bytes_in_per_sec,
                        bytes_out_per_sec: t.bytes_out_per_sec,
                    },
                );
            }
            i += 1;
        }
        let r = StatsResponse {
            uptime_secs: elapsed_secs(self.start_time, now),
            total_bytes_in: self.total_bytes_in,
            total_bytes_out: self.total_bytes_out,
            total_connections: self.total_connections,
            servers,
            tunnels,
        };
        assert(lists_servers(r.servers@, server_ids@, self@.servers));
        assert(lists_tunnels(r.tunnels@, tunnel_ids@, self@.tunnels));
        r
    }
}

/// No two tunnels count for the same database row.
pub open spec fn rows_distinct(m: Map<u32, TunnelStats>) -> bool {
    forall|a: u32, b: u32|
        #![trigger m.contains_key(a), m.contains_key(b)]
        m.contains_key(a) && m.contains_key(b) && a != b ==> m[a].db_id != m[b].db_id
}

/// A tunnel that is added is the only one that counts for its database row, and
/// rows that were counted once stay so.
pub proof fn law_added_tunnel_counts_alone(
    v: StatsView,
    tunnel_id: u32,
    db_id: u32,
    name: String,
    subdomain: String,
    other: u32,
)
    ensures
        ({
            let m = tunnel_added(v, tunnel_id, db_id, name, subdomain).tunnels;
            &&& m.contains_key(tunnel_id) && m[tunnel_id] == fresh_tunnel(db_id, name, subdomain)
            &&& m.contains_key(other) && m[other].db_id == db_id ==> other == tunnel_id
            &&& rows_distinct(v.tunnels) ==> rows_distinct(m)
        }),
{
    let m = tunnel_added(v, tunnel_id, db_id, name, subdomain).tunnels;
    if rows_distinct(v.tunnels) {
        assert forall|a: u32, b: u32|
            #![trigger m.contains_key(a), m.contains_key(b)]
            m.contains_key(a) && m.contains_key(b) && a != b implies m[a].db_id != m[b].db_id by {
            if a != tunnel_id {
                assert(v.tunnels.contains_key(a));
            }
            if b != tunnel_id {
                assert(v.tunnels.contains_key(b));
            }
        }
    }
}

/// The number of active connections never falls below zero: it is never more
/// after a close than before it, and a close undoes an open.
pub proof fn law_active_connections_saturate(t: TunnelStats)
    ensures
        one_less_active(t).active_connections <= t.active_connections,
        t.active_connections < u64::MAX ==> one_less_active(one_more_active(t)).active_connections
            == t.active_connections,
{
}

/// A tunnel that received `n` bytes between two ticks is reported at `n` bytes
/// per second, and one that received nothing at none.
pub proof fn law_tunnel_rate_is_what_came(t: TunnelStats, n: u64)
    requires
        t.bytes_in + n <= u64::MAX,
    ensures
        ({
            let at_tick = tunnel_ticked(t);
            let later = TunnelStats { bytes_in: wrapped_sum(t.bytes_in, n), ..at_tick };
            tunnel_ticked(later).bytes_in_per_sec == n
        }),
{
}

} // verus!
