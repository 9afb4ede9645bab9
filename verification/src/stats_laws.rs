//! What a client's counters say, told count by count.

use vstd::prelude::*;
use vstd::string::*;
use crate::stats::{adjusted, bytes_came, bytes_went, connection_begun, connection_gone,
    lists_servers, lists_tunnels, tunnel_added, tunnel_ticked, ServerStatus, ServerStatusResponse,
    StatsView, TunnelStats, TunnelStatsResponse};

verus! {

/// The counters of a tunnel other than its connections are the same.
pub open spec fn same_traffic(a: TunnelStats, b: TunnelStats) -> bool {
    &&& a.bytes_in == b.bytes_in && a.bytes_out == b.bytes_out
    &&& a.bytes_in_per_sec == b.bytes_in_per_sec && a.bytes_out_per_sec == b.bytes_out_per_sec
    &&& a.prev_bytes_in == b.prev_bytes_in && a.prev_bytes_out == b.prev_bytes_out
}

/// The tunnel that is counted is the same.
pub open spec fn same_tunnel(a: TunnelStats, b: TunnelStats) -> bool {
    a.db_id == b.db_id && a.name == b.name && a.subdomain == b.subdomain
}

/// A connection that begins counts once in all, and once for its tunnel, as active
/// and as one that ever was. Nothing else changes.
pub proof fn law_beginning_counts_once(v: StatsView, tunnel_id: u32, k: u32)
    requires
        v.total_connections < u64::MAX,
        v.tunnels.contains_key(tunnel_id) ==> v.tunnels[tunnel_id].active_connections < u64::MAX
            && v.tunnels[tunnel_id].total_connections < u64::MAX,
    ensures
        ({
            let w = connection_begun(v, tunnel_id);
            let one: int = if k == tunnel_id {
                1
            } else {
                0
            };
            &&& w.total_connections == v.total_connections + 1
            &&& w.total_bytes_in == v.total_bytes_in && w.total_bytes_out == v.total_bytes_out
            &&& w.servers == v.servers && w.start_time == v.start_time
            &&& w.tunnels.dom() == v.tunnels.dom()
            &&& v.tunnels.contains_key(k) ==> {
                &&& w.tunnels[k].active_connections == v.tunnels[k].active_connections + one
                &&& w.tunnels[k].total_connections == v.tunnels[k].total_connections + one
                &&& same_traffic(w.tunnels[k], v.tunnels[k])
                &&& same_tunnel(w.tunnels[k], v.tunnels[k])
            }
        }),
{
    assert(connection_begun(v, tunnel_id).tunnels.dom() =~= v.tunnels.dom());
}

/// A connection that ends counts as active no longer, where any did. Nothing else
/// changes.
pub proof fn law_ending_counts_once(v: StatsView, tunnel_id: u32, k: u32)
    ensures
        ({
            let w = connection_gone(v, tunnel_id);
            &&& w.total_connections == v.total_connections
            &&& w.total_bytes_in == v.total_bytes_in && w.total_bytes_out == v.total_bytes_out
            &&& w.servers == v.servers && w.start_time == v.start_time
            &&& w.tunnels.dom() == v.tunnels.dom()
            &&& v.tunnels.contains_key(k) ==> {
                &&& w.tunnels[k].active_connections == v.tunnels[k].active_connections - if k
                    == tunnel_id && v.tunnels[k].active_connections > 0 {
                    1int
                } else {
                    0int
                }
                &&& w.tunnels[k].total_connections == v.tunnels[k].total_connections
                &&& same_traffic(w.tunnels[k], v.tunnels[k])
                &&& same_tunnel(w.tunnels[k], v.tunnels[k])
            }
        }),
{
    assert(connection_gone(v, tunnel_id).tunnels.dom() =~= v.tunnels.dom());
}

/// Bytes from a server count in all, and for the tunnel of their stream where it is
/// known; they count as incoming and as nothing else.
pub proof fn law_incoming_bytes_are_counted(v: StatsView, tunnel_id: Option<u32>, n: u64, k: u32)
    requires
        v.total_bytes_in + n <= u64::MAX,
        v.tunnels.contains_key(k) ==> v.tunnels[k].bytes_in + n <= u64::MAX,
    ensures
        ({
            let w = bytes_came(v, tunnel_id, n as nat);
            let more: int = if tunnel_id == Some(k) {
                n as int
            } else {
                0
            };
            &&& w.total_bytes_in == v.total_bytes_in + n
            &&& w.total_bytes_out == v.total_bytes_out
            &&& w.total_connections == v.total_connections
            &&& w.servers == v.servers && w.start_time == v.start_time
            &&& w.tunnels.dom() == v.tunnels.dom()
            &&& v.tunnels.contains_key(k) ==> {
                let a = w.tunnels[k];
                let b = v.tunnels[k];
                &&& a.bytes_in == b.bytes_in + more
                &&& same_traffic(a, TunnelStats { bytes_in: a.bytes_in, ..b })
                &&& a.bytes_out == b.bytes_out
                &&& a.active_connections == b.active_connections
                &&& a.total_connections == b.total_connections
                &&& same_tunnel(a, b)
            }
        }),
{
    assert(bytes_came(v, tunnel_id, n as nat).tunnels.dom() =~= v.tunnels.dom());
}

/// Bytes to a server count in all, and for their tunnel; they count as outgoing and
/// as nothing else.
pub proof fn law_outgoing_bytes_are_counted(v: StatsView, tunnel_id: u32, n: u64, k: u32)
    requires
        v.total_bytes_out + n <= u64::MAX,
        v.tunnels.contains_key(k) ==> v.tunnels[k].bytes_out + n <= u64::MAX,
    ensures
        ({
            let w = bytes_went(v, tunnel_id, n as nat);
            let more: int = if k == tunnel_id {
                n as int
            } else {
                0
            };
            &&& w.total_bytes_out == v.total_bytes_out + n
            &&& w.total_bytes_in == v.total_bytes_in
            &&& w.total_connections == v.total_connections
            &&& w.servers == v.servers && w.start_time == v.start_time
            &&& w.tunnels.dom() == v.tunnels.dom()
            &&& v.tunnels.contains_key(k) ==> {
                let a = w.tunnels[k];
                let b = v.tunnels[k];
                &&& a.bytes_out == b.bytes_out + more
                &&& same_traffic(a, TunnelStats { bytes_out: a.bytes_out, ..b })
                &&& a.bytes_in == b.bytes_in
                &&& a.active_connections == b.active_connections
                &&& a.total_connections == b.total_connections
                &&& same_tunnel(a, b)
            }
        }),
{
    assert(bytes_went(v, tunnel_id, n as nat).tunnels.dom() =~= v.tunnels.dom());
}

/// A tick sets each rate to the rise of its own counter since the tick before, and
/// changes no counter.
pub proof fn law_tick_sets_both_rates(t: TunnelStats)
    ensures
        ({
            let u = tunnel_ticked(t);
            &&& t.prev_bytes_in <= t.bytes_in ==> t.prev_bytes_in + u.bytes_in_per_sec == t.bytes_in
            &&& t.prev_bytes_in > t.bytes_in ==> u.bytes_in_per_sec == 0
            &&& t.prev_bytes_out <= t.bytes_out ==> t.prev_bytes_out + u.bytes_out_per_sec
                == t.bytes_out
            &&& t.prev_bytes_out > t.bytes_out ==> u.bytes_out_per_sec == 0
            &&& u.prev_bytes_in == t.bytes_in && u.prev_bytes_out == t.bytes_out
            &&& u.bytes_in == t.bytes_in && u.bytes_out == t.bytes_out
            &&& u.active_connections == t.active_connections
            &&& u.total_connections == t.total_connections
            &&& same_tunnel(u, t)
        }),
{
}

/// A second tick without traffic shows no rate.
pub proof fn law_quiet_tunnel_has_no_rate(t: TunnelStats)
    ensures
        tunnel_ticked(tunnel_ticked(t)).bytes_in_per_sec == 0,
        tunnel_ticked(tunnel_ticked(t)).bytes_out_per_sec == 0,
{
}

/// A tunnel begins to count at nothing, under its own row and names. It displaces
/// what counted for its row or under its id, and nothing else.
pub proof fn law_tunnel_starts_at_nothing(
    v: StatsView,
    tunnel_id: u32,
    db_id: u32,
    name: String,
    subdomain: String,
    k: u32,
)
    ensures
        ({
            let w = tunnel_added(v, tunnel_id, db_id, name, subdomain);
            let t = w.tunnels[tunnel_id];
            &&& w.tunnels.contains_key(tunnel_id)
            &&& t.db_id == db_id && t.name == name && t.subdomain == subdomain
            &&& t.bytes_in == 0 && t.bytes_out == 0
            &&& t.active_connections == 0 && t.total_connections == 0
            &&& t.bytes_in_per_sec == 0 && t.bytes_out_per_sec == 0
            &&& t.prev_bytes_in == 0 && t.prev_bytes_out == 0
            &&& k != tunnel_id ==> {
                &&& w.tunnels.contains_key(k) <==> v.tunnels.contains_key(k) && v.tunnels[k].db_id
                    != db_id
                &&& w.tunnels.contains_key(k) ==> w.tunnels[k] == v.tunnels[k]
            }
            &&& w.total_bytes_in == v.total_bytes_in && w.total_bytes_out == v.total_bytes_out
            &&& w.total_connections == v.total_connections
            &&& w.servers == v.servers && w.start_time == v.start_time
        }),
{
}

/// Every tunnel that is counted is reported once, each count under its own name.
pub proof fn law_report_tells_every_tunnel(
    rs: Seq<TunnelStatsResponse>,
    keys: Seq<u32>,
    m: Map<u32, TunnelStats>,
    k: u32,
)
    requires
        lists_tunnels(rs, keys, m),
    ensures
        rs.len() == keys.len(),
        keys.no_duplicates(),
        m.contains_key(k) <==> keys.contains(k),
        forall|j: int|
            0 <= j < rs.len() ==> {
                let r = #[trigger] rs[j];
                let t = m[keys[j]];
                &&& r.db_id == t.db_id
                &&& r.name@ == t.name@ && r.subdomain@ == t.subdomain@
                &&& r.bytes_in == t.bytes_in && r.bytes_out == t.bytes_out
                &&& r.active_connections == t.active_connections
                &&& r.total_connections == t.total_connections
                &&& r.bytes_in_per_sec == t.bytes_in_per_sec
                &&& r.bytes_out_per_sec == t.bytes_out_per_sec
            },
{
    assert(m.dom().contains(k) <==> keys.contains(k));
}

/// Every server is reported once, each state under its own name.
pub proof fn law_report_tells_every_server(
    rs: Seq<ServerStatusResponse>,
    keys: Seq<u32>,
    m: Map<u32, ServerStatus>,
    k: u32,
)
    requires
        lists_servers(rs, keys, m),
    ensures
        rs.len() == keys.len(),
        keys.no_duplicates(),
        m.contains_key(k) <==> keys.contains(k),
        forall|j: int|
            0 <= j < rs.len() ==> {
                let r = #[trigger] rs[j];
                let s = m[keys[j]];
                &&& r.id == s.id
                &&& r.name@ == s.name@ && r.address@ == s.address@
                &&& r.connected == s.connected
                &&& r.tls_ok == s.tls_ok
                &&& r.auth_ok == s.auth_ok
            },
{
    assert(m.dom().contains(k) <==> keys.contains(k));
}

/// Adjusting a key's value puts that value through the function, and leaves every
/// other key alone; an unknown key stays unknown.
pub proof fn law_adjusting_touches_one_key<V>(m: Map<u32, V>, k: u32, f: spec_fn(V) -> V, other: u32)
    ensures
        adjusted(m, k, f).dom() == m.dom(),
        m.contains_key(k) ==> adjusted(m, k, f)[k] == f(m[k]),
        other != k && m.contains_key(other) ==> adjusted(m, k, f)[other] == m[other],
{
    assert(adjusted(m, k, f).dom() =~= m.dom());
}

} // verus!
