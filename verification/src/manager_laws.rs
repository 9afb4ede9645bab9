//! What holds of the manager's picture as a whole.

use vstd::prelude::*;
use crate::config::{ManagedClient, ManagedServer};
use crate::database::TunnelRow;
use crate::manager::{after_reports, conns_of_row, maps_rows, refreshed, reports_of_clients,
    servers_of_streams, with_counts, ClientStatsResponse, ClientTunnelStats, ManagerState,
    ServerConnData, TunnelInfo};

verus! {

/// A tunnel that no client reports on has nothing counted, and one that is
/// reported on has what the last report says.
pub proof fn law_last_report_counts(m: Map<u32, TunnelInfo>, ts: Seq<ClientTunnelStats>, k: u32)
    requires
        m.contains_key(k),
    ensures
        after_reports(m, ts).contains_key(k),
        (forall|i: int| 0 <= i < ts.len() ==> (#[trigger] ts[i]).db_id != k) ==> after_reports(
            m,
            ts,
        )[k] == m[k],
        forall|i: int|
            #![trigger ts[i]]
            0 <= i < ts.len() && ts[i].db_id == k && (forall|j: int|
                i < j < ts.len() ==> (#[trigger] ts[j]).db_id != k) ==> after_reports(m, ts)[k]
                == with_counts(m[k], ts[i]),
    decreases ts.len(),
{
    if ts.len() > 0 {
        let init = ts.drop_last();
        let n = ts.len() - 1;
        law_last_report_counts(m, init, k);
        lemma_reports_change_counts_alone(m, init, k);
        if forall|i: int| 0 <= i < ts.len() ==> (#[trigger] ts[i]).db_id != k {
            assert(ts[n].db_id != k);
            assert forall|i: int| 0 <= i < init.len() implies (#[trigger] init[i]).db_id != k by {
                assert(ts[i].db_id != k);
            }
        }
        assert forall|i: int|
            #![trigger ts[i]]
            0 <= i < ts.len() && ts[i].db_id == k && (forall|j: int|
                i < j < ts.len() ==> (#[trigger] ts[j]).db_id != k) implies after_reports(m, ts)[k]
            == with_counts(m[k], ts[i]) by {
            if i < n {
                assert(ts[n].db_id != k);
                assert(init[i] == ts[i]);
                assert forall|j: int| i < j < init.len() implies (#[trigger] init[j]).db_id
                    != k by {
                    assert(ts[j].db_id != k);
                }
            }
        }
    }
}

/// Reports change what is counted of a tunnel, and nothing else.
pub proof fn lemma_reports_change_counts_alone(
    m: Map<u32, TunnelInfo>,
    ts: Seq<ClientTunnelStats>,
    k: u32,
)
    requires
        m.contains_key(k),
    ensures
        after_reports(m, ts).dom() == m.dom(),
        after_reports(m, ts)[k].id == m[k].id,
        forall|t: ClientTunnelStats| #[trigger]
            with_counts(after_reports(m, ts)[k], t) == with_counts(m[k], t),
    decreases ts.len(),
{
    if ts.len() > 0 {
        lemma_reports_change_counts_alone(m, ts.drop_last(), k);
    }
    assert(after_reports(m, ts).dom() =~= m.dom());
}

/// The last row with an id.
proof fn lemma_last_row(rows: Seq<TunnelRow>, i: int) -> (last: int)
    requires
        0 <= i < rows.len(),
    ensures
        i <= last < rows.len(),
        rows[last].id == rows[i].id,
        forall|j: int| last < j < rows.len() ==> (#[trigger] rows[j]).id != rows[i].id,
    decreases rows.len() - i,
{
    if exists|j: int| i < j < rows.len() && (#[trigger] rows[j]).id == rows[i].id {
        let j = choose|j: int| i < j < rows.len() && (#[trigger] rows[j]).id == rows[i].id;
        lemma_last_row(rows, j)
    } else {
        i
    }
}

/// Every tunnel of the database is in the manager's picture, exactly once.
pub proof fn law_every_tunnel_is_reported_once(
    s: ManagerState,
    rows: Seq<TunnelRow>,
    clients: Seq<ManagedClient>,
    polled: Seq<Vec<Option<ClientStatsResponse>>>,
    servers: Seq<ManagedServer>,
    conns: Seq<Option<Vec<ServerConnData>>>,
    m: Map<u32, TunnelInfo>,
    order: Seq<u32>,
    i: int,
)
    requires
        refreshed(s, rows, clients, polled, servers, conns, m, order),
        0 <= i < rows.len(),
    ensures
        exists|j: int| 0 <= j < s.tunnels@.len() && (#[trigger] s.tunnels@[j]).id == rows[i].id,
        forall|a: int, b: int|
            0 <= a < b < s.tunnels@.len() ==> (#[trigger] s.tunnels@[a]).id != (
            #[trigger] s.tunnels@[b]).id,
{
    let ts = reports_of_clients(clients, polled, clients.len());
    let end = after_reports(m, ts);
    let k = rows[i].id;
    assert(m.contains_key(k));
    lemma_reports_change_counts_alone(m, ts, k);
    assert(end.dom().contains(k));
    let j = order.index_of(k);
    assert(order[j] == k);
    lemma_ids_are_keys(m, rows, k);
    assert(s.tunnels@[j].id == k);
    assert forall|a: int, b: int| 0 <= a < b < s.tunnels@.len() implies (
    #[trigger] s.tunnels@[a]).id != (#[trigger] s.tunnels@[b]).id by {
        let ka = order[a];
        let kb = order[b];
        assert(order.contains(ka) && order.contains(kb));
        assert(end.dom().contains(ka) && end.dom().contains(kb));
        assert(m.contains_key(ka) && m.contains_key(kb));
        lemma_reports_change_counts_alone(m, ts, ka);
        lemma_reports_change_counts_alone(m, ts, kb);
        lemma_ids_are_keys(m, rows, ka);
        lemma_ids_are_keys(m, rows, kb);
    }
}

/// A tunnel is filed under its id.
pub proof fn lemma_ids_are_keys(m: Map<u32, TunnelInfo>, rows: Seq<TunnelRow>, k: u32)
    requires
        maps_rows(m, rows),
        m.contains_key(k),
    ensures
        m[k].id == k,
{
    let i = choose|i: int| 0 <= i < rows.len() && (#[trigger] rows[i]).id == k;
    let last = lemma_last_row(rows, i);
    assert(rows[last].id == k);
}

/// Every connection that a server reported can be traced back: its stream has a
/// server, and its row lists it.
pub proof fn law_every_connection_is_traceable(all: Seq<(u32, ServerConnData)>, i: int)
    requires
        0 <= i < all.len(),
    ensures
        servers_of_streams(all).contains_key(all[i].1.stream_id),
        (forall|j: int|
            i < j < all.len() ==> (#[trigger] all[j]).1.stream_id != all[i].1.stream_id)
            ==> servers_of_streams(all)[all[i].1.stream_id] == all[i].0,
        conns_of_row(all, all[i].1.db_id).contains(all[i].1),
    decreases all.len(),
{
    let init = all.drop_last();
    let n = all.len() - 1;
    let row = conns_of_row(all, all[i].1.db_id);
    if i < n {
        law_every_connection_is_traceable(init, i);
        assert(init[i] == all[i]);
        let before = conns_of_row(init, all[i].1.db_id);
        let p = before.index_of(all[i].1);
        assert(row[p] == all[i].1);
        if forall|j: int|
            i < j < all.len() ==> (#[trigger] all[j]).1.stream_id != all[i].1.stream_id {
            assert(all[n].1.stream_id != all[i].1.stream_id);
            assert forall|j: int| i < j < init.len() implies (#[trigger] init[j]).1.stream_id
                != init[i].1.stream_id by {
                assert(all[j].1.stream_id != all[i].1.stream_id);
            }
        }
    } else {
        assert(row[row.len() - 1] == all[i].1);
    }
}

} // verus!
