//! What the manager's picture shows of each row, client and connection, told field
//! by field.

use vstd::prelude::*;
use vstd::string::*;
use crate::config::{ManagedClient, ManagedServer};
use crate::database::{opt_date_text, TunnelRow};
use crate::manager::{after_reports, answers, conns_heard, conns_of_row, count_of, groups_conns,
    heard_from, largest, refreshed, relays, relays_all, reported_conns, reports_client,
    reports_of_clients, reports_reachable, said_of, answered, server_reports, servers_of_streams,
    sorted_by_name, tagged, total, tunnel_reports, tunnels_of_client, urls_text, with_counts,
    wrapped_total, AnswerCount, ClientCount, ClientInfo, ClientStatsResponse, ClientTunnelStats,
    ManagerState, ServerConnData, TunnelConnInfo, TunnelCount, TunnelInfo};
use crate::manager_laws::{law_last_report_counts, lemma_ids_are_keys,
    lemma_reports_change_counts_alone};
use crate::maps::count_where;
use crate::text::{joined, opt_text, text_le};

verus! {

/// Every tunnel in the manager's picture carries the columns of its row, each under
/// its own name. What is counted of it is what the last report on it says, and
/// nothing where there is no report. Of rows with the same id the last counts.
pub proof fn law_tunnels_carry_their_rows(
    s: ManagerState,
    rows: Seq<TunnelRow>,
    clients: Seq<ManagedClient>,
    polled: Seq<Vec<Option<ClientStatsResponse>>>,
    servers: Seq<ManagedServer>,
    conns: Seq<Option<Vec<ServerConnData>>>,
    m: Map<u32, TunnelInfo>,
    order: Seq<u32>,
    i: int,
    j: int,
)
    requires
        refreshed(s, rows, clients, polled, servers, conns, m, order),
        0 <= i < rows.len(),
        forall|l: int| i < l < rows.len() ==> (#[trigger] rows[l]).id != rows[i].id,
        0 <= j < s.tunnels@.len(),
        s.tunnels@[j].id == rows[i].id,
    ensures
        ({
            let t = s.tunnels@[j];
            let row = rows[i];
            &&& t.name == row.name
            &&& t.subdomain == row.subdomain
            &&& t.domain == row.domain
            &&& t.online == row.online
            &&& t.client_id == row.client_id
            &&& t.server_id == row.server_id
            &&& t.tunnel_status == row.tunnel_status
            &&& row.last_seen is None ==> t.last_seen is None
            &&& opt_text(t.last_seen) == opt_date_text(row.last_seen)
            &&& t.remote_port == row.remote_port
            &&& t.protocol == row.protocol
        }),
        ({
            let t = s.tunnels@[j];
            let ts = reports_of_clients(clients, polled, clients.len());
            &&& (forall|l: int| 0 <= l < ts.len() ==> (#[trigger] ts[l]).db_id != t.id) ==> {
                &&& t.active_connections == 0
                &&& t.bytes_in == 0 && t.bytes_out == 0
                &&& t.bytes_in_per_sec == 0 && t.bytes_out_per_sec == 0
            }
            &&& forall|l: int|
                #![trigger ts[l]]
                0 <= l < ts.len() && ts[l].db_id == t.id && (forall|n: int|
                    l < n < ts.len() ==> (#[trigger] ts[n]).db_id != t.id) ==> {
                    &&& t.active_connections == ts[l].active_connections
                    &&& t.bytes_in == ts[l].bytes_in && t.bytes_out == ts[l].bytes_out
                    &&& t.bytes_in_per_sec == ts[l].bytes_in_per_sec
                    &&& t.bytes_out_per_sec == ts[l].bytes_out_per_sec
                }
        }),
{
    let ts = reports_of_clients(clients, polled, clients.len());
    let end = after_reports(m, ts);
    let k = order[j];
    assert(order.contains(k));
    assert(end.dom().contains(k));
    let first = rows[i].id;
    assert(m.contains_key(first));
    lemma_reports_change_counts_alone(m, ts, first);
    assert(m.contains_key(k));
    lemma_reports_change_counts_alone(m, ts, k);
    lemma_ids_are_keys(m, rows, k);
    assert(k == rows[i].id);
    let any = ClientTunnelStats {
        db_id: 0,
        bytes_in: 0,
        bytes_out: 0,
        active_connections: 0,
        bytes_in_per_sec: 0,
        bytes_out_per_sec: 0,
    };
    assert(with_counts(end[k], any) == with_counts(m[k], any));
    law_last_report_counts(m, ts, k);
    assert(s.tunnels@[j] == end[k]);
}

/// Putting a report into a tunnel's record changes its five counts, each to the one
/// of its name, and nothing else.
pub proof fn law_report_sets_five_counts(info: TunnelInfo, t: ClientTunnelStats)
    ensures
        ({
            let r = with_counts(info, t);
            &&& r.active_connections == t.active_connections
            &&& r.bytes_in == t.bytes_in && r.bytes_out == t.bytes_out
            &&& r.bytes_in_per_sec == t.bytes_in_per_sec
            &&& r.bytes_out_per_sec == t.bytes_out_per_sec
            &&& r.id == info.id && r.name == info.name
            &&& r.subdomain == info.subdomain && r.domain == info.domain
            &&& r.online == info.online && r.client_id == info.client_id
            &&& r.server_id == info.server_id && r.tunnel_status == info.tunnel_status
            &&& r.last_seen == info.last_seen && r.remote_port == info.remote_port
            &&& r.protocol == info.protocol
        }),
{
}

/// The tunnels come in the order of their names.
pub proof fn law_tunnels_come_by_name(
    s: ManagerState,
    rows: Seq<TunnelRow>,
    clients: Seq<ManagedClient>,
    polled: Seq<Vec<Option<ClientStatsResponse>>>,
    servers: Seq<ManagedServer>,
    conns: Seq<Option<Vec<ServerConnData>>>,
    m: Map<u32, TunnelInfo>,
    order: Seq<u32>,
    a: int,
    b: int,
)
    requires
        refreshed(s, rows, clients, polled, servers, conns, m, order),
        0 <= a < b < s.tunnels@.len(),
    ensures
        text_le(s.tunnels@[a].name@, s.tunnels@[b].name@),
{
    assert(sorted_by_name(s.tunnels@));
}

/// Every client is reported, in order, under its own id and name. It is reachable
/// exactly where it has a URL and one of its processes answered. Then its counts are
/// the sums of what the answers say, and it runs as long as its oldest process;
/// else everything is nothing.
pub proof fn law_clients_are_told_by_their_answers(
    info: ClientInfo,
    cfg: ManagedClient,
    polled: Seq<Option<ClientStatsResponse>>,
    m: Map<u32, TunnelInfo>,
)
    requires
        reports_client(info, cfg, polled, m),
    ensures
        info.id@ == cfg.id@ && info.name@ == cfg.name@,
        info.stats_url@ == joined(cfg.stats_url_views(), ", "@),
        info.reachable <==> cfg.stats_url_views().len() > 0 && exists|i: int|
            0 <= i < polled.len() && #[trigger] polled[i] is Some,
        info.reachable ==> ({
            let rs = answers(polled);
            let ts = tunnel_reports(rs);
            &&& info.tunnel_count == tunnels_of_client(m, cfg.id@).len()
            &&& info.active_connections == wrapped_total(
                ts.map_values(|t: ClientTunnelStats| t.active_connections),
            )
            &&& info.bytes_in_per_sec == wrapped_total(
                ts.map_values(|t: ClientTunnelStats| t.bytes_in_per_sec),
            )
            &&& info.bytes_out_per_sec == wrapped_total(
                ts.map_values(|t: ClientTunnelStats| t.bytes_out_per_sec),
            )
            &&& info.total_bytes_in == wrapped_total(
                rs.map_values(|r: ClientStatsResponse| r.total_bytes_in),
            )
            &&& info.total_bytes_out == wrapped_total(
                rs.map_values(|r: ClientStatsResponse| r.total_bytes_out),
            )
            &&& forall|i: int| 0 <= i < rs.len() ==> (#[trigger] rs[i]).uptime_secs
                <= info.uptime_secs
            &&& exists|i: int| 0 <= i < rs.len() && (#[trigger] rs[i]).uptime_secs
                == info.uptime_secs
            &&& info.servers@ == server_reports(rs)
        }),
        !info.reachable ==> {
            &&& info.tunnel_count == 0 && info.active_connections == 0
            &&& info.total_bytes_in == 0 && info.total_bytes_out == 0
            &&& info.bytes_in_per_sec == 0 && info.bytes_out_per_sec == 0
            &&& info.uptime_secs == 0 && info.servers@.len() == 0
        },
{
    let rs = answers(polled);
    let ts = tunnel_reports(rs);
    lemma_answers_found(polled);
    assert(urls_text(cfg) == joined(cfg.stats_url_views(), ", "@));
    if info.reachable {
        assert(heard_from(cfg, polled) == rs);
        assert(ts.map_values(said_of(TunnelCount::Active)) =~= ts.map_values(
            |t: ClientTunnelStats| t.active_connections,
        ));
        assert(ts.map_values(said_of(TunnelCount::RateIn)) =~= ts.map_values(
            |t: ClientTunnelStats| t.bytes_in_per_sec,
        ));
        assert(ts.map_values(said_of(TunnelCount::RateOut)) =~= ts.map_values(
            |t: ClientTunnelStats| t.bytes_out_per_sec,
        ));
        assert(rs.map_values(answered(AnswerCount::BytesIn)) =~= rs.map_values(
            |r: ClientStatsResponse| r.total_bytes_in,
        ));
        assert(rs.map_values(answered(AnswerCount::BytesOut)) =~= rs.map_values(
            |r: ClientStatsResponse| r.total_bytes_out,
        ));
        let ups = rs.map_values(answered(AnswerCount::Uptime));
        law_largest_is_the_largest(ups);
        assert(reports_reachable(info, cfg, rs, tunnels_of_client(m, cfg.id@).len()));
        assert forall|i: int| 0 <= i < rs.len() implies (#[trigger] rs[i]).uptime_secs
            <= info.uptime_secs by {
            assert(ups[i] == rs[i].uptime_secs);
        }
        let i = choose|i: int| 0 <= i < ups.len() && #[trigger] ups[i] == largest(ups);
        assert(rs[i].uptime_secs == info.uptime_secs);
    }
}

proof fn lemma_answers_found(polled: Seq<Option<ClientStatsResponse>>)
    ensures
        answers(polled).len() > 0 <==> exists|i: int|
            0 <= i < polled.len() && #[trigger] polled[i] is Some,
    decreases polled.len(),
{
    if polled.len() > 0 {
        let init = polled.drop_last();
        lemma_answers_found(init);
        if exists|i: int| 0 <= i < init.len() && #[trigger] init[i] is Some {
            let i = choose|i: int| 0 <= i < init.len() && #[trigger] init[i] is Some;
            assert(polled[i] is Some);
        }
        if polled.last() is Some {
            assert(polled[polled.len() - 1] is Some);
        }
        if exists|i: int| 0 <= i < polled.len() && #[trigger] polled[i] is Some {
            let i = choose|i: int| 0 <= i < polled.len() && #[trigger] polled[i] is Some;
            if i < init.len() {
                assert(init[i] is Some);
            }
        }
    }
}

/// The largest of some numbers is one of them, and none is larger.
pub proof fn law_largest_is_the_largest(s: Seq<u64>)
    ensures
        forall|i: int| 0 <= i < s.len() ==> #[trigger] s[i] <= largest(s),
        s.len() > 0 ==> exists|i: int| 0 <= i < s.len() && #[trigger] s[i] == largest(s),
        s.len() == 0 ==> largest(s) == 0,
    decreases s.len(),
{
    if s.len() > 0 {
        let init = s.drop_last();
        law_largest_is_the_largest(init);
        assert forall|i: int| 0 <= i < s.len() implies #[trigger] s[i] <= largest(s) by {
            if i < init.len() {
                assert(init[i] == s[i]);
            }
        }
        if largest(init) > s.last() {
            let i = choose|i: int| 0 <= i < init.len() && #[trigger] init[i] == largest(init);
            assert(s[i] == largest(s));
        } else {
            assert(s[s.len() - 1] == largest(s));
        }
    }
}

/// A sum of numbers is theirs alone: nothing sums up to nothing, one number to
/// itself, and two lists to the sum of both. A total is the sum, and starts over at
/// 2 to the power of 64.
pub proof fn law_totals_add_up(a: Seq<u64>, b: Seq<u64>, x: u64)
    ensures
        total(Seq::<u64>::empty()) == 0,
        total(seq![x]) == x,
        total(a + b) == total(a) + total(b),
        wrapped_total(a) as nat == total(a) % 18446744073709551616,
    decreases b.len(),
{
    assert(seq![x].drop_last() =~= Seq::<u64>::empty());
    assert(total(seq![x]) == total(seq![x].drop_last()) + seq![x].last() as nat);
    if b.len() == 0 {
        assert(a + b =~= a);
    } else {
        law_totals_add_up(a, b.drop_last(), x);
        assert((a + b).drop_last() =~= a + b.drop_last());
        assert((a + b).last() == b.last());
    }
}

/// The answers are those of the attempts that succeeded, in order.
pub proof fn law_answers_are_kept_in_order(
    a: Seq<Option<ClientStatsResponse>>,
    b: Seq<Option<ClientStatsResponse>>,
    r: ClientStatsResponse,
)
    ensures
        answers(Seq::<Option<ClientStatsResponse>>::empty()) == Seq::<ClientStatsResponse>::empty(),
        answers(seq![Some(r)]) == seq![r],
        answers(seq![None::<ClientStatsResponse>]) == Seq::<ClientStatsResponse>::empty(),
        answers(a + b) == answers(a) + answers(b),
    decreases b.len(),
{
    let one = seq![Some(r)];
    let none = seq![None::<ClientStatsResponse>];
    assert(one.drop_last().len() == 0 && none.drop_last().len() == 0);
    assert(answers(one.drop_last()) =~= Seq::<ClientStatsResponse>::empty());
    assert(answers(none.drop_last()) =~= Seq::<ClientStatsResponse>::empty());
    assert(one.last() == Some(r) && none.last() is None);
    assert(answers(one) == answers(one.drop_last()).push(r));
    assert(answers(one) =~= seq![r]);
    if b.len() == 0 {
        assert(a + b =~= a);
        assert(answers(a) + answers(b) =~= answers(a));
    } else {
        law_answers_are_kept_in_order(a, b.drop_last(), r);
        assert((a + b).drop_last() =~= a + b.drop_last());
        assert((a + b).last() == b.last());
        assert(answers(a + b) =~= answers(a) + answers(b));
    }
}

/// What answers say of tunnels and of servers is all that each of them says, one
/// after the other.
pub proof fn law_reports_are_kept_in_order(
    a: Seq<ClientStatsResponse>,
    b: Seq<ClientStatsResponse>,
    r: ClientStatsResponse,
)
    ensures
        tunnel_reports(seq![r]) == r.tunnels@,
        server_reports(seq![r]) == r.servers@,
        tunnel_reports(a + b) == tunnel_reports(a) + tunnel_reports(b),
        server_reports(a + b) == server_reports(a) + server_reports(b),
    decreases b.len(),
{
    let one = seq![r];
    assert(one.drop_last() =~= Seq::<ClientStatsResponse>::empty());
    assert(tunnel_reports(one.drop_last()).len() == 0);
    assert(server_reports(one.drop_last()).len() == 0);
    assert(tunnel_reports(one) =~= r.tunnels@);
    assert(server_reports(one) =~= r.servers@);
    if b.len() == 0 {
        assert(a + b =~= a);
        assert(tunnel_reports(a + b) =~= tunnel_reports(a) + tunnel_reports(b));
        assert(server_reports(a + b) =~= server_reports(a) + server_reports(b));
    } else {
        law_reports_are_kept_in_order(a, b.drop_last(), r);
        assert((a + b).drop_last() =~= a + b.drop_last());
        assert((a + b).last() == b.last());
        assert(tunnel_reports(a + b) =~= tunnel_reports(a) + tunnel_reports(b));
        assert(server_reports(a + b) =~= server_reports(a) + server_reports(b));
    }
}

/// What the clients say of tunnels is what each of them says, one client after the
/// other; a client without a URL says nothing.
pub proof fn law_clients_report_in_order(
    clients: Seq<ManagedClient>,
    polled: Seq<Vec<Option<ClientStatsResponse>>>,
    n: nat,
)
    requires
        n < clients.len(),
    ensures
        reports_of_clients(clients, polled, 0).len() == 0,
        clients[n as int].stats_url_views().len() == 0 ==> reports_of_clients(
            clients,
            polled,
            n + 1,
        ) == reports_of_clients(clients, polled, n),
        clients[n as int].stats_url_views().len() > 0 ==> reports_of_clients(
            clients,
            polled,
            n + 1,
        ) == reports_of_clients(clients, polled, n) + tunnel_reports(answers(polled[n as int]@)),
{
    let before = reports_of_clients(clients, polled, n);
    if clients[n as int].stats_url_views().len() == 0 {
        assert(tunnel_reports(heard_from(clients[n as int], polled[n as int]@)).len() == 0);
        assert(reports_of_clients(clients, polled, n + 1) =~= before);
    }
}

/// A tunnel counts for the client that it names.
pub proof fn law_tunnels_count_for_their_client(
    m: Map<u32, TunnelInfo>,
    client: Seq<char>,
    k: u32,
)
    ensures
        tunnels_of_client(m, client).contains(k) <==> m.contains_key(k) && m[k].client_id is Some
            && m[k].client_id->Some_0@ == client,
{
}

/// Every connection that a server reported is filed with the id of that server, and
/// nothing else is. A server that did not answer has none.
pub proof fn law_connections_keep_their_server(
    servers: Seq<ManagedServer>,
    polled: Seq<Option<Vec<ServerConnData>>>,
    n: nat,
    sid: u32,
    c: ServerConnData,
)
    requires
        n <= servers.len(),
        n <= polled.len(),
    ensures
        reported_conns(servers, polled, n).contains((sid, c)) <==> exists|i: int, j: int|
            0 <= i < n && servers[i].id == sid && polled[i] is Some && 0 <= j
                < polled[i]->Some_0@.len() && #[trigger] polled[i]->Some_0@[j] == c,
    decreases n,
{
    let all = reported_conns(servers, polled, n);
    if n > 0 {
        let before = reported_conns(servers, polled, (n - 1) as nat);
        let heard = conns_heard(polled[n - 1]);
        let last = tagged(servers[n - 1].id, heard);
        law_connections_keep_their_server(servers, polled, (n - 1) as nat, sid, c);
        assert(all == before + last);
        if all.contains((sid, c)) {
            let p = all.index_of((sid, c));
            if p < before.len() {
                assert(before[p] == (sid, c));
                let (i, j) = choose|i: int, j: int|
                    0 <= i < n - 1 && servers[i].id == sid && polled[i] is Some && 0 <= j
                        < polled[i]->Some_0@.len() && #[trigger] polled[i]->Some_0@[j] == c;
                assert(polled[i]->Some_0@[j] == c);
            } else {
                let j = p - before.len();
                assert(last[j] == (sid, c));
                assert(heard[j] == c);
                assert(polled[n - 1]->Some_0@[j] == c);
            }
        }
        if exists|i: int, j: int|
            0 <= i < n && servers[i].id == sid && polled[i] is Some && 0 <= j
                < polled[i]->Some_0@.len() && #[trigger] polled[i]->Some_0@[j] == c {
            let (i, j) = choose|i: int, j: int|
                0 <= i < n && servers[i].id == sid && polled[i] is Some && 0 <= j
                    < polled[i]->Some_0@.len() && #[trigger] polled[i]->Some_0@[j] == c;
            if i < n - 1 {
                assert(before.contains((sid, c)));
                let p = before.index_of((sid, c));
                assert(all[p] == (sid, c));
            } else {
                assert(last[j] == (sid, c));
                assert(all[before.len() + j] == (sid, c));
            }
        }
    }
}

/// The connections of a row are those that name it, in order.
pub proof fn law_connections_are_grouped_by_row(
    a: Seq<(u32, ServerConnData)>,
    b: Seq<(u32, ServerConnData)>,
    server_id: u32,
    c: ServerConnData,
    db_id: u32,
)
    ensures
        c.db_id == db_id ==> conns_of_row(seq![(server_id, c)], db_id) == seq![c],
        c.db_id != db_id ==> conns_of_row(seq![(server_id, c)], db_id) == Seq::<
            ServerConnData,
        >::empty(),
        conns_of_row(a + b, db_id) == conns_of_row(a, db_id) + conns_of_row(b, db_id),
    decreases b.len(),
{
    let one = seq![(server_id, c)];
    assert(one.drop_last() =~= Seq::<(u32, ServerConnData)>::empty());
    assert(conns_of_row(one.drop_last(), db_id).len() == 0);
    if c.db_id == db_id {
        assert(conns_of_row(one, db_id) =~= seq![c]);
    } else {
        assert(conns_of_row(one, db_id) =~= Seq::<ServerConnData>::empty());
    }
    if b.len() == 0 {
        assert(a + b =~= a);
        assert(conns_of_row(a + b, db_id) =~= conns_of_row(a, db_id) + conns_of_row(b, db_id));
    } else {
        law_connections_are_grouped_by_row(a, b.drop_last(), server_id, c, db_id);
        assert((a + b).drop_last() =~= a + b.drop_last());
        assert((a + b).last() == b.last());
        assert(conns_of_row(a + b, db_id) =~= conns_of_row(a, db_id) + conns_of_row(b, db_id));
    }
}

/// The connections shown for a row are those that the servers reported for it, one
/// by one, each number under its own name; a row without any is not listed.
pub proof fn law_connections_are_shown_as_reported(
    m: Map<u32, Vec<TunnelConnInfo>>,
    all: Seq<(u32, ServerConnData)>,
    db_id: u32,
)
    requires
        groups_conns(m, all),
    ensures
        m.contains_key(db_id) <==> exists|i: int|
            0 <= i < all.len() && (#[trigger] all[i]).1.db_id == db_id,
        m.contains_key(db_id) ==> {
            let cs = conns_of_row(all, db_id);
            &&& m[db_id]@.len() == cs.len()
            &&& forall|j: int|
                0 <= j < cs.len() ==> {
                    let r = #[trigger] m[db_id]@[j];
                    &&& r.stream_id == cs[j].stream_id
                    &&& r.peer_ip@ == cs[j].peer_ip@
                    &&& r.bytes_in == cs[j].bytes_in && r.bytes_out == cs[j].bytes_out
                    &&& r.bytes_in_per_sec == cs[j].bytes_in_per_sec
                    &&& r.bytes_out_per_sec == cs[j].bytes_out_per_sec
                    &&& r.connected_secs == cs[j].connected_secs
                }
        },
{
    lemma_row_has_conns(all, db_id);
    let _ = m.contains_key(db_id);
    if m.contains_key(db_id) {
        let cs = conns_of_row(all, db_id);
        assert(relays_all(m[db_id]@, cs));
        assert forall|j: int| 0 <= j < cs.len() implies ({
            let r = #[trigger] m[db_id]@[j];
            &&& r.stream_id == cs[j].stream_id
            &&& r.peer_ip@ == cs[j].peer_ip@
            &&& r.bytes_in == cs[j].bytes_in && r.bytes_out == cs[j].bytes_out
            &&& r.bytes_in_per_sec == cs[j].bytes_in_per_sec
            &&& r.bytes_out_per_sec == cs[j].bytes_out_per_sec
            &&& r.connected_secs == cs[j].connected_secs
        }) by {
            assert(relays(m[db_id]@[j], cs[j]));
        }
    }
}

proof fn lemma_row_has_conns(all: Seq<(u32, ServerConnData)>, db_id: u32)
    ensures
        conns_of_row(all, db_id).len() > 0 <==> exists|i: int|
            0 <= i < all.len() && (#[trigger] all[i]).1.db_id == db_id,
    decreases all.len(),
{
    if all.len() > 0 {
        let init = all.drop_last();
        lemma_row_has_conns(init, db_id);
        if exists|i: int| 0 <= i < init.len() && (#[trigger] init[i]).1.db_id == db_id {
            let i = choose|i: int| 0 <= i < init.len() && (#[trigger] init[i]).1.db_id == db_id;
            assert(all[i].1.db_id == db_id);
        }
        if all.last().1.db_id == db_id {
            assert(all[all.len() - 1].1.db_id == db_id);
        }
        if exists|i: int| 0 <= i < all.len() && (#[trigger] all[i]).1.db_id == db_id {
            let i = choose|i: int| 0 <= i < all.len() && (#[trigger] all[i]).1.db_id == db_id;
            if i < init.len() {
                assert(init[i].1.db_id == db_id);
            }
        }
    }
}

/// A stream is known exactly where a server reported it.
pub proof fn law_streams_are_known_by_reports(all: Seq<(u32, ServerConnData)>, sid: u64)
    ensures
        servers_of_streams(all).contains_key(sid) <==> exists|i: int|
            0 <= i < all.len() && (#[trigger] all[i]).1.stream_id == sid,
    decreases all.len(),
{
    if all.len() > 0 {
        let init = all.drop_last();
        let n = all.len() - 1;
        law_streams_are_known_by_reports(init, sid);
        assert(all.last() == all[n]);
        if exists|i: int| 0 <= i < init.len() && (#[trigger] init[i]).1.stream_id == sid {
            let i = choose|i: int| 0 <= i < init.len() && (#[trigger] init[i]).1.stream_id == sid;
            assert(all[i].1.stream_id == sid);
        }
        if exists|i: int| 0 <= i < all.len() && (#[trigger] all[i]).1.stream_id == sid {
            let i = choose|i: int| 0 <= i < all.len() && (#[trigger] all[i]).1.stream_id == sid;
            if i < n {
                assert(init[i].1.stream_id == sid);
            }
        }
    }
}

/// The manager's picture holds the connections and streams that the servers reported.
pub proof fn law_picture_holds_the_connections(
    s: ManagerState,
    rows: Seq<TunnelRow>,
    clients: Seq<ManagedClient>,
    polled: Seq<Vec<Option<ClientStatsResponse>>>,
    servers: Seq<ManagedServer>,
    conns: Seq<Option<Vec<ServerConnData>>>,
    m: Map<u32, TunnelInfo>,
    order: Seq<u32>,
    i: int,
)
    requires
        refreshed(s, rows, clients, polled, servers, conns, m, order),
        0 <= i < clients.len(),
    ensures
        groups_conns(s.connections_by_db_id@, reported_conns(servers, conns, servers.len())),
        s.stream_server_map@ == servers_of_streams(reported_conns(servers, conns, servers.len())),
        s.clients@.len() == clients.len(),
        reports_client(s.clients@[i], clients[i], polled[i]@, m),
{
}

/// The totals over clients are sums of the counts that their names say.
pub proof fn law_totals_are_of_their_counts(clients: Seq<ClientInfo>)
    ensures
        clients.map_values(count_of(ClientCount::BytesIn)) == clients.map_values(
            |c: ClientInfo| c.total_bytes_in,
        ),
        clients.map_values(count_of(ClientCount::BytesOut)) == clients.map_values(
            |c: ClientInfo| c.total_bytes_out,
        ),
        clients.map_values(count_of(ClientCount::RateIn)) == clients.map_values(
            |c: ClientInfo| c.bytes_in_per_sec,
        ),
        clients.map_values(count_of(ClientCount::RateOut)) == clients.map_values(
            |c: ClientInfo| c.bytes_out_per_sec,
        ),
{
    assert(clients.map_values(count_of(ClientCount::BytesIn)) =~= clients.map_values(
        |c: ClientInfo| c.total_bytes_in,
    ));
    assert(clients.map_values(count_of(ClientCount::BytesOut)) =~= clients.map_values(
        |c: ClientInfo| c.total_bytes_out,
    ));
    assert(clients.map_values(count_of(ClientCount::RateIn)) =~= clients.map_values(
        |c: ClientInfo| c.bytes_in_per_sec,
    ));
    assert(clients.map_values(count_of(ClientCount::RateOut)) =~= clients.map_values(
        |c: ClientInfo| c.bytes_out_per_sec,
    ));
}

/// Counting goes one by one: nothing in an empty list, one for an element that
/// satisfies the predicate, and the sum over two lists.
pub proof fn law_counting_adds_up<K>(a: Seq<K>, b: Seq<K>, x: K, p: spec_fn(K) -> bool)
    ensures
        count_where(Seq::<K>::empty(), p) == 0,
        p(x) ==> count_where(seq![x], p) == 1,
        !p(x) ==> count_where(seq![x], p) == 0,
        count_where(a + b, p) == count_where(a, p) + count_where(b, p),
    decreases b.len(),
{
    assert(seq![x].drop_last() =~= Seq::<K>::empty());
    assert(count_where(seq![x].drop_last(), p) == 0);
    assert(seq![x].last() == x);
    if b.len() == 0 {
        assert(a + b =~= a);
    } else {
        law_counting_adds_up(a, b.drop_last(), x, p);
        assert((a + b).drop_last() =~= a + b.drop_last());
        assert((a + b).last() == b.last());
    }
}

} // verus!
