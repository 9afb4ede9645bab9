//! What following the database comes to, told row by row.

use vstd::prelude::*;
use vstd::string::*;
use crate::client::{counted, counted_tunnels, first_fewest, has_entry, is_choice, local_address_of,
    move_positions, next_tunnel_id, open_request, protocol_named, reports_status, row_detached,
    row_holds, row_ids, row_removed, rows_on, selects, status_text, tunnel_count, tunnel_ids_on,
    wants_move, with_tunnel, without_server, ClientView, DbTunnel, StatusUpdate, TunnelMove};
use crate::client_laws::{law_removals_leave_database_rows, rows_added, rows_moved, rows_removed};
use crate::config::ServerEntry;
use crate::maps::lists;
use crate::protocol::{MessageView, TunnelProtocol};
use crate::stats::StatsView;
use crate::text::decimal_text;

verus! {

proof fn lemma_moved_row(
    v: ClientView,
    db: Seq<DbTunnel>,
    moves: Seq<TunnelMove>,
    new_ids: Seq<u32>,
    row: u32,
    sid: u32,
)
    requires
        new_ids.len() == moves.len(),
        forall|k: int|
            0 <= k < moves.len() ==> v.tunnels.contains_key(
                db[(#[trigger] moves[k]).index as int].id,
            ),
        forall|k: int|
            0 <= k < moves.len() && db[(#[trigger] moves[k]).index as int].id == row
                ==> moves[k].to_server == sid,
    ensures
        rows_moved(v, db, moves, new_ids).tunnels.contains_key(row) == v.tunnels.contains_key(row),
        (forall|k: int|
            0 <= k < moves.len() ==> db[(#[trigger] moves[k]).index as int].id != row)
            ==> rows_moved(v, db, moves, new_ids).tunnels[row] == v.tunnels[row],
        (exists|k: int|
            0 <= k < moves.len() && db[(#[trigger] moves[k]).index as int].id == row)
            ==> rows_moved(v, db, moves, new_ids).tunnels[row].server_id == sid,
    decreases moves.len(),
{
    if moves.len() > 0 {
        let init = moves.drop_last();
        let ids = new_ids.drop_last();
        assert forall|k: int| 0 <= k < init.len() implies v.tunnels.contains_key(
            db[(#[trigger] init[k]).index as int].id,
        ) by {
            assert(init[k] == moves[k]);
        }
        assert forall|k: int|
            0 <= k < init.len() && db[(#[trigger] init[k]).index as int].id
                == row implies init[k].to_server == sid by {
            assert(init[k] == moves[k]);
        }
        lemma_moved_row(v, db, init, ids, row, sid);
        let last = moves[moves.len() - 1];
        assert(moves.last() == last);
        lemma_moved_row_known(v, db, init, ids, db[last.index as int].id);
        if forall|k: int|
            0 <= k < moves.len() ==> db[(#[trigger] moves[k]).index as int].id != row {
            assert forall|k: int| 0 <= k < init.len() implies db[(
            #[trigger] init[k]).index as int].id != row by {
                assert(init[k] == moves[k]);
            }
        }
        if db[last.index as int].id != row && exists|k: int|
            0 <= k < moves.len() && db[(#[trigger] moves[k]).index as int].id == row {
            let k = choose|k: int|
                0 <= k < moves.len() && db[(#[trigger] moves[k]).index as int].id == row;
            assert(init[k] == moves[k]);
        }
    }
}

proof fn lemma_moved_row_known(
    v: ClientView,
    db: Seq<DbTunnel>,
    moves: Seq<TunnelMove>,
    new_ids: Seq<u32>,
    row: u32,
)
    requires
        new_ids.len() == moves.len(),
        v.tunnels.contains_key(row),
        forall|k: int|
            0 <= k < moves.len() ==> v.tunnels.contains_key(
                db[(#[trigger] moves[k]).index as int].id,
            ),
    ensures
        rows_moved(v, db, moves, new_ids).tunnels.contains_key(row),
    decreases moves.len(),
{
    if moves.len() > 0 {
        let init = moves.drop_last();
        assert forall|k: int| 0 <= k < init.len() implies v.tunnels.contains_key(
            db[(#[trigger] init[k]).index as int].id,
        ) by {
            assert(init[k] == moves[k]);
        }
        lemma_moved_row_known(v, db, init, new_ids.drop_last(), row);
    }
}

proof fn lemma_added_row(
    v: ClientView,
    db: Seq<DbTunnel>,
    add: Seq<usize>,
    placed: Seq<(u32, u32)>,
    row: u32,
    sid: u32,
)
    requires
        placed.len() == add.len(),
        forall|k: int|
            0 <= k < add.len() && db[#[trigger] add[k] as int].id == row ==> placed[k].1 == sid,
    ensures
        (forall|k: int| 0 <= k < add.len() ==> db[#[trigger] add[k] as int].id != row)
            ==> rows_added(v, db, add, placed).tunnels.contains_key(row) == v.tunnels.contains_key(
            row,
        ) && rows_added(v, db, add, placed).tunnels[row] == v.tunnels[row],
        (exists|k: int| 0 <= k < add.len() && db[#[trigger] add[k] as int].id == row)
            ==> rows_added(v, db, add, placed).tunnels.contains_key(row) && rows_added(
            v,
            db,
            add,
            placed,
        ).tunnels[row].server_id == sid,
    decreases add.len(),
{
    if add.len() > 0 {
        let init = add.drop_last();
        let at = placed.drop_last();
        assert forall|k: int|
            0 <= k < init.len() && db[#[trigger] init[k] as int].id == row implies at[k].1 == sid by {
            assert(db[add[k] as int].id == row);
        }
        lemma_added_row(v, db, init, at, row, sid);
        let n = add.len() - 1;
        assert(add.last() == add[n] && placed.last() == placed[n]);
        if forall|k: int| 0 <= k < add.len() ==> db[#[trigger] add[k] as int].id != row {
            assert forall|k: int| 0 <= k < init.len() implies db[#[trigger] init[k] as int].id
                != row by {
                assert(db[add[k] as int].id != row);
            }
        }
        if db[add[n] as int].id != row && exists|k: int|
            0 <= k < add.len() && db[#[trigger] add[k] as int].id == row {
            let k = choose|k: int| 0 <= k < add.len() && db[#[trigger] add[k] as int].id == row;
            assert(db[init[k] as int].id == row);
        }
    }
}

/// Once a plan is carried out, every tunnel is on the server that the database asks
/// for, where that server is configured: whether it was closed before, open there
/// already, or open on any other server.
pub proof fn law_tunnels_reach_their_servers(
    v: ClientView,
    db: Seq<DbTunnel>,
    entries: Seq<ServerEntry>,
    counts: Map<u32, usize>,
    remove: Seq<u32>,
    moves: Seq<TunnelMove>,
    add: Seq<usize>,
    new_ids: Seq<u32>,
    placed: Seq<(u32, u32)>,
    i: int,
    e: int,
)
    requires
        lists(remove, v.tunnels.dom().difference(row_ids(db))),
        selects(
            move_positions(moves),
            db.len() as int,
            |i: int| wants_move(v, entries, db[i]),
        ),
        forall|k: int|
            0 <= k < moves.len() ==> db[(#[trigger] moves[k]).index as int].server_id == Some(
                moves[k].to_server,
            ),
        selects(add, db.len() as int, |i: int| !v.tunnels.contains_key(db[i].id)),
        new_ids.len() == moves.len(),
        placed.len() == add.len(),
        forall|k: int|
            0 <= k < add.len() ==> is_choice(
                db[#[trigger] add[k] as int].server_id,
                entries,
                counts,
                placed[k].1,
            ),
        0 <= i < db.len(),
        0 <= e < entries.len(),
        db[i].server_id == Some(entries[e].id),
        forall|j: int|
            0 <= j < db.len() && (#[trigger] db[j]).id == db[i].id ==> db[j].server_id
                == db[i].server_id,
    ensures
        ({
            let done = rows_added(
                rows_moved(rows_removed(v, remove), db, moves, new_ids),
                db,
                add,
                placed,
            );
            done.tunnels.contains_key(db[i].id) && done.tunnels[db[i].id].server_id
                == entries[e].id
        }),
{
    let row = db[i].id;
    let sid = entries[e].id;
    let ids = db.map_values(|t: DbTunnel| t.id);
    let is_new = |i: int| !v.tunnels.contains_key(db[i].id);
    let wants = |i: int| wants_move(v, entries, db[i]);
    let removed = rows_removed(v, remove);
    let moved = rows_moved(removed, db, moves, new_ids);
    assert(entries[e].id == sid);
    assert(has_entry(entries, sid));
    assert(ids[i] == row);
    assert(row_ids(db).contains(row));
    law_removals_leave_database_rows(v, db, remove);
    assert(removed.tunnels.dom().contains(row) <==> v.tunnels.dom().contains(row));
    assert forall|k: int| 0 <= k < moves.len() implies removed.tunnels.contains_key(
        db[(#[trigger] moves[k]).index as int].id,
    ) && wants(moves[k].index as int) && 0 <= moves[k].index < db.len() by {
        assert(move_positions(moves)[k] == moves[k].index);
        let j = moves[k].index as int;
        assert(wants(j));
        assert(ids[j] == db[j].id);
        assert(row_ids(db).contains(db[j].id));
        assert(v.tunnels.dom().intersect(row_ids(db)).contains(db[j].id));
    }
    assert forall|k: int|
        0 <= k < moves.len() && db[(#[trigger] moves[k]).index as int].id
            == row implies moves[k].to_server == sid by {
        assert(db[moves[k].index as int].server_id == db[i].server_id);
    }
    lemma_moved_row(removed, db, moves, new_ids, row, sid);
    assert forall|k: int|
        0 <= k < add.len() && db[#[trigger] add[k] as int].id == row implies placed[k].1 == sid by {
        assert(db[add[k] as int].server_id == db[i].server_id);
    }
    lemma_added_row(moved, db, add, placed, row, sid);
    if v.tunnels.contains_key(row) {
        assert(removed.tunnels[row] == v.tunnels[row]);
        assert forall|k: int| 0 <= k < add.len() implies db[#[trigger] add[k] as int].id != row by {
            assert(is_new(add[k] as int));
        }
        if v.tunnels[row].server_id == sid {
            assert forall|k: int| 0 <= k < moves.len() implies db[(
            #[trigger] moves[k]).index as int].id != row by {
                assert(wants(moves[k].index as int));
            }
        } else {
            assert(wants(i));
            let k = choose|k: int|
                0 <= k < move_positions(moves).len() && #[trigger] move_positions(moves)[k] == i;
            assert(db[moves[k].index as int].id == row);
        }
    } else {
        assert(is_new(i));
        let k = choose|k: int| 0 <= k < add.len() && #[trigger] add[k] == i;
        assert(db[add[k] as int].id == row);
    }
}

/// A tunnel that is open where the database wants it stays as it is, under its id:
/// so does one of whose server the database says nothing, or names one that is not
/// configured.
pub proof fn law_settled_tunnels_stay(
    v: ClientView,
    db: Seq<DbTunnel>,
    entries: Seq<ServerEntry>,
    remove: Seq<u32>,
    moves: Seq<TunnelMove>,
    add: Seq<usize>,
    new_ids: Seq<u32>,
    placed: Seq<(u32, u32)>,
    i: int,
)
    requires
        lists(remove, v.tunnels.dom().difference(row_ids(db))),
        selects(
            move_positions(moves),
            db.len() as int,
            |i: int| wants_move(v, entries, db[i]),
        ),
        selects(add, db.len() as int, |i: int| !v.tunnels.contains_key(db[i].id)),
        new_ids.len() == moves.len(),
        placed.len() == add.len(),
        0 <= i < db.len(),
        v.tunnels.contains_key(db[i].id),
        forall|j: int|
            0 <= j < db.len() && (#[trigger] db[j]).id == db[i].id ==> db[j].server_id is None
                || db[j].server_id == Some(v.tunnels[db[i].id].server_id) || forall|e: int|
                0 <= e < entries.len() ==> (#[trigger] entries[e]).id != db[j].server_id->Some_0,
    ensures
        ({
            let done = rows_added(
                rows_moved(rows_removed(v, remove), db, moves, new_ids),
                db,
                add,
                placed,
            );
            done.tunnels.contains_key(db[i].id) && done.tunnels[db[i].id] == v.tunnels[db[i].id]
        }),
{
    let row = db[i].id;
    let ids = db.map_values(|t: DbTunnel| t.id);
    let is_new = |i: int| !v.tunnels.contains_key(db[i].id);
    let wants = |i: int| wants_move(v, entries, db[i]);
    let removed = rows_removed(v, remove);
    assert(ids[i] == row);
    assert(row_ids(db).contains(row));
    law_removals_leave_database_rows(v, db, remove);
    assert(v.tunnels.dom().intersect(row_ids(db)).contains(row));
    assert(removed.tunnels.dom().contains(row));
    assert forall|k: int| 0 <= k < moves.len() implies removed.tunnels.contains_key(
        db[(#[trigger] moves[k]).index as int].id,
    ) && db[moves[k].index as int].id != row by {
        assert(move_positions(moves)[k] == moves[k].index);
        let j = moves[k].index as int;
        assert(wants(j));
        assert(ids[j] == db[j].id);
        assert(row_ids(db).contains(db[j].id));
        assert(v.tunnels.dom().intersect(row_ids(db)).contains(db[j].id));
    }
    lemma_moved_row(removed, db, moves, new_ids, row, 0);
    assert forall|k: int| 0 <= k < add.len() implies db[#[trigger] add[k] as int].id != row by {
        assert(is_new(add[k] as int));
    }
    lemma_added_row(rows_moved(removed, db, moves, new_ids), db, add, placed, row, 0);
}

/// The positions that are selected are those, in ascending order, that satisfy the
/// predicate, and all of them.
pub proof fn law_selection_is_complete(
    idx: Seq<usize>,
    n: int,
    p: spec_fn(int) -> bool,
    i: int,
    a: int,
    b: int,
)
    requires
        selects(idx, n, p),
    ensures
        0 <= i < n ==> (p(i) <==> exists|k: int| 0 <= k < idx.len() && #[trigger] idx[k] == i),
        0 <= a < idx.len() ==> idx[a] < n,
        0 <= a < b < idx.len() ==> idx[a] < idx[b],
{
}

/// A tunnel that is added is on record in every table: under its row with the id,
/// server, port and local address, and under its id with the address, the transport
/// and the server. Nothing else changes.
pub proof fn law_added_tunnel_is_on_record(
    v: ClientView,
    t: DbTunnel,
    tunnel_id: u32,
    server_id: u32,
    row: u32,
    tid: u32,
)
    ensures
        ({
            let w = with_tunnel(v, t, tunnel_id, server_id);
            let address = t.server_ip@ + seq![':'] + decimal_text(t.server_port as nat);
            let r = w.tunnels[t.id];
            &&& w.tunnels.contains_key(t.id)
            &&& r.tunnel_id == tunnel_id && r.server_id == server_id && r.db_id == t.id
            &&& r.remote_port == t.remote_port
            &&& r.local_address == address
            &&& w.local_addrs.contains_key(tunnel_id) && w.local_addrs[tunnel_id] == address
            &&& w.protocols.contains_key(tunnel_id) && w.protocols[tunnel_id] == t.protocol@
            &&& w.tunnel_server.contains_key(tunnel_id) && w.tunnel_server[tunnel_id] == server_id
            &&& w.streams == v.streams && w.stream_tunnel == v.stream_tunnel
            &&& row != t.id ==> w.tunnels.contains_key(row) == v.tunnels.contains_key(row)
                && w.tunnels[row] == v.tunnels[row]
            &&& tid != tunnel_id ==> {
                &&& w.local_addrs.contains_key(tid) == v.local_addrs.contains_key(tid)
                &&& w.local_addrs[tid] == v.local_addrs[tid]
                &&& w.protocols.contains_key(tid) == v.protocols.contains_key(tid)
                &&& w.protocols[tid] == v.protocols[tid]
                &&& w.tunnel_server.contains_key(tid) == v.tunnel_server.contains_key(tid)
                &&& w.tunnel_server[tid] == v.tunnel_server[tid]
            }
        }),
{
    reveal_strlit(":");
    assert(":"@ =~= seq![':']);
}

/// A row that is removed leaves the table of tunnels, and its id those of addresses
/// and servers; one that goes to another server leaves that of transports too.
/// Streams and other tunnels stay.
pub proof fn law_removed_row_leaves_its_tables(v: ClientView, row: u32, other: u32, tid: u32)
    requires
        v.tunnels.contains_key(row),
    ensures
        ({
            let w = row_removed(v, row);
            let d = row_detached(v, row);
            let own = tid == v.tunnels[row].tunnel_id;
            &&& w.tunnels.contains_key(other) <==> v.tunnels.contains_key(other) && other != row
            &&& other != row ==> w.tunnels[other] == v.tunnels[other]
            &&& w.local_addrs.contains_key(tid) <==> v.local_addrs.contains_key(tid) && !own
            &&& !own ==> w.local_addrs[tid] == v.local_addrs[tid]
            &&& w.tunnel_server.contains_key(tid) <==> v.tunnel_server.contains_key(tid) && !own
            &&& !own ==> w.tunnel_server[tid] == v.tunnel_server[tid]
            &&& w.protocols == v.protocols
            &&& w.streams == v.streams && w.stream_tunnel == v.stream_tunnel
            &&& d.tunnels == w.tunnels && d.local_addrs == w.local_addrs
            &&& d.tunnel_server == w.tunnel_server
            &&& d.streams == v.streams && d.stream_tunnel == v.stream_tunnel
            &&& d.protocols.contains_key(tid) <==> v.protocols.contains_key(tid) && !own
            &&& !own ==> d.protocols[tid] == v.protocols[tid]
        }),
{
}

/// Losing a server takes the tunnels that are on it, and what is on record under
/// their ids; everything else stays.
pub proof fn law_lost_server_clears_its_records(v: ClientView, server_id: u32, row: u32, tid: u32)
    ensures
        ({
            let w = without_server(v, server_id);
            let own = exists|r: u32| #[trigger]
                v.tunnels.contains_key(r) && v.tunnels[r].server_id == server_id
                    && v.tunnels[r].tunnel_id == tid;
            &&& w.tunnels.contains_key(row) <==> v.tunnels.contains_key(row)
                && v.tunnels[row].server_id != server_id
            &&& w.tunnels.contains_key(row) ==> w.tunnels[row] == v.tunnels[row]
            &&& tunnel_ids_on(v, server_id).contains(tid) <==> own
            &&& w.local_addrs.contains_key(tid) <==> v.local_addrs.contains_key(tid) && !own
            &&& w.local_addrs.contains_key(tid) ==> w.local_addrs[tid] == v.local_addrs[tid]
            &&& w.protocols.contains_key(tid) <==> v.protocols.contains_key(tid) && !own
            &&& w.protocols.contains_key(tid) ==> w.protocols[tid] == v.protocols[tid]
            &&& w.tunnel_server.contains_key(tid) <==> v.tunnel_server.contains_key(tid) && !own
            &&& w.tunnel_server.contains_key(tid) ==> w.tunnel_server[tid] == v.tunnel_server[tid]
            &&& w.streams == v.streams && w.stream_tunnel == v.stream_tunnel
        }),
{
    let on = rows_on(v, server_id);
    if exists|r: u32| #[trigger]
        v.tunnels.contains_key(r) && v.tunnels[r].server_id == server_id && v.tunnels[r].tunnel_id
            == tid {
        let r = choose|r: u32| #[trigger]
            v.tunnels.contains_key(r) && v.tunnels[r].server_id == server_id
                && v.tunnels[r].tunnel_id == tid;
        assert(on.contains(r));
    }
    if tunnel_ids_on(v, server_id).contains(tid) {
        let r = choose|r: u32| on.contains(r) && v.tunnels[r].tunnel_id == tid;
        assert(v.tunnels.contains_key(r));
    }
}

/// A row counts for the server that its tunnel is on.
pub proof fn law_tunnels_count_where_they_are(v: ClientView, server_id: u32, row: u32)
    ensures
        rows_on(v, server_id).contains(row) <==> v.tunnels.contains_key(row)
            && v.tunnels[row].server_id == server_id,
        tunnel_count(v, server_id) == rows_on(v, server_id).len(),
{
}

/// A new tunnel goes to the server that the database asks for, where it is
/// configured. Else it goes to a configured server that has no more tunnels than any
/// other, and fewer than each that is configured before it; with no server
/// configured, to server 1.
pub proof fn law_new_tunnel_goes_where_it_should(
    wanted: Option<u32>,
    entries: Seq<ServerEntry>,
    counts: Map<u32, usize>,
    server_id: u32,
)
    requires
        is_choice(wanted, entries, counts, server_id),
    ensures
        ({
            let asked = wanted is Some && exists|e: int|
                0 <= e < entries.len() && (#[trigger] entries[e]).id == wanted->Some_0;
            let load = |id: u32|
                if counts.contains_key(id) {
                    counts[id] as int
                } else {
                    0
                };
            &&& asked ==> server_id == wanted->Some_0
            &&& !asked && entries.len() == 0 ==> server_id == 1
            &&& !asked && entries.len() > 0 ==> exists|i: int|
                0 <= i < entries.len() && (#[trigger] entries[i]).id == server_id && (forall|j: int|
                    0 <= j < entries.len() ==> load(server_id) <= load((#[trigger] entries[j]).id))
                    && (forall|j: int|
                    0 <= j < i ==> load(server_id) < load((#[trigger] entries[j]).id))
        }),
{
    let load = |id: u32|
        if counts.contains_key(id) {
            counts[id] as int
        } else {
            0
        };
    let asked = wanted is Some && has_entry(entries, wanted->Some_0);
    if !asked && entries.len() > 0 {
        let i = choose|i: int| #[trigger]
            first_fewest(entries, counts, i) && server_id == entries[i].id;
        assert forall|j: int| 0 <= j < entries.len() implies load(server_id) <= load(
            (#[trigger] entries[j]).id,
        ) by {
            assert(counted(counts, entries[i].id) <= counted(counts, entries[j].id));
        }
        assert forall|j: int| 0 <= j < i implies load(server_id) < load(
            (#[trigger] entries[j]).id,
        ) by {
            assert(counted(counts, entries[i].id) < counted(counts, entries[j].id));
        }
        assert(entries[i].id == server_id);
    }
}

/// A tunnel is asked for under the id that it gets, on its public port, with the
/// transport that the database names: UDP for `udp`, both for `both`, and else TCP.
pub proof fn law_tunnel_is_asked_for_as_described(t: DbTunnel, tunnel_id: u32)
    ensures
        open_request(t, tunnel_id) matches MessageView::OpenTunnel {
            tunnel_id: id,
            remote_port,
            protocol,
        } && {
            &&& id == tunnel_id
            &&& remote_port == t.remote_port
            &&& protocol is Udp <==> t.protocol@ == seq!['u', 'd', 'p']
            &&& protocol is Both <==> t.protocol@ == seq!['b', 'o', 't', 'h']
        },
        local_address_of(t) == t.server_ip@ + seq![':'] + decimal_text(t.server_port as nat),
{
    reveal_strlit("udp");
    reveal_strlit("both");
    reveal_strlit(":");
    assert(":"@ =~= seq![':']);
    assert("udp"@ =~= seq!['u', 'd', 'p']);
    assert("both"@ =~= seq!['b', 'o', 't', 'h']);
    assert("udp"@.len() == 3 && "both"@.len() == 4);
}

/// A transport's name is read as that transport.
pub proof fn law_transport_names(s: Seq<char>)
    ensures
        protocol_named(s) == (if s == seq!['u', 'd', 'p'] {
            TunnelProtocol::Udp
        } else if s == seq!['b', 'o', 't', 'h'] {
            TunnelProtocol::Both
        } else {
            TunnelProtocol::Tcp
        }),
{
    reveal_strlit("udp");
    reveal_strlit("both");
    assert("udp"@ =~= seq!['u', 'd', 'p']);
    assert("both"@ =~= seq!['b', 'o', 't', 'h']);
}

/// The state of every counted tunnel that a row holds is written, once, under that
/// row: running where it has players, and idle where it has none. No other is.
pub proof fn law_status_tells_of_players(
    updates: Seq<StatusUpdate>,
    tids: Seq<u32>,
    v: ClientView,
    stats: StatsView,
    tid: u32,
)
    requires
        reports_status(updates, tids, v, stats),
        lists(tids, counted_tunnels(v, stats)),
    ensures
        updates.len() == tids.len(),
        tids.no_duplicates(),
        tids.contains(tid) <==> stats.tunnels.contains_key(tid) && exists|row: u32| #[trigger]
            v.tunnels.contains_key(row) && v.tunnels[row].tunnel_id == tid,
        forall|j: int|
            0 <= j < updates.len() ==> {
                let u = #[trigger] updates[j];
                let players = stats.tunnels[tids[j]].active_connections;
                &&& v.tunnels.contains_key(u.db_id) && v.tunnels[u.db_id].tunnel_id == tids[j]
                &&& players > 0 ==> u.status@ == "running"@
                &&& players == 0 ==> u.status@ == "idle"@
            },
{
    assert(counted_tunnels(v, stats).contains(tid) <==> tids.contains(tid));
    if exists|row: u32| #[trigger] v.tunnels.contains_key(row) && v.tunnels[row].tunnel_id == tid {
        let row = choose|row: u32| #[trigger]
            v.tunnels.contains_key(row) && v.tunnels[row].tunnel_id == tid;
        assert(row_holds(v, row, tid));
    }
    if exists|row: u32| #[trigger] row_holds(v, row, tid) {
        let row = choose|row: u32| #[trigger] row_holds(v, row, tid);
        assert(v.tunnels.contains_key(row));
    }
    assert forall|j: int| 0 <= j < updates.len() implies ({
        let u = #[trigger] updates[j];
        let players = stats.tunnels[tids[j]].active_connections;
        &&& v.tunnels.contains_key(u.db_id) && v.tunnels[u.db_id].tunnel_id == tids[j]
        &&& players > 0 ==> u.status@ == "running"@
        &&& players == 0 ==> u.status@ == "idle"@
    }) by {
        assert(row_holds(v, updates[j].db_id, tids[j]));
        assert(updates[j].status@ == status_text(stats.tunnels[tids[j]].active_connections));
    }
}

/// Tunnel ids count up, and start over after the last one.
pub proof fn law_tunnel_ids_count_up(id: u32)
    ensures
        id < 4294967295 ==> next_tunnel_id(id) == id + 1,
        id == 4294967295 ==> next_tunnel_id(id) == 0,
{
}

/// The rows of the database are those that its tunnels name.
pub proof fn law_rows_are_what_tunnels_name(db: Seq<DbTunnel>, row: u32)
    ensures
        row_ids(db).contains(row) <==> exists|i: int|
            0 <= i < db.len() && (#[trigger] db[i]).id == row,
{
    let ids = db.map_values(|t: DbTunnel| t.id);
    if row_ids(db).contains(row) {
        let i = ids.index_of(row);
        assert(ids[i] == row);
        assert(db[i].id == row);
    }
    if exists|i: int| 0 <= i < db.len() && (#[trigger] db[i]).id == row {
        let i = choose|i: int| 0 <= i < db.len() && (#[trigger] db[i]).id == row;
        assert(ids[i] == row);
    }
}

} // verus!
