//! What holds of the client as a whole.

use vstd::prelude::*;
use crate::client::{client_control_step, client_frame_step, first_fewest, has_entry, is_choice,
    move_positions, next_tunnel_id, row_detached, row_holds, row_ids, row_removed, rows_on, selects,
    tunnel_ids_on, wants_move, with_tunnel, without_server, without_stream, ClientAction, ClientView,
    DbTunnel, TunnelMove, TunnelView};
use crate::config::ServerEntry;
use crate::maps::{lemma_take_to_set, lists};
use crate::protocol::{FrameView, MessageView};
use crate::registry::looked_up;
use crate::stats::{connection_begun, connection_gone, StatsView};

verus! {

/// The client after rows were removed, one by one.
pub open spec fn rows_removed(v: ClientView, rows: Seq<u32>) -> ClientView
    decreases rows.len(),
{
    if rows.len() == 0 {
        v
    } else {
        row_removed(rows_removed(v, rows.drop_last()), rows.last())
    }
}

/// The client after tunnels were moved, one by one, each under a new id.
pub open spec fn rows_moved(
    v: ClientView,
    db: Seq<DbTunnel>,
    moves: Seq<TunnelMove>,
    new_ids: Seq<u32>,
) -> ClientView
    decreases moves.len(),
{
    if moves.len() == 0 {
        v
    } else {
        let before = rows_moved(v, db, moves.drop_last(), new_ids.drop_last());
        let m = moves.last();
        let t = db[m.index as int];
        with_tunnel(row_detached(before, t.id), t, new_ids.last(), m.to_server)
    }
}

/// The client after tunnels were added, one by one, each with its id and server.
pub open spec fn rows_added(
    v: ClientView,
    db: Seq<DbTunnel>,
    add: Seq<usize>,
    placed: Seq<(u32, u32)>,
) -> ClientView
    decreases add.len(),
{
    if add.len() == 0 {
        v
    } else {
        let before = rows_added(v, db, add.drop_last(), placed.drop_last());
        with_tunnel(before, db[add.last() as int], placed.last().0, placed.last().1)
    }
}

proof fn lemma_rows_removed(v: ClientView, rows: Seq<u32>)
    ensures
        rows_removed(v, rows).tunnels == v.tunnels.remove_keys(rows.to_set()),
    decreases rows.len(),
{
    if rows.len() == 0 {
        assert(v.tunnels =~= v.tunnels.remove_keys(rows.to_set()));
    } else {
        lemma_rows_removed(v, rows.drop_last());
        lemma_take_to_set(rows, rows.len() - 1);
        assert(rows.take(rows.len() - 1) =~= rows.drop_last());
        assert(rows.take(rows.len() as int) =~= rows);
        assert(rows_removed(v, rows).tunnels =~= v.tunnels.remove_keys(rows.to_set()));
    }
}

/// Removing the rows that the database no longer has, one by one, leaves exactly
/// the open tunnels whose rows it has, as they were. Each of the rows still has
/// its tunnel when its turn comes.
pub proof fn law_removals_leave_database_rows(v: ClientView, db: Seq<DbTunnel>, remove: Seq<u32>)
    requires
        lists(remove, v.tunnels.dom().difference(row_ids(db))),
    ensures
        rows_removed(v, remove).tunnels.dom() == v.tunnels.dom().intersect(row_ids(db)),
        rows_removed(v, remove).tunnels.submap_of(v.tunnels),
        forall|k: int|
            0 <= k < remove.len() ==> v.tunnels.contains_key(#[trigger] remove[k])
                && rows_removed(v, remove.take(k)).tunnels.contains_key(remove[k])
                && rows_removed(v, remove.take(k)).tunnels[remove[k]] == v.tunnels[remove[k]],
{
    let gone = v.tunnels.dom().difference(row_ids(db));
    lemma_rows_removed(v, remove);
    let left = rows_removed(v, remove).tunnels;
    assert forall|row: u32| left.dom().contains(row) <==> v.tunnels.dom().intersect(
        row_ids(db),
    ).contains(row) by {
        assert(gone.contains(row) <==> remove.contains(row));
    }
    assert(left.dom() =~= v.tunnels.dom().intersect(row_ids(db)));
    assert forall|k: int| 0 <= k < remove.len() implies v.tunnels.contains_key(
        #[trigger] remove[k],
    ) && rows_removed(v, remove.take(k)).tunnels.contains_key(remove[k]) && rows_removed(
        v,
        remove.take(k),
    ).tunnels[remove[k]] == v.tunnels[remove[k]] by {
        assert(remove.contains(remove[k]));
        assert(gone.contains(remove[k]));
        lemma_rows_removed(v, remove.take(k));
        if remove.take(k).contains(remove[k]) {
            let j = remove.take(k).index_of(remove[k]);
            assert(remove[j] == remove[k]);
        }
    }
}

/// Whatever part of a plan is carried out once the removals are, only rows of the
/// database have tunnels: a tunnel that is added is of such a row, and one that
/// is moved, or lost on the way, brings in no other.
pub proof fn law_steps_stay_within_database(
    v: ClientView,
    db: Seq<DbTunnel>,
    i: int,
    tunnel_id: u32,
    server_id: u32,
)
    requires
        v.tunnels.dom().subset_of(row_ids(db)),
        0 <= i < db.len(),
    ensures
        with_tunnel(v, db[i], tunnel_id, server_id).tunnels.dom() == v.tunnels.dom().insert(
            db[i].id,
        ),
        with_tunnel(v, db[i], tunnel_id, server_id).tunnels.dom().subset_of(row_ids(db)),
        row_detached(v, db[i].id).tunnels.dom().subset_of(row_ids(db)),
        with_tunnel(
            row_detached(v, db[i].id),
            db[i],
            tunnel_id,
            server_id,
        ).tunnels.dom().subset_of(row_ids(db)),
{
    let ids = db.map_values(|t: DbTunnel| t.id);
    assert(ids[i] == db[i].id);
    assert(ids.contains(db[i].id));
    assert(with_tunnel(v, db[i], tunnel_id, server_id).tunnels.dom() =~= v.tunnels.dom().insert(
        db[i].id,
    ));
}

proof fn lemma_rows_moved(
    v: ClientView,
    db: Seq<DbTunnel>,
    moves: Seq<TunnelMove>,
    new_ids: Seq<u32>,
)
    requires
        new_ids.len() == moves.len(),
        forall|k: int|
            0 <= k < moves.len() ==> v.tunnels.contains_key(
                db[(#[trigger] moves[k]).index as int].id,
            ),
    ensures
        rows_moved(v, db, moves, new_ids).tunnels.dom() == v.tunnels.dom(),
    decreases moves.len(),
{
    if moves.len() > 0 {
        let init = moves.drop_last();
        assert forall|k: int| 0 <= k < init.len() implies v.tunnels.contains_key(
            db[(#[trigger] init[k]).index as int].id,
        ) by {
            assert(init[k] == moves[k]);
        }
        lemma_rows_moved(v, db, init, new_ids.drop_last());
        assert(moves.last() == moves[moves.len() - 1]);
        assert(rows_moved(v, db, moves, new_ids).tunnels.dom() =~= v.tunnels.dom());
    }
}

proof fn lemma_rows_added(
    v: ClientView,
    db: Seq<DbTunnel>,
    add: Seq<usize>,
    placed: Seq<(u32, u32)>,
    row: u32,
)
    requires
        placed.len() == add.len(),
    ensures
        rows_added(v, db, add, placed).tunnels.contains_key(row) <==> v.tunnels.contains_key(row)
            || exists|k: int| 0 <= k < add.len() && db[#[trigger] add[k] as int].id == row,
    decreases add.len(),
{
    if add.len() > 0 {
        let init = add.drop_last();
        lemma_rows_added(v, db, init, placed.drop_last(), row);
        if exists|k: int| 0 <= k < init.len() && db[#[trigger] init[k] as int].id == row {
            let k = choose|k: int| 0 <= k < init.len() && db[#[trigger] init[k] as int].id == row;
            assert(db[add[k] as int].id == row);
        }
        if db[add.last() as int].id == row {
            assert(db[add[add.len() - 1] as int].id == row);
        }
        if exists|k: int| 0 <= k < add.len() && db[#[trigger] add[k] as int].id == row {
            let k = choose|k: int| 0 <= k < add.len() && db[#[trigger] add[k] as int].id == row;
            if k < init.len() {
                assert(db[init[k] as int].id == row);
            }
        }
    }
}

/// Following the plan makes the open tunnels those of the database: with the
/// removals, the moves and the additions carried out, one by one and in this
/// order, exactly its rows have tunnels, whatever ids and servers these get.
pub proof fn law_plan_reaches_the_database(
    v: ClientView,
    db: Seq<DbTunnel>,
    entries: Seq<ServerEntry>,
    remove: Seq<u32>,
    moves: Seq<TunnelMove>,
    add: Seq<usize>,
    new_ids: Seq<u32>,
    placed: Seq<(u32, u32)>,
)
    requires
        lists(remove, v.tunnels.dom().difference(row_ids(db))),
        selects(
            move_positions(moves),
            db.len() as int,
            |i: int| wants_move(v, entries, db[i]),
        ),
        selects(add, db.len() as int, |i: int| !v.tunnels.contains_key(db[i].id)),
        new_ids.len() == moves.len(),
        placed.len() == add.len(),
    ensures
        rows_added(
            rows_moved(rows_removed(v, remove), db, moves, new_ids),
            db,
            add,
            placed,
        ).tunnels.dom() == row_ids(db),
{
    let ids = db.map_values(|t: DbTunnel| t.id);
    let is_new = |i: int| !v.tunnels.contains_key(db[i].id);
    let wants = |i: int| wants_move(v, entries, db[i]);
    let removed = rows_removed(v, remove);
    let moved = rows_moved(removed, db, moves, new_ids);
    let done = rows_added(moved, db, add, placed);
    law_removals_leave_database_rows(v, db, remove);
    assert forall|k: int| 0 <= k < moves.len() implies removed.tunnels.contains_key(
        db[(#[trigger] moves[k]).index as int].id,
    ) by {
        assert(move_positions(moves)[k] == moves[k].index);
        let i = moves[k].index as int;
        assert(wants(i));
        assert(ids[i] == db[i].id);
        assert(row_ids(db).contains(db[i].id));
    }
    lemma_rows_moved(removed, db, moves, new_ids);
    assert forall|row: u32| done.tunnels.dom().contains(row) <==> row_ids(db).contains(row) by {
        lemma_rows_added(moved, db, add, placed, row);
        assert(moved.tunnels.dom().contains(row) <==> removed.tunnels.dom().contains(row));
        if row_ids(db).contains(row) && !v.tunnels.contains_key(row) {
            let i = ids.index_of(row);
            assert(ids[i] == row);
            assert(is_new(i));
            let k = choose|k: int| 0 <= k < add.len() && #[trigger] add[k] == i;
            assert(db[add[k] as int].id == row);
        }
        if exists|k: int| 0 <= k < add.len() && db[#[trigger] add[k] as int].id == row {
            let k = choose|k: int| 0 <= k < add.len() && db[#[trigger] add[k] as int].id == row;
            assert(ids[add[k] as int] == row);
        }
    }
    assert(done.tunnels.dom() =~= row_ids(db));
}

/// A tunnel that was moved is where the database wants it: it moves no further.
pub proof fn law_moved_tunnel_stays(
    v: ClientView,
    entries: Seq<ServerEntry>,
    t: DbTunnel,
    new_id: u32,
)
    requires
        wants_move(v, entries, t),
    ensures
        ({
            let moved = with_tunnel(row_detached(v, t.id), t, new_id, t.server_id->Some_0);
            &&& moved.tunnels[t.id].server_id == t.server_id->Some_0
            &&& moved.tunnels[t.id].tunnel_id == new_id
            &&& !wants_move(moved, entries, t)
            &&& moved.tunnels.dom() == v.tunnels.dom()
        }),
{
    let moved = with_tunnel(row_detached(v, t.id), t, new_id, t.server_id->Some_0);
    assert(moved.tunnels.dom() =~= v.tunnels.dom());
}

/// The server of a new tunnel is settled: there is never a second choice.
pub proof fn law_choice_is_settled(
    wanted: Option<u32>,
    entries: Seq<ServerEntry>,
    counts: Map<u32, usize>,
    a: u32,
    b: u32,
)
    requires
        is_choice(wanted, entries, counts, a),
        is_choice(wanted, entries, counts, b),
    ensures
        a == b,
        entries.len() > 0 ==> has_entry(entries, a),
{
    if entries.len() > 0 && !(wanted is Some && has_entry(entries, wanted->Some_0)) {
        let i = choose|i: int| #[trigger] first_fewest(entries, counts, i) && a == entries[i].id;
        let j = choose|j: int| #[trigger] first_fewest(entries, counts, j) && b == entries[j].id;
        assert(entries[i].id == a && entries[j].id == b);
    }
}

/// Losing a server takes its tunnels, and no other's.
pub proof fn law_lost_server_takes_its_tunnels(v: ClientView, server_id: u32, row: u32)
    ensures
        without_server(v, server_id).tunnels.contains_key(row) <==> v.tunnels.contains_key(row)
            && v.tunnels[row].server_id != server_id,
        without_server(v, server_id).tunnels.contains_key(row) ==> without_server(
            v,
            server_id,
        ).tunnels[row] == v.tunnels[row],
        rows_on(without_server(v, server_id), server_id) == Set::<u32>::empty(),
{
    assert(rows_on(without_server(v, server_id), server_id) =~= Set::<u32>::empty());
}

/// Every open tunnel has its address on record.
pub open spec fn addresses_known(v: ClientView) -> bool {
    forall|row: u32| #[trigger]
        v.tunnels.contains_key(row) ==> looked_up(v.local_addrs, v.tunnels[row].tunnel_id) == Some(
            v.tunnels[row].local_address,
        )
}

/// No two rows hold the same tunnel id.
pub open spec fn tunnel_ids_distinct(v: ClientView) -> bool {
    forall|a: u32, b: u32|
        #![trigger v.tunnels.contains_key(a), v.tunnels.contains_key(b)]
        v.tunnels.contains_key(a) && v.tunnels.contains_key(b) && a != b ==> v.tunnels[a].tunnel_id
            != v.tunnels[b].tunnel_id
}

/// The counter has handed out the id of every open tunnel: it lies between 1 and
/// the next one.
pub open spec fn ids_handed_out(v: ClientView, next: u32) -> bool {
    &&& next > 0
    &&& forall|row: u32| #[trigger]
        v.tunnels.contains_key(row) ==> 0 < v.tunnels[row].tunnel_id < next
}

/// A client's records and its counter of tunnel ids fit together: every open
/// tunnel has its address on record, no two have the same id, and the counter
/// has handed out every id.
pub open spec fn records_sound(v: ClientView, next: u32) -> bool {
    &&& addresses_known(v)
    &&& tunnel_ids_distinct(v)
    &&& ids_handed_out(v, next)
}

/// No open tunnel has this id.
pub open spec fn id_is_free(v: ClientView, tunnel_id: u32) -> bool {
    forall|row: u32| #[trigger]
        v.tunnels.contains_key(row) ==> v.tunnels[row].tunnel_id != tunnel_id
}

/// A client without tunnels, with a counter that has handed out nothing, is sound.
pub proof fn law_new_client_is_sound(v: ClientView)
    requires
        v.tunnels == Map::<u32, TunnelView>::empty(),
    ensures
        records_sound(v, 1),
{
}

/// The counter hands out an id that no open tunnel has, as long as it has not
/// wrapped around: once it is taken the records are sound with the next one, and
/// so they are once a tunnel is opened under it.
pub proof fn law_counter_hands_out_free_ids(
    v: ClientView,
    next: u32,
    t: DbTunnel,
    server_id: u32,
)
    requires
        records_sound(v, next),
        next < u32::MAX,
    ensures
        id_is_free(v, next),
        records_sound(v, next_tunnel_id(next)),
        records_sound(with_tunnel(v, t, next, server_id), next_tunnel_id(next)),
{
    assert(records_sound(v, next_tunnel_id(next)));
    law_opening_keeps_records(v, t, next, next_tunnel_id(next), server_id);
}

/// Opening a tunnel under an id that was handed out, and that no open tunnel has,
/// keeps the records sound.
pub proof fn law_opening_keeps_records(
    v: ClientView,
    t: DbTunnel,
    tunnel_id: u32,
    next: u32,
    server_id: u32,
)
    requires
        records_sound(v, next),
        0 < tunnel_id < next,
        id_is_free(v, tunnel_id),
    ensures
        records_sound(with_tunnel(v, t, tunnel_id, server_id), next),
{
    let w = with_tunnel(v, t, tunnel_id, server_id);
    assert forall|row: u32| #[trigger] w.tunnels.contains_key(row) implies looked_up(
        w.local_addrs,
        w.tunnels[row].tunnel_id,
    ) == Some(w.tunnels[row].local_address) by {
        if row != t.id {
            assert(v.tunnels.contains_key(row));
        }
    }
    assert forall|a: u32, b: u32|
        #![trigger w.tunnels.contains_key(a), w.tunnels.contains_key(b)]
        w.tunnels.contains_key(a) && w.tunnels.contains_key(b) && a != b implies w.tunnels[a].tunnel_id
        != w.tunnels[b].tunnel_id by {
        if a != t.id {
            assert(v.tunnels.contains_key(a));
        }
        if b != t.id {
            assert(v.tunnels.contains_key(b));
        }
    }
    assert forall|row: u32| #[trigger] w.tunnels.contains_key(row) implies 0
        < w.tunnels[row].tunnel_id < next by {
        if row != t.id {
            assert(v.tunnels.contains_key(row));
        }
    }
}

/// Taking tunnels away, one by one or with their server, keeps the records sound
/// and brings no tunnel in.
pub proof fn law_removal_keeps_records(v: ClientView, next: u32, row: u32, server_id: u32)
    requires
        records_sound(v, next),
        v.tunnels.contains_key(row),
    ensures
        records_sound(row_removed(v, row), next),
        records_sound(row_detached(v, row), next),
        records_sound(without_server(v, server_id), next),
        row_removed(v, row).tunnels.submap_of(v.tunnels),
        row_detached(v, row).tunnels.submap_of(v.tunnels),
        without_server(v, server_id).tunnels.submap_of(v.tunnels),
{
    let w = row_removed(v, row);
    assert forall|r: u32| #[trigger] w.tunnels.contains_key(r) implies looked_up(
        w.local_addrs,
        w.tunnels[r].tunnel_id,
    ) == Some(w.tunnels[r].local_address) by {
        assert(v.tunnels.contains_key(r));
    }
    assert forall|a: u32, b: u32|
        #![trigger w.tunnels.contains_key(a), w.tunnels.contains_key(b)]
        w.tunnels.contains_key(a) && w.tunnels.contains_key(b) && a != b implies w.tunnels[a].tunnel_id
        != w.tunnels[b].tunnel_id by {
        assert(v.tunnels.contains_key(a) && v.tunnels.contains_key(b));
    }
    let d = row_detached(v, row);
    assert(d.tunnels == w.tunnels && d.local_addrs == w.local_addrs);
    let l = without_server(v, server_id);
    assert forall|r: u32| #[trigger] l.tunnels.contains_key(r) implies looked_up(
        l.local_addrs,
        l.tunnels[r].tunnel_id,
    ) == Some(l.tunnels[r].local_address) by {
        assert(v.tunnels.contains_key(r));
        let tid = v.tunnels[r].tunnel_id;
        if tunnel_ids_on(v, server_id).contains(tid) {
            let q = choose|q: u32|
                rows_on(v, server_id).contains(q) && v.tunnels[q].tunnel_id == tid;
            assert(v.tunnels.contains_key(q));
        }
    }
    assert forall|a: u32, b: u32|
        #![trigger l.tunnels.contains_key(a), l.tunnels.contains_key(b)]
        l.tunnels.contains_key(a) && l.tunnels.contains_key(b) && a != b implies l.tunnels[a].tunnel_id
        != l.tunnels[b].tunnel_id by {
        assert(v.tunnels.contains_key(a) && v.tunnels.contains_key(b));
    }
    assert(w.tunnels.submap_of(v.tunnels));
    assert(l.tunnels.submap_of(v.tunnels));
    assert forall|r: u32| #[trigger] w.tunnels.contains_key(r) implies 0 < w.tunnels[r].tunnel_id
        < next by {
        assert(v.tunnels.contains_key(r));
    }
    assert forall|r: u32| #[trigger] l.tunnels.contains_key(r) implies 0 < l.tunnels[r].tunnel_id
        < next by {
        assert(v.tunnels.contains_key(r));
    }
}

/// No frame of a server unsettles the client's records, or brings a tunnel in: an
/// id that was free stays free.
pub proof fn law_frames_keep_records(
    next: u32,
    pre: ClientView,
    pre_stats: StatsView,
    frame: FrameView,
    post: ClientView,
    post_stats: StatsView,
    action: ClientAction,
)
    requires
        records_sound(pre, next),
        client_frame_step(pre, pre_stats, frame, post, post_stats, action),
    ensures
        records_sound(post, next),
        post.tunnels.submap_of(pre.tunnels),
        forall|id: u32| #[trigger] id_is_free(pre, id) ==> id_is_free(post, id),
{
    if let FrameView::Control(MessageView::CloseTunnel { tunnel_id }) = frame {
        assert forall|row: u32| #[trigger] post.tunnels.contains_key(row) implies looked_up(
            post.local_addrs,
            post.tunnels[row].tunnel_id,
        ) == Some(post.tunnels[row].local_address) by {
            assert(pre.tunnels.contains_key(row));
            if pre.tunnels[row].tunnel_id == tunnel_id {
                assert(row_holds(pre, row, tunnel_id));
                let gone = choose|r: u32| #[trigger]
                    row_holds(pre, r, tunnel_id) && post.tunnels
                        == pre.tunnels.remove(r);
                assert(pre.tunnels.contains_key(gone));
            }
        }
        assert forall|a: u32, b: u32|
            #![trigger post.tunnels.contains_key(a), post.tunnels.contains_key(b)]
            post.tunnels.contains_key(a) && post.tunnels.contains_key(b) && a
                != b implies post.tunnels[a].tunnel_id != post.tunnels[b].tunnel_id by {
            assert(pre.tunnels.contains_key(a) && pre.tunnels.contains_key(b));
        }
    }
    assert(post.tunnels.submap_of(pre.tunnels));
    assert forall|row: u32| #[trigger] post.tunnels.contains_key(row) implies 0
        < post.tunnels[row].tunnel_id < next by {
        assert(pre.tunnels.contains_key(row));
    }
    assert forall|id: u32| #[trigger] id_is_free(pre, id) implies id_is_free(post, id) by {
        assert forall|row: u32| #[trigger] post.tunnels.contains_key(row) implies post.tunnels[row].tunnel_id
            != id by {
            assert(pre.tunnels.contains_key(row));
        }
    }
}

/// A new stream leads to the address of its tunnel.
pub proof fn law_stream_leads_to_its_tunnel(
    pre: ClientView,
    pre_stats: StatsView,
    row: u32,
    stream_id: u64,
    is_udp: bool,
    post: ClientView,
    post_stats: StatsView,
    action: ClientAction,
)
    requires
        addresses_known(pre),
        pre.tunnels.contains_key(row),
        client_control_step(
            pre,
            pre_stats,
            MessageView::NewConnection {
                tunnel_id: pre.tunnels[row].tunnel_id,
                stream_id,
                is_udp,
            },
            post,
            post_stats,
            action,
        ),
    ensures
        action matches ClientAction::Connect { local_address, .. } && local_address@
            == pre.tunnels[row].local_address,
        post.streams.contains(stream_id),
{
}

/// A stream that the server announces and then closes leaves the client as it
/// was, and the number of its tunnel's active connections too.
pub proof fn law_closed_stream_leaves_no_trace(
    v: ClientView,
    stats: StatsView,
    tunnel_id: u32,
    stream_id: u64,
)
    requires
        !v.streams.contains(stream_id),
        !v.stream_tunnel.contains_key(stream_id),
        stats.tunnels.contains_key(tunnel_id),
        stats.tunnels[tunnel_id].active_connections < u64::MAX,
    ensures
        without_stream(
            (ClientView {
                streams: v.streams.insert(stream_id),
                stream_tunnel: v.stream_tunnel.insert(stream_id, tunnel_id),
                ..v
            }),
            stream_id,
        ) == v,
        connection_gone(
            connection_begun(stats, tunnel_id),
            tunnel_id,
        ).tunnels[tunnel_id].active_connections == stats.tunnels[tunnel_id].active_connections,
{
    assert(without_stream(
        ClientView {
            streams: v.streams.insert(stream_id),
            stream_tunnel: v.stream_tunnel.insert(stream_id, tunnel_id),
            ..v
        },
        stream_id,
    ) =~= v);
}

} // verus!
