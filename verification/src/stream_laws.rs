//! What each frame of a server does at the client, told by streams, tunnels and
//! local addresses; and when a client's tasks run and wait.

use vstd::prelude::*;
use vstd::string::*;
use crate::client::{client_control_step, client_frame_step, without_stream, ClientAction, ClientView};
use crate::client_tasks::{doubled, law_one_task_per_server, servers_to_spawn, servers_unknown};
use crate::config::ServerEntry;
use crate::protocol::{frame_at_start, frame_bytes, FrameView, MessageView};
use crate::protocol_laws::{law_read_inverts_write, sendable};
use crate::stats::StatsView;
use crate::udp_sessions::{packet_frames, Placement};
use crate::wire::lemma_be_bytes_len;

verus! {

/// A player that the server announces is connected under the same tunnel and
/// stream, over the same transport, UDP or TCP, to the address of the tunnel, or to
/// the usual local one where the tunnel is unknown. From then on the stream is open
/// and belongs to the tunnel. Nothing else changes.
pub proof fn law_announced_player_is_connected(
    pre: ClientView,
    pre_stats: StatsView,
    tunnel_id: u32,
    stream_id: u64,
    is_udp: bool,
    post: ClientView,
    post_stats: StatsView,
    action: ClientAction,
    sid: u64,
)
    requires
        client_control_step(
            pre,
            pre_stats,
            MessageView::NewConnection { tunnel_id, stream_id, is_udp },
            post,
            post_stats,
            action,
        ),
    ensures
        action matches ClientAction::Connect {
            tunnel_id: t,
            stream_id: s,
            is_udp: u,
            local_address,
        } && {
            &&& t == tunnel_id
            &&& s == stream_id
            &&& u == is_udp
            &&& pre.local_addrs.contains_key(tunnel_id) ==> local_address@
                == pre.local_addrs[tunnel_id]
            &&& !pre.local_addrs.contains_key(tunnel_id) ==> local_address@ == "127.0.0.1:25565"@
        },
        post.streams.contains(sid) <==> pre.streams.contains(sid) || sid == stream_id,
        post.stream_tunnel.contains_key(stream_id) && post.stream_tunnel[stream_id] == tunnel_id,
        sid != stream_id ==> post.stream_tunnel.contains_key(sid) == pre.stream_tunnel.contains_key(
            sid,
        ) && post.stream_tunnel[sid] == pre.stream_tunnel[sid],
        post.tunnels == pre.tunnels && post.local_addrs == pre.local_addrs,
        post.protocols == pre.protocols && post.tunnel_server == pre.tunnel_server,
        post_stats.total_bytes_in == pre_stats.total_bytes_in,
        post_stats.total_bytes_out == pre_stats.total_bytes_out,
        pre_stats.total_connections < u64::MAX ==> post_stats.total_connections
            == pre_stats.total_connections + 1,
        pre_stats.tunnels.contains_key(tunnel_id) && pre_stats.tunnels[tunnel_id].active_connections
            < u64::MAX ==> post_stats.tunnels[tunnel_id].active_connections
            == pre_stats.tunnels[tunnel_id].active_connections + 1,
{
}

/// A tunnel that the server has opened is reported with its id, and with its address
/// where that is on record. Nothing changes.
pub proof fn law_opened_tunnel_is_reported(
    pre: ClientView,
    pre_stats: StatsView,
    tunnel_id: u32,
    post: ClientView,
    post_stats: StatsView,
    action: ClientAction,
)
    requires
        client_control_step(
            pre,
            pre_stats,
            MessageView::TunnelOpened { tunnel_id },
            post,
            post_stats,
            action,
        ),
    ensures
        post == pre && post_stats == pre_stats,
        action matches ClientAction::Opened { tunnel_id: t, local_address } && {
            &&& t == tunnel_id
            &&& local_address is Some <==> pre.local_addrs.contains_key(tunnel_id)
            &&& local_address matches Some(a) ==> a@ == pre.local_addrs[tunnel_id]
        },
{
}

/// A tunnel that the server closes is no longer on record: a row that held its id is
/// gone, and its address and server with it. At most one row goes, and only one
/// that held the id; streams and transports stay, and nothing is counted.
pub proof fn law_closed_tunnel_is_forgotten(
    pre: ClientView,
    pre_stats: StatsView,
    tunnel_id: u32,
    post: ClientView,
    post_stats: StatsView,
    action: ClientAction,
    row: u32,
    other_row: u32,
    tid: u32,
)
    requires
        client_control_step(
            pre,
            pre_stats,
            MessageView::CloseTunnel { tunnel_id },
            post,
            post_stats,
            action,
        ),
    ensures
        action is Nothing && post_stats == pre_stats,
        post.streams == pre.streams && post.stream_tunnel == pre.stream_tunnel,
        post.protocols == pre.protocols,
        post.local_addrs.contains_key(tid) <==> pre.local_addrs.contains_key(tid) && tid
            != tunnel_id,
        post.local_addrs.contains_key(tid) ==> post.local_addrs[tid] == pre.local_addrs[tid],
        post.tunnel_server.contains_key(tid) <==> pre.tunnel_server.contains_key(tid) && tid
            != tunnel_id,
        post.tunnel_server.contains_key(tid) ==> post.tunnel_server[tid] == pre.tunnel_server[tid],
        pre.tunnels.contains_key(row) && pre.tunnels[row].tunnel_id != tunnel_id
            ==> post.tunnels.contains_key(row),
        post.tunnels.contains_key(row) ==> pre.tunnels.contains_key(row) && post.tunnels[row]
            == pre.tunnels[row],
        pre.tunnels.contains_key(row) && pre.tunnels.contains_key(other_row) && row != other_row
            ==> post.tunnels.contains_key(row) || post.tunnels.contains_key(other_row),
        pre.tunnels.contains_key(row) && pre.tunnels[row].tunnel_id == tunnel_id ==> exists|
            gone: u32,
        | #[trigger]
            pre.tunnels.contains_key(gone) && pre.tunnels[gone].tunnel_id == tunnel_id
                && !post.tunnels.contains_key(gone),
{
    if pre.tunnels.contains_key(row) && pre.tunnels[row].tunnel_id == tunnel_id {
        assert(crate::client::row_holds(pre, row, tunnel_id));
        let gone = choose|r: u32| #[trigger]
            crate::client::row_holds(pre, r, tunnel_id) && post.tunnels == pre.tunnels.remove(r);
        assert(pre.tunnels.contains_key(gone));
    }
}

/// The answer to a heartbeat, and a message that no server sends, change nothing.
pub proof fn law_other_messages_leave_the_client(
    pre: ClientView,
    pre_stats: StatsView,
    msg: MessageView,
    post: ClientView,
    post_stats: StatsView,
    action: ClientAction,
)
    requires
        !(msg is TunnelOpened) && !(msg is NewConnection) && !(msg is CloseTunnel),
        client_control_step(pre, pre_stats, msg, post, post_stats, action),
    ensures
        post == pre && post_stats == pre_stats,
        msg is Pong ==> action is Nothing,
        !(msg is Pong) ==> action is Unexpected,
{
}

/// A player's data goes to the local end of its stream as it is, and nowhere where
/// there is none. Either way its bytes count, for the tunnel of the stream too.
pub proof fn law_player_data_is_handed_on(
    pre: ClientView,
    pre_stats: StatsView,
    stream_id: u64,
    payload: Seq<u8>,
    post: ClientView,
    post_stats: StatsView,
    action: ClientAction,
    tid: u32,
)
    requires
        pre_stats.total_bytes_in + payload.len() <= u64::MAX,
        pre_stats.tunnels.contains_key(tid) ==> pre_stats.tunnels[tid].bytes_in + payload.len()
            <= u64::MAX,
        client_frame_step(
            pre,
            pre_stats,
            FrameView::Data { stream_id, payload },
            post,
            post_stats,
            action,
        ),
    ensures
        post == pre,
        pre.streams.contains(stream_id) ==> (action matches ClientAction::ToLocal {
            stream_id: s,
            payload: b,
        } && s == stream_id && b@ == payload),
        !pre.streams.contains(stream_id) ==> action is Nothing,
        post_stats.total_bytes_in == pre_stats.total_bytes_in + payload.len(),
        post_stats.total_bytes_out == pre_stats.total_bytes_out,
        post_stats.total_connections == pre_stats.total_connections,
        post_stats.tunnels.dom() == pre_stats.tunnels.dom(),
        pre_stats.tunnels.contains_key(tid) ==> post_stats.tunnels[tid].bytes_in
            == pre_stats.tunnels[tid].bytes_in + if pre.stream_tunnel.contains_key(stream_id)
            && pre.stream_tunnel[stream_id] == tid {
            payload.len() as int
        } else {
            0
        },
{
    assert(post_stats.tunnels.dom() =~= pre_stats.tunnels.dom());
}

/// A stream that the server closes is closed, and no other. Its tunnel has one active
/// connection less, where it had any.
pub proof fn law_closed_stream_is_forgotten(
    pre: ClientView,
    pre_stats: StatsView,
    stream_id: u64,
    post: ClientView,
    post_stats: StatsView,
    action: ClientAction,
    sid: u64,
    tid: u32,
)
    requires
        client_frame_step(
            pre,
            pre_stats,
            FrameView::StreamClose { stream_id },
            post,
            post_stats,
            action,
        ),
    ensures
        action is Nothing,
        post == without_stream(pre, stream_id),
        post.streams.contains(sid) <==> pre.streams.contains(sid) && sid != stream_id,
        post.stream_tunnel.contains_key(sid) <==> pre.stream_tunnel.contains_key(sid) && sid
            != stream_id,
        post.stream_tunnel.contains_key(sid) ==> post.stream_tunnel[sid] == pre.stream_tunnel[sid],
        post.tunnels == pre.tunnels && post.local_addrs == pre.local_addrs,
        post.protocols == pre.protocols && post.tunnel_server == pre.tunnel_server,
        post_stats.total_connections == pre_stats.total_connections,
        post_stats.tunnels.dom() == pre_stats.tunnels.dom(),
        pre_stats.tunnels.contains_key(tid) ==> post_stats.tunnels[tid].active_connections
            == pre_stats.tunnels[tid].active_connections - if pre.stream_tunnel.contains_key(
            stream_id,
        ) && pre.stream_tunnel[stream_id] == tid && pre_stats.tunnels[tid].active_connections > 0 {
            1int
        } else {
            0int
        },
{
    assert(post_stats.tunnels.dom() =~= pre_stats.tunnels.dom());
}

/// A control message is acted on as such.
pub proof fn law_control_frames_reach_the_client(
    pre: ClientView,
    pre_stats: StatsView,
    msg: MessageView,
    post: ClientView,
    post_stats: StatsView,
    action: ClientAction,
)
    requires
        client_frame_step(pre, pre_stats, FrameView::Control(msg), post, post_stats, action),
    ensures
        client_control_step(pre, pre_stats, msg, post, post_stats, action),
{
}

/// From a player's first UDP packet to the game server: what the relay server
/// writes for it makes the client connect the stream over UDP, to the address of
/// the tunnel.
pub proof fn law_udp_player_is_connected_over_udp(
    stream: u64,
    tunnel_id: u32,
    payload: Seq<u8>,
    rest: Seq<u8>,
    taken: nat,
    f: FrameView,
    pre: ClientView,
    pre_stats: StatsView,
    post: ClientView,
    post_stats: StatsView,
    action: ClientAction,
)
    requires
        frame_at_start(
            frame_bytes(packet_frames(Placement::New { stream_id: stream }, tunnel_id, payload)[0])
                + rest,
        ) == Ok::<(FrameView, nat), crate::protocol::FrameError>((f, taken)),
        client_frame_step(pre, pre_stats, f, post, post_stats, action),
    ensures
        action matches ClientAction::Connect {
            tunnel_id: t,
            stream_id: s,
            is_udp,
            local_address,
        } && {
            &&& t == tunnel_id
            &&& s == stream
            &&& is_udp
            &&& pre.local_addrs.contains_key(tunnel_id) ==> local_address@
                == pre.local_addrs[tunnel_id]
        },
        post.streams.contains(stream),
{
    lemma_announcement_is_sendable(tunnel_id, stream, true);
    law_read_inverts_write(
        FrameView::Control(
            MessageView::NewConnection { tunnel_id, stream_id: stream, is_udp: true },
        ),
        rest,
    );
}

/// From a player's TCP connection to the game server: what the relay server writes
/// for it makes the client connect the stream over TCP.
pub proof fn law_tcp_player_is_connected_over_tcp(
    stream: u64,
    tunnel_id: u32,
    rest: Seq<u8>,
    taken: nat,
    f: FrameView,
    pre: ClientView,
    pre_stats: StatsView,
    post: ClientView,
    post_stats: StatsView,
    action: ClientAction,
)
    requires
        frame_at_start(
            frame_bytes(
                FrameView::Control(
                    MessageView::NewConnection { tunnel_id, stream_id: stream, is_udp: false },
                ),
            ) + rest,
        ) == Ok::<(FrameView, nat), crate::protocol::FrameError>((f, taken)),
        client_frame_step(pre, pre_stats, f, post, post_stats, action),
    ensures
        action matches ClientAction::Connect { tunnel_id: t, stream_id: s, is_udp, .. } && t
            == tunnel_id && s == stream && !is_udp,
        post.streams.contains(stream),
{
    lemma_announcement_is_sendable(tunnel_id, stream, false);
    law_read_inverts_write(
        FrameView::Control(
            MessageView::NewConnection { tunnel_id, stream_id: stream, is_udp: false },
        ),
        rest,
    );
}

proof fn lemma_announcement_is_sendable(tunnel_id: u32, stream_id: u64, is_udp: bool)
    ensures
        sendable(
            FrameView::Control(MessageView::NewConnection { tunnel_id, stream_id, is_udp }),
        ),
{
    lemma_be_bytes_len(tunnel_id as nat, 4);
    lemma_be_bytes_len(stream_id as nat, 8);
}

/// A task starts for exactly the servers that the manager names, that are configured,
/// and that have no task or one that has finished; for each of them once.
pub proof fn law_tasks_start_where_needed(
    ids: Seq<u32>,
    tasks: Map<u32, bool>,
    entries: Seq<ServerEntry>,
    id: u32,
)
    ensures
        servers_to_spawn(ids, tasks, entries).no_duplicates(),
        servers_to_spawn(ids, tasks, entries).contains(id) <==> ids.contains(id) && (
        tasks.contains_key(id) ==> tasks[id]) && exists|e: int|
            0 <= e < entries.len() && (#[trigger] entries[e]).id == id,
{
    law_one_task_per_server(ids, tasks, entries, id);
}

/// The servers reported as missing are exactly those that the manager names, that
/// are not configured, and that have no running task.
pub proof fn law_unknown_servers_are_reported(
    ids: Seq<u32>,
    tasks: Map<u32, bool>,
    entries: Seq<ServerEntry>,
    id: u32,
)
    ensures
        servers_unknown(ids, tasks, entries).contains(id) <==> ids.contains(id) && (
        tasks.contains_key(id) ==> tasks[id]) && forall|e: int|
            0 <= e < entries.len() ==> (#[trigger] entries[e]).id != id,
{
    let p = |id: u32|
        crate::client_tasks::idle_server(tasks, id) && !crate::client::has_entry(entries, id);
    let all = servers_unknown(ids, tasks, entries);
    assert(all == ids.filter(p));
    ids.filter_lemma(p);
    if all.contains(id) {
        let i = all.index_of(id);
        assert(p(all[i]));
        ids.lemma_filter_contains_rev(p, id);
    }
    if ids.contains(id) && p(id) {
        let i = ids.index_of(id);
        assert(all.contains(ids[i]));
    }
}

/// A wait doubles until it reaches its limit.
pub proof fn law_waits_double(secs: u64, limit: u64)
    ensures
        secs + secs <= limit ==> doubled(secs, limit) == secs + secs,
        secs + secs >= limit ==> doubled(secs, limit) == limit,
{
}

/// Tasks start in the order of the manager's list: one more server at its end starts
/// last, if at all.
pub proof fn law_tasks_start_in_order(
    ids: Seq<u32>,
    tasks: Map<u32, bool>,
    entries: Seq<ServerEntry>,
    id: u32,
)
    ensures
        ({
            let before = servers_to_spawn(ids, tasks, entries);
            let after = servers_to_spawn(ids.push(id), tasks, entries);
            let wanted = (tasks.contains_key(id) ==> tasks[id]) && exists|e: int|
                0 <= e < entries.len() && (#[trigger] entries[e]).id == id;
            &&& wanted && !before.contains(id) ==> after == before.push(id)
            &&& !wanted || before.contains(id) ==> after == before
        }),
{
    assert(ids.push(id).drop_last() =~= ids);
}

} // verus!
