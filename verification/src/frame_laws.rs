//! What each frame of a client does at the relay server, told by tunnels, ports,
//! streams and counts.

use vstd::prelude::*;
use vstd::string::*;
use crate::client_tasks::{HEARTBEAT_INTERVAL_SECS, SERVER_IDLE_TIMEOUT_SECS};
use crate::maps::lists;
use crate::protocol::{FrameView, MessageView, TunnelProtocol};
use crate::registry::{fresh_record, gain, lists_connections, looked_up, ticked, wrapped_sum,
    ConnRecord, ConnectionInfo};
use crate::server::{control_step, db_id_of, frame_step, ordinary_end, refused_auth, scanner_noise,
    streams_of, Admission, ControlAction, FrameAction, ServerView, CLIENT_IDLE_TIMEOUT_SECS,
    MAX_CONNECTIONS};
use crate::text::{decimal_text, holds_text};

verus! {

/// A request for a tunnel is answered at once, and changes nothing yet. On a
/// privileged port other than 80 and 443, and on 9000 and 9001, the tunnel is
/// closed; under an id that is open already nothing happens; else the tunnel is
/// to be opened, as it was asked for, on that port of the public address, for TCP
/// unless it is for UDP alone, and for UDP unless it is for TCP alone.
pub proof fn law_tunnel_is_opened_as_asked(
    pre: ServerView,
    pre_reg: Map<u64, ConnRecord>,
    tunnel_id: u32,
    remote_port: u16,
    protocol: TunnelProtocol,
    db_id: u32,
    post: ServerView,
    post_reg: Map<u64, ConnRecord>,
    action: ControlAction,
)
    requires
        control_step(
            pre,
            pre_reg,
            MessageView::OpenTunnel { tunnel_id, remote_port, protocol },
            db_id,
            post,
            post_reg,
            action,
        ),
    ensures
        post == pre && post_reg == pre_reg,
        ({
            let refused = (remote_port < 1024 && remote_port != 80 && remote_port != 443)
                || remote_port == 9000 || remote_port == 9001;
            &&& refused ==> (action matches ControlAction::Send(m) && m@
                == (MessageView::CloseTunnel { tunnel_id }))
            &&& !refused && pre.tunnels.contains_key(tunnel_id) ==> action is Duplicate
            &&& !refused && !pre.tunnels.contains_key(tunnel_id) ==> {
                &&& action matches ControlAction::Open(plan)
                &&& plan.tunnel.tunnel_id == tunnel_id
                &&& plan.tunnel.remote_port == remote_port
                &&& plan.tunnel.protocol == protocol
                &&& plan.tunnel.db_id == db_id
                &&& plan.address@ == pre.public_bind_address + seq![':'] + decimal_text(
                    remote_port as nat,
                )
                &&& plan.tcp <==> protocol is Tcp || protocol is Both
                &&& plan.udp <==> protocol is Udp || protocol is Both
            }
        }),
{
    reveal_strlit(":");
    assert(":"@ =~= seq![':']);
}

/// A request to close a tunnel takes the tunnel, its players' streams and their
/// records, and no others; the client is told of each of these streams once, and
/// the listeners stop where the tunnel was open.
pub proof fn law_tunnel_is_closed_as_asked(
    pre: ServerView,
    pre_reg: Map<u64, ConnRecord>,
    tunnel_id: u32,
    db_id: u32,
    post: ServerView,
    post_reg: Map<u64, ConnRecord>,
    action: ControlAction,
    sid: u64,
    other: u32,
)
    requires
        control_step(
            pre,
            pre_reg,
            MessageView::CloseTunnel { tunnel_id },
            db_id,
            post,
            post_reg,
            action,
        ),
    ensures
        ({
            let own = pre.stream_tunnel.contains_key(sid) && pre.stream_tunnel[sid] == tunnel_id;
            &&& action matches ControlAction::Close(plan)
            &&& plan.tunnel_id == tunnel_id
            &&& plan.was_open == pre.tunnels.contains_key(tunnel_id)
            &&& plan.streams@.contains(sid) <==> own
            &&& plan.streams@.no_duplicates()
            &&& post.streams.contains(sid) <==> pre.streams.contains(sid) && !own
            &&& post.udp_peers.contains_key(sid) <==> pre.udp_peers.contains_key(sid) && !own
            &&& post.udp_peers.contains_key(sid) ==> post.udp_peers[sid] == pre.udp_peers[sid]
            &&& post.stream_tunnel.contains_key(sid) <==> pre.stream_tunnel.contains_key(sid)
                && !own
            &&& post.stream_tunnel.contains_key(sid) ==> post.stream_tunnel[sid]
                == pre.stream_tunnel[sid]
            &&& post_reg.contains_key(sid) <==> pre_reg.contains_key(sid) && !own
            &&& post_reg.contains_key(sid) ==> post_reg[sid] == pre_reg[sid]
            &&& post.tunnels.contains_key(other) <==> pre.tunnels.contains_key(other) && other
                != tunnel_id
            &&& post.tunnels.contains_key(other) ==> post.tunnels[other] == pre.tunnels[other]
            &&& post.public_bind_address == pre.public_bind_address
        }),
{
    let own = streams_of(pre, tunnel_id);
    assert(own.contains(sid) <==> pre.stream_tunnel.contains_key(sid) && pre.stream_tunnel[sid]
        == tunnel_id);
    if let ControlAction::Close(plan) = action {
        assert(own.contains(sid) <==> plan.streams@.contains(sid));
    }
}

/// A heartbeat is answered, and changes nothing. A message that only a server sends,
/// or that comes after authentication, changes nothing either.
pub proof fn law_other_messages_change_nothing(
    pre: ServerView,
    pre_reg: Map<u64, ConnRecord>,
    msg: MessageView,
    db_id: u32,
    post: ServerView,
    post_reg: Map<u64, ConnRecord>,
    action: ControlAction,
)
    requires
        !(msg is OpenTunnel) && !(msg is CloseTunnel),
        control_step(pre, pre_reg, msg, db_id, post, post_reg, action),
    ensures
        post == pre && post_reg == pre_reg,
        msg is Ping ==> (action matches ControlAction::TrySend(m) && m@ == MessageView::Pong),
        !(msg is Ping) ==> action is Unexpected,
{
}

/// What a client closes is gone, with its record; nothing else is.
pub proof fn law_stream_is_closed_as_asked(
    pre: ServerView,
    pre_reg: Map<u64, ConnRecord>,
    stream_id: u64,
    db_id: u32,
    post: ServerView,
    post_reg: Map<u64, ConnRecord>,
    action: FrameAction,
    sid: u64,
)
    requires
        frame_step(
            pre,
            pre_reg,
            FrameView::StreamClose { stream_id },
            db_id,
            post,
            post_reg,
            action,
        ),
    ensures
        action is Closed,
        post.tunnels == pre.tunnels && post.public_bind_address == pre.public_bind_address,
        post.streams.contains(sid) <==> pre.streams.contains(sid) && sid != stream_id,
        post.udp_peers.contains_key(sid) <==> pre.udp_peers.contains_key(sid) && sid != stream_id,
        post.udp_peers.contains_key(sid) ==> post.udp_peers[sid] == pre.udp_peers[sid],
        post.stream_tunnel.contains_key(sid) <==> pre.stream_tunnel.contains_key(sid) && sid
            != stream_id,
        post.stream_tunnel.contains_key(sid) ==> post.stream_tunnel[sid] == pre.stream_tunnel[sid],
        post_reg.contains_key(sid) <==> pre_reg.contains_key(sid) && sid != stream_id,
        post_reg.contains_key(sid) ==> post_reg[sid] == pre_reg[sid],
{
}

/// Data for a player changes no table. Of a UDP player, and of nobody else, as many
/// more bytes count as went out.
pub proof fn law_data_to_player_is_counted(
    pre: ServerView,
    pre_reg: Map<u64, ConnRecord>,
    stream_id: u64,
    payload: Seq<u8>,
    db_id: u32,
    post: ServerView,
    post_reg: Map<u64, ConnRecord>,
    action: FrameAction,
    sid: u64,
)
    requires
        pre_reg.contains_key(stream_id) ==> pre_reg[stream_id].bytes_out + payload.len()
            <= u64::MAX,
        payload.len() <= u64::MAX,
        frame_step(
            pre,
            pre_reg,
            FrameView::Data { stream_id, payload },
            db_id,
            post,
            post_reg,
            action,
        ),
    ensures
        post == pre,
        post_reg.dom() == pre_reg.dom(),
        ({
            let counts = sid == stream_id && !pre.streams.contains(sid)
                && pre.udp_peers.contains_key(sid);
            let r = post_reg[sid];
            let q = pre_reg[sid];
            pre_reg.contains_key(sid) ==> {
                &&& r.bytes_out == q.bytes_out + if counts {
                    payload.len() as int
                } else {
                    0
                }
                &&& r.bytes_in == q.bytes_in
                &&& r.db_id == q.db_id && r.tunnel_id == q.tunnel_id && r.peer_ip == q.peer_ip
                &&& r.connected_at == q.connected_at
                &&& r.bytes_in_per_sec == q.bytes_in_per_sec
                &&& r.bytes_out_per_sec == q.bytes_out_per_sec
            }
        }),
{
    assert(post_reg.dom() =~= pre_reg.dom());
}

/// Data goes to the TCP player of its stream, else to the UDP player of its stream,
/// else nowhere, and arrives as it is.
pub proof fn law_data_goes_to_its_player(
    pre: ServerView,
    pre_reg: Map<u64, ConnRecord>,
    stream_id: u64,
    payload: Seq<u8>,
    db_id: u32,
    post: ServerView,
    post_reg: Map<u64, ConnRecord>,
    action: FrameAction,
)
    requires
        frame_step(
            pre,
            pre_reg,
            FrameView::Data { stream_id, payload },
            db_id,
            post,
            post_reg,
            action,
        ),
    ensures
        pre.streams.contains(stream_id) ==> (action matches FrameAction::ToPlayer {
            stream_id: s,
            payload: b,
        } && s == stream_id && b@ == payload),
        !pre.streams.contains(stream_id) && pre.udp_peers.contains_key(stream_id) ==> (
        action matches FrameAction::ToPeer { peer, payload: b } && peer.addr
            == pre.udp_peers[stream_id].addr && peer.tunnel_id
            == pre.udp_peers[stream_id].tunnel_id && b@ == payload),
        !pre.streams.contains(stream_id) && !pre.udp_peers.contains_key(stream_id)
            ==> action is Dropped,
{
}

/// A control message is acted on as such, whatever else the frame carried.
pub proof fn law_control_frames_are_messages(
    pre: ServerView,
    pre_reg: Map<u64, ConnRecord>,
    msg: MessageView,
    db_id: u32,
    post: ServerView,
    post_reg: Map<u64, ConnRecord>,
    action: FrameAction,
)
    requires
        frame_step(pre, pre_reg, FrameView::Control(msg), db_id, post, post_reg, action),
    ensures
        action matches FrameAction::Control(a) && control_step(
            pre,
            pre_reg,
            msg,
            db_id,
            post,
            post_reg,
            a,
        ),
{
}

/// A player counts under the row of its tunnel, and under none where the tunnel is
/// not open.
pub proof fn law_player_counts_under_its_row(v: ServerView, tunnel_id: u32)
    ensures
        v.tunnels.contains_key(tunnel_id) ==> db_id_of(v, tunnel_id) == v.tunnels[tunnel_id].db_id,
        !v.tunnels.contains_key(tunnel_id) ==> db_id_of(v, tunnel_id) == 0,
{
}

/// A new player is on record with its tunnel, row, address and time, and nothing
/// counted.
pub proof fn law_new_player_has_no_traffic(db_id: u32, tunnel_id: u32, peer_ip: String, now: u64)
    ensures
        ({
            let r = fresh_record(db_id, tunnel_id, peer_ip, now);
            &&& r.db_id == db_id
            &&& r.tunnel_id == tunnel_id
            &&& r.peer_ip == peer_ip
            &&& r.connected_at == now
            &&& r.bytes_in == 0 && r.bytes_out == 0
            &&& r.bytes_in_per_sec == 0 && r.bytes_out_per_sec == 0
        }),
{
}

/// Counters add up, and start over at 2 to the power of 64.
pub proof fn law_counters_wrap_around(a: u64, b: u64)
    ensures
        a + b < 18446744073709551616 ==> wrapped_sum(a, b) == a + b,
        a + b >= 18446744073709551616 ==> wrapped_sum(a, b) == a + b - 18446744073709551616,
{
}

/// A rate is by how much a counter rose since the previous tick; it is nothing for
/// a counter that fell, and nothing for a connection that the previous tick did not
/// see. Nothing but the rates changes.
pub proof fn law_rates_are_rises(r: ConnRecord, before: Option<(u64, u64)>)
    ensures
        ({
            let t = ticked(r, before);
            &&& before is None ==> t.bytes_in_per_sec == 0 && t.bytes_out_per_sec == 0
            &&& before matches Some((i, o)) ==> {
                &&& i <= r.bytes_in ==> i + t.bytes_in_per_sec == r.bytes_in
                &&& i > r.bytes_in ==> t.bytes_in_per_sec == 0
                &&& o <= r.bytes_out ==> o + t.bytes_out_per_sec == r.bytes_out
                &&& o > r.bytes_out ==> t.bytes_out_per_sec == 0
            }
            &&& t.bytes_in == r.bytes_in && t.bytes_out == r.bytes_out
            &&& t.db_id == r.db_id && t.tunnel_id == r.tunnel_id && t.peer_ip == r.peer_ip
            &&& t.connected_at == r.connected_at
        }),
{
}

/// Every player connection is listed exactly once, as it is on record, with the
/// whole seconds that it has lasted; nothing else is listed.
pub proof fn law_list_tells_every_connection(
    infos: Seq<ConnectionInfo>,
    keys: Seq<u64>,
    m: Map<u64, ConnRecord>,
    now: u64,
    sid: u64,
)
    requires
        lists_connections(infos, keys, m, now),
    ensures
        m.contains_key(sid) <==> exists|j: int|
            0 <= j < infos.len() && (#[trigger] infos[j]).stream_id == sid,
        forall|j: int, k: int|
            0 <= j < k < infos.len() ==> (#[trigger] infos[j]).stream_id != (
            #[trigger] infos[k]).stream_id,
        forall|j: int|
            0 <= j < infos.len() ==> {
                let i = #[trigger] infos[j];
                let r = m[i.stream_id];
                &&& i.db_id == r.db_id && i.tunnel_id == r.tunnel_id
                &&& i.peer_ip@ == r.peer_ip@
                &&& i.bytes_in == r.bytes_in && i.bytes_out == r.bytes_out
                &&& i.bytes_in_per_sec == r.bytes_in_per_sec
                &&& i.bytes_out_per_sec == r.bytes_out_per_sec
                &&& r.connected_at <= now ==> i.connected_secs * 1_000_000_000 <= now
                    - r.connected_at < (i.connected_secs + 1) * 1_000_000_000
            },
{
    if m.contains_key(sid) {
        assert(m.dom().contains(sid));
        let j = keys.index_of(sid);
        assert(infos[j].stream_id == sid);
    }
    if exists|j: int| 0 <= j < infos.len() && (#[trigger] infos[j]).stream_id == sid {
        let j = choose|j: int| 0 <= j < infos.len() && (#[trigger] infos[j]).stream_id == sid;
        assert(keys.contains(keys[j]));
        assert(m.dom().contains(sid));
    }
    assert forall|j: int, k: int| 0 <= j < k < infos.len() implies (
    #[trigger] infos[j]).stream_id != (#[trigger] infos[k]).stream_id by {
        assert(keys[j] != keys[k]);
    }
}

/// How the end of a session is reported follows from what its text holds.
pub proof fn law_session_ends_are_told_apart(msg: Seq<char>)
    ensures
        ordinary_end(msg) <==> holds_text(msg, "close_notify"@) || holds_text(msg, "peer closed"@)
            || holds_text(msg, "idle timeout"@),
        refused_auth(msg) <==> holds_text(msg, "malformed auth frame"@) || holds_text(
            msg,
            "expected Auth frame"@,
        ) || holds_text(msg, "authentication timeout"@) || holds_text(
            msg,
            "authentication failed"@,
        ) || holds_text(msg, "pre-auth expired"@) || holds_text(msg, "not pre-authorized"@)
            || holds_text(msg, "Auth payload"@),
        scanner_noise(msg) <==> holds_text(msg, "InvalidContentType"@) || holds_text(
            msg,
            "close_notify"@,
        ) || holds_text(msg, "UnknownIssuer"@) || holds_text(msg, "Tls12NotOffered"@)
            || holds_text(msg, "PeerIncompatible"@) || holds_text(
            msg,
            "Connection reset by peer"@,
        ) || holds_text(msg, "ConnectionReset"@) || holds_text(msg, "code: 104"@),
{
}

/// Looking a key up gives what the map holds for it, and nothing for other keys.
pub proof fn law_look_up_gives_what_is_held<K, V>(m: Map<K, V>, k: K)
    ensures
        looked_up(m, k) matches Some(v) ==> m.contains_key(k) && v == m[k],
        looked_up(m, k) is None <==> !m.contains_key(k),
{
}

/// A listing holds each member of a set once, and nothing else.
pub proof fn law_listing_is_complete<K>(keys: Seq<K>, dom: Set<K>, i: int, j: int, k: K)
    requires
        lists(keys, dom),
    ensures
        0 <= i < keys.len() ==> dom.contains(keys[i]),
        0 <= i < j < keys.len() ==> keys[i] != keys[j],
        dom.contains(k) ==> exists|n: int| 0 <= n < keys.len() && keys[n] == k,
        keys.len() == dom.len() && dom.finite(),
{
    if 0 <= i < keys.len() {
        assert(keys.contains(keys[i]));
    }
    assert forall|x: K| keys.to_set().contains(x) <==> dom.contains(x) by {}
    assert(keys.to_set() =~= dom);
    keys.unique_seq_to_set();
}

/// By how much a counter rose.
pub proof fn law_gain_is_the_rise(now: u64, before: u64)
    ensures
        before <= now ==> before + gain(now, before) == now,
        before > now ==> gain(now, before) == 0,
{
}

/// A server never has more than 200 client connections, and takes one more as long as it
/// has fewer.
pub proof fn law_two_hundred_clients_are_taken(a: Admission)
    ensures
        a.wf() <==> a@ <= 200,
        a@ < MAX_CONNECTIONS <==> a@ < 200,
{
}

/// Heartbeats keep a quiet connection: it takes two minutes of silence, which is 24 of
/// them in a row, for either end to give the other up.
pub proof fn law_heartbeats_keep_connections(missed: nat)
    ensures
        missed * HEARTBEAT_INTERVAL_SECS < CLIENT_IDLE_TIMEOUT_SECS <==> missed < 24,
        missed * HEARTBEAT_INTERVAL_SECS < SERVER_IDLE_TIMEOUT_SECS <==> missed < 24,
{
}

} // verus!
