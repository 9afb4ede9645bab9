//! What holds of the relay server as a whole.

use vstd::prelude::*;
use vstd::string::*;
use crate::auth::{auth_error, AuthVerdict, NANOS_PER_SEC};
use crate::protocol::{FrameView, MessageView, TunnelProtocol};
use crate::registry::ConnRecord;
use crate::server::{control_step, frame_step, game_port, ordinary_end, refused_auth, streams_of,
    tunnel_closed, without_streams, ActiveTunnel, ControlAction, FrameAction, PeerAddr, ServerView,
    UdpPeer};
use crate::text::{holds_text, occurs_at};
use crate::udp_sessions::{placed, rebind_candidate, server_after, sessions_after, silent_addrs, silent_streams,
    sole_candidate, without_stale, Placement, Session, UDP_SESSION_TIMEOUT_SECS};

verus! {

/// Every TCP player's stream belongs to a tunnel.
pub open spec fn streams_have_tunnels(v: ServerView) -> bool {
    v.streams.subset_of(v.stream_tunnel.dom())
}

/// Closing a tunnel leaves none of its streams, and leaves every stream of
/// another tunnel, and every other tunnel, as it was.
pub proof fn law_close_takes_exactly_its_streams(v: ServerView, tunnel_id: u32, sid: u64, other: u32)
    requires
        streams_have_tunnels(v),
    ensures
        ({
            let post = tunnel_closed(v, tunnel_id);
            let own = v.stream_tunnel.contains_key(sid) && v.stream_tunnel[sid] == tunnel_id;
            &&& own ==> !post.streams.contains(sid) && !post.udp_peers.contains_key(sid)
                && !post.stream_tunnel.contains_key(sid)
            &&& !own ==> {
                &&& post.streams.contains(sid) == v.streams.contains(sid)
                &&& post.udp_peers.contains_key(sid) == v.udp_peers.contains_key(sid)
                &&& v.udp_peers.contains_key(sid) ==> post.udp_peers[sid] == v.udp_peers[sid]
                &&& post.stream_tunnel.contains_key(sid) == v.stream_tunnel.contains_key(sid)
                &&& v.stream_tunnel.contains_key(sid) ==> post.stream_tunnel[sid]
                    == v.stream_tunnel[sid]
            }
            &&& !post.tunnels.contains_key(tunnel_id)
            &&& other != tunnel_id ==> {
                &&& post.tunnels.contains_key(other) == v.tunnels.contains_key(other)
                &&& v.tunnels.contains_key(other) ==> post.tunnels[other] == v.tunnels[other]
            }
            &&& post.public_bind_address == v.public_bind_address
        }),
{
}

/// Closing a tunnel twice is closing it once.
pub proof fn law_close_is_idempotent(v: ServerView, tunnel_id: u32)
    ensures
        tunnel_closed(tunnel_closed(v, tunnel_id), tunnel_id) == tunnel_closed(v, tunnel_id),
{
    let once = tunnel_closed(v, tunnel_id);
    assert(streams_of(once, tunnel_id) =~= Set::<u64>::empty());
    assert(tunnel_closed(once, tunnel_id) =~= once);
}

/// Closing a tunnel to which nobody connected undoes opening it.
pub proof fn law_close_undoes_open(v: ServerView, t: ActiveTunnel)
    requires
        !v.tunnels.contains_key(t.tunnel_id),
        streams_of(v, t.tunnel_id) == Set::<u64>::empty(),
    ensures
        tunnel_closed(
            (ServerView { tunnels: v.tunnels.insert(t.tunnel_id, t), ..v }),
            t.tunnel_id,
        ) == v,
{
    let opened = ServerView { tunnels: v.tunnels.insert(t.tunnel_id, t), ..v };
    assert(streams_of(opened, t.tunnel_id) =~= Set::<u64>::empty());
    assert(tunnel_closed(opened, t.tunnel_id) =~= v);
}

/// No frame of a client leaves a TCP player's stream without its tunnel.
pub proof fn law_frames_keep_tunnels(
    pre: ServerView,
    pre_reg: Map<u64, ConnRecord>,
    frame: FrameView,
    db_id: u32,
    post: ServerView,
    post_reg: Map<u64, ConnRecord>,
    action: FrameAction,
)
    requires
        streams_have_tunnels(pre),
        frame_step(pre, pre_reg, frame, db_id, post, post_reg, action),
    ensures
        streams_have_tunnels(post),
{
}

/// A client opens no tunnel on a port that it may not use.
pub proof fn law_no_tunnel_on_refused_port(
    pre: ServerView,
    pre_reg: Map<u64, ConnRecord>,
    tunnel_id: u32,
    remote_port: u16,
    protocol: TunnelProtocol,
    db_id: u32,
    post: ServerView,
    post_reg: Map<u64, ConnRecord>,
    action: ControlAction,
)
    requires
        !game_port(remote_port),
        control_step(
            pre,
            pre_reg,
            MessageView::OpenTunnel { tunnel_id, remote_port, protocol },
            db_id,
            post,
            post_reg,
            action,
        ),
    ensures
        !(action is Open),
        post == pre,
{
}

/// A client never gets at a stream of which this session knows nothing: its
/// data goes nowhere, and nothing changes.
pub proof fn law_unknown_stream_is_dropped(
    pre: ServerView,
    pre_reg: Map<u64, ConnRecord>,
    stream_id: u64,
    payload: Seq<u8>,
    db_id: u32,
    post: ServerView,
    post_reg: Map<u64, ConnRecord>,
    action: FrameAction,
)
    requires
        !pre.streams.contains(stream_id),
        !pre.udp_peers.contains_key(stream_id),
        frame_step(
            pre,
            pre_reg,
            FrameView::Data { stream_id, payload },
            db_id,
            post,
            post_reg,
            action,
        ),
    ensures
        action is Dropped,
        post == pre,
        post_reg == pre_reg,
{
}

/// After a client closes a stream, data for that stream goes nowhere.
pub proof fn law_closed_stream_stays_closed(v: ServerView, stream_id: u64)
    ensures
        !without_streams(v, set![stream_id]).streams.contains(stream_id),
        !without_streams(v, set![stream_id]).udp_peers.contains_key(stream_id),
        !without_streams(v, set![stream_id]).stream_tunnel.contains_key(stream_id),
{
}

/// An address whose stream is open stays with its stream, whoever else shares
/// its IP.
pub proof fn law_open_address_keeps_stream(
    s: Map<PeerAddr, Session>,
    peers: Map<u64, UdpPeer>,
    peer: PeerAddr,
    now: u64,
    next_id: u64,
    p: Placement,
)
    requires
        s.contains_key(peer),
        peers.contains_key(s[peer].stream_id),
        placed(s, peers, peer, now, next_id, p),
    ensures
        p == (Placement::Known { stream_id: s[peer].stream_id }),
{
}

/// Players that share an IP are not merged: where two or more sessions of the
/// IP were heard of recently, an unknown port gets a stream of its own.
pub proof fn law_shared_ip_is_not_merged(
    s: Map<PeerAddr, Session>,
    peers: Map<u64, UdpPeer>,
    peer: PeerAddr,
    a: PeerAddr,
    b: PeerAddr,
    now: u64,
    next_id: u64,
    p: Placement,
)
    requires
        !s.contains_key(peer),
        a != b,
        rebind_candidate(s, peer, now, a),
        rebind_candidate(s, peer, now, b),
        placed(s, peers, peer, now, next_id, p),
    ensures
        p == (Placement::New { stream_id: next_id }),
{
    assert forall|c: PeerAddr| !#[trigger] sole_candidate(s, peer, now, c) by {
        assert(rebind_candidate(s, peer, now, a) && rebind_candidate(s, peer, now, b));
    }
}

/// A player whose port has changed keeps the stream, and answers follow: data
/// for the stream goes to the new address.
pub proof fn law_moved_player_keeps_stream(
    s: Map<PeerAddr, Session>,
    v: ServerView,
    from: UdpPeer,
    a: PeerAddr,
    now: u64,
    next_id: u64,
    p: Placement,
)
    requires
        !s.contains_key(from.addr),
        sole_candidate(s, from.addr, now, a),
        placed(s, v.udp_peers, from.addr, now, next_id, p),
    ensures
        p == (Placement::Moved { from: a, stream_id: s[a].stream_id }),
        server_after(v, p, from).udp_peers[s[a].stream_id] == from,
        !sessions_after(s, v.udp_peers, from.addr, now, p).contains_key(a),
        sessions_after(s, v.udp_peers, from.addr, now, p)[from.addr].stream_id == s[a].stream_id,
{
    let q = p->Moved_from;
    assert(sole_candidate(s, from.addr, now, q));
    assert(rebind_candidate(s, from.addr, now, q));
    assert(rebind_candidate(s, from.addr, now, a));
}

/// No two addresses share a stream.
pub open spec fn streams_distinct(s: Map<PeerAddr, Session>) -> bool {
    forall|a: PeerAddr, b: PeerAddr|
        #![trigger s.contains_key(a), s.contains_key(b)]
        s.contains_key(a) && s.contains_key(b) && a != b ==> s[a].stream_id != s[b].stream_id
}

/// Packets never bring two addresses to one stream, as long as the counter
/// hands out an id that no session has.
pub proof fn law_packets_keep_streams_distinct(
    s: Map<PeerAddr, Session>,
    peers: Map<u64, UdpPeer>,
    peer: PeerAddr,
    now: u64,
    next_id: u64,
    p: Placement,
)
    requires
        streams_distinct(s),
        forall|a: PeerAddr| #[trigger] s.contains_key(a) ==> s[a].stream_id != next_id,
        placed(s, peers, peer, now, next_id, p),
    ensures
        streams_distinct(sessions_after(s, peers, peer, now, p)),
{
    let cur = without_stale(s, peers, peer);
    let after = sessions_after(s, peers, peer, now, p);
    assert forall|a: PeerAddr, b: PeerAddr|
        #![trigger after.contains_key(a), after.contains_key(b)]
        after.contains_key(a) && after.contains_key(b) && a != b implies after[a].stream_id
        != after[b].stream_id by {
        if let Placement::Moved { from, stream_id } = p {
            assert(s.contains_key(from));
        }
        if a != peer {
            assert(s.contains_key(a));
        }
        if b != peer {
            assert(s.contains_key(b));
        }
        if p is Known {
            assert(s.contains_key(peer));
        }
    }
}

/// Whatever packets do, the address that sent one has a session after it, heard
/// of at that moment, and the packet went to that session's stream.
pub proof fn law_sender_has_a_session(
    s: Map<PeerAddr, Session>,
    peers: Map<u64, UdpPeer>,
    peer: PeerAddr,
    now: u64,
    p: Placement,
)
    ensures
        sessions_after(s, peers, peer, now, p).contains_key(peer),
        sessions_after(s, peers, peer, now, p)[peer] == (Session {
            stream_id: p.stream(),
            last_seen: now,
        }),
{
}

/// An address that is heard of within the session timeout is not dropped.
pub proof fn law_active_session_survives(
    s: Map<PeerAddr, Session>,
    peer: PeerAddr,
    now: u64,
)
    requires
        s.contains_key(peer),
        now - s[peer].last_seen <= UDP_SESSION_TIMEOUT_SECS * NANOS_PER_SEC,
    ensures
        !silent_addrs(s, now).contains(peer),
{
}

/// Every session whose address is silent for a second more than the session
/// timeout is dropped at the next sweep, however it came about.
pub proof fn law_silent_session_ends(
    s: Map<PeerAddr, Session>,
    peer: PeerAddr,
    now: u64,
)
    requires
        s.contains_key(peer),
        now - s[peer].last_seen >= (UDP_SESSION_TIMEOUT_SECS + 1) * NANOS_PER_SEC,
    ensures
        silent_addrs(s, now).contains(peer),
{
}

/// A session and the UDP table of one of its tunnels fit together: every TCP
/// stream belongs to a tunnel and is no UDP stream, no two addresses share a
/// stream, and the counter has handed out every id that is in use.
pub open spec fn session_sound(v: ServerView, s: Map<PeerAddr, Session>, next_id: u64) -> bool {
    &&& streams_have_tunnels(v)
    &&& v.streams.disjoint(v.udp_peers.dom())
    &&& forall|sid: u64| #[trigger] v.streams.contains(sid) ==> sid < next_id
    &&& forall|sid: u64| #[trigger] v.udp_peers.contains_key(sid) ==> sid < next_id
    &&& forall|sid: u64| #[trigger] v.stream_tunnel.contains_key(sid) ==> sid < next_id
    &&& forall|a: PeerAddr| #[trigger]
        s.contains_key(a) ==> s[a].stream_id < next_id && !v.streams.contains(s[a].stream_id)
    &&& streams_distinct(s)
}

/// A new session is sound.
pub proof fn law_new_session_is_sound(v: ServerView, next_id: u64)
    requires
        v.streams == Set::<u64>::empty(),
        v.udp_peers == Map::<u64, UdpPeer>::empty(),
        v.stream_tunnel == Map::<u64, u32>::empty(),
    ensures
        session_sound(v, Map::empty(), next_id),
{
}

/// No frame of a client makes a session unsound.
pub proof fn law_frames_keep_session_sound(
    pre: ServerView,
    s: Map<PeerAddr, Session>,
    next_id: u64,
    pre_reg: Map<u64, ConnRecord>,
    frame: FrameView,
    db_id: u32,
    post: ServerView,
    post_reg: Map<u64, ConnRecord>,
    action: FrameAction,
)
    requires
        session_sound(pre, s, next_id),
        frame_step(pre, pre_reg, frame, db_id, post, post_reg, action),
    ensures
        session_sound(post, s, next_id),
{
    assert forall|sid: u64| #[trigger] post.streams.contains(sid) implies sid < next_id by {
        assert(pre.streams.contains(sid));
    }
    assert forall|sid: u64| #[trigger] post.udp_peers.contains_key(sid) implies sid < next_id by {
        assert(pre.udp_peers.contains_key(sid));
    }
    assert forall|sid: u64| #[trigger]
        post.stream_tunnel.contains_key(sid) implies sid < next_id by {
        assert(pre.stream_tunnel.contains_key(sid));
    }
}

/// A player that connects gets a stream that nobody has, as long as the counter
/// has not wrapped around, and the session stays sound.
pub proof fn law_accept_keeps_session_sound(
    v: ServerView,
    s: Map<PeerAddr, Session>,
    next_id: u64,
    tunnel_id: u32,
)
    requires
        session_sound(v, s, next_id),
        next_id < u64::MAX,
    ensures
        !v.streams.contains(next_id),
        !v.udp_peers.contains_key(next_id),
        !v.stream_tunnel.contains_key(next_id),
        session_sound(
            (ServerView {
                streams: v.streams.insert(next_id),
                stream_tunnel: v.stream_tunnel.insert(next_id, tunnel_id),
                ..v
            }),
            s,
            (next_id + 1) as u64,
        ),
{
    let post = ServerView {
        streams: v.streams.insert(next_id),
        stream_tunnel: v.stream_tunnel.insert(next_id, tunnel_id),
        ..v
    };
    let up = (next_id + 1) as u64;
    assert forall|sid: u64| #[trigger] post.streams.contains(sid) implies sid < up by {
        if sid != next_id {
            assert(v.streams.contains(sid));
        }
    }
    assert forall|sid: u64| #[trigger] post.stream_tunnel.contains_key(sid) implies sid < up by {
        if sid != next_id {
            assert(v.stream_tunnel.contains_key(sid));
        }
    }
    assert forall|a: PeerAddr| #[trigger] s.contains_key(a) implies s[a].stream_id < up
        && !post.streams.contains(s[a].stream_id) by {
        assert(s[a].stream_id < next_id);
    }
}

/// A player that leaves, or cannot be reached, leaves the session sound.
pub proof fn law_leaving_keeps_session_sound(
    v: ServerView,
    s: Map<PeerAddr, Session>,
    next_id: u64,
    stream_id: u64,
)
    requires
        session_sound(v, s, next_id),
    ensures
        session_sound(
            (ServerView {
                streams: v.streams.remove(stream_id),
                stream_tunnel: v.stream_tunnel.remove(stream_id),
                ..v
            }),
            s,
            next_id,
        ),
{
    let post = ServerView {
        streams: v.streams.remove(stream_id),
        stream_tunnel: v.stream_tunnel.remove(stream_id),
        ..v
    };
    assert forall|sid: u64| #[trigger] post.streams.contains(sid) implies sid < next_id by {
        assert(v.streams.contains(sid));
    }
    assert forall|sid: u64| #[trigger]
        post.stream_tunnel.contains_key(sid) implies sid < next_id by {
        assert(v.stream_tunnel.contains_key(sid));
    }
}

/// A packet, wherever its address is placed, leaves the session sound, as long as
/// the counter has not wrapped around.
pub proof fn law_packets_keep_session_sound(
    v: ServerView,
    s: Map<PeerAddr, Session>,
    next_id: u64,
    from: UdpPeer,
    now: u64,
    p: Placement,
)
    requires
        session_sound(v, s, next_id),
        next_id < u64::MAX,
        placed(s, v.udp_peers, from.addr, now, next_id, p),
    ensures
        session_sound(
            server_after(v, p, from),
            sessions_after(s, v.udp_peers, from.addr, now, p),
            if p is New {
                (next_id + 1) as u64
            } else {
                next_id
            },
        ),
{
    let post = server_after(v, p, from);
    let after = sessions_after(s, v.udp_peers, from.addr, now, p);
    let up = if p is New {
        (next_id + 1) as u64
    } else {
        next_id
    };
    law_packets_keep_streams_distinct(s, v.udp_peers, from.addr, now, next_id, p);
    assert(p.stream() < up && !v.streams.contains(p.stream())) by {
        match p {
            Placement::Known { stream_id } => {
                assert(s.contains_key(from.addr));
            },
            Placement::Moved { from: old_addr, stream_id } => {
                assert(s.contains_key(old_addr));
            },
            Placement::New { stream_id } => {},
        }
    }
    assert forall|sid: u64| #[trigger] post.streams.contains(sid) implies sid < up by {
        assert(v.streams.contains(sid));
    }
    assert forall|sid: u64| #[trigger] post.udp_peers.contains_key(sid) implies sid < up by {
        if sid != p.stream() {
            assert(v.udp_peers.contains_key(sid));
        }
    }
    assert forall|sid: u64| #[trigger] post.stream_tunnel.contains_key(sid) implies sid < up by {
        if sid != p.stream() {
            assert(v.stream_tunnel.contains_key(sid));
        }
    }
    assert forall|a: PeerAddr| #[trigger] after.contains_key(a) implies after[a].stream_id < up
        && !post.streams.contains(after[a].stream_id) by {
        if a != from.addr {
            assert(s.contains_key(a));
        }
    }
}

/// Dropping silent sessions leaves the session sound.
pub proof fn law_expiry_keeps_session_sound(
    v: ServerView,
    s: Map<PeerAddr, Session>,
    next_id: u64,
    now: u64,
)
    requires
        session_sound(v, s, next_id),
    ensures
        session_sound(
            (ServerView {
                udp_peers: v.udp_peers.remove_keys(silent_streams(s, now)),
                stream_tunnel: v.stream_tunnel.remove_keys(silent_streams(s, now)),
                ..v
            }),
            s.remove_keys(silent_addrs(s, now)),
            next_id,
        ),
{
    let gone = silent_streams(s, now);
    let post = ServerView {
        udp_peers: v.udp_peers.remove_keys(gone),
        stream_tunnel: v.stream_tunnel.remove_keys(gone),
        ..v
    };
    let rest = s.remove_keys(silent_addrs(s, now));
    assert forall|sid: u64| v.streams.contains(sid) implies !gone.contains(sid) by {
        if gone.contains(sid) {
            let a = choose|a: PeerAddr| silent_addrs(s, now).contains(a) && s[a].stream_id == sid;
            assert(s.contains_key(a));
        }
    }
    assert(streams_have_tunnels(post)) by {
        assert forall|sid: u64| post.streams.contains(sid) implies post.stream_tunnel.dom().contains(
            sid,
        ) by {
            assert(v.stream_tunnel.dom().contains(sid));
        }
    }
    assert forall|sid: u64| #[trigger] post.udp_peers.contains_key(sid) implies sid < next_id by {
        assert(v.udp_peers.contains_key(sid));
    }
    assert forall|sid: u64| #[trigger]
        post.stream_tunnel.contains_key(sid) implies sid < next_id by {
        assert(v.stream_tunnel.contains_key(sid));
    }
    assert forall|a: PeerAddr| #[trigger] rest.contains_key(a) implies rest[a].stream_id < next_id
        && !post.streams.contains(rest[a].stream_id) by {
        assert(s.contains_key(a));
    }
    assert(streams_distinct(rest)) by {
        assert forall|a: PeerAddr, b: PeerAddr|
            #![trigger rest.contains_key(a), rest.contains_key(b)]
            rest.contains_key(a) && rest.contains_key(b) && a != b implies rest[a].stream_id
            != rest[b].stream_id by {
            assert(s.contains_key(a) && s.contains_key(b));
        }
    }
}

proof fn lemma_holds_itself(t: Seq<char>)
    ensures
        holds_text(t, t),
{
    assert(t.subrange(0, t.len() as int) =~= t);
    assert(occurs_at(t, t, 0));
}

/// A refused client is reported with a warning, whatever the refusal.
pub proof fn law_refusals_are_warnings(v: AuthVerdict)
    ensures
        auth_error(v) matches Some(e) ==> refused_auth(e) && !ordinary_end(e),
{
    if let Some(e) = auth_error(v) {
        lemma_holds_itself(e);
        reveal_strlit("close_notify");
        reveal_strlit("peer closed");
        reveal_strlit("idle timeout");
        reveal_strlit("authentication failed");
        reveal_strlit("pre-auth expired");
        reveal_strlit("not pre-authorized");
        reveal_strlit("expected Auth frame");
        reveal_strlit("authentication timeout");
        assert(!holds_text(e, "close_notify"@)) by {
            assert forall|i: int| !occurs_at(e, "close_notify"@, i) by {
                if occurs_at(e, "close_notify"@, i) {
                    assert(e.subrange(i, i + 12)[5] == '_');
                }
            }
        }
        assert(!holds_text(e, "peer closed"@)) by {
            assert forall|i: int| !occurs_at(e, "peer closed"@, i) by {
                if occurs_at(e, "peer closed"@, i) {
                    assert(e.subrange(i, i + 11)[4] == ' ');
                    assert(e.subrange(i, i + 11)[5] == 'c');
                }
            }
        }
        assert(!holds_text(e, "idle timeout"@)) by {
            assert forall|i: int| !occurs_at(e, "idle timeout"@, i) by {
                if occurs_at(e, "idle timeout"@, i) {
                    assert(e.subrange(i, i + 12)[3] == 'e');
                    assert(e.subrange(i, i + 12)[4] == ' ');
                }
            }
        }
    }
}

} // verus!
