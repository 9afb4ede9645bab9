//! What becomes of a UDP player's packets, told by addresses, times and streams.

use vstd::prelude::*;
use vstd::string::*;
use crate::protocol::{Frame, FrameView, MessageView};
use crate::registry::{fresh_record, ConnRecord};
use crate::server::{PeerAddr, ServerView, UdpPeer};
use crate::udp_sessions::{frame_views, packet_frames, placed, rebind_candidate, registry_after,
    server_after, sessions_after, silent_addrs, silent_streams, sole_candidate, streams_of_addrs,
    without_stale, Placement, Session};

verus! {

/// A player whose port has changed keeps the stream: where one other address of the
/// same IP, whatever its port, was heard of within the last minute, and no second
/// one, a packet from an address without an open stream goes to that one's stream.
pub proof fn law_port_change_keeps_stream(
    s: Map<PeerAddr, Session>,
    peers: Map<u64, UdpPeer>,
    peer: PeerAddr,
    a: PeerAddr,
    now: u64,
    next_id: u64,
    p: Placement,
)
    requires
        s.contains_key(peer) ==> !peers.contains_key(s[peer].stream_id),
        s.contains_key(a),
        a != peer,
        a.is_v6 == peer.is_v6,
        a.ip == peer.ip,
        now - s[a].last_seen < 60_000_000_000,
        forall|b: PeerAddr| #[trigger]
            s.contains_key(b) && b != peer && b.is_v6 == peer.is_v6 && b.ip == peer.ip && now
                - s[b].last_seen < 60_000_000_000 ==> b == a,
        placed(s, peers, peer, now, next_id, p),
    ensures
        p == (Placement::Moved { from: a, stream_id: s[a].stream_id }),
{
    let cur = without_stale(s, peers, peer);
    assert(rebind_candidate(cur, peer, now, a));
    assert forall|b: PeerAddr| rebind_candidate(cur, peer, now, b) implies b == a by {
        assert(s.contains_key(b));
    }
    assert(sole_candidate(cur, peer, now, a));
    let q = p->Moved_from;
    assert(sole_candidate(cur, peer, now, q));
    assert(rebind_candidate(cur, peer, now, q));
}

/// Where no other address of the same IP was heard of within the last minute, a
/// packet from an address without an open stream begins a new one.
pub proof fn law_lone_address_gets_new_stream(
    s: Map<PeerAddr, Session>,
    peers: Map<u64, UdpPeer>,
    peer: PeerAddr,
    now: u64,
    next_id: u64,
    p: Placement,
)
    requires
        s.contains_key(peer) ==> !peers.contains_key(s[peer].stream_id),
        forall|b: PeerAddr| #[trigger]
            s.contains_key(b) && b != peer ==> b.is_v6 != peer.is_v6 || b.ip != peer.ip || now
                - s[b].last_seen >= 60_000_000_000,
        placed(s, peers, peer, now, next_id, p),
    ensures
        p == (Placement::New { stream_id: next_id }),
{
    let cur = without_stale(s, peers, peer);
    assert forall|b: PeerAddr| !#[trigger] sole_candidate(cur, peer, now, b) by {
        if sole_candidate(cur, peer, now, b) {
            assert(rebind_candidate(cur, peer, now, b));
            assert(s.contains_key(b));
        }
    }
}

/// Where two other addresses of the same IP were heard of within the last minute, a
/// packet from an address without an open stream is taken for neither.
pub proof fn law_crowded_ip_gets_new_stream(
    s: Map<PeerAddr, Session>,
    peers: Map<u64, UdpPeer>,
    peer: PeerAddr,
    a: PeerAddr,
    b: PeerAddr,
    now: u64,
    next_id: u64,
    p: Placement,
)
    requires
        s.contains_key(peer) ==> !peers.contains_key(s[peer].stream_id),
        s.contains_key(a) && s.contains_key(b),
        a != b && a != peer && b != peer,
        a.is_v6 == peer.is_v6 && a.ip == peer.ip,
        b.is_v6 == peer.is_v6 && b.ip == peer.ip,
        now - s[a].last_seen < 60_000_000_000,
        now - s[b].last_seen < 60_000_000_000,
        placed(s, peers, peer, now, next_id, p),
    ensures
        p == (Placement::New { stream_id: next_id }),
{
    let cur = without_stale(s, peers, peer);
    assert forall|c: PeerAddr| !#[trigger] sole_candidate(cur, peer, now, c) by {
        assert(rebind_candidate(cur, peer, now, a) && rebind_candidate(cur, peer, now, b));
    }
}

/// An address with an open stream keeps it, at any time and whoever shares its IP.
pub proof fn law_known_address_keeps_stream(
    s: Map<PeerAddr, Session>,
    peers: Map<u64, UdpPeer>,
    peer: PeerAddr,
    now: u64,
    next_id: u64,
    p: Placement,
)
    requires
        s.contains_key(peer),
        peers.contains_key(s[peer].stream_id),
        placed(s, peers, peer, now, next_id, p),
    ensures
        p == (Placement::Known { stream_id: s[peer].stream_id }),
{
}

/// After a packet its sender has a session, heard of just now. No other address
/// gets, loses or changes one, but for the address that a player has moved from.
pub proof fn law_packet_leaves_other_sessions(
    s: Map<PeerAddr, Session>,
    peers: Map<u64, UdpPeer>,
    peer: PeerAddr,
    now: u64,
    next_id: u64,
    p: Placement,
    other: PeerAddr,
)
    requires
        placed(s, peers, peer, now, next_id, p),
        other != peer,
    ensures
        ({
            let after = sessions_after(s, peers, peer, now, p);
            &&& after.contains_key(peer)
            &&& after[peer].last_seen == now
            &&& p matches Placement::Known { stream_id } ==> after[peer].stream_id == stream_id
            &&& p matches Placement::New { stream_id } ==> after[peer].stream_id == stream_id
            &&& p matches Placement::Moved { from, stream_id } ==> after[peer].stream_id
                == stream_id && from != peer && !after.contains_key(from)
            &&& !(p matches Placement::Moved { from, .. } && from == other) ==> {
                &&& after.contains_key(other) == s.contains_key(other)
                &&& s.contains_key(other) ==> after[other] == s[other]
            }
        }),
{
    let cur = without_stale(s, peers, peer);
    if let Placement::Moved { from, stream_id } = p {
        assert(sole_candidate(cur, peer, now, from));
        assert(rebind_candidate(cur, peer, now, from));
    }
}

/// What a packet changes at the server. A new player has an address and a tunnel
/// under the new stream; a player who moved has a new address under the old one;
/// nothing else changes.
pub proof fn law_packet_places_the_player(v: ServerView, p: Placement, from: UdpPeer, sid: u64)
    ensures
        ({
            let after = server_after(v, p, from);
            let own = !(p is Known) && sid == p.stream();
            &&& after.tunnels == v.tunnels
            &&& after.streams == v.streams
            &&& after.public_bind_address == v.public_bind_address
            &&& own ==> after.udp_peers.contains_key(sid) && after.udp_peers[sid].addr == from.addr
                && after.udp_peers[sid].tunnel_id == from.tunnel_id
            &&& !own ==> after.udp_peers.contains_key(sid) == v.udp_peers.contains_key(sid) && (
            v.udp_peers.contains_key(sid) ==> after.udp_peers[sid] == v.udp_peers[sid])
            &&& own && p is New ==> after.stream_tunnel.contains_key(sid)
                && after.stream_tunnel[sid] == from.tunnel_id
            &&& !(own && p is New) ==> after.stream_tunnel.contains_key(sid)
                == v.stream_tunnel.contains_key(sid) && (v.stream_tunnel.contains_key(sid)
                ==> after.stream_tunnel[sid] == v.stream_tunnel[sid])
        }),
{
}

/// What a packet tells the client: its bytes, on the stream that it was placed on,
/// and before them, of a new player alone, that a UDP player has come to the tunnel.
pub proof fn law_packet_reaches_the_client(
    p: Placement,
    tunnel_id: u32,
    payload: Seq<u8>,
    stream: u64,
)
    requires
        p matches Placement::Known { stream_id } ==> stream == stream_id,
        p matches Placement::Moved { stream_id, .. } ==> stream == stream_id,
        p matches Placement::New { stream_id } ==> stream == stream_id,
    ensures
        ({
            let frames = packet_frames(p, tunnel_id, payload);
            &&& frames.len() == if p is New {
                2int
            } else {
                1int
            }
            &&& frames.last() == (FrameView::Data { stream_id: stream, payload })
            &&& p is New ==> frames[0] == FrameView::Control(
                MessageView::NewConnection { tunnel_id, stream_id: stream, is_udp: true },
            )
        }),
{
}

/// What a packet of `n` bytes does to the registry: a new player is listed under
/// its tunnel and row, with these bytes alone; a known one has as many more bytes
/// from it, and nothing else of it changes; others stay as they are.
pub proof fn law_packet_is_counted(
    m: Map<u64, ConnRecord>,
    p: Placement,
    db_id: u32,
    tunnel_id: u32,
    peer_ip: String,
    now: u64,
    n: u64,
    sid: u64,
)
    requires
        m.contains_key(p.stream()) ==> m[p.stream()].bytes_in + n <= u64::MAX,
    ensures
        ({
            let after = registry_after(
                m,
                p,
                fresh_record(db_id, tunnel_id, peer_ip, now),
                n as nat,
            );
            &&& p is New ==> {
                let r = after[p.stream()];
                &&& after.contains_key(p.stream())
                &&& r.db_id == db_id && r.tunnel_id == tunnel_id && r.peer_ip == peer_ip
                &&& r.connected_at == now
                &&& r.bytes_in == n && r.bytes_out == 0
                &&& r.bytes_in_per_sec == 0 && r.bytes_out_per_sec == 0
            }
            &&& !(p is New) ==> {
                &&& after.dom() == m.dom()
                &&& m.contains_key(p.stream()) ==> {
                    let r = after[p.stream()];
                    let q = m[p.stream()];
                    &&& r.bytes_in == q.bytes_in + n
                    &&& r.bytes_out == q.bytes_out
                    &&& r.db_id == q.db_id && r.tunnel_id == q.tunnel_id && r.peer_ip == q.peer_ip
                    &&& r.connected_at == q.connected_at
                    &&& r.bytes_in_per_sec == q.bytes_in_per_sec
                    &&& r.bytes_out_per_sec == q.bytes_out_per_sec
                }
            }
            &&& sid != p.stream() ==> after.contains_key(sid) == m.contains_key(sid) && (
            m.contains_key(sid) ==> after[sid] == m[sid])
        }),
{
    let after = registry_after(m, p, fresh_record(db_id, tunnel_id, peer_ip, now), n as nat);
    if !(p is New) {
        assert(after.dom() =~= m.dom());
    }
}

/// A sweep drops exactly the sessions whose address is silent for 301 seconds or
/// more, and with them exactly their streams.
pub proof fn law_sweep_drops_the_silent(
    s: Map<PeerAddr, Session>,
    now: u64,
    a: PeerAddr,
    sid: u64,
)
    ensures
        silent_addrs(s, now).contains(a) <==> s.contains_key(a) && now - s[a].last_seen
            >= 301_000_000_000,
        silent_streams(s, now).contains(sid) <==> exists|b: PeerAddr| #[trigger]
            s.contains_key(b) && s[b].stream_id == sid && now - s[b].last_seen >= 301_000_000_000,
{
    let gone = silent_addrs(s, now);
    assert forall|b: PeerAddr| gone.contains(b) <==> s.contains_key(b) && now - s[b].last_seen
        >= 301_000_000_000 by {}
    if silent_streams(s, now).contains(sid) {
        let b = choose|b: PeerAddr| gone.contains(b) && sid == s[b].stream_id;
        assert(s.contains_key(b));
    }
    if exists|b: PeerAddr| #[trigger]
        s.contains_key(b) && s[b].stream_id == sid && now - s[b].last_seen >= 301_000_000_000 {
        let b = choose|b: PeerAddr| #[trigger]
            s.contains_key(b) && s[b].stream_id == sid && now - s[b].last_seen >= 301_000_000_000;
        assert(gone.contains(b));
    }
}

/// The frames that go to the client stand for themselves, one by one.
pub proof fn law_frames_go_one_by_one(fs: Seq<Frame>, i: int)
    requires
        0 <= i < fs.len(),
    ensures
        frame_views(fs).len() == fs.len(),
        frame_views(fs)[i] == fs[i]@,
{
}

/// The client is told of each dropped session's stream, once for each address.
pub proof fn law_dropped_streams_are_told(
    streams: Seq<u64>,
    addrs: Seq<PeerAddr>,
    s: Map<PeerAddr, Session>,
    now: u64,
    a: PeerAddr,
)
    requires
        streams_of_addrs(streams, addrs, s, silent_addrs(s, now)),
    ensures
        streams.len() == addrs.len(),
        addrs.no_duplicates(),
        addrs.contains(a) <==> s.contains_key(a) && now - s[a].last_seen >= 301_000_000_000,
        forall|j: int| 0 <= j < addrs.len() ==> #[trigger] streams[j] == s[addrs[j]].stream_id,
{
    law_sweep_drops_the_silent(s, now, a, 0);
    assert(addrs.to_set().contains(a) <==> addrs.contains(a));
    assert forall|j: int| 0 <= j < addrs.len() implies #[trigger] streams[j]
        == s[addrs[j]].stream_id by {
        let b = addrs[j];
    }
}

} // verus!
