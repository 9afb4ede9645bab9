//! The UDP players of one tunnel: which stream an address belongs to.

use vstd::prelude::*;
use vstd::string::*;
use crate::auth::{elapsed_secs, secs_since, NANOS_PER_SEC};
use crate::maps::lemma_take_to_set;
use crate::protocol::{Frame, FrameView, Message, MessageView};
use crate::registry::{fresh_record, wrapped_sum, ConnRecord, ConnRegistry};
use crate::server::{db_id_of, PeerAddr, ServerState, ServerView, StreamIds, UdpPeer};

verus! {

/// A session that is silent for longer than this is dropped. Games with long
/// loading phases need the patience.
pub const UDP_SESSION_TIMEOUT_SECS: u64 = 300;

/// An address that was heard of within this time may have moved to another
/// port of the same IP.
pub const REBIND_WINDOW_SECS: u64 = 60;

/// The stream of an address, and when the address was last heard of.
#[derive(Debug, Clone, Copy, PartialEq, Eq, Structural)]
pub struct Session {
    pub stream_id: u64,
    pub last_seen: u64,
}

/// The sessions of one tunnel, by address.
#[derive(Debug)]
pub struct UdpSessions {
    entries: Vec<(PeerAddr, Session)>,
}

impl View for UdpSessions {
    type V = Map<PeerAddr, Session>;

    closed spec fn view(&self) -> Map<PeerAddr, Session> {
        Map::new(
            |a: PeerAddr| self.addrs().contains(a),
            |a: PeerAddr| self.entries@[self.addrs().index_of(a)].1,
        )
    }
}

/// What became of a packet's address.
#[derive(Debug, Clone, Copy, PartialEq, Eq, Structural)]
pub enum Placement {
    /// The address has this stream already.
    Known { stream_id: u64 },
    /// The player's port has changed: the stream moves here from there.
    Moved { from: PeerAddr, stream_id: u64 },
    /// A new player, with a new stream.
    New { stream_id: u64 },
}

/// A packet's effect: where its address was placed, and the frames that go to
/// the client, in order.
#[derive(Debug, Clone)]
pub struct PacketStep {
    pub placement: Placement,
    pub frames: Vec<Frame>,
}

impl Placement {
    /// The stream that the packet belongs to.
    pub open spec fn stream(&self) -> u64 {
        match self {
            Placement::Known { stream_id } => *stream_id,
            Placement::Moved { from, stream_id } => *stream_id,
            Placement::New { stream_id } => *stream_id,
        }
    }
}

/// The address has a stream that the client has closed in the meantime.
pub open spec fn stale_mapping(
    s: Map<PeerAddr, Session>,
    peers: Map<u64, UdpPeer>,
    peer: PeerAddr,
) -> bool {
    s.contains_key(peer) && !peers.contains_key(s[peer].stream_id)
}

/// The sessions once a stale mapping of the address is forgotten.
pub open spec fn without_stale(
    s: Map<PeerAddr, Session>,
    peers: Map<u64, UdpPeer>,
    peer: PeerAddr,
) -> Map<PeerAddr, Session> {
    if stale_mapping(s, peers, peer) {
        s.remove(peer)
    } else {
        s
    }
}

/// A session on the same IP, heard of recently.
pub open spec fn rebind_candidate(
    s: Map<PeerAddr, Session>,
    peer: PeerAddr,
    now: u64,
    a: PeerAddr,
) -> bool {
    &&& s.contains_key(a)
    &&& a.same_ip(peer)
    &&& now - s[a].last_seen < REBIND_WINDOW_SECS * NANOS_PER_SEC
}

/// `a` is the one session on the same IP that was heard of recently.
pub open spec fn sole_candidate(
    s: Map<PeerAddr, Session>,
    peer: PeerAddr,
    now: u64,
    a: PeerAddr,
) -> bool {
    &&& rebind_candidate(s, peer, now, a)
    &&& forall|b: PeerAddr| rebind_candidate(s, peer, now, b) ==> b == a
}

/// Where a packet's address is placed: at its own stream; else, where exactly
/// one session of the same IP was heard of recently, at that one's stream; else
/// at a new stream.
pub open spec fn placed(
    s: Map<PeerAddr, Session>,
    peers: Map<u64, UdpPeer>,
    peer: PeerAddr,
    now: u64,
    next_id: u64,
    p: Placement,
) -> bool {
    let cur = without_stale(s, peers, peer);
    if cur.contains_key(peer) {
        p == (Placement::Known { stream_id: cur[peer].stream_id })
    } else if exists|a: PeerAddr| #[trigger] sole_candidate(cur, peer, now, a) {
        &&& p matches Placement::Moved { from, stream_id }
        &&& sole_candidate(cur, peer, now, from)
        &&& stream_id == cur[from].stream_id
    } else {
        p == (Placement::New { stream_id: next_id })
    }
}

/// The sessions after a packet: its address has just been heard of.
pub open spec fn sessions_after(
    s: Map<PeerAddr, Session>,
    peers: Map<u64, UdpPeer>,
    peer: PeerAddr,
    now: u64,
    p: Placement,
) -> Map<PeerAddr, Session> {
    let cur = without_stale(s, peers, peer);
    let heard = Session { stream_id: p.stream(), last_seen: now };
    match p {
        Placement::Moved { from, .. } => cur.remove(from).insert(peer, heard),
        _ => cur.insert(peer, heard),
    }
}

/// The server's state after a packet.
pub open spec fn server_after(v: ServerView, p: Placement, peer: UdpPeer) -> ServerView {
    match p {
        Placement::Known { .. } => v,
        Placement::Moved { stream_id, .. } => ServerView {
            udp_peers: v.udp_peers.insert(stream_id, peer),
            ..v
        },
        Placement::New { stream_id } => ServerView {
            udp_peers: v.udp_peers.insert(stream_id, peer),
            stream_tunnel: v.stream_tunnel.insert(stream_id, peer.tunnel_id),
            ..v
        },
    }
}

/// The registry after `n` bytes came in on a stream.
pub open spec fn with_bytes_in(m: Map<u64, ConnRecord>, stream_id: u64, n: nat) -> Map<
    u64,
    ConnRecord,
> {
    if m.contains_key(stream_id) {
        m.insert(
            stream_id,
            ConnRecord { bytes_in: wrapped_sum(m[stream_id].bytes_in, n as u64), ..m[stream_id] },
        )
    } else {
        m
    }
}

/// The registry after a packet: a new player is in it, and the bytes count.
pub open spec fn registry_after(
    m: Map<u64, ConnRecord>,
    p: Placement,
    fresh: ConnRecord,
    n: nat,
) -> Map<u64, ConnRecord> {
    let m2 = match p {
        Placement::New { stream_id } => m.insert(stream_id, fresh),
        _ => m,
    };
    with_bytes_in(m2, p.stream(), n)
}

/// The frames that a packet causes: a new player is announced first.
pub open spec fn packet_frames(p: Placement, tunnel_id: u32, payload: Seq<u8>) -> Seq<FrameView> {
    let data = FrameView::Data { stream_id: p.stream(), payload };
    match p {
        Placement::New { stream_id } => seq![
            FrameView::Control(MessageView::NewConnection { tunnel_id, stream_id, is_udp: true }),
            data,
        ],
        _ => seq![data],
    }
}

/// The contents of frames.
pub open spec fn frame_views(fs: Seq<Frame>) -> Seq<FrameView> {
    fs.map_values(|f: Frame| f@)
}

/// The session of an address was silent for too long.
pub open spec fn timed_out(s: Session, now: u64) -> bool {
    secs_since(s.last_seen, now) > UDP_SESSION_TIMEOUT_SECS
}

/// The addresses whose sessions were silent for too long.
pub open spec fn silent_addrs(s: Map<PeerAddr, Session>, now: u64) -> Set<PeerAddr> {
    s.dom().filter(|a: PeerAddr| timed_out(s[a], now))
}

/// The streams of those sessions.
pub open spec fn silent_streams(s: Map<PeerAddr, Session>, now: u64) -> Set<u64> {
    silent_addrs(s, now).map(|a: PeerAddr| s[a].stream_id)
}

impl UdpSessions {
    spec fn addrs(&self) -> Seq<PeerAddr> {
        self.entries@.map_values(|e: (PeerAddr, Session)| e.0)
    }

    /// No address has two sessions.
    pub closed spec fn wf(&self) -> bool {
        self.addrs().no_duplicates()
    }

    proof fn lemma_entry(&self, i: int)
        requires
            self.wf(),
            0 <= i < self.entries@.len(),
        ensures
            self@.contains_key(self.entries@[i].0),
            self@[self.entries@[i].0] == self.entries@[i].1,
    {
        let a = self.entries@[i].0;
        assert(self.addrs()[i] == a);
        assert(self.addrs().contains(a));
        let j = self.addrs().index_of(a);
        assert(self.addrs()[j] == a);
    }

    proof fn lemma_position(&self, a: PeerAddr) -> (i: int)
        requires
            self.wf(),
            self@.contains_key(a),
        ensures
            0 <= i < self.entries@.len(),
            self.entries@[i].0 == a,
            self@[a] == self.entries@[i].1,
    {
        let i = self.addrs().index_of(a);
        assert(self.addrs()[i] == a);
        i
    }

    /// No session.
    pub fn new() -> (r: Self)
        ensures
            r.wf(),
            r@ == Map::<PeerAddr, Session>::empty(),
    {
        let r = UdpSessions { entries: Vec::new() };
        proof {
            assert(r.addrs() =~= Seq::<PeerAddr>::empty());
            assert(r@ =~= Map::<PeerAddr, Session>::empty());
        }
        r
    }

    fn position(&self, a: PeerAddr) -> (r: Option<usize>)
        requires
            self.wf(),
        ensures
            match r {
                Some(i) => i < self.entries@.len() && self.entries@[i as int].0 == a
                    && self@.contains_key(a) && self@[a] == self.entries@[i as int].1,
                None => !self@.contains_key(a),
            },
    {
        let mut i: usize = 0;
        while i < self.entries.len()
            invariant
                self.wf(),
                i <= self.entries@.len(),
                forall|j: int| 0 <= j < i ==> #[trigger] self.addrs()[j] != a,
            decreases self.entries@.len() - i,
        {
            if self.entries[i].0 == a {
                proof {
                    self.lemma_entry(i as int);
                }
                return Some(i);
            }
            assert(self.addrs()[i as int] != a);
            i += 1;
        }
        None
    }

    /// The session of an address.
    pub fn get(&self, a: PeerAddr) -> (r: Option<Session>)
        requires
            self.wf(),
        ensures
            match r {
                Some(s) => self@.contains_key(a) && s == self@[a],
                None => !self@.contains_key(a),
            },
    {
        match self.position(a) {
            Some(i) => Some(self.entries[i].1),
            None => None,
        }
    }

    fn set(&mut self, a: PeerAddr, s: Session)
        requires
            old(self).wf(),
        ensures
            final(self).wf(),
            final(self)@ == old(self)@.insert(a, s),
    {
        let ghost before = *self;
        match self.position(a) {
            Some(i) => {
                self.entries[i].1 = s;
                proof {
                    assert(self.addrs() =~= before.addrs());
                    assert(self.addrs()[i as int] == a);
                    assert forall|k: PeerAddr| self@.contains_key(k) implies self@[k]
                        == before@.insert(a, s)[k] by {
                        let j = self.addrs().index_of(k);
                        assert(self.addrs()[j] == k);
                    }
                    assert(self@ =~= before@.insert(a, s));
                }
            },
            None => {
                self.entries.push((a, s));
                proof {
                    let n = before.addrs().len() as int;
                    assert(self.addrs() =~= before.addrs().push(a));
                    assert forall|k: PeerAddr| self@.contains_key(k) <==> before@.insert(
                        a,
                        s,
                    ).contains_key(k) by {
                        if before.addrs().contains(k) {
                            let j = before.addrs().index_of(k);
                            assert(self.addrs()[j] == k);
                        }
                        if k == a {
                            assert(self.addrs()[n] == k);
                        }
                    }
                    assert forall|k: PeerAddr| self@.contains_key(k) implies self@[k]
                        == before@.insert(a, s)[k] by {
                        let j = self.addrs().index_of(k);
                        assert(self.addrs()[j] == k);
                        if j < n {
                            assert(before.addrs()[j] == k);
                            before.lemma_entry(j);
                        }
                    }
                    assert(self@ =~= before@.insert(a, s));
                }
            },
        }
    }

    fn remove_at(&mut self, i: usize)
        requires
            old(self).wf(),
            i < old(self).entries@.len(),
        ensures
            final(self).wf(),
            final(self)@ == old(self)@.remove(old(self).entries@[i as int].0),
            final(self).entries@ == old(self).entries@.remove(i as int),
    {
        let ghost before = *self;
        let ghost gone = self.entries@[i as int].0;
        self.entries.remove(i);
        proof {
            assert(self.addrs() =~= before.addrs().remove(i as int));
            assert(before.addrs()[i as int] == gone);
            assert forall|k: PeerAddr| self@.contains_key(k) <==> before@.remove(
                gone,
            ).contains_key(k) by {
                if before.addrs().contains(k) && k != gone {
                    let j = before.addrs().index_of(k);
                    assert(before.addrs()[j] == k);
                    if j < i {
                        assert(self.addrs()[j] == k);
                    } else {
                        assert(self.addrs()[j - 1] == k);
                    }
                }
                if self.addrs().contains(k) {
                    let j = self.addrs().index_of(k);
                    assert(self.addrs()[j] == k);
                    if j < i {
                        assert(before.addrs()[j] == k);
                    } else {
                        assert(before.addrs()[j + 1] == k);
                    }
                }
            }
            assert forall|k: PeerAddr| self@.contains_key(k) implies self@[k] == before@[k] by {
                let j = self.addrs().index_of(k);
                assert(self.addrs()[j] == k);
                if j < i {
                    before.lemma_entry(j);
                } else {
                    before.lemma_entry(j + 1);
                }
            }
            assert(self@ =~= before@.remove(gone));
        }
    }

    fn forget(&mut self, a: PeerAddr)
        requires
            old(self).wf(),
        ensures
            final(self).wf(),
            final(self)@ == old(self)@.remove(a),
    {
        match self.position(a) {
            Some(i) => {
                self.remove_at(i);
            },
            None => {
                assert(self@.remove(a) =~= self@);
            },
        }
    }

    /// The one session on the same IP that was heard of recently.
    pub fn rebind_source(&self, peer: PeerAddr, now: u64) -> (r: Option<(PeerAddr, u64)>)
        requires
            self.wf(),
        ensures
            match r {
                Some(m) => sole_candidate(self@, peer, now, m.0) && m.1 == self@[m.0].stream_id,
                None => forall|a: PeerAddr| !#[trigger] sole_candidate(self@, peer, now, a),
            },
    {
        let mut found: Option<(PeerAddr, u64)> = None;
        let mut i: usize = 0;
        while i < self.entries.len()
            invariant
                self.wf(),
                i <= self.entries@.len(),
                match found {
                    Some(m) => {
                        &&& rebind_candidate(self@, peer, now, m.0)
                        &&& m.1 == self@[m.0].stream_id
                        &&& forall|j: int|
                            0 <= j < i && rebind_candidate(
                                self@,
                                peer,
                                now,
                                (#[trigger] self.entries@[j]).0,
                            ) ==> self.entries@[j].0 == m.0
                        &&& exists|j: int| 0 <= j < i && (#[trigger] self.entries@[j]).0 == m.0
                    },
                    None => forall|j: int|
                        0 <= j < i ==> !rebind_candidate(
                            self@,
                            peer,
                            now,
                            (#[trigger] self.entries@[j]).0,
                        ),
                },
            decreases self.entries@.len() - i,
        {
            let (a, s) = self.entries[i];
            proof {
                self.lemma_entry(i as int);
            }
            let recent = now < s.last_seen || now - s.last_seen < REBIND_WINDOW_SECS
                * NANOS_PER_SEC;
            if a.is_v6 == peer.is_v6 && a.ip == peer.ip && recent {
                assert(rebind_candidate(self@, peer, now, a));
                match found {
                    Some(m) => {
                        proof {
                            let j = choose|j: int|
                                0 <= j < i && (#[trigger] self.entries@[j]).0 == m.0;
                            assert(self.addrs()[j] == m.0);
                            assert(self.addrs()[i as int] == a);
                            assert(a != m.0);
                            assert forall|b: PeerAddr| !#[trigger] sole_candidate(
                                self@,
                                peer,
                                now,
                                b,
                            ) by {
                                assert(rebind_candidate(self@, peer, now, m.0));
                            }
                        }
                        return None;
                    },
                    None => {
                        found = Some((a, s.stream_id));
                    },
                }
            } else {
                assert(!rebind_candidate(self@, peer, now, a));
            }
            i += 1;
        }
        proof {
            assert forall|b: PeerAddr| #[trigger] rebind_candidate(self@, peer, now, b) implies
                found is Some && b == found->Some_0.0 by {
                let j = self.lemma_position(b);
                assert(self.entries@[j].0 == b);
            }
            match found {
                Some(m) => {
                    assert(sole_candidate(self@, peer, now, m.0));
                },
                None => {},
            }
        }
        found
    }

    /// A packet has come in. Places its address, brings the server's state and
    /// the registry up to date, and returns what goes to the client.
    pub fn packet(
        &mut self,
        state: &mut ServerState,
        registry: &mut ConnRegistry,
        ids: &mut StreamIds,
        from: UdpPeer,
        peer_ip: String,
        payload: Vec<u8>,
        now: u64,
    ) -> (r: PacketStep)
        requires
            old(self).wf(),
        ensures
            final(self).wf(),
            placed(
                old(self)@,
                old(state)@.udp_peers,
                from.addr,
                now,
                old(ids)@,
                r.placement,
            ),
            final(self)@ == sessions_after(
                old(self)@,
                old(state)@.udp_peers,
                from.addr,
                now,
                r.placement,
            ),
            final(state)@ == server_after(old(state)@, r.placement, from),
            final(registry)@ == registry_after(
                old(registry)@,
                r.placement,
                fresh_record(db_id_of(old(state)@, from.tunnel_id), from.tunnel_id, peer_ip, now),
                payload@.len(),
            ),
            final(ids)@ == if r.placement is New {
                wrapped_sum(old(ids)@, 1)
            } else {
                old(ids)@
            },
            frame_views(r.frames@) == packet_frames(r.placement, from.tunnel_id, payload@),
    {
        let ghost start = self@;
        let ghost peers = state@.udp_peers;
        let peer = from.addr;
        let n: u64 = payload.len() as u64;
        if let Some(s) = self.get(peer) {
            if state.peer_of(s.stream_id).is_none() {
                self.forget(peer);
            }
        }
        let ghost cur = self@;
        assert(cur == without_stale(start, peers, peer));
        let mut frames: Vec<Frame> = Vec::new();
        let placement = match self.get(peer) {
            Some(s) => {
                self.set(peer, Session { stream_id: s.stream_id, last_seen: now });
                Placement::Known { stream_id: s.stream_id }
            },
            None => match self.rebind_source(peer, now) {
                Some((old_addr, stream_id)) => {
                    assert(sole_candidate(cur, peer, now, old_addr));
                    self.forget(old_addr);
                    self.set(peer, Session { stream_id, last_seen: now });
                    state.move_peer(stream_id, from);
                    Placement::Moved { from: old_addr, stream_id }
                },
                None => {
                    let stream_id: u64 = ids.take();
                    self.set(peer, Session { stream_id, last_seen: now });
                    registry.register(
                        stream_id,
                        state.db_id_of_tunnel(from.tunnel_id),
                        from.tunnel_id,
                        peer_ip,
                        now,
                    );
                    state.add_peer(stream_id, from);
                    frames.push(
                        Frame::Control(
                            Message::NewConnection {
                                tunnel_id: from.tunnel_id,
                                stream_id,
                                is_udp: true,
                            },
                        ),
                    );
                    Placement::New { stream_id }
                },
            },
        };
        let stream_id: u64 = match placement {
            Placement::Known { stream_id } => stream_id,
            Placement::Moved { from: _, stream_id } => stream_id,
            Placement::New { stream_id } => stream_id,
        };
        registry.add_in(stream_id, n);
        frames.push(Frame::Data { stream_id, payload });
        proof {
            assert(frame_views(frames@) =~= packet_frames(placement, from.tunnel_id, payload@));
        }
        PacketStep { placement, frames }
    }

    /// Drops the sessions that were silent for too long. Returns their streams,
    /// which the client is told are closed.
    pub fn expire(&mut self, state: &mut ServerState, registry: &mut ConnRegistry, now: u64) -> (r:
        Vec<u64>)
        requires
            old(self).wf(),
        ensures
            final(self).wf(),
            final(self)@ == old(self)@.remove_keys(silent_addrs(old(self)@, now)),
            r@.to_set() == silent_streams(old(self)@, now),
            exists|addrs: Seq<PeerAddr>| #[trigger]
                streams_of_addrs(r@, addrs, old(self)@, silent_addrs(old(self)@, now)),
            final(state)@ == (ServerView {
                udp_peers: old(state)@.udp_peers.remove_keys(silent_streams(old(self)@, now)),
                stream_tunnel: old(state)@.stream_tunnel.remove_keys(
                    silent_streams(old(self)@, now),
                ),
                ..old(state)@
            }),
            final(registry)@ == old(registry)@.remove_keys(silent_streams(old(self)@, now)),
    {
        let ghost start = *self;
        let ghost v0 = state@;
        let ghost r0 = registry@;
        let mut r: Vec<u64> = Vec::new();
        let ghost mut gone: Seq<PeerAddr> = Seq::empty();
        let mut i: usize = 0;
        proof {
            assert(r@.to_set() =~= Set::<u64>::empty());
            assert(gone.to_set() =~= Set::<PeerAddr>::empty());
            assert(self@ =~= start@.remove_keys(gone.to_set()));
            assert(state@ =~= (ServerView {
                udp_peers: v0.udp_peers.remove_keys(r@.to_set()),
                stream_tunnel: v0.stream_tunnel.remove_keys(r@.to_set()),
                ..v0
            }));
            assert(registry@ =~= r0.remove_keys(r@.to_set()));
        }
        while i < self.entries.len()
            invariant
                start.wf(),
                self.wf(),
                i <= self.entries@.len(),
                self@ == start@.remove_keys(gone.to_set()),
                r@.len() == gone.len(),
                gone.no_duplicates(),
                forall|j: int|
                    0 <= j < gone.len() ==> start@.contains_key(#[trigger] gone[j]) && timed_out(
                        start@[gone[j]],
                        now,
                    ) && r@[j] == start@[gone[j]].stream_id,
                forall|j: int| 0 <= j < i ==> !timed_out((#[trigger] self.entries@[j]).1, now),
                state@ == (ServerView {
                    udp_peers: v0.udp_peers.remove_keys(r@.to_set()),
                    stream_tunnel: v0.stream_tunnel.remove_keys(r@.to_set()),
                    ..v0
                }),
                registry@ == r0.remove_keys(r@.to_set()),
            decreases self.entries@.len() - i,
        {
            let (a, s) = self.entries[i];
            proof {
                self.lemma_entry(i as int);
            }
            if elapsed_secs(s.last_seen, now) > UDP_SESSION_TIMEOUT_SECS {
                let ghost before = *self;
                let ghost ids = r@;
                let ghost gone0 = gone;
                self.remove_at(i);
                state.drop_peer(s.stream_id);
                registry.remove(s.stream_id);
                r.push(s.stream_id);
                proof {
                    gone = gone.push(a);
                    assert(!gone0.contains(a)) by {
                        assert(before@.contains_key(a));
                    }
                    assert(gone.take(gone0.len() as int) =~= gone0);
                    assert(gone.take(gone0.len() as int + 1) =~= gone);
                    lemma_take_to_set(gone, gone0.len() as int);
                    assert(r@.take(ids.len() as int) =~= ids);
                    assert(r@.take(ids.len() as int + 1) =~= r@);
                    lemma_take_to_set(r@, ids.len() as int);
                    assert(self@ =~= start@.remove_keys(gone.to_set()));
                    assert(state@ =~= (ServerView {
                        udp_peers: v0.udp_peers.remove_keys(r@.to_set()),
                        stream_tunnel: v0.stream_tunnel.remove_keys(r@.to_set()),
                        ..v0
                    }));
                    assert(registry@ =~= r0.remove_keys(r@.to_set()));
                    assert(start@[a] == s);
                    assert forall|j: int| 0 <= j < gone.len() implies start@.contains_key(
                        #[trigger] gone[j],
                    ) && timed_out(start@[gone[j]], now) && r@[j] == start@[gone[j]].stream_id by {
                        if j < gone0.len() {
                            assert(gone[j] == gone0[j]);
                            assert(r@[j] == ids[j]);
                        }
                    }
                    assert forall|j: int| 0 <= j < i implies !timed_out(
                        (#[trigger] self.entries@[j]).1,
                        now,
                    ) by {
                        assert(self.entries@[j] == before.entries@[j]);
                    }
                }
            } else {
                i += 1;
            }
        }
        proof {
            let silent = silent_addrs(start@, now);
            assert forall|a: PeerAddr| silent.contains(a) <==> gone.contains(a) by {
                if silent.contains(a) && !gone.contains(a) {
                    assert(self@.contains_key(a));
                    let j = self.lemma_position(a);
                    assert(!timed_out(self.entries@[j].1, now));
                }
                if gone.contains(a) {
                    let j = gone.index_of(a);
                    assert(gone[j] == a);
                }
            }
            assert(gone.to_set() =~= silent);
            assert forall|k: u64| r@.to_set().contains(k) <==> silent_streams(start@, now).contains(
                k,
            ) by {
                if r@.contains(k) {
                    let j = r@.index_of(k);
                    assert(gone.contains(gone[j]));
                    assert(silent.contains(gone[j]));
                }
                if silent_streams(start@, now).contains(k) {
                    let a = choose|a: PeerAddr| silent.contains(a) && k == start@[a].stream_id;
                    let j = gone.index_of(a);
                    assert(gone.contains(a));
                    assert(r@[j] == k);
                }
            }
            assert(r@.to_set() =~= silent_streams(start@, now));
            assert(streams_of_addrs(r@, gone, start@, silent));
        }
        r
    }

    /// The tunnel's socket closes: its players leave the registry.
    pub fn close(&self, registry: &mut ConnRegistry)
        requires
            self.wf(),
        ensures
            final(registry)@ == old(registry)@.remove_keys(
                self@.dom().map(|a: PeerAddr| self@[a].stream_id),
            ),
    {
        let ghost r0 = registry@;
        let mut ids: Vec<u64> = Vec::new();
        let mut i: usize = 0;
        while i < self.entries.len()
            invariant
                i <= self.entries@.len(),
                ids@.len() == i,
                forall|j: int| 0 <= j < i ==> ids@[j] == (#[trigger] self.entries@[j]).1.stream_id,
            decreases self.entries@.len() - i,
        {
            ids.push(self.entries[i].1.stream_id);
            i += 1;
        }
        registry.remove_all(ids.as_slice());
        proof {
            let all = self@.dom().map(|a: PeerAddr| self@[a].stream_id);
            assert forall|k: u64| ids@.to_set().contains(k) <==> all.contains(k) by {
                if ids@.contains(k) {
                    let j = ids@.index_of(k);
                    self.lemma_entry(j);
                    assert(self@.dom().contains(self.entries@[j].0));
                }
                if all.contains(k) {
                    let a = choose|a: PeerAddr|
                        self@.dom().contains(a) && k == self@[a].stream_id;
                    let j = self.lemma_position(a);
                    assert(ids@[j] == k);
                }
            }
            assert(ids@.to_set() =~= all);
        }
    }
}

/// `streams` are the streams of `addrs`, in that order, and `addrs` holds each
/// address of a set once.
pub open spec fn streams_of_addrs(
    streams: Seq<u64>,
    addrs: Seq<PeerAddr>,
    s: Map<PeerAddr, Session>,
    of: Set<PeerAddr>,
) -> bool {
    &&& addrs.no_duplicates()
    &&& addrs.to_set() == of
    &&& streams.len() == addrs.len()
    &&& forall|j: int| 0 <= j < addrs.len() ==> streams[j] == s[#[trigger] addrs[j]].stream_id
}

} // verus!
