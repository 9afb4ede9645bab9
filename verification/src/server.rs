//! The relay server: which tunnels it opens, and where each frame goes.

use std::collections::{HashMap, HashSet};
use vstd::prelude::*;
use vstd::string::*;
use crate::config::ServerConfig;
use crate::maps::{keys_of, lemma_pick_all, lemma_pick_next, lemma_pick_none, lemma_take_to_set,
    lists};
use crate::protocol::{Frame, FrameView, Message, MessageView, TunnelProtocol};
use crate::registry::{fresh_record, looked_up, wrapped_sum, ConnRecord, ConnRegistry};
use crate::text::{contains_text, decimal, decimal_text, holds_text};

verus! {

/// Client connections that a server takes at once.
pub const MAX_CONNECTIONS: usize = 200;

/// A client that sends nothing for this long is dropped.
pub const CLIENT_IDLE_TIMEOUT_SECS: u64 = 120;

/// How long a new connection may take to authenticate.
pub const AUTH_TIMEOUT_SECS: u64 = 10;

/// A port that tunnels may use: the web's two ports, and every unprivileged
/// port but the server's own.
pub open spec fn game_port(port: u16) -> bool {
    port == 80 || port == 443 || (port >= 1024 && port != 9000 && port != 9001)
}

/// Whether tunnels may use a port.
pub fn is_valid_game_port(port: u16) -> (r: bool)
    ensures
        r == game_port(port),
{
    if port == 80 || port == 443 {
        return true;
    }
    if port < 1024 {
        return false;
    }
    if port == 9000 || port == 9001 {
        return false;
    }
    true
}

/// The address that tunnels listen on: all addresses where the configuration
/// names none.
pub fn public_bind_address(config: &ServerConfig) -> (r: String)
    ensures
        r@ == (match config.public_bind_address {
            Some(a) => a@,
            None => "0.0.0.0"@,
        }),
{
    match &config.public_bind_address {
        Some(a) => a.clone(),
        None => "0.0.0.0".to_string(),
    }
}

/// The open client connections of a server process.
#[derive(Debug, Clone, Copy, PartialEq, Eq)]
pub struct Admission {
    active: usize,
}

impl View for Admission {
    type V = nat;

    closed spec fn view(&self) -> nat {
        self.active as nat
    }
}

impl Admission {
    /// No more connections are open than the server takes.
    pub open spec fn wf(&self) -> bool {
        self@ <= MAX_CONNECTIONS
    }

    /// No connection is open.
    pub fn new() -> (r: Self)
        ensures
            r.wf(),
            r@ == 0,
    {
        Admission { active: 0 }
    }

    /// How many connections are open.
    pub fn active(&self) -> (n: usize)
        ensures
            n == self@,
    {
        self.active
    }

    /// A connection comes in. Says whether it is taken.
    pub fn enter(&mut self) -> (taken: bool)
        requires
            old(self).wf(),
        ensures
            final(self).wf(),
            taken == (old(self)@ < MAX_CONNECTIONS),
            final(self)@ == old(self)@ + if taken {
                1nat
            } else {
                0nat
            },
    {
        if self.active >= MAX_CONNECTIONS {
            false
        } else {
            self.active = self.active + 1;
            true
        }
    }

    /// A taken connection is over. Returns how many are left.
    pub fn leave(&mut self) -> (left: usize)
        requires
            old(self).wf(),
            old(self)@ > 0,
        ensures
            final(self).wf(),
            final(self)@ == old(self)@ - 1,
            left == final(self)@,
    {
        self.active = self.active - 1;
        self.active
    }
}

/// How loudly the end of a session is reported.
#[derive(Debug, Clone, Copy, PartialEq, Eq, Structural)]
pub enum Loudness {
    Silent,
    Warning,
    Error,
}

/// An ordinary disconnect.
pub open spec fn ordinary_end(msg: Seq<char>) -> bool {
    holds_text(msg, "close_notify"@) || holds_text(msg, "peer closed"@) || holds_text(
        msg,
        "idle timeout"@,
    )
}

/// A refused authentication.
pub open spec fn refused_auth(msg: Seq<char>) -> bool {
    ||| holds_text(msg, "malformed auth frame"@)
    ||| holds_text(msg, "expected Auth frame"@)
    ||| holds_text(msg, "authentication timeout"@)
    ||| holds_text(msg, "authentication failed"@)
    ||| holds_text(msg, "pre-auth expired"@)
    ||| holds_text(msg, "not pre-authorized"@)
    ||| holds_text(msg, "Auth payload"@)
}

/// How loudly a session's error is reported.
pub fn session_error_loudness(msg: &str) -> (r: Loudness)
    ensures
        r == (if ordinary_end(msg@) {
            Loudness::Silent
        } else if refused_auth(msg@) {
            Loudness::Warning
        } else {
            Loudness::Error
        }),
{
    if contains_text(msg, "close_notify") || contains_text(msg, "peer closed") || contains_text(
        msg,
        "idle timeout",
    ) {
        Loudness::Silent
    } else if contains_text(msg, "malformed auth frame") || contains_text(
        msg,
        "expected Auth frame",
    ) || contains_text(msg, "authentication timeout") || contains_text(
        msg,
        "authentication failed",
    ) || contains_text(msg, "pre-auth expired") || contains_text(msg, "not pre-authorized")
        || contains_text(msg, "Auth payload") {
        Loudness::Warning
    } else {
        Loudness::Error
    }
}

/// A TLS handshake error that scanners and probes cause.
pub open spec fn scanner_noise(msg: Seq<char>) -> bool {
    ||| holds_text(msg, "InvalidContentType"@)
    ||| holds_text(msg, "close_notify"@)
    ||| holds_text(msg, "UnknownIssuer"@)
    ||| holds_text(msg, "Tls12NotOffered"@)
    ||| holds_text(msg, "PeerIncompatible"@)
    ||| holds_text(msg, "Connection reset by peer"@)
    ||| holds_text(msg, "ConnectionReset"@)
    ||| holds_text(msg, "code: 104"@)
}

/// Whether a TLS handshake error is only noise.
pub fn is_scanner_noise(msg: &str) -> (r: bool)
    ensures
        r == scanner_noise(msg@),
{
    contains_text(msg, "InvalidContentType") || contains_text(msg, "close_notify")
        || contains_text(msg, "UnknownIssuer") || contains_text(msg, "Tls12NotOffered")
        || contains_text(msg, "PeerIncompatible") || contains_text(msg, "Connection reset by peer")
        || contains_text(msg, "ConnectionReset") || contains_text(msg, "code: 104")
}

/// The counter that names streams, shared by all sessions of a process.
#[derive(Debug)]
pub struct StreamIds {
    next: u64,
}

impl View for StreamIds {
    type V = u64;

    closed spec fn view(&self) -> u64 {
        self.next
    }
}

impl StreamIds {
    /// The first stream is 1: stream 0 carries control messages.
    pub fn new() -> (r: Self)
        ensures
            r@ == 1,
    {
        StreamIds { next: 1 }
    }

    /// Takes the next id. The counter wraps around.
    pub fn take(&mut self) -> (id: u64)
        ensures
            id == old(self)@,
            final(self)@ == wrapped_sum(old(self)@, 1),
    {
        let id: u64 = self.next;
        self.next = id.wrapping_add(1);
        id
    }
}

/// The address of a UDP peer.
#[derive(Debug, Clone, Copy, PartialEq, Eq, Structural)]
pub struct PeerAddr {
    pub is_v6: bool,
    pub ip: u128,
    pub port: u16,
    pub flowinfo: u32,
    pub scope_id: u32,
}

impl PeerAddr {
    /// The two addresses have the same IP.
    pub open spec fn same_ip(&self, other: PeerAddr) -> bool {
        self.is_v6 == other.is_v6 && self.ip == other.ip
    }
}

/// A tunnel that a client has opened.
#[derive(Debug, Clone, Copy, PartialEq, Eq)]
pub struct ActiveTunnel {
    pub tunnel_id: u32,
    pub remote_port: u16,
    pub protocol: TunnelProtocol,
    /// Database row of the tunnel.
    pub db_id: u32,
}

/// A UDP player: where answers go, and through which tunnel's socket.
#[derive(Debug, Clone, Copy, PartialEq, Eq)]
pub struct UdpPeer {
    pub addr: PeerAddr,
    pub tunnel_id: u32,
}

/// One client session: its tunnels, and the streams of their players.
#[derive(Debug)]
pub struct ServerState {
    tunnels: HashMap<u32, ActiveTunnel>,
    streams: HashSet<u64>,
    udp_peers: HashMap<u64, UdpPeer>,
    stream_tunnel: HashMap<u64, u32>,
    public_bind_address: String,
}

/// What a session holds.
#[verifier::ext_equal]
pub struct ServerView {
    pub tunnels: Map<u32, ActiveTunnel>,
    /// Streams of TCP players.
    pub streams: Set<u64>,
    /// Streams of UDP players.
    pub udp_peers: Map<u64, UdpPeer>,
    /// The tunnel of each stream.
    pub stream_tunnel: Map<u64, u32>,
    pub public_bind_address: Seq<char>,
}

impl View for ServerState {
    type V = ServerView;

    closed spec fn view(&self) -> ServerView {
        ServerView {
            tunnels: self.tunnels@,
            streams: self.streams@,
            udp_peers: self.udp_peers@,
            stream_tunnel: self.stream_tunnel@,
            public_bind_address: self.public_bind_address@,
        }
    }
}

/// The address that a tunnel listens on.
pub open spec fn listen_address(bind: Seq<char>, port: u16) -> Seq<char> {
    bind + ":"@ + decimal_text(port as nat)
}

/// A tunnel to be opened: the sockets to bind, and what to record then.
#[derive(Debug, Clone)]
pub struct OpenPlan {
    pub tunnel: ActiveTunnel,
    pub address: String,
    pub tcp: bool,
    pub udp: bool,
}

/// A tunnel that was closed: its listeners are to stop where it was open, and
/// the client is told of each stream that went.
#[derive(Debug, Clone)]
pub struct ClosePlan {
    pub tunnel_id: u32,
    pub was_open: bool,
    pub streams: Vec<u64>,
}

/// What a control message asks for.
#[derive(Debug, Clone)]
pub enum ControlAction {
    /// Send this to the client.
    Send(Message),
    /// Send this to the client if the queue has room.
    TrySend(Message),
    /// Bind the sockets, then report with `open_finished`.
    Open(OpenPlan),
    /// Stop the listeners and announce the closed streams.
    Close(ClosePlan),
    /// The tunnel is already open.
    Duplicate,
    /// Not a message for a server.
    Unexpected,
}

/// The streams that belong to a tunnel.
pub open spec fn streams_of(v: ServerView, tunnel_id: u32) -> Set<u64> {
    v.stream_tunnel.dom().filter(|sid: u64| v.stream_tunnel[sid] == tunnel_id)
}

/// A session without the streams of a set.
pub open spec fn without_streams(v: ServerView, sids: Set<u64>) -> ServerView {
    ServerView {
        streams: v.streams.difference(sids),
        udp_peers: v.udp_peers.remove_keys(sids),
        stream_tunnel: v.stream_tunnel.remove_keys(sids),
        ..v
    }
}

/// A session after a tunnel was closed.
pub open spec fn tunnel_closed(v: ServerView, tunnel_id: u32) -> ServerView {
    ServerView {
        tunnels: v.tunnels.remove(tunnel_id),
        ..without_streams(v, streams_of(v, tunnel_id))
    }
}

/// What a control message does to a session and the registry, and what it asks
/// for.
pub open spec fn control_step(
    pre: ServerView,
    pre_reg: Map<u64, ConnRecord>,
    msg: MessageView,
    db_id: u32,
    post: ServerView,
    post_reg: Map<u64, ConnRecord>,
    action: ControlAction,
) -> bool {
    match msg {
        MessageView::OpenTunnel { tunnel_id, remote_port, protocol } => {
            &&& post == pre
            &&& post_reg == pre_reg
            &&& if !game_port(remote_port) {
                action matches ControlAction::Send(m) && m@ == (MessageView::CloseTunnel {
                    tunnel_id,
                })
            } else if pre.tunnels.contains_key(tunnel_id) {
                action is Duplicate
            } else {
                &&& action matches ControlAction::Open(plan)
                &&& plan.tunnel == (ActiveTunnel { tunnel_id, remote_port, protocol, db_id })
                &&& plan.address@ == listen_address(pre.public_bind_address, remote_port)
                &&& plan.tcp == (protocol != TunnelProtocol::Udp)
                &&& plan.udp == (protocol != TunnelProtocol::Tcp)
            }
        },
        MessageView::CloseTunnel { tunnel_id } => {
            &&& action matches ControlAction::Close(plan)
            &&& plan.tunnel_id == tunnel_id
            &&& plan.was_open == pre.tunnels.contains_key(tunnel_id)
            &&& lists(plan.streams@, streams_of(pre, tunnel_id))
            &&& post == tunnel_closed(pre, tunnel_id)
            &&& post_reg == pre_reg.remove_keys(streams_of(pre, tunnel_id))
        },
        MessageView::Ping => {
            &&& action matches ControlAction::TrySend(m)
            &&& m@ == MessageView::Pong
            &&& post == pre
            &&& post_reg == pre_reg
        },
        _ => action is Unexpected && post == pre && post_reg == pre_reg,
    }
}

/// Where a client's frame goes.
#[derive(Debug, Clone)]
pub enum FrameAction {
    Control(ControlAction),
    /// To a TCP player. Where its task is gone, report with `send_failed`.
    ToPlayer { stream_id: u64, payload: Vec<u8> },
    /// To a UDP player.
    ToPeer { peer: UdpPeer, payload: Vec<u8> },
    /// The stream is unknown.
    Dropped,
    /// The client closed a stream.
    Closed,
}

/// What a client's frame does to a session and the registry, and where it goes.
pub open spec fn frame_step(
    pre: ServerView,
    pre_reg: Map<u64, ConnRecord>,
    frame: FrameView,
    db_id: u32,
    post: ServerView,
    post_reg: Map<u64, ConnRecord>,
    action: FrameAction,
) -> bool {
    match frame {
        FrameView::Control(msg) => action matches FrameAction::Control(a) && control_step(
            pre,
            pre_reg,
            msg,
            db_id,
            post,
            post_reg,
            a,
        ),
        FrameView::Data { stream_id, payload } => {
            &&& post == pre
            &&& if pre.streams.contains(stream_id) {
                &&& action matches FrameAction::ToPlayer { stream_id: to, payload: p }
                &&& to == stream_id
                &&& p@ == payload
                &&& post_reg == pre_reg
            } else if pre.udp_peers.contains_key(stream_id) {
                &&& action matches FrameAction::ToPeer { peer, payload: p }
                &&& peer == pre.udp_peers[stream_id]
                &&& p@ == payload
                &&& post_reg == with_bytes_out(pre_reg, stream_id, payload.len())
            } else {
                action is Dropped && post_reg == pre_reg
            }
        },
        FrameView::StreamClose { stream_id } => {
            &&& action is Closed
            &&& post == without_streams(pre, set![stream_id])
            &&& post_reg == pre_reg.remove(stream_id)
        },
    }
}

/// The registry after `n` bytes went out on a stream.
pub open spec fn with_bytes_out(m: Map<u64, ConnRecord>, stream_id: u64, n: nat) -> Map<
    u64,
    ConnRecord,
> {
    if m.contains_key(stream_id) {
        m.insert(
            stream_id,
            ConnRecord { bytes_out: wrapped_sum(m[stream_id].bytes_out, n as u64), ..m[stream_id] },
        )
    } else {
        m
    }
}

/// The database row that a tunnel's players are counted under.
pub open spec fn db_id_of(v: ServerView, tunnel_id: u32) -> u32 {
    if v.tunnels.contains_key(tunnel_id) {
        v.tunnels[tunnel_id].db_id
    } else {
        0
    }
}

/// The messages that tell a client of closed streams.
pub fn close_frames(streams: &[u64]) -> (r: Vec<Frame>)
    ensures
        r@.len() == streams@.len(),
        forall|i: int|
            0 <= i < r@.len() ==> (#[trigger] r@[i])@ == (FrameView::StreamClose {
                stream_id: streams@[i],
            }),
{
    let mut r: Vec<Frame> = Vec::new();
    let mut i: usize = 0;
    while i < streams.len()
        invariant
            i <= streams@.len(),
            r@.len() == i,
            forall|j: int|
                0 <= j < i ==> (#[trigger] r@[j])@ == (FrameView::StreamClose {
                    stream_id: streams@[j],
                }),
        decreases streams@.len() - i,
    {
        r.push(Frame::StreamClose { stream_id: streams[i] });
        i += 1;
    }
    r
}

impl ServerState {
    /// A session that has just authenticated.
    pub fn new(public_bind_address: String) -> (r: Self)
        ensures
            r@ == (ServerView {
                tunnels: Map::empty(),
                streams: Set::empty(),
                udp_peers: Map::empty(),
                stream_tunnel: Map::empty(),
                public_bind_address: public_bind_address@,
            }),
    {
        ServerState {
            tunnels: HashMap::new(),
            streams: HashSet::new(),
            udp_peers: HashMap::new(),
            stream_tunnel: HashMap::new(),
            public_bind_address,
        }
    }

    fn streams_of_tunnel(&self, tunnel_id: u32) -> (r: Vec<u64>)
        ensures
            lists(r@, streams_of(self@, tunnel_id)),
    {
        broadcast use vstd::std_specs::hash::group_hash_axioms;

        let keys = keys_of(&self.stream_tunnel);
        let ghost p = |k: u64| self@.stream_tunnel[k] == tunnel_id;
        let mut r: Vec<u64> = Vec::new();
        let mut i: usize = 0;
        proof {
            lemma_pick_none(keys@, p);
        }
        while i < keys.len()
            invariant
                i <= keys@.len(),
                lists(keys@, self@.stream_tunnel.dom()),
                p == (|k: u64| self@.stream_tunnel[k] == tunnel_id),
                lists(r@, keys@.take(i as int).to_set().filter(p)),
            decreases keys@.len() - i,
        {
            let sid: u64 = keys[i];
            assert(keys@.contains(sid));
            assert(self@.stream_tunnel.dom().contains(sid));
            proof {
                lemma_pick_next(keys@, i as int, p, r@);
            }
            if let Some(t) = self.stream_tunnel.get(&sid) {
                if *t == tunnel_id {
                    r.push(sid);
                }
            }
            i += 1;
        }
        proof {
            lemma_pick_all(keys@, self@.stream_tunnel.dom(), p, r@);
            assert(self@.stream_tunnel.dom().filter(p) =~= streams_of(self@, tunnel_id));
        }
        r
    }

    fn remove_stream(&mut self, stream_id: u64)
        ensures
            final(self)@ == without_streams(old(self)@, set![stream_id]),
    {
        broadcast use vstd::std_specs::hash::group_hash_axioms;

        self.streams.remove(&stream_id);
        self.udp_peers.remove(&stream_id);
        self.stream_tunnel.remove(&stream_id);
        assert(self@ =~= without_streams(old(self)@, set![stream_id]));
    }

    fn remove_streams(&mut self, stream_ids: &[u64])
        ensures
            final(self)@ == without_streams(old(self)@, stream_ids@.to_set()),
    {
        let mut i: usize = 0;
        proof {
            assert(stream_ids@.take(0).to_set() =~= Set::<u64>::empty());
            assert(self@ =~= without_streams(old(self)@, stream_ids@.take(0).to_set()));
        }
        while i < stream_ids.len()
            invariant
                i <= stream_ids@.len(),
                self@ == without_streams(old(self)@, stream_ids@.take(i as int).to_set()),
            decreases stream_ids@.len() - i,
        {
            let sid: u64 = stream_ids[i];
            self.remove_stream(sid);
            proof {
                lemma_take_to_set(stream_ids@, i as int);
                assert(self@ =~= without_streams(old(self)@, stream_ids@.take(i + 1).to_set()));
            }
            i += 1;
        }
        proof {
            assert(stream_ids@.take(i as int) =~= stream_ids@);
        }
    }

    /// Acts on a control message of the client. `db_id` is the database row that
    /// a tunnel to be opened belongs to.
    pub fn handle_control_message(
        &mut self,
        registry: &mut ConnRegistry,
        msg: &Message,
        db_id: u32,
    ) -> (r: ControlAction)
        ensures
            control_step(
                old(self)@,
                old(registry)@,
                msg@,
                db_id,
                final(self)@,
                final(registry)@,
                r,
            ),
    {
        broadcast use vstd::std_specs::hash::group_hash_axioms;

        match msg {
            Message::OpenTunnel { tunnel_id, remote_port, protocol } => {
                if !is_valid_game_port(*remote_port) {
                    return ControlAction::Send(Message::CloseTunnel { tunnel_id: *tunnel_id });
                }
                if self.tunnels.contains_key(tunnel_id) {
                    return ControlAction::Duplicate;
                }
                let mut address = self.public_bind_address.clone();
                address.append(":");
                address.append(decimal(*remote_port as u64).as_str());
                ControlAction::Open(
                    OpenPlan {
                        tunnel: ActiveTunnel {
                            tunnel_id: *tunnel_id,
                            remote_port: *remote_port,
                            protocol: *protocol,
                            db_id,
                        },
                        address,
                        tcp: *protocol == TunnelProtocol::Tcp || *protocol == TunnelProtocol::Both,
                        udp: *protocol == TunnelProtocol::Udp || *protocol == TunnelProtocol::Both,
                    },
                )
            },
            Message::CloseTunnel { tunnel_id } => {
                let was_open = self.tunnels.contains_key(tunnel_id);
                self.tunnels.remove(tunnel_id);
                let ghost mid = self@;
                let streams = self.streams_of_tunnel(*tunnel_id);
                self.remove_streams(streams.as_slice());
                registry.remove_all(streams.as_slice());
                proof {
                    let sids = streams_of(old(self)@, *tunnel_id);
                    assert(mid.tunnels =~= old(self)@.tunnels.remove(*tunnel_id));
                    assert(streams@.to_set() =~= sids);
                    assert(self@ =~= tunnel_closed(old(self)@, *tunnel_id));
                }
                ControlAction::Close(ClosePlan { tunnel_id: *tunnel_id, was_open, streams })
            },
            Message::Ping => ControlAction::TrySend(Message::Pong),
            _ => ControlAction::Unexpected,
        }
    }

    /// The sockets of a tunnel were bound, or could not be. Returns the answer
    /// to the client.
    pub fn open_finished(&mut self, plan: &OpenPlan, bound: bool) -> (r: Message)
        ensures
            bound ==> r@ == (MessageView::TunnelOpened { tunnel_id: plan.tunnel.tunnel_id })
                && final(self)@ == (ServerView {
                tunnels: old(self)@.tunnels.insert(plan.tunnel.tunnel_id, plan.tunnel),
                ..old(self)@
            }),
            !bound ==> r@ == (MessageView::CloseTunnel { tunnel_id: plan.tunnel.tunnel_id })
                && final(self)@ == old(self)@,
    {
        broadcast use vstd::std_specs::hash::group_hash_axioms;

        if bound {
            self.tunnels.insert(plan.tunnel.tunnel_id, plan.tunnel);
            Message::TunnelOpened { tunnel_id: plan.tunnel.tunnel_id }
        } else {
            Message::CloseTunnel { tunnel_id: plan.tunnel.tunnel_id }
        }
    }

    /// The database row that a tunnel's players are counted under.
    pub fn db_id_of_tunnel(&self, tunnel_id: u32) -> (r: u32)
        ensures
            r == db_id_of(self@, tunnel_id),
    {
        broadcast use vstd::std_specs::hash::group_hash_axioms;

        match self.tunnels.get(&tunnel_id) {
            Some(t) => t.db_id,
            None => 0,
        }
    }

    /// A TCP player has connected to a tunnel. Returns the stream and the
    /// announcement to the client.
    pub fn accept_player(
        &mut self,
        registry: &mut ConnRegistry,
        ids: &mut StreamIds,
        tunnel_id: u32,
        peer_ip: String,
        now: u64,
    ) -> (r: (u64, Message))
        ensures
            r.0 == old(ids)@,
            final(ids)@ == wrapped_sum(old(ids)@, 1),
            r.1@ == (MessageView::NewConnection { tunnel_id, stream_id: r.0, is_udp: false }),
            final(self)@ == (ServerView {
                streams: old(self)@.streams.insert(r.0),
                stream_tunnel: old(self)@.stream_tunnel.insert(r.0, tunnel_id),
                ..old(self)@
            }),
            final(registry)@ == old(registry)@.insert(
                r.0,
                fresh_record(db_id_of(old(self)@, tunnel_id), tunnel_id, peer_ip, now),
            ),
    {
        broadcast use vstd::std_specs::hash::group_hash_axioms;

        let stream_id: u64 = ids.take();
        self.streams.insert(stream_id);
        self.stream_tunnel.insert(stream_id, tunnel_id);
        registry.register(stream_id, self.db_id_of_tunnel(tunnel_id), tunnel_id, peer_ip, now);
        (stream_id, Message::NewConnection { tunnel_id, stream_id, is_udp: false })
    }

    /// A UDP player has got a new stream.
    pub fn add_peer(&mut self, stream_id: u64, peer: UdpPeer)
        ensures
            final(self)@ == (ServerView {
                udp_peers: old(self)@.udp_peers.insert(stream_id, peer),
                stream_tunnel: old(self)@.stream_tunnel.insert(stream_id, peer.tunnel_id),
                ..old(self)@
            }),
    {
        broadcast use vstd::std_specs::hash::group_hash_axioms;

        self.udp_peers.insert(stream_id, peer);
        self.stream_tunnel.insert(stream_id, peer.tunnel_id);
    }

    /// A UDP player's stream moves to another address.
    pub fn move_peer(&mut self, stream_id: u64, peer: UdpPeer)
        ensures
            final(self)@ == (ServerView {
                udp_peers: old(self)@.udp_peers.insert(stream_id, peer),
                ..old(self)@
            }),
    {
        broadcast use vstd::std_specs::hash::group_hash_axioms;

        self.udp_peers.insert(stream_id, peer);
    }

    /// A UDP player's stream has ended.
    pub fn drop_peer(&mut self, stream_id: u64)
        ensures
            final(self)@ == (ServerView {
                udp_peers: old(self)@.udp_peers.remove(stream_id),
                stream_tunnel: old(self)@.stream_tunnel.remove(stream_id),
                ..old(self)@
            }),
    {
        broadcast use vstd::std_specs::hash::group_hash_axioms;

        self.udp_peers.remove(&stream_id);
        self.stream_tunnel.remove(&stream_id);
        assert(self@ =~= (ServerView {
            udp_peers: old(self)@.udp_peers.remove(stream_id),
            stream_tunnel: old(self)@.stream_tunnel.remove(stream_id),
            ..old(self)@
        }));
    }

    /// The UDP player of a stream.
    pub fn peer_of(&self, stream_id: u64) -> (r: Option<UdpPeer>)
        ensures
            r == looked_up(self@.udp_peers, stream_id),
    {
        broadcast use vstd::std_specs::hash::group_hash_axioms;

        match self.udp_peers.get(&stream_id) {
            Some(p) => Some(*p),
            None => None,
        }
    }

    /// Acts on a frame of the client.
    pub fn handle_frame(&mut self, registry: &mut ConnRegistry, frame: Frame, db_id: u32) -> (r:
        FrameAction)
        ensures
            frame_step(
                old(self)@,
                old(registry)@,
                frame@,
                db_id,
                final(self)@,
                final(registry)@,
                r,
            ),
    {
        broadcast use vstd::std_specs::hash::group_hash_axioms;

        match frame {
            Frame::Control(msg) => FrameAction::Control(
                self.handle_control_message(registry, &msg, db_id),
            ),
            Frame::Data { stream_id, payload } => {
                if self.streams.contains(&stream_id) {
                    return FrameAction::ToPlayer { stream_id, payload };
                }
                match self.peer_of(stream_id) {
                    Some(peer) => {
                        let n: u64 = payload.len() as u64;
                        registry.add_out(stream_id, n);
                        FrameAction::ToPeer { peer, payload }
                    },
                    None => FrameAction::Dropped,
                }
            },
            Frame::StreamClose { stream_id } => {
                self.remove_stream(stream_id);
                registry.remove(stream_id);
                FrameAction::Closed
            },
        }
    }

    /// Data could not be handed to a TCP player. Returns what the client is told.
    pub fn send_failed(&mut self, stream_id: u64) -> (r: Frame)
        ensures
            r@ == (FrameView::StreamClose { stream_id }),
            final(self)@ == (ServerView {
                streams: old(self)@.streams.remove(stream_id),
                stream_tunnel: old(self)@.stream_tunnel.remove(stream_id),
                ..old(self)@
            }),
    {
        broadcast use vstd::std_specs::hash::group_hash_axioms;

        self.streams.remove(&stream_id);
        self.stream_tunnel.remove(&stream_id);
        assert(self@ =~= (ServerView {
            streams: old(self)@.streams.remove(stream_id),
            stream_tunnel: old(self)@.stream_tunnel.remove(stream_id),
            ..old(self)@
        }));
        Frame::StreamClose { stream_id }
    }

    /// A TCP player's connection has ended. Returns what the client is told.
    pub fn player_ended(&mut self, registry: &mut ConnRegistry, stream_id: u64) -> (r: Frame)
        ensures
            r@ == (FrameView::StreamClose { stream_id }),
            final(self)@ == (ServerView {
                streams: old(self)@.streams.remove(stream_id),
                stream_tunnel: old(self)@.stream_tunnel.remove(stream_id),
                ..old(self)@
            }),
            final(registry)@ == old(registry)@.remove(stream_id),
    {
        registry.remove(stream_id);
        self.send_failed(stream_id)
    }

    /// The client is gone: every tunnel closes. Returns the tunnels whose
    /// listeners are to stop.
    pub fn end_session(&mut self) -> (r: Vec<u32>)
        ensures
            lists(r@, old(self)@.tunnels.dom()),
            final(self)@ == (ServerView {
                tunnels: Map::empty(),
                streams: Set::empty(),
                ..old(self)@
            }),
    {
        broadcast use vstd::std_specs::hash::group_hash_axioms;

        let r = keys_of(&self.tunnels);
        self.tunnels.clear();
        self.streams.clear();
        assert(self@ =~= (ServerView {
            tunnels: Map::empty(),
            streams: Set::empty(),
            ..old(self)@
        }));
        r
    }
}

} // verus!
