//! The client: its tunnels, the local ends of their streams, and how both
//! follow what the servers and the database say.

use std::collections::{HashMap, HashSet};
use vstd::prelude::*;
use vstd::string::*;
use crate::config::ServerEntry;
use crate::maps::{count_where, keys_of, lemma_count_bound, lemma_count_take, lemma_count_where,
    lemma_pick_all, lemma_pick_next, lemma_pick_none, lists};
use crate::protocol::{Frame, FrameView, Message, MessageView, TunnelProtocol};
use crate::registry::looked_up;
use crate::stats::{bytes_came, connection_begun, connection_gone, tunnel_added, Stats, StatsView};
use crate::text::{decimal, decimal_text, text_eq};

verus! {

/// A tunnel as the database describes it.
#[derive(Debug, Clone)]
pub struct DbTunnel {
    pub id: u32,
    pub uuid: String,
    pub name: String,
    pub online: bool,
    pub server_ip: String,
    pub server_port: u16,
    pub remote_port: u16,
    pub protocol: String,
    pub server_id: Option<u32>,
    pub subdomain: String,
    pub domain: String,
}

/// A tunnel that this client has opened.
#[derive(Debug, Clone)]
pub struct ActiveTunnel {
    pub tunnel_id: u32,
    pub server_id: u32,
    pub db_id: u32,
    pub remote_port: u16,
    pub local_address: String,
}

/// An open tunnel with its address as characters.
pub struct TunnelView {
    pub tunnel_id: u32,
    pub server_id: u32,
    pub db_id: u32,
    pub remote_port: u16,
    pub local_address: Seq<char>,
}

impl View for ActiveTunnel {
    type V = TunnelView;

    open spec fn view(&self) -> TunnelView {
        TunnelView {
            tunnel_id: self.tunnel_id,
            server_id: self.server_id,
            db_id: self.db_id,
            remote_port: self.remote_port,
            local_address: self.local_address@,
        }
    }
}

/// The tunnels and streams of a client.
#[derive(Debug)]
pub struct ClientState {
    tunnels: HashMap<u32, ActiveTunnel>,
    tunnel_local_addrs: HashMap<u32, String>,
    tunnel_protocols: HashMap<u32, String>,
    streams: HashSet<u64>,
    stream_tunnel: HashMap<u64, u32>,
    tunnel_server: HashMap<u32, u32>,
}

/// What a client holds.
#[verifier::ext_equal]
pub struct ClientView {
    /// The open tunnels, by database row.
    pub tunnels: Map<u32, TunnelView>,
    /// Where each tunnel leads, by tunnel id.
    pub local_addrs: Map<u32, Seq<char>>,
    /// The transport of each tunnel, by tunnel id.
    pub protocols: Map<u32, Seq<char>>,
    /// Streams with a local end.
    pub streams: Set<u64>,
    /// The tunnel of each stream.
    pub stream_tunnel: Map<u64, u32>,
    /// The server of each tunnel, by tunnel id.
    pub tunnel_server: Map<u32, u32>,
}

impl View for ClientState {
    type V = ClientView;

    closed spec fn view(&self) -> ClientView {
        ClientView {
            tunnels: self.tunnels@.map_values(|t: ActiveTunnel| t@),
            local_addrs: self.tunnel_local_addrs@.map_values(|s: String| s@),
            protocols: self.tunnel_protocols@.map_values(|s: String| s@),
            streams: self.streams@,
            stream_tunnel: self.stream_tunnel@,
            tunnel_server: self.tunnel_server@,
        }
    }
}

/// The counter that names tunnels.
#[derive(Debug)]
pub struct TunnelIds {
    next: u32,
}

impl View for TunnelIds {
    type V = u32;

    closed spec fn view(&self) -> u32 {
        self.next
    }
}

/// The id after this one. The counter wraps around.
pub open spec fn next_tunnel_id(id: u32) -> u32 {
    if id == u32::MAX {
        0
    } else {
        (id + 1) as u32
    }
}

impl TunnelIds {
    /// The first tunnel is 1.
    pub fn new() -> (r: Self)
        ensures
            r@ == 1,
    {
        TunnelIds { next: 1 }
    }

    /// Takes the next id.
    pub fn take(&mut self) -> (id: u32)
        ensures
            id == old(self)@,
            final(self)@ == next_tunnel_id(old(self)@),
    {
        let id: u32 = self.next;
        self.next = id.wrapping_add(1);
        id
    }
}

/// The transport that a database text names: TCP unless it says otherwise.
pub open spec fn protocol_named(s: Seq<char>) -> TunnelProtocol {
    if s == "udp"@ {
        TunnelProtocol::Udp
    } else if s == "both"@ {
        TunnelProtocol::Both
    } else {
        TunnelProtocol::Tcp
    }
}

/// Reads a database text as a transport.
pub fn protocol_from_text(s: &str) -> (r: TunnelProtocol)
    ensures
        r == protocol_named(s@),
{
    if text_eq(s, "udp") {
        TunnelProtocol::Udp
    } else if text_eq(s, "both") {
        TunnelProtocol::Both
    } else {
        TunnelProtocol::Tcp
    }
}

/// Where a tunnel of the database leads.
pub open spec fn local_address_of(t: DbTunnel) -> Seq<char> {
    t.server_ip@ + ":"@ + decimal_text(t.server_port as nat)
}

/// The request for a tunnel.
pub open spec fn open_request(t: DbTunnel, tunnel_id: u32) -> MessageView {
    MessageView::OpenTunnel {
        tunnel_id,
        remote_port: t.remote_port,
        protocol: protocol_named(t.protocol@),
    }
}

/// The client with one more tunnel.
pub open spec fn with_tunnel(v: ClientView, t: DbTunnel, tunnel_id: u32, server_id: u32) -> ClientView {
    ClientView {
        tunnels: v.tunnels.insert(
            t.id,
            TunnelView {
                tunnel_id,
                server_id,
                db_id: t.id,
                remote_port: t.remote_port,
                local_address: local_address_of(t),
            },
        ),
        local_addrs: v.local_addrs.insert(tunnel_id, local_address_of(t)),
        protocols: v.protocols.insert(tunnel_id, t.protocol@),
        tunnel_server: v.tunnel_server.insert(tunnel_id, server_id),
        ..v
    }
}

/// What a server's frame asks of the client.
#[derive(Debug, Clone)]
pub enum ClientAction {
    /// A tunnel is open. It leads here, as far as the client knows.
    Opened { tunnel_id: u32, local_address: Option<String> },
    /// Connect a new stream to its local end.
    Connect { tunnel_id: u32, stream_id: u64, is_udp: bool, local_address: String },
    /// Hand data to a local end. Where it is gone, report with `send_failed`.
    ToLocal { stream_id: u64, payload: Vec<u8> },
    /// Nothing to do.
    Nothing,
    /// Not a message for a client.
    Unexpected,
}

/// The local end of a stream where its tunnel is unknown.
pub open spec fn fallback_address() -> Seq<char> {
    "127.0.0.1:25565"@
}

/// A row of the client holds a tunnel id.
pub open spec fn row_holds(v: ClientView, row: u32, tunnel_id: u32) -> bool {
    v.tunnels.contains_key(row) && v.tunnels[row].tunnel_id == tunnel_id
}

/// The client after a server closed a tunnel.
pub open spec fn closed_by_server(pre: ClientView, tunnel_id: u32, post: ClientView) -> bool {
    &&& post == (ClientView {
        tunnels: post.tunnels,
        local_addrs: pre.local_addrs.remove(tunnel_id),
        tunnel_server: pre.tunnel_server.remove(tunnel_id),
        ..pre
    })
    &&& if exists|row: u32| #[trigger] row_holds(pre, row, tunnel_id) {
        exists|row: u32| #[trigger]
            row_holds(pre, row, tunnel_id) && post.tunnels == pre.tunnels.remove(row)
    } else {
        post.tunnels == pre.tunnels
    }
}

/// What a server's control message does to the client, and asks of it.
pub open spec fn client_control_step(
    pre: ClientView,
    pre_stats: StatsView,
    msg: MessageView,
    post: ClientView,
    post_stats: StatsView,
    action: ClientAction,
) -> bool {
    match msg {
        MessageView::TunnelOpened { tunnel_id } => {
            &&& post == pre
            &&& post_stats == pre_stats
            &&& action matches ClientAction::Opened { tunnel_id: id, local_address }
            &&& id == tunnel_id
            &&& match local_address {
                Some(a) => looked_up(pre.local_addrs, tunnel_id) == Some(a@),
                None => !pre.local_addrs.contains_key(tunnel_id),
            }
        },
        MessageView::NewConnection { tunnel_id, stream_id, is_udp } => {
            &&& post == (ClientView {
                streams: pre.streams.insert(stream_id),
                stream_tunnel: pre.stream_tunnel.insert(stream_id, tunnel_id),
                ..pre
            })
            &&& post_stats == connection_begun(pre_stats, tunnel_id)
            &&& action matches ClientAction::Connect {
                tunnel_id: t,
                stream_id: s,
                is_udp: u,
                local_address,
            }
            &&& t == tunnel_id
            &&& s == stream_id
            &&& u == is_udp
            &&& local_address@ == if pre.local_addrs.contains_key(tunnel_id) {
                pre.local_addrs[tunnel_id]
            } else {
                fallback_address()
            }
        },
        MessageView::CloseTunnel { tunnel_id } => {
            &&& closed_by_server(pre, tunnel_id, post)
            &&& post_stats == pre_stats
            &&& action is Nothing
        },
        MessageView::Pong => post == pre && post_stats == pre_stats && action is Nothing,
        _ => post == pre && post_stats == pre_stats && action is Unexpected,
    }
}

/// The client without a stream.
pub open spec fn without_stream(v: ClientView, stream_id: u64) -> ClientView {
    ClientView {
        streams: v.streams.remove(stream_id),
        stream_tunnel: v.stream_tunnel.remove(stream_id),
        ..v
    }
}

/// What a server's frame does to the client, and asks of it.
pub open spec fn client_frame_step(
    pre: ClientView,
    pre_stats: StatsView,
    frame: FrameView,
    post: ClientView,
    post_stats: StatsView,
    action: ClientAction,
) -> bool {
    match frame {
        FrameView::Control(msg) => client_control_step(
            pre,
            pre_stats,
            msg,
            post,
            post_stats,
            action,
        ),
        FrameView::Data { stream_id, payload } => {
            &&& post == pre
            &&& post_stats == bytes_came(
                pre_stats,
                looked_up(pre.stream_tunnel, stream_id),
                payload.len(),
            )
            &&& if pre.streams.contains(stream_id) {
                &&& action matches ClientAction::ToLocal { stream_id: s, payload: p }
                &&& s == stream_id
                &&& p@ == payload
            } else {
                action is Nothing
            }
        },
        FrameView::StreamClose { stream_id } => {
            &&& post == without_stream(pre, stream_id)
            &&& post_stats == match looked_up(pre.stream_tunnel, stream_id) {
                Some(tid) => connection_gone(pre_stats, tid),
                None => pre_stats,
            }
            &&& action is Nothing
        },
    }
}

/// The rows whose tunnels are on a server.
pub open spec fn rows_on(v: ClientView, server_id: u32) -> Set<u32> {
    v.tunnels.dom().filter(|row: u32| v.tunnels[row].server_id == server_id)
}

/// The tunnel ids of those rows.
pub open spec fn tunnel_ids_on(v: ClientView, server_id: u32) -> Set<u32> {
    rows_on(v, server_id).map(|row: u32| v.tunnels[row].tunnel_id)
}

/// The client after a server was lost: its tunnels are gone.
pub open spec fn without_server(v: ClientView, server_id: u32) -> ClientView {
    ClientView {
        tunnels: v.tunnels.remove_keys(rows_on(v, server_id)),
        local_addrs: v.local_addrs.remove_keys(tunnel_ids_on(v, server_id)),
        protocols: v.protocols.remove_keys(tunnel_ids_on(v, server_id)),
        tunnel_server: v.tunnel_server.remove_keys(tunnel_ids_on(v, server_id)),
        ..v
    }
}

impl ClientState {
    /// No tunnel, no stream.
    pub fn new() -> (r: Self)
        ensures
            r@ == (ClientView {
                tunnels: Map::empty(),
                local_addrs: Map::empty(),
                protocols: Map::empty(),
                streams: Set::empty(),
                stream_tunnel: Map::empty(),
                tunnel_server: Map::empty(),
            }),
    {
        let r = ClientState {
            tunnels: HashMap::new(),
            tunnel_local_addrs: HashMap::new(),
            tunnel_protocols: HashMap::new(),
            streams: HashSet::new(),
            stream_tunnel: HashMap::new(),
            tunnel_server: HashMap::new(),
        };
        assert(r@.tunnels =~= Map::empty());
        assert(r@.local_addrs =~= Map::empty());
        assert(r@.protocols =~= Map::empty());
        r
    }

    /// A row that holds a tunnel id.
    pub fn row_of_tunnel(&self, tunnel_id: u32) -> (r: Option<u32>)
        ensures
            match r {
                Some(row) => row_holds(self@, row, tunnel_id),
                None => forall|row: u32| !#[trigger] row_holds(self@, row, tunnel_id),
            },
    {
        broadcast use vstd::std_specs::hash::group_hash_axioms;

        let keys = keys_of(&self.tunnels);
        let mut i: usize = 0;
        while i < keys.len()
            invariant
                i <= keys@.len(),
                lists(keys@, self.tunnels@.dom()),
                forall|j: int| 0 <= j < i ==> !row_holds(self@, #[trigger] keys@[j], tunnel_id),
            decreases keys@.len() - i,
        {
            let k: u32 = keys[i];
            assert(keys@.contains(k));
            assert(self.tunnels@.dom().contains(k));
            if let Some(t) = self.tunnels.get(&k) {
                if t.tunnel_id == tunnel_id {
                    return Some(k);
                }
            }
            i += 1;
        }
        proof {
            assert forall|row: u32| !#[trigger] row_holds(self@, row, tunnel_id) by {
                if row_holds(self@, row, tunnel_id) {
                    assert(self.tunnels@.dom().contains(row));
                    let j = keys@.index_of(row);
                    assert(keys@[j] == row);
                }
            }
        }
        None
    }

    fn forget_stream(&mut self, stream_id: u64) -> (r: Option<u32>)
        ensures
            final(self)@ == without_stream(old(self)@, stream_id),
            r == looked_up(old(self)@.stream_tunnel, stream_id),
    {
        broadcast use vstd::std_specs::hash::group_hash_axioms;

        self.streams.remove(&stream_id);
        let r = self.stream_tunnel.remove(&stream_id);
        assert(self@ =~= without_stream(old(self)@, stream_id));
        r
    }

    /// Acts on a control message of a server.
    pub fn handle_control_message(&mut self, stats: &mut Stats, msg: &Message) -> (r: ClientAction)
        ensures
            client_control_step(
                old(self)@,
                old(stats)@,
                msg@,
                final(self)@,
                final(stats)@,
                r,
            ),
    {
        broadcast use vstd::std_specs::hash::group_hash_axioms;

        match msg {
            Message::TunnelOpened { tunnel_id } => {
                let local_address = match self.tunnel_local_addrs.get(tunnel_id) {
                    Some(a) => Some(a.clone()),
                    None => None,
                };
                ClientAction::Opened { tunnel_id: *tunnel_id, local_address }
            },
            Message::NewConnection { tunnel_id, stream_id, is_udp } => {
                let local_address = match self.tunnel_local_addrs.get(tunnel_id) {
                    Some(a) => a.clone(),
                    None => "127.0.0.1:25565".to_string(),
                };
                stats.connection_opened(*tunnel_id);
                self.stream_tunnel.insert(*stream_id, *tunnel_id);
                self.streams.insert(*stream_id);
                ClientAction::Connect {
                    tunnel_id: *tunnel_id,
                    stream_id: *stream_id,
                    is_udp: *is_udp,
                    local_address,
                }
            },
            Message::CloseTunnel { tunnel_id } => {
                let row = self.row_of_tunnel(*tunnel_id);
                if let Some(db_id) = row {
                    self.tunnels.remove(&db_id);
                    assert(self@.tunnels =~= old(self)@.tunnels.remove(db_id));
                    assert(row_holds(old(self)@, db_id, *tunnel_id));
                }
                self.tunnel_local_addrs.remove(tunnel_id);
                self.tunnel_server.remove(tunnel_id);
                proof {
                    assert(self@.local_addrs =~= old(self)@.local_addrs.remove(*tunnel_id));
                    assert(self@.tunnel_server =~= old(self)@.tunnel_server.remove(*tunnel_id));
                }
                ClientAction::Nothing
            },
            Message::Pong => ClientAction::Nothing,
            _ => ClientAction::Unexpected,
        }
    }

    /// Acts on a frame of a server.
    pub fn handle_server_frame(&mut self, stats: &mut Stats, frame: Frame) -> (r: ClientAction)
        ensures
            client_frame_step(
                old(self)@,
                old(stats)@,
                frame@,
                final(self)@,
                final(stats)@,
                r,
            ),
    {
        broadcast use vstd::std_specs::hash::group_hash_axioms;

        match frame {
            Frame::Control(msg) => self.handle_control_message(stats, &msg),
            Frame::Data { stream_id, payload } => {
                let tunnel_id = match self.stream_tunnel.get(&stream_id) {
                    Some(t) => Some(*t),
                    None => None,
                };
                let n: u64 = payload.len() as u64;
                stats.add_bytes_in(tunnel_id, n);
                if self.streams.contains(&stream_id) {
                    ClientAction::ToLocal { stream_id, payload }
                } else {
                    ClientAction::Nothing
                }
            },
            Frame::StreamClose { stream_id } => {
                if let Some(tid) = self.forget_stream(stream_id) {
                    stats.saturating_decrement_active(tid);
                }
                ClientAction::Nothing
            },
        }
    }

    /// Data could not be handed to a local end. Returns what the server is told.
    pub fn send_failed(&mut self, stream_id: u64) -> (r: Frame)
        ensures
            r@ == (FrameView::StreamClose { stream_id }),
            final(self)@ == without_stream(old(self)@, stream_id),
    {
        self.forget_stream(stream_id);
        Frame::StreamClose { stream_id }
    }

    /// The local end of a new stream could not be reached. Returns what the
    /// server is told.
    pub fn connect_failed(&mut self, stats: &mut Stats, stream_id: u64, tunnel_id: u32) -> (r: Frame)
        ensures
            r@ == (FrameView::StreamClose { stream_id }),
            final(self)@ == without_stream(old(self)@, stream_id),
            final(stats)@ == connection_gone(old(stats)@, tunnel_id),
    {
        stats.saturating_decrement_active(tunnel_id);
        self.forget_stream(stream_id);
        Frame::StreamClose { stream_id }
    }

    /// A local end has closed. Counts it unless the server closed the stream
    /// first. Returns what the server is told.
    pub fn local_ended(&mut self, stats: &mut Stats, stream_id: u64, tunnel_id: u32) -> (r: Frame)
        ensures
            r@ == (FrameView::StreamClose { stream_id }),
            final(self)@ == without_stream(old(self)@, stream_id),
            final(stats)@ == if old(self)@.stream_tunnel.contains_key(stream_id) {
                connection_gone(old(stats)@, tunnel_id)
            } else {
                old(stats)@
            },
    {
        if self.forget_stream(stream_id).is_some() {
            stats.saturating_decrement_active(tunnel_id);
        }
        Frame::StreamClose { stream_id }
    }

    /// The connection to a server was lost: its tunnels are forgotten. Returns
    /// how many there were.
    pub fn server_lost(&mut self, stats: &mut Stats, server_id: u32) -> (n: usize)
        ensures
            final(self)@ == without_server(old(self)@, server_id),
            final(stats)@ == (StatsView {
                tunnels: old(stats)@.tunnels.remove_keys(tunnel_ids_on(old(self)@, server_id)),
                ..old(stats)@
            }),
            rows_on(old(self)@, server_id).finite(),
            n == rows_on(old(self)@, server_id).len(),
    {
        broadcast use vstd::std_specs::hash::group_hash_axioms;

        let ghost start = self@;
        let ghost stats0 = stats@;
        let keys = keys_of(&self.tunnels);
        let mut n: usize = 0;
        let ghost mut rows: Set<u32> = Set::empty();
        let ghost mut tids: Set<u32> = Set::empty();
        proof {
            assert(self@ =~= (ClientView {
                tunnels: start.tunnels.remove_keys(rows),
                local_addrs: start.local_addrs.remove_keys(tids),
                protocols: start.protocols.remove_keys(tids),
                tunnel_server: start.tunnel_server.remove_keys(tids),
                ..start
            }));
            assert(stats@ =~= (StatsView {
                tunnels: stats0.tunnels.remove_keys(tids),
                ..stats0
            }));
        }
        let mut i: usize = 0;
        while i < keys.len()
            invariant
                i <= keys@.len(),
                n <= i,
                lists(keys@, start.tunnels.dom()),
                self@ == (ClientView {
                    tunnels: start.tunnels.remove_keys(rows),
                    local_addrs: start.local_addrs.remove_keys(tids),
                    protocols: start.protocols.remove_keys(tids),
                    tunnel_server: start.tunnel_server.remove_keys(tids),
                    ..start
                }),
                stats@ == (StatsView { tunnels: stats0.tunnels.remove_keys(tids), ..stats0 }),
                rows.finite(),
                n == rows.len(),
                forall|row: u32| #[trigger]
                    rows.contains(row) <==> exists|j: int|
                        0 <= j < i && #[trigger] keys@[j] == row && start.tunnels[row].server_id
                            == server_id,
                forall|row: u32| #[trigger]
                    rows.contains(row) ==> tids.contains(start.tunnels[row].tunnel_id),
                forall|tid: u32| #[trigger]
                    tids.contains(tid) ==> exists|row: u32| #[trigger]
                        rows.contains(row) && start.tunnels[row].tunnel_id == tid,
            decreases keys@.len() - i,
        {
            let k: u32 = keys[i];
            proof {
                assert(keys@.contains(k));
                assert(start.tunnels.dom().contains(k));
                if rows.contains(k) {
                    let j = choose|j: int| 0 <= j < i && #[trigger] keys@[j] == k;
                    assert(keys@[j] == keys@[i as int]);
                }
                assert(!rows.contains(k));
                assert(self@.tunnels.contains_key(k));
                assert(self.tunnels@.contains_key(k));
                assert(self@.tunnels[k] == self.tunnels@[k]@);
                assert(start.tunnels.remove_keys(rows)[k] == start.tunnels[k]);
            }
            let ghost at = self@;
            let found = match self.tunnels.get(&k) {
                Some(t) => if t.server_id == server_id {
                    Some(t.tunnel_id)
                } else {
                    None
                },
                None => None,
            };
            if let Some(tid) = found {
                let ghost rows0 = rows;
                self.tunnels.remove(&k);
                self.tunnel_local_addrs.remove(&tid);
                self.tunnel_protocols.remove(&tid);
                self.tunnel_server.remove(&tid);
                stats.remove_tunnel(tid);
                n = n + 1;
                proof {
                    rows = rows.insert(k);
                    tids = tids.insert(tid);
                    assert(self@.tunnels =~= at.tunnels.remove(k));
                    assert(self@.local_addrs =~= at.local_addrs.remove(tid));
                    assert(self@.protocols =~= at.protocols.remove(tid));
                    assert(self@.tunnel_server =~= at.tunnel_server.remove(tid));
                    assert(self@ =~= (ClientView {
                        tunnels: start.tunnels.remove_keys(rows),
                        local_addrs: start.local_addrs.remove_keys(tids),
                        protocols: start.protocols.remove_keys(tids),
                        tunnel_server: start.tunnel_server.remove_keys(tids),
                        ..start
                    }));
                    assert(stats@ =~= (StatsView {
                        tunnels: stats0.tunnels.remove_keys(tids),
                        ..stats0
                    }));
                    assert(start.tunnels[k].server_id == server_id);
                    assert(keys@[i as int] == k);
                    assert forall|t: u32| #[trigger] tids.contains(t) implies exists|row: u32|
                     #[trigger]
                        rows.contains(row) && start.tunnels[row].tunnel_id == t by {
                        if t == tid {
                            assert(rows.contains(k));
                        } else {
                            let row = choose|row: u32| #[trigger]
                                rows0.contains(row) && start.tunnels[row].tunnel_id == t;
                            assert(rows.contains(row));
                        }
                    }
                }
            }
            i += 1;
        }
        proof {
            assert forall|row: u32| rows.contains(row) <==> rows_on(start, server_id).contains(
                row,
            ) by {
                if rows_on(start, server_id).contains(row) {
                    assert(start.tunnels.dom().contains(row));
                    let j = keys@.index_of(row);
                    assert(keys@[j] == row);
                }
                if rows.contains(row) {
                    assert(keys@.contains(row));
                    assert(start.tunnels.dom().contains(row));
                }
            }
            assert(rows =~= rows_on(start, server_id));
            assert(tids =~= tunnel_ids_on(start, server_id)) by {
                assert forall|t: u32| tids.contains(t) <==> tunnel_ids_on(
                    start,
                    server_id,
                ).contains(t) by {
                    if tunnel_ids_on(start, server_id).contains(t) {
                        let row = choose|row: u32|
                            rows_on(start, server_id).contains(row)
                                && start.tunnels[row].tunnel_id == t;
                        assert(rows.contains(row));
                    }
                }
            }
        }
        n
    }
}

/// A server of the configuration has this id.
pub open spec fn has_entry(entries: Seq<ServerEntry>, id: u32) -> bool {
    exists|i: int| 0 <= i < entries.len() && (#[trigger] entries[i]).id == id
}

/// Whether a server of the configuration has this id.
pub fn entry_exists(entries: &[ServerEntry], id: u32) -> (r: bool)
    ensures
        r == has_entry(entries@, id),
{
    let mut i: usize = 0;
    while i < entries.len()
        invariant
            i <= entries@.len(),
            forall|j: int| 0 <= j < i ==> (#[trigger] entries@[j]).id != id,
        decreases entries@.len() - i,
    {
        if entries[i].id == id {
            return true;
        }
        i += 1;
    }
    false
}

/// `idx` are the positions below `n` that satisfy `p`, in order.
pub open spec fn selects(idx: Seq<usize>, n: int, p: spec_fn(int) -> bool) -> bool {
    &&& forall|a: int, b: int| 0 <= a < b < idx.len() ==> idx[a] < idx[b]
    &&& forall|a: int| 0 <= a < idx.len() ==> 0 <= #[trigger] idx[a] < n && p(idx[a] as int)
    &&& forall|i: int|
        0 <= i < n && #[trigger] p(i) ==> exists|a: int|
            0 <= a < idx.len() && #[trigger] idx[a] == i
}

/// A tunnel that goes to another server.
#[derive(Debug, Clone, Copy, PartialEq, Eq)]
pub struct TunnelMove {
    /// Its position in the database's list.
    pub index: usize,
    pub from_server: u32,
    pub to_server: u32,
}

/// What it takes to follow the database: positions of tunnels to add, rows to
/// remove, and tunnels to move.
#[derive(Debug, Clone)]
pub struct SyncPlan {
    pub add: Vec<usize>,
    pub remove: Vec<u32>,
    pub update: Vec<TunnelMove>,
}

/// A tunnel of the database is open on another server than the database asks
/// for, and that one is configured.
pub open spec fn wants_move(v: ClientView, entries: Seq<ServerEntry>, t: DbTunnel) -> bool {
    &&& v.tunnels.contains_key(t.id)
    &&& t.server_id matches Some(sid) && has_entry(entries, sid) && sid
        != v.tunnels[t.id].server_id
}

/// The rows of a list of tunnels.
pub open spec fn row_ids(ts: Seq<DbTunnel>) -> Set<u32> {
    ts.map_values(|t: DbTunnel| t.id).to_set()
}

/// The positions of moves.
pub open spec fn move_positions(ms: Seq<TunnelMove>) -> Seq<usize> {
    ms.map_values(|m: TunnelMove| m.index)
}

/// A tunnel that is forgotten: its id, its server, and what that server is told.
#[derive(Debug, Clone)]
pub struct Removal {
    pub tunnel_id: u32,
    pub server_id: u32,
    pub notice: Message,
}

/// A tunnel that has moved: what its old server is told, and its new one where
/// that is connected.
#[derive(Debug, Clone)]
pub struct MoveStep {
    pub notice: Message,
    pub request: Option<Message>,
}

/// The client after a row that the database no longer has was removed. What its
/// transport was stays known.
pub open spec fn row_removed(v: ClientView, row: u32) -> ClientView {
    let tid = v.tunnels[row].tunnel_id;
    ClientView {
        tunnels: v.tunnels.remove(row),
        local_addrs: v.local_addrs.remove(tid),
        tunnel_server: v.tunnel_server.remove(tid),
        ..v
    }
}

/// The client after a row left its old server.
pub open spec fn row_detached(v: ClientView, row: u32) -> ClientView {
    ClientView {
        protocols: v.protocols.remove(v.tunnels[row].tunnel_id),
        ..row_removed(v, row)
    }
}

/// How many tunnels are on a server.
pub open spec fn tunnel_count(v: ClientView, server_id: u32) -> nat {
    rows_on(v, server_id).len()
}

/// What `counts` says of a server: none where it says nothing.
pub open spec fn counted(counts: Map<u32, usize>, server_id: u32) -> nat {
    if counts.contains_key(server_id) {
        counts[server_id] as nat
    } else {
        0
    }
}

/// The first server with the fewest tunnels is at position `i`.
pub open spec fn first_fewest(
    entries: Seq<ServerEntry>,
    counts: Map<u32, usize>,
    i: int,
) -> bool {
    &&& 0 <= i < entries.len()
    &&& forall|j: int|
        0 <= j < entries.len() ==> counted(counts, entries[i].id) <= counted(
            counts,
            (#[trigger] entries[j]).id,
        )
    &&& forall|j: int|
        0 <= j < i ==> counted(counts, entries[i].id) < counted(counts, (#[trigger] entries[j]).id)
}

/// `server_id` is the server of a new tunnel: the one that the database asks for,
/// where it is configured, else the first one with the fewest tunnels.
pub open spec fn is_choice(
    wanted: Option<u32>,
    entries: Seq<ServerEntry>,
    counts: Map<u32, usize>,
    server_id: u32,
) -> bool {
    if wanted is Some && has_entry(entries, wanted->Some_0) {
        server_id == wanted->Some_0
    } else if entries.len() == 0 {
        server_id == 1
    } else {
        exists|i: int| #[trigger] first_fewest(entries, counts, i) && server_id == entries[i].id
    }
}

/// Chooses the server of a new tunnel.
pub fn choose_server(
    wanted: Option<u32>,
    entries: &[ServerEntry],
    counts: &HashMap<u32, usize>,
) -> (r: u32)
    ensures
        is_choice(wanted, entries@, counts@, r),
{
    broadcast use vstd::std_specs::hash::group_hash_axioms;

    if let Some(sid) = wanted {
        if entry_exists(entries, sid) {
            return sid;
        }
    }
    if entries.len() == 0 {
        return 1;
    }
    let mut best: usize = 0;
    let mut best_count: usize = match counts.get(&entries[0].id) {
        Some(c) => *c,
        None => 0,
    };
    let mut i: usize = 1;
    while i < entries.len()
        invariant
            1 <= i <= entries@.len(),
            best < i,
            best_count == counted(counts@, entries@[best as int].id),
            forall|j: int|
                0 <= j < i ==> best_count <= counted(counts@, (#[trigger] entries@[j]).id),
            forall|j: int|
                0 <= j < best ==> best_count < counted(counts@, (#[trigger] entries@[j]).id),
        decreases entries@.len() - i,
    {
        let c: usize = match counts.get(&entries[i].id) {
            Some(c) => *c,
            None => 0,
        };
        if c < best_count {
            best = i;
            best_count = c;
        }
        i += 1;
    }
    assert(first_fewest(entries@, counts@, best as int));
    entries[best].id
}

/// A tunnel that is asked for: under which id, of which server, and how.
#[derive(Debug, Clone)]
pub struct AddStep {
    pub tunnel_id: u32,
    pub server_id: u32,
    pub request: Message,
}

/// Works out how a new tunnel is asked for. Nothing happens where its server is
/// not connected. Once the request is sent, `add_row` records the tunnel.
pub fn plan_add(
    ids: &mut TunnelIds,
    t: &DbTunnel,
    entries: &[ServerEntry],
    counts: &HashMap<u32, usize>,
    connected: &HashSet<u32>,
) -> (r: Option<AddStep>)
    ensures
        match r {
            Some(step) => {
                &&& is_choice(t.server_id, entries@, counts@, step.server_id)
                &&& connected@.contains(step.server_id)
                &&& step.tunnel_id == old(ids)@
                &&& step.request@ == open_request(*t, old(ids)@)
                &&& final(ids)@ == next_tunnel_id(old(ids)@)
            },
            None => {
                &&& exists|sid: u32| #[trigger]
                    is_choice(t.server_id, entries@, counts@, sid) && !connected@.contains(sid)
                &&& final(ids)@ == old(ids)@
            },
        },
{
    broadcast use vstd::std_specs::hash::group_hash_axioms;

    let server_id: u32 = choose_server(t.server_id, entries, counts);
    assert(is_choice(t.server_id, entries@, counts@, server_id));
    if !connected.contains(&server_id) {
        return None;
    }
    let tunnel_id: u32 = ids.take();
    Some(AddStep { tunnel_id, server_id, request: open_message(t, tunnel_id) })
}

/// The address text of a tunnel's local end.
pub fn local_address(t: &DbTunnel) -> (r: String)
    ensures
        r@ == local_address_of(*t),
{
    let mut address = t.server_ip.clone();
    address.append(":");
    address.append(decimal(t.server_port as u64).as_str());
    address
}

/// The message that asks for a tunnel.
pub fn open_message(t: &DbTunnel, tunnel_id: u32) -> (r: Message)
    ensures
        r@ == open_request(*t, tunnel_id),
{
    Message::OpenTunnel {
        tunnel_id,
        remote_port: t.remote_port,
        protocol: protocol_from_text(t.protocol.as_str()),
    }
}

/// The text under which a tunnel's state is written to the database.
pub open spec fn status_text(active_connections: u64) -> Seq<char> {
    if active_connections > 0 {
        "running"@
    } else {
        "idle"@
    }
}

/// The state of a row, to be written to the database.
#[derive(Debug, Clone, Copy)]
pub struct StatusUpdate {
    pub db_id: u32,
    pub status: &'static str,
}

/// `updates` are the states of the rows that hold the tunnels of `tids`, in that
/// order.
pub open spec fn reports_status(
    updates: Seq<StatusUpdate>,
    tids: Seq<u32>,
    v: ClientView,
    stats: StatsView,
) -> bool {
    &&& updates.len() == tids.len()
    &&& forall|j: int|
        0 <= j < tids.len() ==> row_holds(v, (#[trigger] updates[j]).db_id, tids[j])
            && updates[j].status@ == status_text(stats.tunnels[tids[j]].active_connections)
}

/// The tunnels that are counted and that some row holds.
pub open spec fn counted_tunnels(v: ClientView, stats: StatsView) -> Set<u32> {
    stats.tunnels.dom().filter(|tid: u32| exists|row: u32| #[trigger] row_holds(v, row, tid))
}

impl ClientState {
    /// Compares the open tunnels with those of the database.
    pub fn plan_sync(&self, db_tunnels: &[DbTunnel], entries: &[ServerEntry]) -> (r: SyncPlan)
        ensures
            selects(
                r.add@,
                db_tunnels@.len() as int,
                |i: int| !self@.tunnels.contains_key(db_tunnels@[i].id),
            ),
            selects(
                move_positions(r.update@),
                db_tunnels@.len() as int,
                |i: int| wants_move(self@, entries@, db_tunnels@[i]),
            ),
            forall|k: int|
                0 <= k < r.update@.len() ==> {
                    let m = #[trigger] r.update@[k];
                    let t = db_tunnels@[m.index as int];
                    m.from_server == self@.tunnels[t.id].server_id && t.server_id == Some(
                        m.to_server,
                    )
                },
            lists(r.remove@, self@.tunnels.dom().difference(row_ids(db_tunnels@))),
    {
        broadcast use vstd::std_specs::hash::group_hash_axioms;

        let ghost n = db_tunnels@.len() as int;
        let ghost is_new = |i: int| !self@.tunnels.contains_key(db_tunnels@[i].id);
        let ghost moves = |i: int| wants_move(self@, entries@, db_tunnels@[i]);
        let mut add: Vec<usize> = Vec::new();
        let mut update: Vec<TunnelMove> = Vec::new();
        let mut i: usize = 0;
        while i < db_tunnels.len()
            invariant
                i <= db_tunnels@.len(),
                is_new == (|i: int| !self@.tunnels.contains_key(db_tunnels@[i].id)),
                moves == (|i: int| wants_move(self@, entries@, db_tunnels@[i])),
                selects(add@, i as int, is_new),
                selects(move_positions(update@), i as int, moves),
                forall|k: int|
                    0 <= k < update@.len() ==> {
                        let m = #[trigger] update@[k];
                        let t = db_tunnels@[m.index as int];
                        m.from_server == self@.tunnels[t.id].server_id && t.server_id == Some(
                            m.to_server,
                        )
                    },
            decreases db_tunnels@.len() - i,
        {
            let t = &db_tunnels[i];
            let ghost add0 = add@;
            let ghost update0 = update@;
            match self.tunnels.get(&t.id) {
                Some(current) => {
                    assert(self@.tunnels.contains_key(t.id));
                    assert(self@.tunnels[t.id] == current@);
                    if let Some(sid) = t.server_id {
                        if entry_exists(entries, sid) && sid != current.server_id {
                            update.push(
                                TunnelMove {
                                    index: i,
                                    from_server: current.server_id,
                                    to_server: sid,
                                },
                            );
                            proof {
                                assert(moves(i as int));
                                assert(move_positions(update@) =~= move_positions(update0).push(i));
                                lemma_selects_push(move_positions(update0), i, moves);
                            }
                        } else {
                            assert(!moves(i as int));
                        }
                    } else {
                        assert(!moves(i as int));
                    }
                    assert(!is_new(i as int));
                },
                None => {
                    add.push(i);
                    assert(is_new(i as int));
                    assert(!moves(i as int));
                    proof {
                        lemma_selects_push(add0, i, is_new);
                    }
                },
            }
            i += 1;
        }
        let keys = keys_of(&self.tunnels);
        let ghost ids = db_tunnels@.map_values(|t: DbTunnel| t.id);
        let ghost unknown = |row: u32| !ids.contains(row);
        let mut remove: Vec<u32> = Vec::new();
        let mut i: usize = 0;
        proof {
            lemma_pick_none(keys@, unknown);
        }
        while i < keys.len()
            invariant
                i <= keys@.len(),
                lists(keys@, self@.tunnels.dom()),
                ids == db_tunnels@.map_values(|t: DbTunnel| t.id),
                unknown == (|row: u32| !ids.contains(row)),
                lists(remove@, keys@.take(i as int).to_set().filter(unknown)),
            decreases keys@.len() - i,
        {
            let row: u32 = keys[i];
            let mut known = false;
            let mut j: usize = 0;
            while j < db_tunnels.len()
                invariant
                    j <= db_tunnels@.len(),
                    ids == db_tunnels@.map_values(|t: DbTunnel| t.id),
                    known <==> exists|m: int| 0 <= m < j && #[trigger] ids[m] == row,
                decreases db_tunnels@.len() - j,
            {
                if db_tunnels[j].id == row {
                    known = true;
                    assert(ids[j as int] == row);
                }
                j += 1;
            }
            assert(known <==> ids.contains(row)) by {
                if ids.contains(row) {
                    let m = ids.index_of(row);
                    assert(ids[m] == row);
                }
            }
            proof {
                lemma_pick_next(keys@, i as int, unknown, remove@);
            }
            if !known {
                remove.push(row);
            }
            i += 1;
        }
        proof {
            lemma_pick_all(keys@, self@.tunnels.dom(), unknown, remove@);
            assert(self@.tunnels.dom().filter(unknown) =~= self@.tunnels.dom().difference(
                row_ids(db_tunnels@),
            ));
        }
        SyncPlan { add, remove, update }
    }

    /// The tunnel of a row and its server.
    pub fn tunnel_of_row(&self, row: u32) -> (r: Option<(u32, u32)>)
        ensures
            r == if self@.tunnels.contains_key(row) {
                Some((self@.tunnels[row].tunnel_id, self@.tunnels[row].server_id))
            } else {
                None
            },
    {
        broadcast use vstd::std_specs::hash::group_hash_axioms;

        match self.tunnels.get(&row) {
            Some(t) => Some((t.tunnel_id, t.server_id)),
            None => None,
        }
    }

    /// Forgets a row that the database no longer has. Returns nothing where the
    /// row has no tunnel, or its tunnel has no id.
    pub fn remove_row(&mut self, stats: &mut Stats, row: u32) -> (r: Option<Removal>)
        ensures
            if old(self)@.tunnels.contains_key(row) && old(self)@.tunnels[row].tunnel_id > 0 {
                let t = old(self)@.tunnels[row];
                &&& r matches Some(m)
                &&& m.tunnel_id == t.tunnel_id
                &&& m.server_id == t.server_id
                &&& m.notice@ == (MessageView::CloseTunnel { tunnel_id: t.tunnel_id })
                &&& final(self)@ == row_removed(old(self)@, row)
                &&& final(stats)@ == (StatsView {
                    tunnels: old(stats)@.tunnels.remove(t.tunnel_id),
                    ..old(stats)@
                })
            } else {
                r is None && final(self)@ == old(self)@ && final(stats)@ == old(stats)@
            },
    {
        broadcast use vstd::std_specs::hash::group_hash_axioms;

        match self.tunnel_of_row(row) {
            Some((tunnel_id, server_id)) => {
                if tunnel_id == 0 {
                    return None;
                }
                self.tunnels.remove(&row);
                self.tunnel_local_addrs.remove(&tunnel_id);
                self.tunnel_server.remove(&tunnel_id);
                stats.remove_tunnel(tunnel_id);
                assert(self@ =~= row_removed(old(self)@, row));
                Some(Removal { tunnel_id, server_id, notice: Message::CloseTunnel { tunnel_id } })
            },
            None => None,
        }
    }

    /// Moves a tunnel to another server: it is closed on the old one, and opened
    /// under a new id on the new one where that is connected. Returns nothing
    /// where the row has no tunnel, or its tunnel has no id.
    pub fn move_row(
        &mut self,
        stats: &mut Stats,
        ids: &mut TunnelIds,
        t: &DbTunnel,
        to_server: u32,
        connected: bool,
    ) -> (r: Option<MoveStep>)
        ensures
            if old(self)@.tunnels.contains_key(t.id) && old(self)@.tunnels[t.id].tunnel_id > 0 {
                let tid = old(self)@.tunnels[t.id].tunnel_id;
                let detached = row_detached(old(self)@, t.id);
                let uncounted = StatsView {
                    tunnels: old(stats)@.tunnels.remove(tid),
                    ..old(stats)@
                };
                &&& r matches Some(m)
                &&& m.notice@ == (MessageView::CloseTunnel { tunnel_id: tid })
                &&& final(ids)@ == next_tunnel_id(old(ids)@)
                &&& if connected {
                    &&& m.request matches Some(q) && q@ == open_request(*t, old(ids)@)
                    &&& final(self)@ == with_tunnel(detached, *t, old(ids)@, to_server)
                    &&& final(stats)@ == tunnel_added(
                        uncounted,
                        old(ids)@,
                        t.id,
                        t.name,
                        t.subdomain,
                    )
                } else {
                    m.request is None && final(self)@ == detached && final(stats)@ == uncounted
                }
            } else {
                &&& r is None
                &&& final(self)@ == old(self)@
                &&& final(stats)@ == old(stats)@
                &&& final(ids)@ == old(ids)@
            },
    {
        broadcast use vstd::std_specs::hash::group_hash_axioms;

        match self.tunnel_of_row(t.id) {
            Some((tunnel_id, _)) => {
                if tunnel_id == 0 {
                    return None;
                }
                self.tunnels.remove(&t.id);
                self.tunnel_local_addrs.remove(&tunnel_id);
                self.tunnel_server.remove(&tunnel_id);
                self.tunnel_protocols.remove(&tunnel_id);
                stats.remove_tunnel(tunnel_id);
                assert(self@ =~= row_detached(old(self)@, t.id));
                let new_id: u32 = ids.take();
                let notice = Message::CloseTunnel { tunnel_id };
                if connected {
                    self.add_row(stats, t, new_id, to_server);
                    Some(MoveStep { notice, request: Some(open_message(t, new_id)) })
                } else {
                    Some(MoveStep { notice, request: None })
                }
            },
            None => None,
        }
    }

    /// A tunnel was asked for: from now on it is open, as far as this client
    /// knows.
    pub fn add_row(&mut self, stats: &mut Stats, t: &DbTunnel, tunnel_id: u32, server_id: u32)
        ensures
            final(self)@ == with_tunnel(old(self)@, *t, tunnel_id, server_id),
            final(stats)@ == tunnel_added(old(stats)@, tunnel_id, t.id, t.name, t.subdomain),
    {
        broadcast use vstd::std_specs::hash::group_hash_axioms;

        let address = local_address(t);
        let ghost text = address@;
        self.tunnels.insert(
            t.id,
            ActiveTunnel {
                tunnel_id,
                server_id,
                db_id: t.id,
                remote_port: t.remote_port,
                local_address: address.clone(),
            },
        );
        self.tunnel_local_addrs.insert(tunnel_id, address);
        self.tunnel_protocols.insert(tunnel_id, t.protocol.clone());
        self.tunnel_server.insert(tunnel_id, server_id);
        stats.add_tunnel(tunnel_id, t.id, t.name.clone(), t.subdomain.clone());
        assert(self@ =~= with_tunnel(old(self)@, *t, tunnel_id, server_id));
    }

    /// How many tunnels are on each server.
    pub fn tunnel_counts(&self) -> (r: HashMap<u32, usize>)
        ensures
            forall|sid: u32| #[trigger] counted(r@, sid) == tunnel_count(self@, sid),
    {
        broadcast use vstd::std_specs::hash::group_hash_axioms;

        let ghost v = self@;
        let ghost on = |sid: u32| (|row: u32| v.tunnels[row].server_id == sid);
        let keys = keys_of(&self.tunnels);
        let mut counts: HashMap<u32, usize> = HashMap::new();
        let mut i: usize = 0;
        while i < keys.len()
            invariant
                i <= keys@.len(),
                v == self@,
                on == (|sid: u32| (|row: u32| v.tunnels[row].server_id == sid)),
                lists(keys@, v.tunnels.dom()),
                forall|sid: u32| #[trigger]
                    counted(counts@, sid) == count_where(keys@.take(i as int), on(sid)),
            decreases keys@.len() - i,
        {
            let row: u32 = keys[i];
            assert(keys@.contains(row));
            assert(v.tunnels.dom().contains(row));
            let ghost before = counts@;
            let ghost home = v.tunnels[row].server_id;
            proof {
                lemma_count_bound(keys@.take(i as int), on(home));
                assert(counted(before, home) <= i);
            }
            if let Some(t) = self.tunnels.get(&row) {
                let sid: u32 = t.server_id;
                let c: usize = match counts.get(&sid) {
                    Some(c) => *c,
                    None => 0,
                };
                counts.insert(sid, c + 1);
            }
            proof {
                assert forall|sid: u32| #[trigger] counted(counts@, sid) == count_where(
                    keys@.take(i + 1),
                    on(sid),
                ) by {
                    lemma_count_take(keys@, on(sid), i as int);
                    assert(counted(before, sid) == count_where(keys@.take(i as int), on(sid)));
                }
            }
            i += 1;
        }
        proof {
            assert(keys@.take(i as int) =~= keys@);
            assert forall|sid: u32| #[trigger] counted(counts@, sid) == tunnel_count(v, sid) by {
                lemma_count_where(keys@, on(sid));
                assert(keys@.to_set() =~= v.tunnels.dom());
                assert(rows_on(v, sid) =~= v.tunnels.dom().filter(on(sid)));
            }
        }
        counts
    }

    /// The states to be written to the database: of every counted tunnel that
    /// some row holds.
    pub fn status_updates(&self, stats: &Stats) -> (r: Vec<StatusUpdate>)
        ensures
            exists|tids: Seq<u32>| #[trigger]
                reports_status(r@, tids, self@, stats@) && lists(
                    tids,
                    counted_tunnels(self@, stats@),
                ),
    {
        broadcast use vstd::std_specs::hash::group_hash_axioms;

        let keys = keys_of(&stats.tunnels);
        let ghost held = |tid: u32| exists|row: u32| #[trigger] row_holds(self@, row, tid);
        let mut r: Vec<StatusUpdate> = Vec::new();
        let ghost mut tids: Seq<u32> = Seq::empty();
        let mut i: usize = 0;
        proof {
            lemma_pick_none(keys@, held);
        }
        while i < keys.len()
            invariant
                i <= keys@.len(),
                lists(keys@, stats@.tunnels.dom()),
                held == (|tid: u32| exists|row: u32| #[trigger] row_holds(self@, row, tid)),
                reports_status(r@, tids, self@, stats@),
                lists(tids, keys@.take(i as int).to_set().filter(held)),
            decreases keys@.len() - i,
        {
            let tid: u32 = keys[i];
            assert(keys@.contains(tid));
            assert(stats@.tunnels.dom().contains(tid));
            proof {
                lemma_pick_next(keys@, i as int, held, tids);
            }
            if let Some(db_id) = self.row_of_tunnel(tid) {
                assert(row_holds(self@, db_id, tid));
                assert(held(tid));
                if let Some(t) = stats.tunnels.get(&tid) {
                    let ghost before = tids;
                    let ghost out0 = r@;
                    let status = if t.active_connections > 0 {
                        "running"
                    } else {
                        "idle"
                    };
                    r.push(StatusUpdate { db_id, status });
                    proof {
                        tids = tids.push(tid);
                        assert forall|j: int| 0 <= j < tids.len() implies row_holds(
                            self@,
                            (#[trigger] r@[j]).db_id,
                            tids[j],
                        ) && r@[j].status@ == status_text(
                            stats@.tunnels[tids[j]].active_connections,
                        ) by {
                            if j < before.len() {
                                assert(r@[j] == out0[j]);
                            }
                        }
                    }
                }
            }
            i += 1;
        }
        proof {
            lemma_pick_all(keys@, stats@.tunnels.dom(), held, tids);
            assert(stats@.tunnels.dom().filter(held) =~= counted_tunnels(self@, stats@));
            assert(reports_status(r@, tids, self@, stats@));
        }
        r
    }
}

proof fn lemma_selects_push(idx: Seq<usize>, i: usize, p: spec_fn(int) -> bool)
    requires
        selects(idx, i as int, p),
        p(i as int),
    ensures
        selects(idx.push(i), i + 1, p),
{
    let next = idx.push(i);
    assert forall|k: int| 0 <= k < i + 1 && #[trigger] p(k) implies exists|a: int|
        0 <= a < next.len() && #[trigger] next[a] == k by {
        if k < i {
            let j = choose|a: int| 0 <= a < idx.len() && #[trigger] idx[a] == k;
            assert(next[j] == k);
        } else {
            assert(next[idx.len() as int] == k);
        }
    }
}

} // verus!
