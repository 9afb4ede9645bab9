//! What the manager knows of tunnels, clients and player connections, put
//! together from the database, the clients and the servers.

use std::collections::HashMap;
use vstd::prelude::*;
use vstd::string::*;
use vstd::utf8::*;
use crate::config::{ManagedClient, ManagedServer};
use crate::database::{date_text, opt_date_text, TunnelRow};
use crate::maps::{count_where, keys_of, lemma_count_take, lemma_count_where, lists};
use crate::registry::wrapped_sum;
use crate::text::{is_text_le, join_text, joined, lemma_bytes_le_total, lemma_bytes_le_transitive,
    opt_text, text_eq, text_le};

verus! {

/// A JSON value of `serde_json`, carried as it is.
#[verifier::external_type_specification]
#[verifier::external_body]
pub struct ExJsonValue(serde_json::Value);

/// A player connection as a server reports it.
#[derive(Debug, Clone)]
pub struct ServerConnData {
    pub stream_id: u64,
    pub db_id: u32,
    pub tunnel_id: u32,
    pub peer_ip: String,
    pub bytes_in: u64,
    pub bytes_out: u64,
    pub bytes_in_per_sec: u64,
    pub bytes_out_per_sec: u64,
    pub connected_secs: u64,
}

/// A player connection as the manager reports it.
#[derive(Debug, Clone)]
pub struct TunnelConnInfo {
    pub stream_id: u64,
    pub peer_ip: String,
    pub bytes_in: u64,
    pub bytes_out: u64,
    pub bytes_in_per_sec: u64,
    pub bytes_out_per_sec: u64,
    pub connected_secs: u64,
}

/// A tunnel as the manager reports it.
#[derive(Debug, Clone)]
pub struct TunnelInfo {
    pub id: u32,
    pub name: String,
    pub subdomain: String,
    pub domain: String,
    pub online: bool,
    pub client_id: Option<String>,
    pub server_id: Option<u32>,
    pub tunnel_status: String,
    pub last_seen: Option<String>,
    pub remote_port: u16,
    pub protocol: String,
    pub active_connections: u64,
    pub bytes_in: u64,
    pub bytes_out: u64,
    pub bytes_in_per_sec: u64,
    pub bytes_out_per_sec: u64,
}

/// A client as the manager reports it.
#[derive(Debug, Clone)]
pub struct ClientInfo {
    pub id: String,
    pub name: String,
    pub stats_url: String,
    pub reachable: bool,
    pub tunnel_count: usize,
    pub active_connections: u64,
    pub total_bytes_in: u64,
    pub total_bytes_out: u64,
    pub bytes_in_per_sec: u64,
    pub bytes_out_per_sec: u64,
    pub uptime_secs: u64,
    pub servers: Vec<serde_json::Value>,
}

/// What a client process answers when it is asked for its statistics.
#[derive(Debug, Clone)]
pub struct ClientStatsResponse {
    pub uptime_secs: u64,
    pub total_bytes_in: u64,
    pub total_bytes_out: u64,
    pub total_connections: u64,
    pub servers: Vec<serde_json::Value>,
    pub tunnels: Vec<ClientTunnelStats>,
}

/// What a client process says of one tunnel.
#[derive(Debug, Clone, Copy, PartialEq, Eq, Structural)]
pub struct ClientTunnelStats {
    pub db_id: u32,
    pub bytes_in: u64,
    pub bytes_out: u64,
    pub active_connections: u64,
    pub bytes_in_per_sec: u64,
    pub bytes_out_per_sec: u64,
}

/// What the manager knows.
#[derive(Debug)]
pub struct ManagerState {
    /// The tunnels, by name.
    pub tunnels: Vec<TunnelInfo>,
    pub clients: Vec<ClientInfo>,
    /// The player connections of each database row.
    pub connections_by_db_id: HashMap<u32, Vec<TunnelConnInfo>>,
    /// The server of each stream.
    pub stream_server_map: HashMap<u64, u32>,
}

/// The sum of some numbers.
pub open spec fn total(s: Seq<u64>) -> nat
    decreases s.len(),
{
    if s.len() == 0 {
        0
    } else {
        total(s.drop_last()) + s.last() as nat
    }
}

/// The sum of some numbers as a counter of 64 bits holds it.
pub open spec fn wrapped_total(s: Seq<u64>) -> u64 {
    (total(s) % 0x1_0000_0000_0000_0000) as u64
}

proof fn lemma_wrapped_total_push(s: Seq<u64>, x: u64)
    ensures
        wrapped_total(s.push(x)) == wrapped_sum(wrapped_total(s), x),
{
    assert(s.push(x).drop_last() =~= s);
}

/// The largest of some numbers, or zero.
pub open spec fn largest(s: Seq<u64>) -> u64
    decreases s.len(),
{
    if s.len() == 0 {
        0
    } else if largest(s.drop_last()) > s.last() {
        largest(s.drop_last())
    } else {
        s.last()
    }
}

/// `info` is what a row says of a tunnel, with nothing counted yet.
pub open spec fn describes(info: TunnelInfo, row: TunnelRow) -> bool {
    &&& info.id == row.id
    &&& info.name == row.name
    &&& info.subdomain == row.subdomain
    &&& info.domain == row.domain
    &&& info.online == row.online
    &&& info.client_id == row.client_id
    &&& info.server_id == row.server_id
    &&& info.tunnel_status == row.tunnel_status
    &&& opt_text(info.last_seen) == opt_date_text(row.last_seen)
    &&& info.remote_port == row.remote_port
    &&& info.protocol == row.protocol
    &&& info.active_connections == 0
    &&& info.bytes_in == 0
    &&& info.bytes_out == 0
    &&& info.bytes_in_per_sec == 0
    &&& info.bytes_out_per_sec == 0
}

fn tunnel_info(row: TunnelRow) -> (r: TunnelInfo)
    ensures
        describes(r, row),
{
    let last_seen = date_text(row.last_seen);
    TunnelInfo {
        id: row.id,
        name: row.name,
        subdomain: row.subdomain,
        domain: row.domain,
        online: row.online,
        client_id: row.client_id,
        server_id: row.server_id,
        tunnel_status: row.tunnel_status,
        last_seen,
        remote_port: row.remote_port,
        protocol: row.protocol,
        active_connections: 0,
        bytes_in: 0,
        bytes_out: 0,
        bytes_in_per_sec: 0,
        bytes_out_per_sec: 0,
    }
}

/// `m` holds what the rows say, by id. Of rows with the same id the last counts.
pub open spec fn maps_rows(m: Map<u32, TunnelInfo>, rows: Seq<TunnelRow>) -> bool {
    &&& forall|k: u32| #[trigger]
        m.contains_key(k) ==> exists|i: int| 0 <= i < rows.len() && (#[trigger] rows[i]).id == k
    &&& forall|i: int|
        #![trigger rows[i]]
        0 <= i < rows.len() ==> m.contains_key(rows[i].id) && ((forall|j: int|
            i < j < rows.len() ==> (#[trigger] rows[j]).id != rows[i].id) ==> describes(
            m[rows[i].id],
            rows[i],
        ))
}

/// The tunnels of the database, by id.
pub fn tunnel_map(rows: Vec<TunnelRow>) -> (r: HashMap<u32, TunnelInfo>)
    ensures
        maps_rows(r@, rows@),
{
    broadcast use vstd::std_specs::hash::group_hash_axioms;

    let ghost all = rows@;
    let mut r: HashMap<u32, TunnelInfo> = HashMap::new();
    for row in it: rows
        invariant
            it.seq() == all,
            maps_rows(r@, all.take(it.index())),
    {
        let ghost before = r@;
        let ghost n = it.index();
        assert(row == all[n]);
        let id: u32 = row.id;
        r.insert(id, tunnel_info(row));
        proof {
            let done = all.take(n);
            let next = all.take(n + 1);
            assert forall|k: u32| #[trigger] r@.contains_key(k) implies exists|i: int|
                0 <= i < next.len() && (#[trigger] next[i]).id == k by {
                if k == id {
                    assert(next[n].id == k);
                } else {
                    assert(before.contains_key(k));
                    let i = choose|i: int| 0 <= i < done.len() && (#[trigger] done[i]).id == k;
                    assert(next[i].id == k);
                }
            }
            assert forall|i: int|
                #![trigger next[i]]
                0 <= i < next.len() implies r@.contains_key(next[i].id) && ((forall|j: int|
                i < j < next.len() ==> (#[trigger] next[j]).id != next[i].id) ==> describes(
                r@[next[i].id],
                next[i],
            )) by {
                if i < n {
                    assert(next[i] == done[i]);
                    if forall|j: int|
                        i < j < next.len() ==> (#[trigger] next[j]).id != next[i].id {
                        assert(next[n].id != next[i].id);
                        assert forall|j: int| i < j < done.len() implies (#[trigger] done[j]).id
                            != done[i].id by {
                            assert(next[j] == done[j]);
                        }
                    }
                }
            }
        }
    }
    assert(all.take(all.len() as int) =~= all);
    r
}

/// What a client process says of a tunnel, put into its record.
pub open spec fn with_counts(info: TunnelInfo, t: ClientTunnelStats) -> TunnelInfo {
    TunnelInfo {
        active_connections: t.active_connections,
        bytes_in: t.bytes_in,
        bytes_out: t.bytes_out,
        bytes_in_per_sec: t.bytes_in_per_sec,
        bytes_out_per_sec: t.bytes_out_per_sec,
        ..info
    }
}

/// The tunnels after some reports, one after the other. A report on an unknown
/// tunnel is ignored.
pub open spec fn after_reports(m: Map<u32, TunnelInfo>, ts: Seq<ClientTunnelStats>) -> Map<
    u32,
    TunnelInfo,
>
    decreases ts.len(),
{
    if ts.len() == 0 {
        m
    } else {
        let before = after_reports(m, ts.drop_last());
        let t = ts.last();
        if before.contains_key(t.db_id) {
            before.insert(t.db_id, with_counts(before[t.db_id], t))
        } else {
            before
        }
    }
}

fn absorb(m: &mut HashMap<u32, TunnelInfo>, t: &ClientTunnelStats)
    ensures
        final(m)@ == if old(m)@.contains_key(t.db_id) {
            old(m)@.insert(t.db_id, with_counts(old(m)@[t.db_id], *t))
        } else {
            old(m)@
        },
{
    broadcast use vstd::std_specs::hash::group_hash_axioms;

    if let Some(info) = m.remove(&t.db_id) {
        let mut info = info;
        info.active_connections = t.active_connections;
        info.bytes_in = t.bytes_in;
        info.bytes_out = t.bytes_out;
        info.bytes_in_per_sec = t.bytes_in_per_sec;
        info.bytes_out_per_sec = t.bytes_out_per_sec;
        m.insert(t.db_id, info);
    }
    assert(m@ =~= if old(m)@.contains_key(t.db_id) {
        old(m)@.insert(t.db_id, with_counts(old(m)@[t.db_id], *t))
    } else {
        old(m)@
    });
}

proof fn lemma_reports_keep_clients(m: Map<u32, TunnelInfo>, ts: Seq<ClientTunnelStats>)
    ensures
        after_reports(m, ts).dom() == m.dom(),
        forall|k: u32| #[trigger]
            m.contains_key(k) ==> after_reports(m, ts)[k].client_id == m[k].client_id
                && after_reports(m, ts)[k].name == m[k].name,
    decreases ts.len(),
{
    if ts.len() > 0 {
        lemma_reports_keep_clients(m, ts.drop_last());
    }
    assert(after_reports(m, ts).dom() =~= m.dom());
}

proof fn lemma_reports_compose(
    m: Map<u32, TunnelInfo>,
    a: Seq<ClientTunnelStats>,
    b: Seq<ClientTunnelStats>,
)
    ensures
        after_reports(after_reports(m, a), b) == after_reports(m, a + b),
    decreases b.len(),
{
    if b.len() == 0 {
        assert(a + b =~= a);
    } else {
        assert((a + b).drop_last() =~= a + b.drop_last());
        lemma_reports_compose(m, a, b.drop_last());
    }
}

/// The answers among the attempts to reach a client's processes, in order.
pub open spec fn answers(polled: Seq<Option<ClientStatsResponse>>) -> Seq<ClientStatsResponse>
    decreases polled.len(),
{
    if polled.len() == 0 {
        Seq::empty()
    } else {
        let before = answers(polled.drop_last());
        match polled.last() {
            Some(r) => before.push(r),
            None => before,
        }
    }
}

/// All that some answers say of tunnels, in order.
pub open spec fn tunnel_reports(rs: Seq<ClientStatsResponse>) -> Seq<ClientTunnelStats>
    decreases rs.len(),
{
    if rs.len() == 0 {
        Seq::empty()
    } else {
        tunnel_reports(rs.drop_last()) + rs.last().tunnels@
    }
}

/// All that some answers say of servers, in order.
pub open spec fn server_reports(rs: Seq<ClientStatsResponse>) -> Seq<serde_json::Value>
    decreases rs.len(),
{
    if rs.len() == 0 {
        Seq::empty()
    } else {
        server_reports(rs.drop_last()) + rs.last().servers@
    }
}

/// The tunnels that a client serves.
pub open spec fn tunnels_of_client(m: Map<u32, TunnelInfo>, client: Seq<char>) -> Set<u32> {
    m.dom().filter(|k: u32| opt_text(m[k].client_id) == Some(client))
}

/// The URLs of a client in one text.
pub open spec fn urls_text(cfg: ManagedClient) -> Seq<char> {
    joined(cfg.stats_url_views(), ", "@)
}

/// A count that a client process reports of a tunnel.
#[derive(Debug, Clone, Copy, PartialEq, Eq, Structural)]
pub enum TunnelCount {
    Active,
    RateIn,
    RateOut,
}

/// What a report says.
pub open spec fn said_of(which: TunnelCount) -> spec_fn(ClientTunnelStats) -> u64 {
    |t: ClientTunnelStats|
        match which {
            TunnelCount::Active => t.active_connections,
            TunnelCount::RateIn => t.bytes_in_per_sec,
            TunnelCount::RateOut => t.bytes_out_per_sec,
        }
}

/// A count that a client process reports of itself.
#[derive(Debug, Clone, Copy, PartialEq, Eq, Structural)]
pub enum AnswerCount {
    BytesIn,
    BytesOut,
    Uptime,
}

/// What an answer says.
pub open spec fn answered(which: AnswerCount) -> spec_fn(ClientStatsResponse) -> u64 {
    |r: ClientStatsResponse|
        match which {
            AnswerCount::BytesIn => r.total_bytes_in,
            AnswerCount::BytesOut => r.total_bytes_out,
            AnswerCount::Uptime => r.uptime_secs,
        }
}

/// `info` reports a client that could not be reached.
pub open spec fn reports_unreachable(info: ClientInfo, cfg: ManagedClient) -> bool {
    &&& info.id@ == cfg.id@
    &&& info.name@ == cfg.name@
    &&& info.stats_url@ == urls_text(cfg)
    &&& !info.reachable
    &&& info.tunnel_count == 0
    &&& info.active_connections == 0
    &&& info.total_bytes_in == 0
    &&& info.total_bytes_out == 0
    &&& info.bytes_in_per_sec == 0
    &&& info.bytes_out_per_sec == 0
    &&& info.uptime_secs == 0
    &&& info.servers@.len() == 0
}

/// `info` reports a client by what its processes answered: the sums of their
/// counts, and the longest time that one has run.
pub open spec fn reports_reachable(
    info: ClientInfo,
    cfg: ManagedClient,
    rs: Seq<ClientStatsResponse>,
    tunnel_count: nat,
) -> bool {
    let ts = tunnel_reports(rs);
    &&& info.id@ == cfg.id@
    &&& info.name@ == cfg.name@
    &&& info.stats_url@ == urls_text(cfg)
    &&& info.reachable
    &&& info.tunnel_count == tunnel_count
    &&& info.active_connections == wrapped_total(ts.map_values(said_of(TunnelCount::Active)))
    &&& info.total_bytes_in == wrapped_total(rs.map_values(answered(AnswerCount::BytesIn)))
    &&& info.total_bytes_out == wrapped_total(rs.map_values(answered(AnswerCount::BytesOut)))
    &&& info.bytes_in_per_sec == wrapped_total(ts.map_values(said_of(TunnelCount::RateIn)))
    &&& info.bytes_out_per_sec == wrapped_total(ts.map_values(said_of(TunnelCount::RateOut)))
    &&& info.uptime_secs == largest(rs.map_values(answered(AnswerCount::Uptime)))
    &&& info.servers@ == server_reports(rs)
}

/// What is reported of a client: it is unreachable where none of its processes
/// answered.
pub open spec fn reports_client(
    info: ClientInfo,
    cfg: ManagedClient,
    polled: Seq<Option<ClientStatsResponse>>,
    m: Map<u32, TunnelInfo>,
) -> bool {
    let rs = heard_from(cfg, polled);
    if rs.len() == 0 {
        reports_unreachable(info, cfg)
    } else {
        reports_reachable(info, cfg, rs, tunnels_of_client(m, cfg.id@).len())
    }
}

/// The answers of a client: none where it has no URL to ask.
pub open spec fn heard_from(cfg: ManagedClient, polled: Seq<Option<ClientStatsResponse>>) -> Seq<
    ClientStatsResponse,
> {
    if cfg.stats_url_views().len() == 0 {
        Seq::empty()
    } else {
        answers(polled)
    }
}

/// The report on a client that could not be reached.
pub fn unreachable_client(cfg: &ManagedClient) -> (r: ClientInfo)
    ensures
        reports_unreachable(r, *cfg),
{
    let urls = cfg.all_stats_urls();
    ClientInfo {
        id: cfg.id.clone(),
        name: cfg.name.clone(),
        stats_url: join_text(&urls, ", "),
        reachable: false,
        tunnel_count: 0,
        active_connections: 0,
        total_bytes_in: 0,
        total_bytes_out: 0,
        bytes_in_per_sec: 0,
        bytes_out_per_sec: 0,
        uptime_secs: 0,
        servers: Vec::new(),
    }
}

fn count_tunnels(m: &HashMap<u32, TunnelInfo>, client: &str) -> (n: usize)
    ensures
        tunnels_of_client(m@, client@).finite(),
        n == tunnels_of_client(m@, client@).len(),
{
    broadcast use vstd::std_specs::hash::group_hash_axioms;

    let ghost p = |k: u32| opt_text(m@[k].client_id) == Some(client@);
    let keys = keys_of(m);
    let mut n: usize = 0;
    let mut i: usize = 0;
    while i < keys.len()
        invariant
            i <= keys@.len(),
            n <= i,
            p == (|k: u32| opt_text(m@[k].client_id) == Some(client@)),
            lists(keys@, m@.dom()),
            n == count_where(keys@.take(i as int), p),
        decreases keys@.len() - i,
    {
        let k: u32 = keys[i];
        assert(keys@.contains(k));
        assert(m@.dom().contains(k));
        let own = match m.get(&k) {
            Some(info) => match &info.client_id {
                Some(c) => text_eq(c.as_str(), client),
                None => false,
            },
            None => false,
        };
        proof {
            lemma_count_take(keys@, p, i as int);
        }
        if own {
            n = n + 1;
        }
        i += 1;
    }
    proof {
        assert(keys@.take(i as int) =~= keys@);
        lemma_count_where(keys@, p);
        assert(keys@.to_set() =~= m@.dom());
        assert(tunnels_of_client(m@, client@) =~= m@.dom().filter(p));
    }
    n
}

fn keep_answers(polled: Vec<Option<ClientStatsResponse>>) -> (r: Vec<ClientStatsResponse>)
    ensures
        r@ == answers(polled@),
{
    let ghost all = polled@;
    let mut r: Vec<ClientStatsResponse> = Vec::new();
    for attempt in it: polled
        invariant
            it.seq() == all,
            r@ == answers(all.take(it.index())),
    {
        let ghost n = it.index();
        assert(attempt == all[n]);
        assert(all.take(n + 1).drop_last() =~= all.take(n));
        if let Some(response) = attempt {
            r.push(response);
        }
    }
    assert(all.take(all.len() as int) =~= all);
    r
}

fn flatten_reports(rs: &[ClientStatsResponse]) -> (ts: Vec<ClientTunnelStats>)
    ensures
        ts@ == tunnel_reports(rs@),
{
    let mut ts: Vec<ClientTunnelStats> = Vec::new();
    let mut i: usize = 0;
    while i < rs.len()
        invariant
            i <= rs@.len(),
            ts@ == tunnel_reports(rs@.take(i as int)),
        decreases rs@.len() - i,
    {
        let ghost before = ts@;
        let more = &rs[i].tunnels;
        let mut j: usize = 0;
        assert(before + more@.take(0) =~= before);
        while j < more.len()
            invariant
                j <= more@.len(),
                ts@ == before + more@.take(j as int),
            decreases more@.len() - j,
        {
            assert(before + more@.take(j + 1) =~= ts@.push(more@[j as int]));
            ts.push(more[j]);
            j += 1;
        }
        assert(more@.take(j as int) =~= more@);
        assert(rs@.take(i + 1).drop_last() =~= rs@.take(i as int));
        i += 1;
    }
    assert(rs@.take(i as int) =~= rs@);
    ts
}

fn absorb_all(m: &mut HashMap<u32, TunnelInfo>, ts: &[ClientTunnelStats])
    ensures
        final(m)@ == after_reports(old(m)@, ts@),
{
    let mut i: usize = 0;
    while i < ts.len()
        invariant
            i <= ts@.len(),
            m@ == after_reports(old(m)@, ts@.take(i as int)),
        decreases ts@.len() - i,
    {
        assert(ts@.take(i + 1).drop_last() =~= ts@.take(i as int));
        absorb(m, &ts[i]);
        i += 1;
    }
    assert(ts@.take(i as int) =~= ts@);
}

fn report_total(ts: &[ClientTunnelStats], which: TunnelCount) -> (sum: u64)
    ensures
        sum == wrapped_total(ts@.map_values(said_of(which))),
{
    let mut values: Vec<u64> = Vec::new();
    let mut i: usize = 0;
    while i < ts.len()
        invariant
            i <= ts@.len(),
            values@ == ts@.take(i as int).map_values(said_of(which)),
        decreases ts@.len() - i,
    {
        let t = ts[i];
        let n: u64 = match which {
            TunnelCount::Active => t.active_connections,
            TunnelCount::RateIn => t.bytes_in_per_sec,
            TunnelCount::RateOut => t.bytes_out_per_sec,
        };
        assert(ts@.take(i + 1).map_values(said_of(which)) =~= values@.push(n));
        values.push(n);
        i += 1;
    }
    assert(ts@.take(i as int) =~= ts@);
    add_up(values.as_slice())
}

fn answer_counts(rs: &[ClientStatsResponse], which: AnswerCount) -> (values: Vec<u64>)
    ensures
        values@ == rs@.map_values(answered(which)),
{
    let mut values: Vec<u64> = Vec::new();
    let mut i: usize = 0;
    while i < rs.len()
        invariant
            i <= rs@.len(),
            values@ == rs@.take(i as int).map_values(answered(which)),
        decreases rs@.len() - i,
    {
        let r = &rs[i];
        let n: u64 = match which {
            AnswerCount::BytesIn => r.total_bytes_in,
            AnswerCount::BytesOut => r.total_bytes_out,
            AnswerCount::Uptime => r.uptime_secs,
        };
        assert(rs@.take(i + 1).map_values(answered(which)) =~= values@.push(n));
        values.push(n);
        i += 1;
    }
    assert(rs@.take(i as int) =~= rs@);
    values
}

fn find_largest(values: &[u64]) -> (r: u64)
    ensures
        r == largest(values@),
{
    let mut r: u64 = 0;
    let mut i: usize = 0;
    while i < values.len()
        invariant
            i <= values@.len(),
            r == largest(values@.take(i as int)),
        decreases values@.len() - i,
    {
        assert(values@.take(i + 1).drop_last() =~= values@.take(i as int));
        if values[i] >= r {
            r = values[i];
        }
        i += 1;
    }
    assert(values@.take(i as int) =~= values@);
    r
}

fn collect_servers(rs: Vec<ClientStatsResponse>) -> (r: Vec<serde_json::Value>)
    ensures
        r@ == server_reports(rs@),
{
    let ghost all = rs@;
    let mut r: Vec<serde_json::Value> = Vec::new();
    for response in it: rs
        invariant
            it.seq() == all,
            r@ == server_reports(all.take(it.index())),
    {
        let ghost n = it.index();
        assert(response == all[n]);
        assert(all.take(n + 1).drop_last() =~= all.take(n));
        let mut more = response.servers;
        r.append(&mut more);
    }
    assert(all.take(all.len() as int) =~= all);
    r
}

/// Puts together what the processes of one client answered, and brings the
/// tunnels up to date with it.
pub fn refresh_client(
    m: &mut HashMap<u32, TunnelInfo>,
    cfg: &ManagedClient,
    polled: Vec<Option<ClientStatsResponse>>,
) -> (r: ClientInfo)
    ensures
        reports_client(r, *cfg, polled@, old(m)@),
        final(m)@ == after_reports(old(m)@, tunnel_reports(heard_from(*cfg, polled@))),
        tunnels_of_client(old(m)@, cfg.id@).finite(),
{
    let urls = cfg.all_stats_urls();
    let tunnel_count: usize = count_tunnels(m, cfg.id.as_str());
    assert(urls@.len() == cfg.stats_url_views().len());
    if urls.len() == 0 {
        return unreachable_client(cfg);
    }
    let rs = keep_answers(polled);
    if rs.len() == 0 {
        return unreachable_client(cfg);
    }
    let ts = flatten_reports(rs.as_slice());
    absorb_all(m, ts.as_slice());
    let bytes_in = answer_counts(rs.as_slice(), AnswerCount::BytesIn);
    let bytes_out = answer_counts(rs.as_slice(), AnswerCount::BytesOut);
    let uptimes = answer_counts(rs.as_slice(), AnswerCount::Uptime);
    ClientInfo {
        id: cfg.id.clone(),
        name: cfg.name.clone(),
        stats_url: join_text(&urls, ", "),
        reachable: true,
        tunnel_count,
        active_connections: report_total(ts.as_slice(), TunnelCount::Active),
        total_bytes_in: add_up(bytes_in.as_slice()),
        total_bytes_out: add_up(bytes_out.as_slice()),
        bytes_in_per_sec: report_total(ts.as_slice(), TunnelCount::RateIn),
        bytes_out_per_sec: report_total(ts.as_slice(), TunnelCount::RateOut),
        uptime_secs: find_largest(uptimes.as_slice()),
        servers: collect_servers(rs),
    }
}

/// What the first `n` clients say of tunnels, in order.
pub open spec fn reports_of_clients(
    clients: Seq<ManagedClient>,
    polled: Seq<Vec<Option<ClientStatsResponse>>>,
    n: nat,
) -> Seq<ClientTunnelStats>
    decreases n,
{
    if n == 0 {
        Seq::empty()
    } else {
        reports_of_clients(clients, polled, (n - 1) as nat) + tunnel_reports(
            heard_from(clients[n - 1], polled[n - 1]@),
        )
    }
}

/// Puts together what all clients answered. `polled` holds, for each client, the
/// attempts to reach its processes.
pub fn refresh_clients(
    m: &mut HashMap<u32, TunnelInfo>,
    clients: &[ManagedClient],
    polled: Vec<Vec<Option<ClientStatsResponse>>>,
) -> (r: Vec<ClientInfo>)
    requires
        clients@.len() == polled@.len(),
    ensures
        r@.len() == clients@.len(),
        forall|i: int|
            0 <= i < r@.len() ==> reports_client(
                #[trigger] r@[i],
                clients@[i],
                polled@[i]@,
                old(m)@,
            ),
        final(m)@ == after_reports(
            old(m)@,
            reports_of_clients(clients@, polled@, clients@.len()),
        ),
{
    let ghost start = m@;
    let ghost all = polled@;
    let mut r: Vec<ClientInfo> = Vec::new();
    let mut i: usize = 0;
    for attempts in it: polled
        invariant
            it.seq() == all,
            all.len() == clients@.len(),
            i == it.index(),
            r@.len() == i,
            forall|j: int|
                0 <= j < r@.len() ==> reports_client(
                    #[trigger] r@[j],
                    clients@[j],
                    all[j]@,
                    start,
                ),
            m@ == after_reports(start, reports_of_clients(clients@, all, i as nat)),
    {
        let ghost done = reports_of_clients(clients@, all, i as nat);
        let ghost at = m@;
        assert(attempts == all[i as int]);
        let ghost cfg = clients@[i as int];
        let info = refresh_client(m, &clients[i], attempts);
        proof {
            lemma_reports_keep_clients(start, done);
            assert(tunnels_of_client(at, cfg.id@) =~= tunnels_of_client(start, cfg.id@));
            lemma_reports_compose(start, done, tunnel_reports(heard_from(cfg, all[i as int]@)));
        }
        r.push(info);
        i += 1;
    }
    r
}

/// The names do not descend.
pub open spec fn sorted_by_name(ts: Seq<TunnelInfo>) -> bool {
    forall|a: int, b: int|
        0 <= a < b < ts.len() ==> text_le((#[trigger] ts[a]).name@, (#[trigger] ts[b]).name@)
}

/// `ts` are the values of `m`, each key of `order` once, in that order.
pub open spec fn values_in_order<V>(ts: Seq<V>, order: Seq<u32>, m: Map<u32, V>) -> bool {
    &&& lists(order, m.dom())
    &&& ts.len() == order.len()
    &&& forall|j: int| 0 <= j < ts.len() ==> #[trigger] ts[j] == m[order[j]]
}

/// The tunnels, sorted by name.
pub fn sorted_tunnels(m: HashMap<u32, TunnelInfo>) -> (r: Vec<TunnelInfo>)
    ensures
        sorted_by_name(r@),
        exists|order: Seq<u32>| #[trigger] values_in_order(r@, order, m@),
{
    broadcast use vstd::std_specs::hash::group_hash_axioms;

    let ghost all = m@;
    let keys = keys_of(&m);
    let mut m = m;
    let mut r: Vec<TunnelInfo> = Vec::new();
    let ghost mut order: Seq<u32> = Seq::empty();
    let mut i: usize = 0;
    while i < keys.len()
        invariant
            i <= keys@.len(),
            lists(keys@, all.dom()),
            r@.len() == i,
            order.len() == i,
            order.no_duplicates(),
            forall|k: u32| #[trigger]
                order.contains(k) <==> exists|j: int| 0 <= j < i && #[trigger] keys@[j] == k,
            forall|j: int| 0 <= j < i ==> #[trigger] r@[j] == all[order[j]],
            forall|j: int|
                i <= j < keys@.len() ==> m@.contains_key(#[trigger] keys@[j]) && m@[keys@[j]]
                    == all[keys@[j]],
            sorted_by_name(r@),
        decreases keys@.len() - i,
    {
        let k: u32 = keys[i];
        assert(keys@.contains(k));
        if let Some(info) = m.remove(&k) {
            let ghost before = r@;
            let ghost order0 = order;
            let mut p: usize = r.len();
            while p > 0 && !is_text_le(r[p - 1].name.as_str(), info.name.as_str())
                invariant
                    p <= r@.len(),
                    r@ == before,
                    forall|j: int|
                        p <= j < r@.len() ==> !text_le((#[trigger] r@[j]).name@, info.name@),
                decreases p,
            {
                p = p - 1;
            }
            let ghost item = info;
            r.insert(p, info);
            proof {
                order = order0.insert(p as int, k);
                assert(!order0.contains(k)) by {
                    if order0.contains(k) {
                        let j = choose|j: int| 0 <= j < i && #[trigger] keys@[j] == k;
                        assert(keys@[j] == keys@[i as int]);
                    }
                }
                lemma_insert(order0, p as int, k);
                assert forall|q: u32| #[trigger] order.contains(q) <==> exists|j: int|
                    0 <= j < i + 1 && #[trigger] keys@[j] == q by {
                    if q == k {
                        assert(keys@[i as int] == q);
                    }
                }
                assert forall|j: int| 0 <= j < r@.len() implies #[trigger] r@[j]
                    == all[order[j]] by {
                    if j < p {
                        assert(r@[j] == before[j]);
                    } else if j > p {
                        assert(r@[j] == before[j - 1]);
                    }
                }
                lemma_sorted_insert(before, p as int, item);
                assert forall|j: int| i + 1 <= j < keys@.len() implies m@.contains_key(
                    #[trigger] keys@[j],
                ) && m@[keys@[j]] == all[keys@[j]] by {
                    assert(keys@[j] != k);
                }
            }
        }
        i += 1;
    }
    proof {
        assert forall|k: u32| #[trigger] all.dom().contains(k) <==> order.contains(k) by {
            if all.dom().contains(k) {
                let j = keys@.index_of(k);
                assert(keys@[j] == k);
            }
            if order.contains(k) {
                assert(keys@.contains(k));
            }
        }
        assert(values_in_order(r@, order, all));
    }
    r
}

proof fn lemma_insert(s: Seq<u32>, p: int, k: u32)
    requires
        0 <= p <= s.len(),
        s.no_duplicates(),
        !s.contains(k),
    ensures
        s.insert(p, k).no_duplicates(),
        forall|q: u32| #[trigger] s.insert(p, k).contains(q) <==> s.contains(q) || q == k,
{
    let t = s.insert(p, k);
    assert forall|a: int, b: int| 0 <= a < b < t.len() implies t[a] != t[b] by {
        if a == p {
            assert(t[b] == s[b - 1]);
        } else if b == p {
            assert(t[a] == s[a]);
        }
    }
    assert forall|q: u32| #[trigger] t.contains(q) <==> s.contains(q) || q == k by {
        if s.contains(q) {
            let j = s.index_of(q);
            if j < p {
                assert(t[j] == q);
            } else {
                assert(t[j + 1] == q);
            }
        }
        if q == k {
            assert(t[p] == q);
        }
        if t.contains(q) && q != k {
            let j = t.index_of(q);
            if j < p {
                assert(s[j] == q);
            } else {
                assert(s[j - 1] == q);
            }
        }
    }
}

proof fn lemma_sorted_insert(s: Seq<TunnelInfo>, p: int, x: TunnelInfo)
    requires
        sorted_by_name(s),
        0 <= p <= s.len(),
        p > 0 ==> text_le(s[p - 1].name@, x.name@),
        forall|j: int| p <= j < s.len() ==> !text_le((#[trigger] s[j]).name@, x.name@),
    ensures
        sorted_by_name(s.insert(p, x)),
{
    let t = s.insert(p, x);
    assert forall|a: int, b: int| 0 <= a < b < t.len() implies text_le(
        (#[trigger] t[a]).name@,
        (#[trigger] t[b]).name@,
    ) by {
        if b < p {
            assert(t[a] == s[a] && t[b] == s[b]);
        } else if b == p {
            assert(t[a] == s[a]);
            if a < p - 1 {
                assert(text_le(s[a].name@, s[p - 1].name@));
                lemma_bytes_le_transitive(
                    encode_utf8(s[a].name@),
                    encode_utf8(s[p - 1].name@),
                    encode_utf8(x.name@),
                );
            }
        } else if a == p {
            assert(t[b] == s[b - 1]);
            lemma_bytes_le_total(encode_utf8(s[b - 1].name@), encode_utf8(x.name@));
        } else if a < p {
            assert(t[a] == s[a] && t[b] == s[b - 1]);
        } else {
            assert(t[a] == s[a - 1] && t[b] == s[b - 1]);
        }
    }
}

/// `info` reports the connection that a server reported.
pub open spec fn relays(info: TunnelConnInfo, c: ServerConnData) -> bool {
    &&& info.stream_id == c.stream_id
    &&& info.peer_ip@ == c.peer_ip@
    &&& info.bytes_in == c.bytes_in
    &&& info.bytes_out == c.bytes_out
    &&& info.bytes_in_per_sec == c.bytes_in_per_sec
    &&& info.bytes_out_per_sec == c.bytes_out_per_sec
    &&& info.connected_secs == c.connected_secs
}

/// The connections that a server reported: none where it did not answer.
pub open spec fn conns_heard(polled: Option<Vec<ServerConnData>>) -> Seq<ServerConnData> {
    match polled {
        Some(cs) => cs@,
        None => Seq::empty(),
    }
}

/// Connections with their server.
pub open spec fn tagged(server_id: u32, cs: Seq<ServerConnData>) -> Seq<(u32, ServerConnData)> {
    cs.map_values(|c: ServerConnData| (server_id, c))
}

/// What the first `n` servers reported, in order, with their ids.
pub open spec fn reported_conns(
    servers: Seq<ManagedServer>,
    polled: Seq<Option<Vec<ServerConnData>>>,
    n: nat,
) -> Seq<(u32, ServerConnData)>
    decreases n,
{
    if n == 0 {
        Seq::empty()
    } else {
        reported_conns(servers, polled, (n - 1) as nat) + tagged(
            servers[n - 1].id,
            conns_heard(polled[n - 1]),
        )
    }
}

/// The connections of a database row, in order.
pub open spec fn conns_of_row(all: Seq<(u32, ServerConnData)>, db_id: u32) -> Seq<ServerConnData>
    decreases all.len(),
{
    if all.len() == 0 {
        Seq::empty()
    } else {
        let before = conns_of_row(all.drop_last(), db_id);
        if all.last().1.db_id == db_id {
            before.push(all.last().1)
        } else {
            before
        }
    }
}

/// The server of each stream. Of two reports on a stream the later counts.
pub open spec fn servers_of_streams(all: Seq<(u32, ServerConnData)>) -> Map<u64, u32>
    decreases all.len(),
{
    if all.len() == 0 {
        Map::empty()
    } else {
        servers_of_streams(all.drop_last()).insert(all.last().1.stream_id, all.last().0)
    }
}

/// `infos` reports the connections `cs`, one by one.
pub open spec fn relays_all(infos: Seq<TunnelConnInfo>, cs: Seq<ServerConnData>) -> bool {
    &&& infos.len() == cs.len()
    &&& forall|j: int| 0 <= j < infos.len() ==> relays(#[trigger] infos[j], cs[j])
}

/// `m` holds the connections of each row that has any.
pub open spec fn groups_conns(
    m: Map<u32, Vec<TunnelConnInfo>>,
    all: Seq<(u32, ServerConnData)>,
) -> bool {
    forall|db_id: u32|
        (#[trigger] m.contains_key(db_id) <==> conns_of_row(all, db_id).len() > 0) && (
        m.contains_key(db_id) ==> relays_all(m[db_id]@, conns_of_row(all, db_id)))
}

/// The player connections that the servers reported.
#[derive(Debug)]
pub struct Connections {
    pub by_db_id: HashMap<u32, Vec<TunnelConnInfo>>,
    pub stream_server: HashMap<u64, u32>,
}

/// Puts together what the servers reported. `polled` holds the answer of each
/// server, where it gave one.
pub fn group_connections(
    servers: &[ManagedServer],
    polled: &[Option<Vec<ServerConnData>>],
) -> (r: Connections)
    requires
        servers@.len() == polled@.len(),
    ensures
        groups_conns(r.by_db_id@, reported_conns(servers@, polled@, servers@.len())),
        r.stream_server@ == servers_of_streams(
            reported_conns(servers@, polled@, servers@.len()),
        ),
{
    broadcast use vstd::std_specs::hash::group_hash_axioms;

    let mut by_db_id: HashMap<u32, Vec<TunnelConnInfo>> = HashMap::new();
    let mut stream_server: HashMap<u64, u32> = HashMap::new();
    let mut i: usize = 0;
    while i < servers.len()
        invariant
            i <= servers@.len(),
            servers@.len() == polled@.len(),
            groups_conns(by_db_id@, reported_conns(servers@, polled@, i as nat)),
            stream_server@ == servers_of_streams(reported_conns(servers@, polled@, i as nat)),
        decreases servers@.len() - i,
    {
        let ghost done = reported_conns(servers@, polled@, i as nat);
        let server_id: u32 = servers[i].id;
        proof {
            if polled@[i as int] is None {
                assert(tagged(server_id, conns_heard(polled@[i as int])) =~= Seq::empty());
                assert(done + tagged(server_id, conns_heard(polled@[i as int])) =~= done);
            }
        }
        if let Some(conns) = &polled[i] {
            let ghost more = tagged(server_id, conns@);
            let mut j: usize = 0;
            assert(done + more.take(0) =~= done);
            while j < conns.len()
                invariant
                    j <= conns@.len(),
                    more == tagged(server_id, conns@),
                    groups_conns(by_db_id@, done + more.take(j as int)),
                    stream_server@ == servers_of_streams(done + more.take(j as int)),
                decreases conns@.len() - j,
            {
                let conn = &conns[j];
                let ghost all = done + more.take(j as int);
                let ghost next = done + more.take(j + 1);
                proof {
                    assert(next =~= all.push((server_id, conns@[j as int])));
                    assert(next.drop_last() =~= all);
                }
                let ghost m0 = by_db_id@;
                stream_server.insert(conn.stream_id, server_id);
                let mut infos: Vec<TunnelConnInfo> = match by_db_id.remove(&conn.db_id) {
                    Some(v) => v,
                    None => Vec::new(),
                };
                let ghost infos0 = infos@;
                assert(relays_all(infos0, conns_of_row(all, conn.db_id))) by {
                    assert(m0.contains_key(conn.db_id) <==> conns_of_row(all, conn.db_id).len()
                        > 0);
                }
                infos.push(
                    TunnelConnInfo {
                        stream_id: conn.stream_id,
                        peer_ip: conn.peer_ip.clone(),
                        bytes_in: conn.bytes_in,
                        bytes_out: conn.bytes_out,
                        bytes_in_per_sec: conn.bytes_in_per_sec,
                        bytes_out_per_sec: conn.bytes_out_per_sec,
                        connected_secs: conn.connected_secs,
                    },
                );
                assert(relays_all(infos@, conns_of_row(next, conn.db_id)));
                by_db_id.insert(conn.db_id, infos);
                proof {
                    assert forall|db_id: u32|
                        (#[trigger] by_db_id@.contains_key(db_id) <==> conns_of_row(
                            next,
                            db_id,
                        ).len() > 0) && (by_db_id@.contains_key(db_id) ==> relays_all(
                            by_db_id@[db_id]@,
                            conns_of_row(next, db_id),
                        )) by {
                        assert(m0.contains_key(db_id) <==> conns_of_row(all, db_id).len() > 0);
                    }
                }
                j += 1;
            }
            assert(more.take(j as int) =~= more);
        }
        i += 1;
    }
    Connections { by_db_id, stream_server }
}

/// What the manager knows, by all that it has read.
pub open spec fn refreshed(
    s: ManagerState,
    rows: Seq<TunnelRow>,
    clients: Seq<ManagedClient>,
    polled: Seq<Vec<Option<ClientStatsResponse>>>,
    servers: Seq<ManagedServer>,
    conns: Seq<Option<Vec<ServerConnData>>>,
    m: Map<u32, TunnelInfo>,
    order: Seq<u32>,
) -> bool {
    &&& maps_rows(m, rows)
    &&& values_in_order(
        s.tunnels@,
        order,
        after_reports(m, reports_of_clients(clients, polled, clients.len())),
    )
    &&& sorted_by_name(s.tunnels@)
    &&& s.clients@.len() == clients.len()
    &&& forall|i: int|
        0 <= i < s.clients@.len() ==> reports_client(
            #[trigger] s.clients@[i],
            clients[i],
            polled[i]@,
            m,
        )
    &&& groups_conns(s.connections_by_db_id@, reported_conns(servers, conns, servers.len()))
    &&& s.stream_server_map@ == servers_of_streams(
        reported_conns(servers, conns, servers.len()),
    )
}

/// Puts together what the manager knows: from the tunnels of the database, the
/// attempts to reach each client's processes, and the servers' answers.
pub fn refresh_stats(
    rows: Vec<TunnelRow>,
    clients: &[ManagedClient],
    polled: Vec<Vec<Option<ClientStatsResponse>>>,
    servers: &[ManagedServer],
    conns: &[Option<Vec<ServerConnData>>],
) -> (r: ManagerState)
    requires
        clients@.len() == polled@.len(),
        servers@.len() == conns@.len(),
    ensures
        exists|m: Map<u32, TunnelInfo>, order: Seq<u32>| #[trigger]
            refreshed(r, rows@, clients@, polled@, servers@, conns@, m, order),
{
    let mut m = tunnel_map(rows);
    let ghost start = m@;
    let client_infos = refresh_clients(&mut m, clients, polled);
    let connections = group_connections(servers, conns);
    let ghost end = m@;
    let tunnels = sorted_tunnels(m);
    let r = ManagerState {
        tunnels,
        clients: client_infos,
        connections_by_db_id: connections.by_db_id,
        stream_server_map: connections.stream_server,
    };
    proof {
        let order = choose|order: Seq<u32>| #[trigger] values_in_order(tunnels@, order, end);
        assert(refreshed(r, rows@, clients@, polled@, servers@, conns@, start, order));
    }
    r
}

/// A count that clients report.
#[derive(Debug, Clone, Copy, PartialEq, Eq, Structural)]
pub enum ClientCount {
    BytesIn,
    BytesOut,
    RateIn,
    RateOut,
}

/// A client's count.
pub open spec fn count_of(which: ClientCount) -> spec_fn(ClientInfo) -> u64 {
    |c: ClientInfo|
        match which {
            ClientCount::BytesIn => c.total_bytes_in,
            ClientCount::BytesOut => c.total_bytes_out,
            ClientCount::RateIn => c.bytes_in_per_sec,
            ClientCount::RateOut => c.bytes_out_per_sec,
        }
}

/// Adds up some numbers. The sum wraps around.
pub fn add_up(values: &[u64]) -> (sum: u64)
    ensures
        sum == wrapped_total(values@),
{
    let mut sum: u64 = 0;
    let mut i: usize = 0;
    while i < values.len()
        invariant
            i <= values@.len(),
            sum == wrapped_total(values@.take(i as int)),
        decreases values@.len() - i,
    {
        proof {
            assert(values@.take(i + 1) =~= values@.take(i as int).push(values@[i as int]));
            lemma_wrapped_total_push(values@.take(i as int), values@[i as int]);
        }
        sum = sum.wrapping_add(values[i]);
        i += 1;
    }
    assert(values@.take(i as int) =~= values@);
    sum
}

/// A count over all clients.
pub fn client_total(clients: &[ClientInfo], which: ClientCount) -> (sum: u64)
    ensures
        sum == wrapped_total(clients@.map_values(count_of(which))),
{
    let mut values: Vec<u64> = Vec::new();
    let mut i: usize = 0;
    while i < clients.len()
        invariant
            i <= clients@.len(),
            values@ == clients@.take(i as int).map_values(count_of(which)),
        decreases clients@.len() - i,
    {
        let c = &clients[i];
        let n: u64 = match which {
            ClientCount::BytesIn => c.total_bytes_in,
            ClientCount::BytesOut => c.total_bytes_out,
            ClientCount::RateIn => c.bytes_in_per_sec,
            ClientCount::RateOut => c.bytes_out_per_sec,
        };
        assert(clients@.take(i + 1).map_values(count_of(which)) =~= values@.push(n));
        values.push(n);
        i += 1;
    }
    assert(clients@.take(i as int) =~= clients@);
    add_up(values.as_slice())
}

/// The totals over all tunnels and clients.
#[derive(Debug, Clone, Copy, PartialEq, Eq)]
pub struct StatsTotals {
    pub total_tunnels: usize,
    pub online_tunnels: usize,
    pub total_active_connections: u64,
    pub total_bytes_in: u64,
    pub total_bytes_out: u64,
    pub total_bytes_in_per_sec: u64,
    pub total_bytes_out_per_sec: u64,
}

impl ManagerState {
    /// Nothing is known yet.
    pub fn new() -> (r: Self)
        ensures
            r.tunnels@.len() == 0,
            r.clients@.len() == 0,
            r.connections_by_db_id@ == Map::<u32, Vec<TunnelConnInfo>>::empty(),
            r.stream_server_map@ == Map::<u64, u32>::empty(),
    {
        ManagerState {
            tunnels: Vec::new(),
            clients: Vec::new(),
            connections_by_db_id: HashMap::new(),
            stream_server_map: HashMap::new(),
        }
    }

    /// The totals over all tunnels and clients.
    pub fn totals(&self) -> (r: StatsTotals)
        ensures
            r.total_tunnels == self.tunnels@.len(),
            r.online_tunnels == count_where(self.tunnels@, |t: TunnelInfo| t.online),
            r.total_active_connections == wrapped_total(
                self.tunnels@.map_values(|t: TunnelInfo| t.active_connections),
            ),
            r.total_bytes_in == wrapped_total(
                self.clients@.map_values(count_of(ClientCount::BytesIn)),
            ),
            r.total_bytes_out == wrapped_total(
                self.clients@.map_values(count_of(ClientCount::BytesOut)),
            ),
            r.total_bytes_in_per_sec == wrapped_total(
                self.clients@.map_values(count_of(ClientCount::RateIn)),
            ),
            r.total_bytes_out_per_sec == wrapped_total(
                self.clients@.map_values(count_of(ClientCount::RateOut)),
            ),
    {
        let mut online: usize = 0;
        let mut active: Vec<u64> = Vec::new();
        let ghost is_online = |t: TunnelInfo| t.online;
        let ghost active_of = |t: TunnelInfo| t.active_connections;
        let mut i: usize = 0;
        while i < self.tunnels.len()
            invariant
                i <= self.tunnels@.len(),
                online <= i,
                is_online == (|t: TunnelInfo| t.online),
                active_of == (|t: TunnelInfo| t.active_connections),
                online == count_where(self.tunnels@.take(i as int), is_online),
                active@ == self.tunnels@.take(i as int).map_values(active_of),
            decreases self.tunnels@.len() - i,
        {
            let t = &self.tunnels[i];
            proof {
                lemma_count_take(self.tunnels@, is_online, i as int);
                assert(self.tunnels@.take(i + 1).map_values(active_of) =~= active@.push(
                    t.active_connections,
                ));
            }
            if t.online {
                online = online + 1;
            }
            active.push(t.active_connections);
            i += 1;
        }
        assert(self.tunnels@.take(i as int) =~= self.tunnels@);
        let clients = self.clients.as_slice();
        StatsTotals {
            total_tunnels: self.tunnels.len(),
            online_tunnels: online,
            total_active_connections: add_up(active.as_slice()),
            total_bytes_in: client_total(clients, ClientCount::BytesIn),
            total_bytes_out: client_total(clients, ClientCount::BytesOut),
            total_bytes_in_per_sec: client_total(clients, ClientCount::RateIn),
            total_bytes_out_per_sec: client_total(clients, ClientCount::RateOut),
        }
    }

    /// The player connections of a database row.
    pub fn connections_of(&self, db_id: u32) -> (r: &[TunnelConnInfo])
        ensures
            r@ == if self.connections_by_db_id@.contains_key(db_id) {
                self.connections_by_db_id@[db_id]@
            } else {
                Seq::empty()
            },
    {
        broadcast use vstd::std_specs::hash::group_hash_axioms;

        match self.connections_by_db_id.get(&db_id) {
            Some(v) => v.as_slice(),
            None => &[],
        }
    }
}

} // verus!
