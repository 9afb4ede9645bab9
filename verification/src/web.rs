//! The admin panel: the tunnels that it shows, makes and changes, and what it
//! asks of the manager.

use std::collections::HashSet;
use vstd::prelude::*;
use vstd::string::*;
use crate::database::{date_text, opt_date_text, or_empty, or_stopped, status_or_stopped,
    text_or_empty, Timestamp};
use crate::text::{decimal, decimal_text, join_text, joined, opt_text, str_views, text_eq};

verus! {

/// A tunnel as the panel shows it.
#[derive(Debug, Clone)]
pub struct TunnelResponse {
    pub id: u32,
    pub uuid: String,
    pub name: String,
    pub status: String,
    pub online: bool,
    pub server_ip: String,
    pub server_port: u16,
    pub remote_ip: String,
    pub remote_port: u16,
    pub protocol: String,
    pub domain: String,
    pub subdomain: String,
    pub server_id: Option<u32>,
    pub client_id: Option<String>,
    pub tunnel_status: String,
    pub last_seen: Option<String>,
    pub created_at: String,
    pub create_srv: bool,
    pub proxy_protocol: bool,
}

/// A row of the tunnels table, column by column, where each could be read.
#[derive(Debug, Clone)]
pub struct RawTunnel {
    pub id: Option<u32>,
    pub uuid: Option<String>,
    pub name: Option<String>,
    pub status: Option<String>,
    pub online: Option<bool>,
    pub server_ip: Option<String>,
    pub server_port: Option<u16>,
    pub remote_ip: Option<String>,
    pub remote_port: Option<u16>,
    pub protocol: Option<String>,
    pub domain: Option<String>,
    pub subdomain: Option<String>,
    pub server_id: Option<u32>,
    pub client_id: Option<String>,
    pub tunnel_status: Option<String>,
    pub last_seen: Option<Timestamp>,
    pub created_at: Option<Timestamp>,
    pub create_srv: Option<bool>,
    pub proxy_protocol: Option<bool>,
}

/// Reads a row as the panel shows it. What could not be read gets a default.
pub fn row_to_tunnel(raw: RawTunnel) -> (r: TunnelResponse)
    ensures
        r.id == raw.id.unwrap_or(0),
        r.uuid@ == text_or_empty(raw.uuid),
        r.name@ == text_or_empty(raw.name),
        r.status@ == text_or_empty(raw.status),
        r.online == raw.online.unwrap_or(false),
        r.server_ip@ == text_or_empty(raw.server_ip),
        r.server_port == raw.server_port.unwrap_or(0),
        r.remote_ip@ == text_or_empty(raw.remote_ip),
        r.remote_port == raw.remote_port.unwrap_or(0),
        r.protocol@ == text_or_empty(raw.protocol),
        r.domain@ == text_or_empty(raw.domain),
        r.subdomain@ == text_or_empty(raw.subdomain),
        r.server_id == raw.server_id,
        r.client_id == raw.client_id,
        r.tunnel_status@ == status_or_stopped(raw.tunnel_status),
        opt_text(r.last_seen) == opt_date_text(raw.last_seen),
        r.created_at@ == (match opt_date_text(raw.created_at) {
            Some(t) => t,
            None => Seq::empty(),
        }),
        r.create_srv == raw.create_srv.unwrap_or(true),
        r.proxy_protocol == raw.proxy_protocol.unwrap_or(false),
{
    TunnelResponse {
        id: raw.id.unwrap_or(0),
        uuid: or_empty(raw.uuid),
        name: or_empty(raw.name),
        status: or_empty(raw.status),
        online: raw.online.unwrap_or(false),
        server_ip: or_empty(raw.server_ip),
        server_port: raw.server_port.unwrap_or(0),
        remote_ip: or_empty(raw.remote_ip),
        remote_port: raw.remote_port.unwrap_or(0),
        protocol: or_empty(raw.protocol),
        domain: or_empty(raw.domain),
        subdomain: or_empty(raw.subdomain),
        server_id: raw.server_id,
        client_id: raw.client_id,
        tunnel_status: or_stopped(raw.tunnel_status),
        last_seen: date_text(raw.last_seen),
        created_at: or_empty(date_text(raw.created_at)),
        create_srv: raw.create_srv.unwrap_or(true),
        proxy_protocol: raw.proxy_protocol.unwrap_or(false),
    }
}

/// A new tunnel as it is asked for.
#[derive(Debug, Clone)]
pub struct CreateTunnelRequest {
    pub name: Option<String>,
    pub server_ip: String,
    pub server_port: u16,
    pub remote_port: u16,
    pub protocol: Option<String>,
    pub subdomain: String,
    pub domain: Option<String>,
    pub server_id: Option<u32>,
    pub client_id: Option<String>,
    pub create_srv: bool,
    pub proxy_protocol: bool,
}

/// Whether an `SRV` record is made where the request does not say.
pub fn default_true() -> (r: bool)
    ensures
        r,
{
    true
}

/// A new tunnel as it goes into the database.
#[derive(Debug, Clone)]
pub struct NewTunnel {
    pub id: u32,
    pub uuid: String,
    pub name: String,
    pub server_ip: String,
    pub server_port: u16,
    pub remote_port: u16,
    pub protocol: String,
    pub domain: String,
    pub subdomain: String,
    pub server_id: Option<u32>,
    pub client_id: Option<String>,
    pub create_srv: bool,
    pub proxy_protocol: bool,
}

/// An id is in use.
pub open spec fn in_use(ids: Seq<u64>, n: int) -> bool {
    exists|i: int| 0 <= i < ids.len() && #[trigger] ids[i] == n
}

/// The lowest id that no tunnel has.
pub fn lowest_free_id(ids: &[u64]) -> (r: u32)
    requires
        ids@.len() < u32::MAX,
    ensures
        r >= 1,
        !in_use(ids@, r as int),
        forall|n: int| 1 <= n < r ==> in_use(ids@, n),
{
    broadcast use vstd::std_specs::hash::group_hash_axioms;

    let mut taken: HashSet<u32> = HashSet::new();
    let mut i: usize = 0;
    while i < ids.len()
        invariant
            i <= ids@.len(),
            forall|n: u32| #[trigger]
                taken@.contains(n) <==> n > 0 && exists|j: int| 0 <= j < i && #[trigger] ids@[j]
                    == n,
        decreases ids@.len() - i,
    {
        let id: u64 = ids[i];
        let ghost before = taken@;
        if id > 0 && id <= u32::MAX as u64 {
            taken.insert(id as u32);
        }
        proof {
            assert forall|n: u32| #[trigger] taken@.contains(n) <==> n > 0 && exists|j: int|
                0 <= j < i + 1 && #[trigger] ids@[j] == n by {
                if before.contains(n) {
                    let j = choose|j: int| 0 <= j < i && #[trigger] ids@[j] == n;
                    assert(ids@[j] == n);
                }
                if n == id {
                    assert(ids@[i as int] == n);
                }
            }
        }
        i += 1;
    }
    let mut n: u32 = 1;
    while taken.contains(&n)
        invariant
            n >= 1,
            ids@.len() < u32::MAX,
            forall|k: int| 1 <= k < n ==> in_use(ids@, k),
            forall|n: u32| #[trigger]
                taken@.contains(n) <==> n > 0 && exists|j: int|
                    0 <= j < ids@.len() && #[trigger] ids@[j] == n,
        decreases u32::MAX - n,
    {
        proof {
            assert(in_use(ids@, n as int));
            lemma_pigeonhole(ids@, n as int);
        }
        n = n + 1;
    }
    n
}

/// As many ids in use as the numbers from 1 to `n` take as many places.
proof fn lemma_pigeonhole(ids: Seq<u64>, n: int)
    requires
        n >= 0,
        forall|k: int| 1 <= k <= n ==> in_use(ids, k),
    ensures
        n <= ids.len(),
    decreases n,
{
    if n > 0 {
        assert(in_use(ids, n));
        let i = choose|i: int| 0 <= i < ids.len() && #[trigger] ids[i] == n;
        let rest = ids.remove(i);
        assert forall|k: int| 1 <= k <= n - 1 implies in_use(rest, k) by {
            assert(in_use(ids, k));
            let j = choose|j: int| 0 <= j < ids.len() && #[trigger] ids[j] == k;
            if j < i {
                assert(rest[j] == k);
            } else {
                assert(rest[j - 1] == k);
            }
        }
        lemma_pigeonhole(rest, n - 1);
    }
}

/// A digit of a hexadecimal number, in lower case.
pub open spec fn hex_digit(c: char) -> bool {
    ('0' <= c && c <= '9') || ('a' <= c && c <= 'f')
}

/// A random UUID as text: five groups of digits, with the version and the
/// variant in their places.
pub open spec fn is_random_uuid(s: Seq<char>) -> bool {
    &&& s.len() == 36
    &&& forall|i: int|
        0 <= i < 36 ==> if i == 8 || i == 13 || i == 18 || i == 23 {
            #[trigger] s[i] == '-'
        } else {
            hex_digit(s[i])
        }
    &&& s[14] == '4'
    &&& (s[19] == '8' || s[19] == '9' || s[19] == 'a' || s[19] == 'b')
}

/// Calls `uuid::Uuid::new_v4` and its `Display`, which writes the hyphenated form
/// in lower case. Which UUID it is, chance decides.
#[verifier::external_body]
fn random_uuid() -> (r: String)
    ensures
        is_random_uuid(r@),
{
    uuid::Uuid::new_v4().to_string()
}

/// A text of a request, or what stands in for it.
pub open spec fn text_or(s: Option<String>, default: Seq<char>) -> Seq<char> {
    match s {
        Some(t) => t@,
        None => default,
    }
}

/// `t` is what a request asks for, under an id and a UUID.
pub open spec fn fulfils(t: NewTunnel, req: CreateTunnelRequest, id: u32, uuid: Seq<char>) -> bool {
    &&& t.id == id
    &&& t.uuid@ == uuid
    &&& t.name@ == text_or(req.name, Seq::empty())
    &&& t.server_ip == req.server_ip
    &&& t.server_port == req.server_port
    &&& t.remote_port == req.remote_port
    &&& t.protocol@ == text_or(req.protocol, "tcp"@)
    &&& t.domain@ == text_or(req.domain, "sinomcit.com"@)
    &&& t.subdomain == req.subdomain
    &&& t.server_id == req.server_id
    &&& t.client_id == req.client_id
    &&& t.create_srv == req.create_srv
    &&& t.proxy_protocol == req.proxy_protocol
}

/// Completes a request for a tunnel, under an id and a UUID.
pub fn complete_tunnel(req: CreateTunnelRequest, id: u32, uuid: String) -> (r: NewTunnel)
    ensures
        fulfils(r, req, id, uuid@),
{
    let protocol = match req.protocol {
        Some(p) => p,
        None => "tcp".to_string(),
    };
    let domain = match req.domain {
        Some(d) => d,
        None => "sinomcit.com".to_string(),
    };
    NewTunnel {
        id,
        uuid,
        name: or_empty(req.name),
        server_ip: req.server_ip,
        server_port: req.server_port,
        remote_port: req.remote_port,
        protocol,
        domain,
        subdomain: req.subdomain,
        server_id: req.server_id,
        client_id: req.client_id,
        create_srv: req.create_srv,
        proxy_protocol: req.proxy_protocol,
    }
}

/// Makes a tunnel: under the lowest free id, and a random UUID.
pub fn new_tunnel(req: CreateTunnelRequest, ids: &[u64]) -> (r: NewTunnel)
    requires
        ids@.len() < u32::MAX,
    ensures
        fulfils(r, req, r.id, r.uuid@),
        is_random_uuid(r.uuid@),
        r.id >= 1,
        !in_use(ids@, r.id as int),
        forall|n: int| 1 <= n < r.id ==> in_use(ids@, n),
{
    let uuid = random_uuid();
    let id: u32 = lowest_free_id(ids);
    complete_tunnel(req, id, uuid)
}

/// A change to a tunnel: what is not there stays as it is. A negative server id
/// takes the server away, and the client id `-` the client.
#[derive(Debug, Clone)]
pub struct UpdateTunnelRequest {
    pub name: Option<String>,
    pub server_ip: Option<String>,
    pub server_port: Option<u16>,
    pub remote_port: Option<u16>,
    pub protocol: Option<String>,
    pub subdomain: Option<String>,
    pub domain: Option<String>,
    pub online: Option<bool>,
    pub server_id: Option<i32>,
    pub client_id: Option<String>,
    pub create_srv: Option<bool>,
    pub proxy_protocol: Option<bool>,
}

/// A value for a placeholder of a statement.
#[derive(Debug, Clone, PartialEq, Eq)]
pub enum Bind {
    Text(String),
    OptText(Option<String>),
    U16(u16),
    U32(u32),
    OptU32(Option<u32>),
    Bool(bool),
}

/// A value with its text as characters.
pub enum BindView {
    Text(Seq<char>),
    OptText(Option<Seq<char>>),
    U16(u16),
    U32(u32),
    OptU32(Option<u32>),
    Bool(bool),
}

impl View for Bind {
    type V = BindView;

    open spec fn view(&self) -> BindView {
        match self {
            Bind::Text(t) => BindView::Text(t@),
            Bind::OptText(t) => BindView::OptText(opt_text(*t)),
            Bind::U16(n) => BindView::U16(*n),
            Bind::U32(n) => BindView::U32(*n),
            Bind::OptU32(n) => BindView::OptU32(*n),
            Bind::Bool(b) => BindView::Bool(*b),
        }
    }
}

/// A statement and the values of its placeholders, in order.
#[derive(Debug, Clone)]
pub struct UpdatePlan {
    pub sql: String,
    pub binds: Vec<Bind>,
}

/// A change touches what the DNS records say: the names, the server's address, the
/// port, or whether there is a service record.
pub open spec fn touches_dns(req: UpdateTunnelRequest) -> bool {
    req.remote_port is Some || req.server_id is Some || req.subdomain is Some || req.domain is Some
        || req.create_srv is Some
}

/// A text value, where there is one.
pub open spec fn text_bind(v: Option<String>) -> Option<BindView> {
    match v {
        Some(t) => Some(BindView::Text(t@)),
        None => None,
    }
}

/// A port, where there is one.
pub open spec fn port_bind(v: Option<u16>) -> Option<BindView> {
    match v {
        Some(n) => Some(BindView::U16(n)),
        None => None,
    }
}

/// A flag, where there is one.
pub open spec fn flag_bind(v: Option<bool>) -> Option<BindView> {
    match v {
        Some(b) => Some(BindView::Bool(b)),
        None => None,
    }
}

/// A server id, where there is one: a negative one stands for none.
pub open spec fn server_bind(v: Option<i32>) -> Option<BindView> {
    match v {
        Some(n) => Some(
            BindView::OptU32(
                if n < 0 {
                    None
                } else {
                    Some(n as u32)
                },
            ),
        ),
        None => None,
    }
}

/// A client id, where there is one: a dash stands for none.
pub open spec fn client_bind(v: Option<String>) -> Option<BindView> {
    match v {
        Some(t) => Some(
            BindView::OptText(
                if t@ == "-"@ {
                    None
                } else {
                    Some(t@)
                },
            ),
        ),
        None => None,
    }
}

/// The columns that a change can set, in order, each with its value where the
/// change sets it.
pub open spec fn column_changes(req: UpdateTunnelRequest) -> Seq<(Seq<char>, Option<BindView>)> {
    seq![
        ("name = ?"@, text_bind(req.name)),
        ("server_ip = ?"@, text_bind(req.server_ip)),
        ("server_port = ?"@, port_bind(req.server_port)),
        ("remote_port = ?"@, port_bind(req.remote_port)),
        ("protocol = ?"@, text_bind(req.protocol)),
        ("subdomain = ?"@, text_bind(req.subdomain)),
        ("domain = ?"@, text_bind(req.domain)),
        ("online = ?"@, flag_bind(req.online)),
        ("server_id = ?"@, server_bind(req.server_id)),
        ("client_id = ?"@, client_bind(req.client_id)),
        ("create_srv = ?"@, flag_bind(req.create_srv)),
        ("proxy_protocol = ?"@, flag_bind(req.proxy_protocol)),
    ]
}

/// The columns that are set.
pub open spec fn set_columns(cs: Seq<(Seq<char>, Option<BindView>)>) -> Seq<Seq<char>>
    decreases cs.len(),
{
    if cs.len() == 0 {
        Seq::empty()
    } else {
        let before = set_columns(cs.drop_last());
        if cs.last().1 is Some {
            before.push(cs.last().0)
        } else {
            before
        }
    }
}

/// The values that they are set to.
pub open spec fn set_values(cs: Seq<(Seq<char>, Option<BindView>)>) -> Seq<BindView>
    decreases cs.len(),
{
    if cs.len() == 0 {
        Seq::empty()
    } else {
        let before = set_values(cs.drop_last());
        match cs.last().1 {
            Some(v) => before.push(v),
            None => before,
        }
    }
}

/// A change sets nothing.
pub open spec fn changes_nothing(req: UpdateTunnelRequest) -> bool {
    forall|i: int| 0 <= i < 12 ==> (#[trigger] column_changes(req)[i]).1 is None
}

/// The assignments of a change. Where the DNS records have to change, they count
/// as not set.
pub open spec fn assignments(req: UpdateTunnelRequest) -> Seq<Seq<char>> {
    let columns = set_columns(column_changes(req));
    if touches_dns(req) {
        columns.push("dns_set = FALSE"@)
    } else {
        columns
    }
}

/// The statement of a change.
pub open spec fn update_text(req: UpdateTunnelRequest) -> Seq<char> {
    "UPDATE tunnels SET "@ + joined(assignments(req), ", "@) + " WHERE id = ?"@
}

/// The values of a change, in order; the tunnel's id comes last.
pub open spec fn update_binds(req: UpdateTunnelRequest, id: u32) -> Seq<BindView> {
    set_values(column_changes(req)).push(BindView::U32(id))
}

/// The values as characters and numbers.
pub open spec fn bind_views(bs: Seq<Bind>) -> Seq<BindView> {
    bs.map_values(|b: Bind| b@)
}

/// A value, where there is one, with its text as characters.
pub open spec fn opt_bind(b: Option<Bind>) -> Option<BindView> {
    match b {
        Some(v) => Some(v@),
        None => None,
    }
}

struct ColumnChange {
    column: &'static str,
    value: Option<Bind>,
}

spec fn change_views(cs: Seq<ColumnChange>) -> Seq<(Seq<char>, Option<BindView>)> {
    cs.map_values(|c: ColumnChange| (c.column@, opt_bind(c.value)))
}

fn text_value(v: &Option<String>) -> (r: Option<Bind>)
    ensures
        opt_bind(r) == text_bind(*v),
{
    match v {
        Some(t) => Some(Bind::Text(t.clone())),
        None => None,
    }
}

fn port_value(v: Option<u16>) -> (r: Option<Bind>)
    ensures
        opt_bind(r) == port_bind(v),
{
    match v {
        Some(n) => Some(Bind::U16(n)),
        None => None,
    }
}

fn flag_value(v: Option<bool>) -> (r: Option<Bind>)
    ensures
        opt_bind(r) == flag_bind(v),
{
    match v {
        Some(b) => Some(Bind::Bool(b)),
        None => None,
    }
}

fn server_value(v: Option<i32>) -> (r: Option<Bind>)
    ensures
        opt_bind(r) == server_bind(v),
{
    match v {
        Some(n) => Some(
            Bind::OptU32(
                if n < 0 {
                    None
                } else {
                    Some(n as u32)
                },
            ),
        ),
        None => None,
    }
}

fn client_value(v: &Option<String>) -> (r: Option<Bind>)
    ensures
        opt_bind(r) == client_bind(*v),
{
    match v {
        Some(t) => Some(
            Bind::OptText(
                if text_eq(t.as_str(), "-") {
                    None
                } else {
                    Some(t.clone())
                },
            ),
        ),
        None => None,
    }
}

fn list_changes(req: &UpdateTunnelRequest) -> (r: Vec<ColumnChange>)
    ensures
        change_views(r@) == column_changes(*req),
{
    let mut changes: Vec<ColumnChange> = Vec::new();
    changes.push(ColumnChange { column: "name = ?", value: text_value(&req.name) });
    changes.push(ColumnChange { column: "server_ip = ?", value: text_value(&req.server_ip) });
    changes.push(ColumnChange { column: "server_port = ?", value: port_value(req.server_port) });
    changes.push(ColumnChange { column: "remote_port = ?", value: port_value(req.remote_port) });
    changes.push(ColumnChange { column: "protocol = ?", value: text_value(&req.protocol) });
    changes.push(ColumnChange { column: "subdomain = ?", value: text_value(&req.subdomain) });
    changes.push(ColumnChange { column: "domain = ?", value: text_value(&req.domain) });
    changes.push(ColumnChange { column: "online = ?", value: flag_value(req.online) });
    changes.push(ColumnChange { column: "server_id = ?", value: server_value(req.server_id) });
    changes.push(ColumnChange { column: "client_id = ?", value: client_value(&req.client_id) });
    changes.push(ColumnChange { column: "create_srv = ?", value: flag_value(req.create_srv) });
    changes.push(ColumnChange { column: "proxy_protocol = ?", value: flag_value(req.proxy_protocol) });
    assert(change_views(changes@) =~= column_changes(*req));
    changes
}

/// Works out the statement of a change, or nothing where the request changes
/// nothing.
pub fn plan_update(req: &UpdateTunnelRequest, id: u32) -> (r: Option<UpdatePlan>)
    ensures
        match r {
            Some(plan) => !changes_nothing(*req) && plan.sql@ == update_text(*req) && bind_views(
                plan.binds@,
            ) == update_binds(*req, id),
            None => changes_nothing(*req),
        },
{
    let changes = list_changes(req);
    let ghost cs = column_changes(*req);
    let mut columns: Vec<&'static str> = Vec::new();
    let mut binds: Vec<Bind> = Vec::new();
    let ghost all = changes@;
    proof {
        assert(str_views(columns@) =~= Seq::<Seq<char>>::empty());
        assert(bind_views(binds@) =~= Seq::<BindView>::empty());
        assert(all.len() == change_views(all).len());
    }
    for change in it: changes
        invariant
            it.seq() == all,
            change_views(all) == cs,
            str_views(columns@) == set_columns(cs.take(it.index())),
            bind_views(binds@) == set_values(cs.take(it.index())),
            columns@.len() > 0 <==> exists|k: int|
                0 <= k < it.index() && (#[trigger] cs[k]).1 is Some,
    {
        let ghost n = it.index();
        let ghost columns0 = columns@;
        let ghost binds0 = binds@;
        proof {
            assert(change == all[n]);
            assert(cs[n] == (change.column@, opt_bind(change.value)));
            assert(cs.take(n + 1).drop_last() =~= cs.take(n));
            assert(cs.take(n + 1).last() == cs[n]);
        }
        if let Some(value) = change.value {
            columns.push(change.column);
            binds.push(value);
            proof {
                assert(str_views(columns@) =~= str_views(columns0).push(change.column@));
                assert(bind_views(binds@) =~= bind_views(binds0).push(value@));
            }
        }
    }
    proof {
        assert(cs.take(cs.len() as int) =~= cs);
        assert(cs.len() == 12);
    }
    if columns.len() == 0 {
        assert(changes_nothing(*req)) by {
            assert forall|i: int| 0 <= i < 12 implies (#[trigger] column_changes(
                *req,
            )[i]).1 is None by {
                assert(cs[i].1 is None);
            }
        }
        return None;
    }
    assert(!changes_nothing(*req)) by {
        let k = choose|k: int| 0 <= k < cs.len() && (#[trigger] cs[k]).1 is Some;
        assert(column_changes(*req)[k].1 is Some);
    }
    let ghost columns0 = columns@;
    if req.remote_port.is_some() || req.server_id.is_some() || req.subdomain.is_some()
        || req.domain.is_some() || req.create_srv.is_some() {
        columns.push("dns_set = FALSE");
        assert(str_views(columns@) =~= str_views(columns0).push("dns_set = FALSE"@));
    }
    let mut sql = "UPDATE tunnels SET ".to_string();
    sql.append(join_text(&columns, ", ").as_str());
    sql.append(" WHERE id = ?");
    let ghost binds0 = binds@;
    binds.push(Bind::U32(id));
    assert(bind_views(binds@) =~= bind_views(binds0).push(BindView::U32(id)));
    Some(UpdatePlan { sql, binds })
}

/// Why the panel does not start.
#[derive(Debug, Clone, Copy, PartialEq, Eq, Structural)]
pub enum ConfigError {
    /// Nobody would have to log in.
    NoCredentials,
    /// The manager would refuse every request.
    NoApiKey,
}

/// Checks a configuration: credentials are a must, and an API key with a manager.
pub fn check_config(credentials: bool, manager_url: bool, api_key: bool) -> (r: Result<
    (),
    ConfigError,
>)
    ensures
        match r {
            Ok(()) => credentials && (manager_url ==> api_key),
            Err(ConfigError::NoCredentials) => !credentials,
            Err(ConfigError::NoApiKey) => credentials && manager_url && !api_key,
        },
{
    if !credentials {
        return Err(ConfigError::NoCredentials);
    }
    if manager_url && !api_key {
        return Err(ConfigError::NoApiKey);
    }
    Ok(())
}

/// A request of the panel that the manager answers.
#[derive(Debug, Clone, Copy, PartialEq, Eq, Structural)]
pub enum ManagerRequest {
    Stats,
    Clients,
    Connections { tunnel: u32 },
    Disconnect { tunnel: u32, stream_id: u64 },
}

/// What the panel answers where no manager is configured.
#[derive(Debug, Clone, Copy, PartialEq, Eq, Structural)]
pub enum WithoutManager {
    /// An object with an error text.
    ErrorObject,
    /// An empty list.
    EmptyList,
    /// The service is not available.
    Unavailable,
}

/// The URL of the manager that a request goes to.
pub open spec fn manager_address(base: Seq<char>, req: ManagerRequest) -> Seq<char> {
    match req {
        ManagerRequest::Stats => base + "/api/stats"@,
        ManagerRequest::Clients => base + "/api/clients"@,
        ManagerRequest::Connections { tunnel } => base + "/api/tunnels/"@ + decimal_text(
            tunnel as nat,
        ) + "/connections"@,
        ManagerRequest::Disconnect { tunnel, stream_id } => base + "/api/tunnels/"@ + decimal_text(
            tunnel as nat,
        ) + "/connections/"@ + decimal_text(stream_id as nat),
    }
}

/// The answer where no manager is configured.
pub open spec fn answer_without_manager(req: ManagerRequest) -> WithoutManager {
    match req {
        ManagerRequest::Stats => WithoutManager::ErrorObject,
        ManagerRequest::Clients => WithoutManager::EmptyList,
        ManagerRequest::Connections { .. } => WithoutManager::EmptyList,
        ManagerRequest::Disconnect { .. } => WithoutManager::Unavailable,
    }
}

/// Where a request goes, or what is answered where no manager is configured.
pub fn route_to_manager(manager_url: Option<&str>, req: ManagerRequest) -> (r: Result<
    String,
    WithoutManager,
>)
    ensures
        match manager_url {
            Some(base) => r matches Ok(url) && url@ == manager_address(base@, req),
            None => r == Err::<String, WithoutManager>(answer_without_manager(req)),
        },
{
    match manager_url {
        None => Err(
            match req {
                ManagerRequest::Stats => WithoutManager::ErrorObject,
                ManagerRequest::Clients => WithoutManager::EmptyList,
                ManagerRequest::Connections { tunnel: _ } => WithoutManager::EmptyList,
                ManagerRequest::Disconnect { tunnel: _, stream_id: _ } =>
                    WithoutManager::Unavailable,
            },
        ),
        Some(base) => {
            let mut url = base.to_string();
            match req {
                ManagerRequest::Stats => {
                    url.append("/api/stats");
                },
                ManagerRequest::Clients => {
                    url.append("/api/clients");
                },
                ManagerRequest::Connections { tunnel } => {
                    url.append("/api/tunnels/");
                    url.append(decimal(tunnel as u64).as_str());
                    url.append("/connections");
                },
                ManagerRequest::Disconnect { tunnel, stream_id } => {
                    url.append("/api/tunnels/");
                    url.append(decimal(tunnel as u64).as_str());
                    url.append("/connections/");
                    url.append(decimal(stream_id).as_str());
                },
            }
            Ok(url)
        },
    }
}

/// Every column that is set has a value.
proof fn lemma_columns_have_values(cs: Seq<(Seq<char>, Option<BindView>)>)
    ensures
        set_columns(cs).len() == set_values(cs).len(),
        forall|i: int|
            0 <= i < cs.len() && (#[trigger] cs[i]).1 is Some ==> set_columns(cs).contains(cs[i].0),
    decreases cs.len(),
{
    if cs.len() > 0 {
        let init = cs.drop_last();
        lemma_columns_have_values(init);
        let all = set_columns(cs);
        assert forall|i: int|
            0 <= i < cs.len() && (#[trigger] cs[i]).1 is Some implies all.contains(cs[i].0) by {
            if i < init.len() {
                assert(init[i] == cs[i]);
                let j = set_columns(init).index_of(cs[i].0);
                assert(all[j] == cs[i].0);
            } else {
                assert(all[all.len() - 1] == cs[i].0);
            }
        }
    }
}

/// Every placeholder of a change's statement has a value: one for each column
/// that is set, and one for the tunnel's id, which comes last.
pub proof fn law_every_placeholder_has_a_value(req: UpdateTunnelRequest, id: u32)
    ensures
        update_binds(req, id).len() == set_columns(column_changes(req)).len() + 1,
        update_binds(req, id).last() == BindView::U32(id),
{
    lemma_columns_have_values(column_changes(req));
}

/// A change that touches what the DNS records say has them set anew, and no
/// other change does.
pub proof fn law_dns_is_set_anew(req: UpdateTunnelRequest)
    ensures
        touches_dns(req) ==> assignments(req).last() == "dns_set = FALSE"@ && !changes_nothing(req),
        !touches_dns(req) ==> assignments(req) == set_columns(column_changes(req)),
{
    if touches_dns(req) {
        if req.remote_port is Some {
            assert(column_changes(req)[3].1 is Some);
        } else if req.server_id is Some {
            assert(column_changes(req)[8].1 is Some);
        } else if req.subdomain is Some {
            assert(column_changes(req)[5].1 is Some);
        } else if req.domain is Some {
            assert(column_changes(req)[6].1 is Some);
        } else {
            assert(column_changes(req)[10].1 is Some);
        }
    }
}

} // verus!
