//! The rows that the programs read from the database, and the columns that they
//! need. A value that could not be read is replaced by a default.

use vstd::prelude::*;
use vstd::string::*;
use crate::text::{contains_text, holds_text, opt_text};

verus! {

/// A date and time of the database, as seconds and nanoseconds since 1970.
#[derive(Debug, Clone, Copy, PartialEq, Eq, Structural)]
pub struct Timestamp {
    pub secs: i64,
    pub nanos: u32,
}

/// The text that `chrono` gives a date and time.
pub uninterp spec fn datetime_text(secs: i64, nanos: u32) -> Option<Seq<char>>;

/// Calls `chrono::DateTime::from_timestamp` and the `Display` of the
/// `NaiveDateTime` that it holds: both depend on the two numbers alone. There is
/// no text for numbers outside the calendar. How the text reads is left to the
/// crate.
#[verifier::external_body]
fn chrono_text(secs: i64, nanos: u32) -> (r: Option<String>)
    ensures
        match r {
            Some(s) => datetime_text(secs, nanos) == Some(s@),
            None => datetime_text(secs, nanos) is None,
        },
{
    match chrono::DateTime::from_timestamp(secs, nanos) {
        Some(d) => Some(d.naive_utc().to_string()),
        None => None,
    }
}

impl Timestamp {
    /// The date and time as text.
    pub open spec fn text(&self) -> Option<Seq<char>> {
        datetime_text(self.secs, self.nanos)
    }

    /// The date and time as text.
    pub fn to_text(&self) -> (r: Option<String>)
        ensures
            match r {
                Some(s) => self.text() == Some(s@),
                None => self.text() is None,
            },
    {
        chrono_text(self.secs, self.nanos)
    }
}

/// The text of a date, where there is one.
pub open spec fn opt_date_text(t: Option<Timestamp>) -> Option<Seq<char>> {
    match t {
        Some(d) => d.text(),
        None => None,
    }
}

/// The text of a date, where there is one.
pub fn date_text(t: Option<Timestamp>) -> (r: Option<String>)
    ensures
        opt_text(r) == opt_date_text(t),
{
    match t {
        Some(d) => d.to_text(),
        None => None,
    }
}

/// A text column's characters: none where it could not be read.
pub open spec fn text_or_empty(s: Option<String>) -> Seq<char> {
    match s {
        Some(t) => t@,
        None => Seq::empty(),
    }
}

/// A text column's value: empty where it could not be read.
pub fn or_empty(s: Option<String>) -> (r: String)
    ensures
        r@ == text_or_empty(s),
{
    match s {
        Some(t) => t,
        None => String::new(),
    }
}

/// A tunnel's recorded state: stopped where it could not be read.
pub open spec fn status_or_stopped(s: Option<String>) -> Seq<char> {
    match s {
        Some(t) => t@,
        None => "stopped"@,
    }
}

/// A tunnel's recorded state: stopped where it could not be read.
pub fn or_stopped(s: Option<String>) -> (r: String)
    ensures
        r@ == status_or_stopped(s),
{
    match s {
        Some(t) => t,
        None => "stopped".to_string(),
    }
}

/// A tunnel that no client serves yet.
#[derive(Debug, Clone)]
pub struct UnassignedTunnel {
    pub id: u32,
    pub name: String,
    pub subdomain: String,
}

/// Reads a row as a tunnel that no client serves yet.
pub fn unassigned_tunnel(
    id: Option<u32>,
    name: Option<String>,
    subdomain: Option<String>,
) -> (r: UnassignedTunnel)
    ensures
        r.id == id.unwrap_or(0),
        r.name@ == text_or_empty(name),
        r.subdomain@ == text_or_empty(subdomain),
{
    UnassignedTunnel {
        id: id.unwrap_or(0),
        name: or_empty(name),
        subdomain: or_empty(subdomain),
    }
}

/// A tunnel as its DNS records need it.
#[derive(Debug, Clone)]
pub struct DnsTunnel {
    pub id: u32,
    pub subdomain: String,
    pub domain: String,
    pub remote_port: u16,
    pub server_id: Option<u32>,
    pub create_srv: bool,
}

/// Reads a row as a tunnel for its DNS records. An `SRV` record is made unless
/// the row says otherwise.
pub fn dns_tunnel(
    id: Option<u32>,
    subdomain: Option<String>,
    domain: Option<String>,
    remote_port: Option<u16>,
    server_id: Option<u32>,
    create_srv: Option<bool>,
) -> (r: DnsTunnel)
    ensures
        r.id == id.unwrap_or(0),
        r.subdomain@ == text_or_empty(subdomain),
        r.domain@ == text_or_empty(domain),
        r.remote_port == remote_port.unwrap_or(0),
        r.server_id == server_id,
        r.create_srv == create_srv.unwrap_or(true),
{
    DnsTunnel {
        id: id.unwrap_or(0),
        subdomain: or_empty(subdomain),
        domain: or_empty(domain),
        remote_port: remote_port.unwrap_or(0),
        server_id,
        create_srv: create_srv.unwrap_or(true),
    }
}

/// Which server a client is directed to.
#[derive(Debug, Clone)]
pub struct ClientServerMapping {
    pub client_uuid: String,
    pub client_id: String,
    pub server_id: u32,
    pub allowed: bool,
}

/// Reads a row as a client's mapping. A client whose permission could not be
/// read is not allowed.
pub fn client_server_mapping(
    client_uuid: Option<String>,
    client_id: Option<String>,
    server_id: Option<u32>,
    allowed: Option<bool>,
) -> (r: ClientServerMapping)
    ensures
        r.client_uuid@ == text_or_empty(client_uuid),
        r.client_id@ == text_or_empty(client_id),
        r.server_id == server_id.unwrap_or(0),
        r.allowed == allowed.unwrap_or(false),
{
    ClientServerMapping {
        client_uuid: or_empty(client_uuid),
        client_id: or_empty(client_id),
        server_id: server_id.unwrap_or(0),
        allowed: allowed.unwrap_or(false),
    }
}

/// A tunnel as the statistics need it.
#[derive(Debug, Clone)]
pub struct TunnelRow {
    pub id: u32,
    pub name: String,
    pub subdomain: String,
    pub domain: String,
    pub online: bool,
    pub client_id: Option<String>,
    pub server_id: Option<u32>,
    pub tunnel_status: String,
    pub last_seen: Option<Timestamp>,
    pub remote_port: u16,
    pub protocol: String,
}

/// A row of the tunnels table, column by column, where each could be read.
#[derive(Debug, Clone)]
pub struct RawTunnelRow {
    pub id: Option<u32>,
    pub name: Option<String>,
    pub subdomain: Option<String>,
    pub domain: Option<String>,
    pub online: Option<bool>,
    pub client_id: Option<String>,
    pub server_id: Option<u32>,
    pub tunnel_status: Option<String>,
    pub last_seen: Option<Timestamp>,
    pub remote_port: Option<u16>,
    pub protocol: Option<String>,
}

/// Reads a row as a tunnel for the statistics.
pub fn tunnel_row(raw: RawTunnelRow) -> (r: TunnelRow)
    ensures
        r.id == raw.id.unwrap_or(0),
        r.name@ == text_or_empty(raw.name),
        r.subdomain@ == text_or_empty(raw.subdomain),
        r.domain@ == text_or_empty(raw.domain),
        r.online == raw.online.unwrap_or(false),
        r.client_id == raw.client_id,
        r.server_id == raw.server_id,
        r.tunnel_status@ == status_or_stopped(raw.tunnel_status),
        r.last_seen == raw.last_seen,
        r.remote_port == raw.remote_port.unwrap_or(0),
        r.protocol@ == text_or_empty(raw.protocol),
{
    TunnelRow {
        id: raw.id.unwrap_or(0),
        name: or_empty(raw.name),
        subdomain: or_empty(raw.subdomain),
        domain: or_empty(raw.domain),
        online: raw.online.unwrap_or(false),
        client_id: raw.client_id,
        server_id: raw.server_id,
        tunnel_status: or_stopped(raw.tunnel_status),
        last_seen: raw.last_seen,
        remote_port: raw.remote_port.unwrap_or(0),
        protocol: or_empty(raw.protocol),
    }
}

/// A column and its definition.
#[derive(Debug, Clone, Copy)]
pub struct Column {
    pub name: &'static str,
    pub definition: &'static str,
}

/// The program that needs the columns.
#[derive(Debug, Clone, Copy, PartialEq, Eq, Structural)]
pub enum Program {
    Client,
    Manager,
    Web,
}

/// A column and its definition, as characters.
pub open spec fn column(name: &str, definition: &str) -> (Seq<char>, Seq<char>) {
    (name@, definition@)
}

/// The columns that a program needs.
pub open spec fn needed_columns(p: Program) -> Seq<(Seq<char>, Seq<char>)> {
    let client_id = column("client_id", "VARCHAR(50) DEFAULT NULL");
    let tunnel_status = column("tunnel_status", "VARCHAR(20) NOT NULL DEFAULT 'stopped'");
    let last_seen = column("last_seen", "DATETIME DEFAULT NULL");
    let dns_set = column("dns_set", "BOOLEAN NOT NULL DEFAULT FALSE");
    match p {
        Program::Client => seq![client_id, tunnel_status, last_seen],
        Program::Manager => seq![client_id, tunnel_status, last_seen, dns_set],
        Program::Web => seq![
            column("create_srv", "BOOLEAN NOT NULL DEFAULT TRUE"),
            client_id,
            tunnel_status,
            last_seen,
            dns_set,
            column("proxy_protocol", "BOOLEAN NOT NULL DEFAULT FALSE"),
        ],
    }
}

/// The columns as characters.
pub open spec fn column_views(cs: Seq<Column>) -> Seq<(Seq<char>, Seq<char>)> {
    cs.map_values(|c: Column| (c.name@, c.definition@))
}

/// The columns that a program needs.
pub fn columns(p: Program) -> (r: Vec<Column>)
    ensures
        column_views(r@) == needed_columns(p),
{
    let client_id = Column { name: "client_id", definition: "VARCHAR(50) DEFAULT NULL" };
    let tunnel_status = Column {
        name: "tunnel_status",
        definition: "VARCHAR(20) NOT NULL DEFAULT 'stopped'",
    };
    let last_seen = Column { name: "last_seen", definition: "DATETIME DEFAULT NULL" };
    let dns_set = Column { name: "dns_set", definition: "BOOLEAN NOT NULL DEFAULT FALSE" };
    let mut r: Vec<Column> = Vec::new();
    match p {
        Program::Web => {
            r.push(Column { name: "create_srv", definition: "BOOLEAN NOT NULL DEFAULT TRUE" });
        },
        _ => {},
    }
    r.push(client_id);
    r.push(tunnel_status);
    r.push(last_seen);
    match p {
        Program::Client => {},
        _ => {
            r.push(dns_set);
        },
    }
    match p {
        Program::Web => {
            r.push(Column { name: "proxy_protocol", definition: "BOOLEAN NOT NULL DEFAULT FALSE" });
        },
        _ => {},
    }
    assert(column_views(r@) =~= needed_columns(p));
    r
}

/// The statement that adds a column. The client's leaves an existing column
/// alone; the others' fails on one.
pub open spec fn add_column_text(p: Program, name: Seq<char>, definition: Seq<char>) -> Seq<char> {
    (if p == Program::Client {
        "ALTER TABLE tunnels ADD COLUMN IF NOT EXISTS "@
    } else {
        "ALTER TABLE tunnels ADD COLUMN "@
    }) + name + " "@ + definition
}

/// The statement that adds a column.
pub fn add_column_sql(p: Program, c: &Column) -> (r: String)
    ensures
        r@ == add_column_text(p, c.name@, c.definition@),
{
    let mut sql = match p {
        Program::Client => "ALTER TABLE tunnels ADD COLUMN IF NOT EXISTS ".to_string(),
        _ => "ALTER TABLE tunnels ADD COLUMN ".to_string(),
    };
    sql.append(c.name);
    sql.append(" ");
    sql.append(c.definition);
    sql
}

/// Whether an error says that a column is there already.
pub fn is_duplicate_column(msg: &str) -> (r: bool)
    ensures
        r == holds_text(msg@, "Duplicate column"@),
{
    contains_text(msg, "Duplicate column")
}

/// Every program asks for the columns that the client writes.
pub proof fn law_client_columns_everywhere(p: Program, c: (Seq<char>, Seq<char>))
    requires
        needed_columns(Program::Client).contains(c),
    ensures
        needed_columns(p).contains(c),
{
    let want = needed_columns(Program::Client);
    let have = needed_columns(p);
    let i = want.index_of(c);
    assert(want[i] == c);
    match p {
        Program::Web => {
            assert(have[i + 1] == c);
        },
        _ => {
            assert(have[i] == c);
        },
    }
}

} // verus!
