//! How the manager answers: which server a client is sent to, and what becomes
//! of a request to force a player off.

use vstd::prelude::*;
use vstd::string::*;
use crate::config::ManagedServer;
use crate::database::{ClientServerMapping, DnsTunnel};
use crate::manager::ManagerState;
use crate::text::{decimal, decimal_text, no_trailing_slash, opt_text, text_eq,
    trim_trailing_slashes};

verus! {

/// An answer that is a status and a text.
#[derive(Debug, Clone, PartialEq, Eq)]
pub struct Reply {
    pub status: u16,
    pub text: String,
}

/// An answer as a status and characters.
pub open spec fn says(r: Reply, status: u16, text: Seq<char>) -> bool {
    r.status == status && r.text@ == text
}

fn reply(status: u16, text: &str) -> (r: Reply)
    ensures
        says(r, status, text@),
{
    Reply { status, text: text.to_string() }
}

/// The first server of the configuration with an id is at position `i`.
pub open spec fn first_with_id(servers: Seq<ManagedServer>, id: u32, i: int) -> bool {
    &&& 0 <= i < servers.len()
    &&& servers[i].id == id
    &&& forall|j: int| 0 <= j < i ==> (#[trigger] servers[j]).id != id
}

/// No server of the configuration has an id.
pub open spec fn none_with_id(servers: Seq<ManagedServer>, id: u32) -> bool {
    forall|j: int| 0 <= j < servers.len() ==> (#[trigger] servers[j]).id != id
}

/// Finds a server of the configuration.
pub fn find_server(servers: &[ManagedServer], id: u32) -> (r: Option<&ManagedServer>)
    ensures
        match r {
            Some(s) => exists|i: int| #[trigger]
                first_with_id(servers@, id, i) && *s == servers@[i],
            None => none_with_id(servers@, id),
        },
{
    let mut i: usize = 0;
    while i < servers.len()
        invariant
            i <= servers@.len(),
            forall|j: int| 0 <= j < i ==> (#[trigger] servers@[j]).id != id,
        decreases servers@.len() - i,
    {
        if servers[i].id == id {
            assert(first_with_id(servers@, id, i as int));
            return Some(&servers[i]);
        }
        i += 1;
    }
    None
}

/// A URL of a server's management API.
pub open spec fn mgmt_url(base: Seq<char>, path: Seq<char>) -> Seq<char> {
    no_trailing_slash(base) + path
}

fn mgmt_address(base: &str, path: &str) -> (r: String)
    ensures
        r@ == mgmt_url(base@, path@),
{
    let mut url = trim_trailing_slashes(base).to_string();
    url.append(path);
    url
}

/// Where a server lists its player connections.
pub fn connections_url(server: &ManagedServer) -> (r: String)
    ensures
        r@ == mgmt_url(server.mgmt_url@, "/api/connections"@),
{
    mgmt_address(server.mgmt_url.as_str(), "/api/connections")
}

/// Where a server takes the announcement of a client.
pub fn pre_auth_url(server: &ManagedServer) -> (r: String)
    ensures
        r@ == mgmt_url(server.mgmt_url@, "/api/manager/pre-auth"@),
{
    mgmt_address(server.mgmt_url.as_str(), "/api/manager/pre-auth")
}

/// Where a client process reports its statistics.
pub fn client_stats_url(url: &str) -> (r: String)
    ensures
        r@ == url@ + "/api/stats"@,
{
    let mut full = url.to_string();
    full.append("/api/stats");
    full
}

/// The public address that a tunnel's DNS records point to: that of its server,
/// or of the first server where it names none.
pub open spec fn dns_server(t: DnsTunnel, servers: Seq<ManagedServer>, i: int) -> bool {
    match t.server_id {
        Some(sid) => first_with_id(servers, sid, i),
        None => i == 0 && servers.len() > 0,
    }
}

/// The public address that a tunnel's DNS records point to.
pub fn dns_target<'a>(t: &DnsTunnel, servers: &'a [ManagedServer]) -> (r: Option<&'a str>)
    ensures
        match r {
            Some(ip) => exists|i: int| #[trigger]
                dns_server(*t, servers@, i) && ip@ == servers@[i].public_ip@,
            None => forall|i: int| !#[trigger] dns_server(*t, servers@, i),
        },
{
    match t.server_id {
        Some(sid) => match find_server(servers, sid) {
            Some(s) => {
                proof {
                    let i = choose|i: int| #[trigger]
                        first_with_id(servers@, sid, i) && *s == servers@[i];
                    assert(dns_server(*t, servers@, i));
                }
                Some(s.public_ip.as_str())
            },
            None => None,
        },
        None => if servers.len() > 0 {
            assert(dns_server(*t, servers@, 0));
            Some(servers[0].public_ip.as_str())
        } else {
            None
        },
    }
}

/// What becomes of a request to force a player off.
#[derive(Debug, Clone)]
pub enum DisconnectPlan {
    /// Send it to the server, at this URL.
    Forward(String),
    Refuse(Reply),
}

/// How a server took a forwarded request.
#[derive(Debug, Clone)]
pub enum ForwardOutcome {
    Accepted,
    /// It answered with this status.
    Rejected(String),
    /// It could not be reached, for this reason.
    Unreachable(String),
}

impl ManagerState {
    /// Finds the server of a stream that is to be closed.
    pub fn plan_disconnect(&self, servers: &[ManagedServer], stream_id: u64) -> (r: DisconnectPlan)
        ensures
            if !self.stream_server_map@.contains_key(stream_id) {
                r matches DisconnectPlan::Refuse(a) && says(a, 404, "connection not found"@)
            } else if none_with_id(servers@, self.stream_server_map@[stream_id]) {
                r matches DisconnectPlan::Refuse(a) && says(a, 500, "server config not found"@)
            } else {
                r matches DisconnectPlan::Forward(url) && exists|i: int| #[trigger]
                    first_with_id(servers@, self.stream_server_map@[stream_id], i) && url@
                        == mgmt_url(
                        servers@[i].mgmt_url@,
                        "/api/connections/"@ + decimal_text(stream_id as nat),
                    )
            },
    {
        broadcast use vstd::std_specs::hash::group_hash_axioms;

        let server_id: u32 = match self.stream_server_map.get(&stream_id) {
            Some(sid) => *sid,
            None => {
                return DisconnectPlan::Refuse(reply(404, "connection not found"));
            },
        };
        match find_server(servers, server_id) {
            None => DisconnectPlan::Refuse(reply(500, "server config not found")),
            Some(s) => {
                let mut path = "/api/connections/".to_string();
                path.append(decimal(stream_id).as_str());
                DisconnectPlan::Forward(mgmt_address(s.mgmt_url.as_str(), path.as_str()))
            },
        }
    }
}

/// Answers a forwarded request. `Ok` means that the player is gone.
pub fn disconnect_result(outcome: ForwardOutcome) -> (r: Result<(), Reply>)
    ensures
        match outcome {
            ForwardOutcome::Accepted => r is Ok,
            ForwardOutcome::Rejected(status) => r matches Err(a) && says(
                a,
                502,
                "server returned "@ + status@,
            ),
            ForwardOutcome::Unreachable(why) => r matches Err(a) && says(
                a,
                502,
                "cannot reach server: "@ + why@,
            ),
        },
{
    match outcome {
        ForwardOutcome::Accepted => Ok(()),
        ForwardOutcome::Rejected(status) => {
            let mut text = "server returned ".to_string();
            text.append(status.as_str());
            Err(Reply { status: 502, text })
        },
        ForwardOutcome::Unreachable(why) => {
            let mut text = "cannot reach server: ".to_string();
            text.append(why.as_str());
            Err(Reply { status: 502, text })
        },
    }
}

/// What the database says of a client's mapping.
#[derive(Debug, Clone)]
pub enum MappingLookup {
    Found(ClientServerMapping),
    Missing,
    Failed,
}

/// A server to be told of a client before the client hears of the server.
#[derive(Debug, Clone)]
pub struct Announcement {
    pub server_id: u32,
    pub url: String,
}

/// Decides which server a client is sent to, before that server is told.
pub fn server_for_client(lookup: &MappingLookup, servers: &[ManagedServer]) -> (r: Result<
    Announcement,
    Reply,
>)
    ensures
        match *lookup {
            MappingLookup::Failed => r matches Err(a) && says(a, 500, "database error"@),
            MappingLookup::Missing => r matches Err(a) && says(a, 404, "no server mapping found"@),
            MappingLookup::Found(m) => if !m.allowed {
                r matches Err(a) && says(a, 403, "client not allowed"@)
            } else if none_with_id(servers@, m.server_id) {
                r matches Err(a) && says(a, 500, "server config not found"@)
            } else {
                r matches Ok(n) && n.server_id == m.server_id && exists|i: int| #[trigger]
                    first_with_id(servers@, m.server_id, i) && n.url@ == mgmt_url(
                        servers@[i].mgmt_url@,
                        "/api/manager/pre-auth"@,
                    )
            },
        },
{
    match lookup {
        MappingLookup::Failed => Err(reply(500, "database error")),
        MappingLookup::Missing => Err(reply(404, "no server mapping found")),
        MappingLookup::Found(m) => {
            if !m.allowed {
                return Err(reply(403, "client not allowed"));
            }
            match find_server(servers, m.server_id) {
                None => Err(reply(500, "server config not found")),
                Some(s) => Ok(Announcement { server_id: m.server_id, url: pre_auth_url(s) }),
            }
        },
    }
}

/// How a server took the announcement of a client.
#[derive(Debug, Clone, Copy, PartialEq, Eq, Structural)]
pub enum NotifyOutcome {
    TimedOut,
    Unreachable,
    Rejected,
    Accepted,
}

/// Answers a client once its server was told: the server's id, or why not.
pub fn server_answer(server_id: u32, outcome: NotifyOutcome) -> (r: Result<u32, Reply>)
    ensures
        match outcome {
            NotifyOutcome::Accepted => r == Ok::<u32, Reply>(server_id),
            NotifyOutcome::TimedOut => r matches Err(a) && says(
                a,
                503,
                "server did not respond to pre-auth in time"@,
            ),
            NotifyOutcome::Unreachable => r matches Err(a) && says(
                a,
                503,
                "could not reach server management API"@,
            ),
            NotifyOutcome::Rejected => r matches Err(a) && says(
                a,
                502,
                "server rejected pre-auth"@,
            ),
        },
{
    match outcome {
        NotifyOutcome::Accepted => Ok(server_id),
        NotifyOutcome::TimedOut => Err(reply(503, "server did not respond to pre-auth in time")),
        NotifyOutcome::Unreachable => Err(reply(503, "could not reach server management API")),
        NotifyOutcome::Rejected => Err(reply(502, "server rejected pre-auth")),
    }
}

/// A client of the configuration, with the UUID that it presents.
#[derive(Debug, Clone)]
pub struct ClientIdentity {
    pub id: String,
    pub uuid: Option<String>,
}

/// A client that presented its UUID: its id, and the server that it was last
/// directed to.
#[derive(Debug, Clone)]
pub struct ResolvedClient {
    pub client_id: String,
    pub fallback: Option<u32>,
}

/// The first client of the configuration with a UUID is at position `i`.
pub open spec fn first_with_uuid(clients: Seq<ClientIdentity>, uuid: Seq<char>, i: int) -> bool {
    &&& 0 <= i < clients.len()
    &&& opt_text(clients[i].uuid) == Some(uuid)
    &&& forall|j: int| 0 <= j < i ==> opt_text((#[trigger] clients[j]).uuid) != Some(uuid)
}

/// Finds out who presented a UUID: by the database, else by the configuration.
pub fn resolve_client(lookup: &MappingLookup, uuid: &str, clients: &[ClientIdentity]) -> (r: Result<
    ResolvedClient,
    Reply,
>)
    ensures
        match *lookup {
            MappingLookup::Failed => r matches Err(a) && says(a, 500, "database error"@),
            MappingLookup::Found(m) => if !m.allowed {
                r matches Err(a) && says(a, 403, "client not allowed"@)
            } else {
                r matches Ok(c) && c.client_id@ == m.client_id@ && c.fallback == Some(m.server_id)
            },
            MappingLookup::Missing => if exists|i: int| #[trigger]
                first_with_uuid(clients@, uuid@, i) {
                r matches Ok(c) && c.fallback is None && exists|i: int| #[trigger]
                    first_with_uuid(clients@, uuid@, i) && c.client_id@ == clients@[i].id@
            } else {
                r matches Err(a) && says(a, 404, "no server mapping found"@)
            },
        },
{
    match lookup {
        MappingLookup::Failed => Err(reply(500, "database error")),
        MappingLookup::Found(m) => {
            if !m.allowed {
                return Err(reply(403, "client not allowed"));
            }
            Ok(ResolvedClient { client_id: m.client_id.clone(), fallback: Some(m.server_id) })
        },
        MappingLookup::Missing => {
            let mut i: usize = 0;
            while i < clients.len()
                invariant
                    i <= clients@.len(),
                    *lookup is Missing,
                    forall|j: int|
                        0 <= j < i ==> opt_text((#[trigger] clients@[j]).uuid) != Some(uuid@),
                decreases clients@.len() - i,
            {
                let own = match &clients[i].uuid {
                    Some(u) => text_eq(u.as_str(), uuid),
                    None => false,
                };
                if own {
                    assert(first_with_uuid(clients@, uuid@, i as int));
                    return Ok(ResolvedClient { client_id: clients[i].id.clone(), fallback: None });
                }
                i += 1;
            }
            Err(reply(404, "no server mapping found"))
        },
    }
}

/// The servers that a client is to connect to.
pub open spec fn servers_owed(
    assigned: Seq<u32>,
    fallback: Option<u32>,
    servers: Seq<ManagedServer>,
) -> Option<Seq<u32>> {
    if assigned.len() > 0 {
        Some(assigned)
    } else {
        match fallback {
            Some(sid) => Some(seq![sid]),
            None => if servers.len() > 0 {
                Some(seq![servers[0].id])
            } else {
                None
            },
        }
    }
}

/// Decides which servers a client is to connect to: those that its tunnels are
/// on. Where no tunnel of the client names a server, it gets one all the same: the
/// one that it was last directed to, else the first one configured. So it is
/// there when a tunnel is placed.
pub fn servers_for_client(
    assigned: Vec<u32>,
    fallback: Option<u32>,
    servers: &[ManagedServer],
) -> (r: Result<Vec<u32>, Reply>)
    ensures
        match servers_owed(assigned@, fallback, servers@) {
            Some(ids) => r matches Ok(v) && v@ == ids,
            None => r matches Err(a) && says(a, 503, "no servers configured"@),
        },
{
    let mut ids = assigned;
    if ids.len() == 0 {
        match fallback {
            Some(sid) => {
                ids.push(sid);
            },
            None => {
                if servers.len() > 0 {
                    ids.push(servers[0].id);
                } else {
                    return Err(reply(503, "no servers configured"));
                }
            },
        }
    }
    assert(servers_owed(assigned@, fallback, servers@) matches Some(want) && want =~= ids@);
    Ok(ids)
}

/// The ids of a list that are configured, in order.
pub open spec fn configured_ids(ids: Seq<u32>, servers: Seq<ManagedServer>) -> Seq<u32>
    decreases ids.len(),
{
    if ids.len() == 0 {
        Seq::empty()
    } else {
        let before = configured_ids(ids.drop_last(), servers);
        if none_with_id(servers, ids.last()) {
            before
        } else {
            before.push(ids.last())
        }
    }
}

/// An announcement goes to the server that its id names.
pub open spec fn goes_to(a: Announcement, servers: Seq<ManagedServer>, i: int) -> bool {
    first_with_id(servers, a.server_id, i) && a.url@ == mgmt_url(
        servers[i].mgmt_url@,
        "/api/manager/pre-auth"@,
    )
}

/// An announcement goes to a configured server.
pub open spec fn well_addressed(a: Announcement, servers: Seq<ManagedServer>) -> bool {
    exists|i: int| #[trigger] goes_to(a, servers, i)
}

/// The servers to be told of a client: those of a list that are configured.
pub fn announcements(ids: &[u32], servers: &[ManagedServer]) -> (r: Vec<Announcement>)
    ensures
        r@.map_values(|a: Announcement| a.server_id) == configured_ids(ids@, servers@),
        forall|j: int|
            0 <= j < r@.len() ==> well_addressed(#[trigger] r@[j], servers@),
{
    let ghost id_of = |a: Announcement| a.server_id;
    let mut r: Vec<Announcement> = Vec::new();
    let mut i: usize = 0;
    assert(r@.map_values(id_of) =~= Seq::<u32>::empty());
    while i < ids.len()
        invariant
            i <= ids@.len(),
            id_of == (|a: Announcement| a.server_id),
            r@.map_values(id_of) == configured_ids(ids@.take(i as int), servers@),
            forall|j: int|
                0 <= j < r@.len() ==> well_addressed(#[trigger] r@[j], servers@),
        decreases ids@.len() - i,
    {
        let id: u32 = ids[i];
        let ghost before = r@;
        assert(ids@.take(i + 1).drop_last() =~= ids@.take(i as int));
        match find_server(servers, id) {
            Some(s) => {
                let ghost at = choose|k: int| #[trigger]
                    first_with_id(servers@, id, k) && *s == servers@[k];
                assert(servers@[at].id == id);
                assert(!none_with_id(servers@, id));
                let a = Announcement { server_id: id, url: pre_auth_url(s) };
                assert(goes_to(a, servers@, at));
                r.push(a);
                assert(r@.map_values(id_of) =~= before.map_values(id_of).push(id));
                assert(well_addressed(a, servers@));
                assert forall|j: int| 0 <= j < r@.len() implies well_addressed(
                    #[trigger] r@[j],
                    servers@,
                ) by {
                    if j < before.len() {
                        assert(r@[j] == before[j]);
                    }
                }
            },
            None => {},
        }
        i += 1;
    }
    assert(ids@.take(i as int) =~= ids@);
    r
}

/// A client with assigned servers is sent to exactly those, whatever the
/// fallback.
pub proof fn law_assigned_servers_win(
    assigned: Seq<u32>,
    fallback: Option<u32>,
    servers: Seq<ManagedServer>,
)
    requires
        assigned.len() > 0,
    ensures
        servers_owed(assigned, fallback, servers) == Some(assigned),
{
}

/// A client whose tunnels name no server, or that has none, is sent to the one
/// server that it was last directed to.
pub proof fn law_unplaced_client_falls_back(sid: u32, servers: Seq<ManagedServer>)
    ensures
        servers_owed(Seq::empty(), Some(sid), servers) == Some(seq![sid]),
{
}

/// A client is never handed an empty list, and is refused only where no server is
/// assigned, remembered or configured.
pub proof fn law_client_is_sent_somewhere(
    assigned: Seq<u32>,
    fallback: Option<u32>,
    servers: Seq<ManagedServer>,
)
    ensures
        servers_owed(assigned, fallback, servers) matches Some(ids) ==> ids.len() > 0,
        servers_owed(assigned, fallback, servers) is None <==> assigned.len() == 0
            && fallback is None && servers.len() == 0,
{
}

} // verus!
