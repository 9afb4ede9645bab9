//! When a client connects: one task per server that the manager assigns, each
//! with its own patience.

use std::collections::HashMap;
use vstd::prelude::*;
use vstd::string::*;
use crate::auth::{elapsed_secs, secs_since};
use crate::client::{entry_exists, has_entry};
use crate::config::ServerEntry;
use crate::maps::{keys_of, lemma_pick_all, lemma_pick_next, lemma_pick_none, lists};
use crate::text::{contains_text, holds_text, no_trailing_slash, trim_text, trim_trailing_slashes,
    trimmed};

verus! {

/// Seconds between two heartbeats.
pub const HEARTBEAT_INTERVAL_SECS: u64 = 5;

/// A server that sends nothing for this long is given up.
pub const SERVER_IDLE_TIMEOUT_SECS: u64 = 120;

/// How long a server may take to answer an `Auth`.
pub const AUTH_ANSWER_TIMEOUT_SECS: u64 = 10;

/// A UDP stream is closed when the game server has sent the player nothing for
/// this long. Games with long loading phases need the patience.
pub const UDP_STREAM_TIMEOUT_SECS: u64 = 120;

/// Seconds between two polls of the manager.
pub const MANAGER_POLL_SECS: u64 = 10;

/// Whether a UDP stream is to be closed: the game server was last heard of, or the
/// stream opened, too long ago. What the player sends does not count.
pub fn udp_stream_idle(last_from_game: u64, now: u64) -> (r: bool)
    ensures
        r == (secs_since(last_from_game, now) >= UDP_STREAM_TIMEOUT_SECS),
{
    elapsed_secs(last_from_game, now) >= UDP_STREAM_TIMEOUT_SECS
}

/// A UDP stream whose game server is heard of within the timeout stays open; one
/// whose game server is silent for that long is closed, at whatever later moment
/// it is looked at.
pub proof fn law_silent_game_closes_stream(last_from_game: u64, now: u64)
    ensures
        secs_since(last_from_game, now) >= UDP_STREAM_TIMEOUT_SECS <==> now - last_from_game
            >= 120_000_000_000,
        secs_since(last_from_game, now) >= UDP_STREAM_TIMEOUT_SECS ==> forall|later: u64|
            now <= later ==> #[trigger] secs_since(last_from_game, later)
                >= UDP_STREAM_TIMEOUT_SECS,
{
}

/// Twice as long, up to a limit.
pub open spec fn doubled(secs: u64, limit: u64) -> u64 {
    if 2 * secs < limit {
        (2 * secs) as u64
    } else {
        limit
    }
}

fn double(secs: u64, limit: u64) -> (r: u64)
    requires
        2 * secs <= u64::MAX,
    ensures
        r == doubled(secs, limit),
{
    let twice: u64 = 2 * secs;
    if twice < limit {
        twice
    } else {
        limit
    }
}

/// What a server task does once the manager has answered.
#[derive(Debug, Clone, Copy, PartialEq, Eq, Structural)]
pub enum TaskStep {
    /// Connect: the manager has announced the client to the server.
    Connect,
    /// Stop: no tunnel of this client is on the server.
    Stop,
}

/// The connection to one server, through all its attempts.
#[derive(Debug)]
pub struct ServerTask {
    server_id: u32,
    backoff: u64,
}

impl ServerTask {
    /// The server.
    pub closed spec fn server(&self) -> u32 {
        self.server_id
    }

    /// How many seconds the task waits after its next failure.
    pub closed spec fn wait(&self) -> u64 {
        self.backoff
    }

    /// The wait lies between two seconds and a minute.
    pub open spec fn wf(&self) -> bool {
        2 <= self.wait() <= 60
    }

    /// A task that has not tried yet.
    pub fn new(server_id: u32) -> (r: Self)
        ensures
            r.wf(),
            r.server() == server_id,
            r.wait() == 2,
    {
        ServerTask { server_id, backoff: 2 }
    }

    /// The manager has named the client's servers.
    pub fn manager_answered(&mut self, server_ids: &[u32]) -> (r: TaskStep)
        requires
            old(self).wf(),
        ensures
            final(self).wf(),
            final(self).server() == old(self).server(),
            server_ids@.contains(old(self).server()) ==> r == TaskStep::Connect
                && final(self).wait() == 2,
            !server_ids@.contains(old(self).server()) ==> r == TaskStep::Stop
                && final(self).wait() == old(self).wait(),
    {
        if holds_id(server_ids, self.server_id) {
            self.backoff = 2;
            TaskStep::Connect
        } else {
            TaskStep::Stop
        }
    }

    /// The manager did not answer. Returns the seconds to wait before it is
    /// asked again.
    pub fn manager_failed(&mut self) -> (secs: u64)
        requires
            old(self).wf(),
        ensures
            final(self).wf(),
            final(self).server() == old(self).server(),
            secs == old(self).wait(),
            final(self).wait() == doubled(old(self).wait(), 60),
    {
        let secs: u64 = self.backoff;
        self.backoff = double(secs, 60);
        secs
    }

    /// The server has accepted the client.
    pub fn connected(&mut self)
        requires
            old(self).wf(),
        ensures
            final(self).wf(),
            final(self).server() == old(self).server(),
            final(self).wait() == 2,
    {
        self.backoff = 2;
    }

    /// The connection has ended or was never made. Returns the seconds to wait
    /// before the next attempt.
    pub fn attempt_over(&mut self) -> (secs: u64)
        requires
            old(self).wf(),
        ensures
            final(self).wf(),
            final(self).server() == old(self).server(),
            secs == old(self).wait(),
            final(self).wait() == doubled(old(self).wait(), 30),
    {
        let secs: u64 = self.backoff;
        self.backoff = double(secs, 30);
        secs
    }
}

/// Whether an id is in a list.
pub fn holds_id(ids: &[u32], id: u32) -> (r: bool)
    ensures
        r == ids@.contains(id),
{
    let mut i: usize = 0;
    while i < ids.len()
        invariant
            i <= ids@.len(),
            forall|j: int| 0 <= j < i ==> ids@[j] != id,
        decreases ids@.len() - i,
    {
        if ids[i] == id {
            return true;
        }
        i += 1;
    }
    false
}

/// The patience of the task that polls the manager.
#[derive(Debug)]
pub struct PollBackoff {
    secs: u64,
}

impl PollBackoff {
    /// How many seconds the task waits after its next failure.
    pub closed spec fn wait(&self) -> u64 {
        self.secs
    }

    /// The wait lies between five seconds and a minute.
    pub open spec fn wf(&self) -> bool {
        5 <= self.wait() <= 60
    }

    /// Nothing has failed yet.
    pub fn new() -> (r: Self)
        ensures
            r.wf(),
            r.wait() == 5,
    {
        PollBackoff { secs: 5 }
    }

    /// The manager has answered. Returns the seconds until the next poll.
    pub fn succeeded(&mut self) -> (secs: u64)
        ensures
            final(self).wf(),
            final(self).wait() == 5,
            secs == MANAGER_POLL_SECS,
            secs == 10,
    {
        self.secs = 5;
        MANAGER_POLL_SECS
    }

    /// The manager did not answer. Returns the seconds until the next poll.
    pub fn failed(&mut self) -> (secs: u64)
        requires
            old(self).wf(),
        ensures
            final(self).wf(),
            secs == old(self).wait(),
            final(self).wait() == doubled(old(self).wait(), 60),
    {
        let secs: u64 = self.secs;
        self.secs = double(secs, 60);
        secs
    }
}

/// What follows from the manager's list of servers: the servers to start a task
/// for, those that the configuration lacks, and those whose task is to stop.
#[derive(Debug, Clone)]
pub struct ConnectionPlan {
    pub spawn: Vec<u32>,
    pub unknown: Vec<u32>,
    pub abort: Vec<u32>,
}

/// No task runs for a server: there is none, or it has finished.
pub open spec fn idle_server(tasks: Map<u32, bool>, id: u32) -> bool {
    !tasks.contains_key(id) || tasks[id]
}

/// The servers of a list that get a task, each once, in order.
pub open spec fn servers_to_spawn(
    ids: Seq<u32>,
    tasks: Map<u32, bool>,
    entries: Seq<ServerEntry>,
) -> Seq<u32>
    decreases ids.len(),
{
    if ids.len() == 0 {
        Seq::empty()
    } else {
        let before = servers_to_spawn(ids.drop_last(), tasks, entries);
        let id = ids.last();
        if idle_server(tasks, id) && has_entry(entries, id) && !before.contains(id) {
            before.push(id)
        } else {
            before
        }
    }
}

/// The servers of a list that want a task but are not configured, in order.
pub open spec fn servers_unknown(
    ids: Seq<u32>,
    tasks: Map<u32, bool>,
    entries: Seq<ServerEntry>,
) -> Seq<u32> {
    ids.filter(|id: u32| idle_server(tasks, id) && !has_entry(entries, id))
}

/// Follows the manager's list of servers. `tasks` holds the servers that have a
/// task, and whether it has finished.
pub fn plan_connections(
    server_ids: &[u32],
    tasks: &HashMap<u32, bool>,
    entries: &[ServerEntry],
) -> (r: ConnectionPlan)
    ensures
        r.spawn@ == servers_to_spawn(server_ids@, tasks@, entries@),
        r.unknown@ == servers_unknown(server_ids@, tasks@, entries@),
        lists(r.abort@, tasks@.dom().difference(server_ids@.to_set())),
{
    broadcast use vstd::std_specs::hash::group_hash_axioms;

    let ghost missing = |id: u32| idle_server(tasks@, id) && !has_entry(entries@, id);
    let mut spawn: Vec<u32> = Vec::new();
    let mut unknown: Vec<u32> = Vec::new();
    let mut i: usize = 0;
    proof {
        reveal(Seq::filter);
    }
    while i < server_ids.len()
        invariant
            i <= server_ids@.len(),
            missing == (|id: u32| idle_server(tasks@, id) && !has_entry(entries@, id)),
            spawn@ == servers_to_spawn(server_ids@.take(i as int), tasks@, entries@),
            unknown@ == server_ids@.take(i as int).filter(missing),
        decreases server_ids@.len() - i,
    {
        let id: u32 = server_ids[i];
        proof {
            reveal(Seq::filter);
            assert(server_ids@.take(i + 1).drop_last() =~= server_ids@.take(i as int));
        }
        let idle = match tasks.get(&id) {
            Some(finished) => *finished,
            None => true,
        };
        if idle {
            if entry_exists(entries, id) {
                if !holds_id(spawn.as_slice(), id) {
                    spawn.push(id);
                }
            } else {
                unknown.push(id);
            }
        }
        i += 1;
    }
    assert(server_ids@.take(i as int) =~= server_ids@);
    let keys = keys_of(tasks);
    let ghost dropped = |id: u32| !server_ids@.contains(id);
    let mut abort: Vec<u32> = Vec::new();
    let mut i: usize = 0;
    proof {
        lemma_pick_none(keys@, dropped);
    }
    while i < keys.len()
        invariant
            i <= keys@.len(),
            lists(keys@, tasks@.dom()),
            dropped == (|id: u32| !server_ids@.contains(id)),
            lists(abort@, keys@.take(i as int).to_set().filter(dropped)),
        decreases keys@.len() - i,
    {
        let id: u32 = keys[i];
        proof {
            lemma_pick_next(keys@, i as int, dropped, abort@);
        }
        if !holds_id(server_ids, id) {
            abort.push(id);
        }
        i += 1;
    }
    proof {
        lemma_pick_all(keys@, tasks@.dom(), dropped, abort@);
        assert(tasks@.dom().filter(dropped) =~= tasks@.dom().difference(server_ids@.to_set()));
    }
    ConnectionPlan { spawn, unknown, abort }
}

/// Where the manager names a client's servers.
pub fn servers_url(manager_url: &str, client_uuid: &str) -> (r: String)
    ensures
        r@ == no_trailing_slash(manager_url@) + "/api/client/"@ + client_uuid@ + "/servers"@,
{
    let mut url = trim_trailing_slashes(manager_url).to_string();
    url.append("/api/client/");
    url.append(client_uuid);
    url.append("/servers");
    url
}

/// Where the manager lists a client's tunnels.
pub fn tunnels_url(manager_url: &str, client_id: &str) -> (r: String)
    ensures
        r@ == no_trailing_slash(manager_url@) + "/api/client/"@ + client_id@ + "/tunnels"@,
{
    let mut url = trim_trailing_slashes(manager_url).to_string();
    url.append("/api/client/");
    url.append(client_id);
    url.append("/tunnels");
    url
}

/// The error text for an answer of the manager that is no success.
pub fn manager_error_text(status: &str, body: &str) -> (r: String)
    ensures
        r@ == "manager returned HTTP "@ + status@ + ": "@ + trimmed(body@),
{
    let mut text = "manager returned HTTP ".to_string();
    text.append(status);
    text.append(": ");
    text.append(trim_text(body));
    text
}

/// Whether an error on a server connection is worth an error report: an
/// ordinary disconnect is not.
pub fn is_read_error_loud(msg: &str) -> (r: bool)
    ensures
        r == (!holds_text(msg@, "close_notify"@) && !holds_text(msg@, "peer closed"@)),
{
    !contains_text(msg, "close_notify") && !contains_text(msg, "peer closed")
}

/// A server that the manager names, that is configured, and for which no task
/// runs, gets exactly one task; nobody else gets one.
pub proof fn law_one_task_per_server(
    ids: Seq<u32>,
    tasks: Map<u32, bool>,
    entries: Seq<ServerEntry>,
    id: u32,
)
    ensures
        servers_to_spawn(ids, tasks, entries).no_duplicates(),
        servers_to_spawn(ids, tasks, entries).contains(id) <==> ids.contains(id) && idle_server(
            tasks,
            id,
        ) && has_entry(entries, id),
    decreases ids.len(),
{
    let all = servers_to_spawn(ids, tasks, entries);
    if ids.len() > 0 {
        let init = ids.drop_last();
        let last = ids.last();
        let before = servers_to_spawn(init, tasks, entries);
        law_one_task_per_server(init, tasks, entries, id);
        law_one_task_per_server(init, tasks, entries, last);
        assert(ids.contains(id) <==> init.contains(id) || id == last) by {
            if ids.contains(id) && id != last {
                let j = ids.index_of(id);
                assert(init[j] == id);
            }
            if init.contains(id) {
                let j = init.index_of(id);
                assert(ids[j] == id);
            }
            if id == last {
                assert(ids[ids.len() - 1] == id);
            }
        }
        if idle_server(tasks, last) && has_entry(entries, last) && !before.contains(last) {
            assert(all == before.push(last));
            assert(all.contains(id) <==> before.contains(id) || id == last) by {
                if before.contains(id) {
                    let j = before.index_of(id);
                    assert(all[j] == id);
                }
                if id == last {
                    assert(all[before.len() as int] == id);
                }
                if all.contains(id) && id != last {
                    let j = all.index_of(id);
                    assert(before[j] == id);
                }
            }
        }
    }
}

} // verus!
