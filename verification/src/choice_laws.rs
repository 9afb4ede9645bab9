//! Who is let in, where clients are sent, and how tunnels are spread, told by what
//! was presented, configured and counted.

use vstd::prelude::*;
use vstd::string::*;
use vstd::utf8::*;
use crate::assign::{counts_after, fairly_given, fair_step, first_least_loaded, first_most_frequent,
    load_of, names_client, occurrences, room_for, Assignment};
use crate::auth::{auth_answer, auth_error, auth_reply, auth_verdict, base64_decoded,
    cache_after_auth, holds_credentials, holds_secret, kept_entries, secs_since, still_granted,
    AuthVerdict, FirstFrame};
use crate::config::{database_url_text, merged_stats_urls, string_views, ManagedClient,
    ManagedServer};
use crate::database::DnsTunnel;
use crate::manager_api::{configured_ids, dns_server, first_with_id, first_with_uuid, goes_to,
    mgmt_url, none_with_id, says, servers_owed, well_addressed, Announcement, ClientIdentity, Reply};
use crate::maps::count_where;
use crate::protocol::{FrameView, MessageView};
use crate::text::{decimal_text, no_trailing_slash, opt_text};

verus! {

/// Whole seconds are counted: so many seconds have passed, and not one more. A clock
/// that stands earlier counts as no time.
pub proof fn law_whole_seconds_are_counted(since: u64, now: u64)
    ensures
        since <= now ==> secs_since(since, now) * 1_000_000_000 <= now - since < (secs_since(
            since,
            now,
        ) + 1) * 1_000_000_000,
        now < since ==> secs_since(since, now) == 0,
{
}

/// A request is let in exactly where a secret is set and the request carries it.
pub proof fn law_secret_lets_in(expected: Seq<char>, presented: Option<Seq<char>>)
    ensures
        holds_secret(expected, presented) <==> expected.len() > 0 && presented is Some
            && presented->Some_0 == expected,
{
}

/// A request has the credentials exactly where its header is `Basic `, with the capital
/// and the space, and then text that decodes to them.
pub proof fn law_credentials_let_in(
    expected: Seq<char>,
    encoded: Seq<char>,
    header: Seq<char>,
)
    ensures
        holds_credentials(expected, None) == false,
        holds_credentials(expected, Some("Basic "@ + encoded)) <==> base64_decoded(encoded) == Some(
            encode_utf8(expected),
        ),
        !"Basic "@.is_prefix_of(header) ==> !holds_credentials(expected, Some(header)),
{
    let h = "Basic "@ + encoded;
    assert("Basic "@.is_prefix_of(h));
    assert(h.skip("Basic "@.len() as int) =~= encoded);
}

/// An announcement counts for less than ten seconds, and a cleanup keeps exactly those
/// that still count, as they are.
pub proof fn law_announcements_count_ten_seconds(
    m: Map<Seq<char>, u64>,
    uuid: Seq<char>,
    now: u64,
)
    ensures
        m.contains_key(uuid) ==> (still_granted(m[uuid], now) <==> now - m[uuid] < 10_000_000_000),
        kept_entries(m, now).contains_key(uuid) <==> m.contains_key(uuid) && now - m[uuid]
            < 10_000_000_000,
        kept_entries(m, now).contains_key(uuid) ==> kept_entries(m, now)[uuid] == m[uuid],
{
}

/// How a new connection is judged: by the secret first; without a UUID the secret is
/// enough; with one the manager must have announced it, within ten seconds. What is no
/// `Auth`, cannot be read, or does not come is refused as such.
pub proof fn law_connections_are_judged(
    server_secret: Seq<char>,
    cache: Map<Seq<char>, u64>,
    first: FirstFrame,
    now: u64,
)
    ensures
        ({
            let v = auth_verdict(server_secret, cache, first, now);
            match first {
                FirstFrame::TimedOut => v is TimedOut,
                FirstFrame::Unreadable => v is Unreadable,
                FirstFrame::Frame(f) => match f@ {
                    FrameView::Control(MessageView::Auth { secret, client_uuid }) => {
                        &&& v is InvalidSecret <==> secret != server_secret
                        &&& v is Accepted <==> secret == server_secret && (
                        client_uuid matches Some(u) ==> cache.contains_key(u) && now - cache[u]
                            < 10_000_000_000)
                        &&& v is NotPreAuthorized <==> secret == server_secret && (
                        client_uuid matches Some(u) && !cache.contains_key(u))
                        &&& v is PreAuthExpired <==> secret == server_secret && (
                        client_uuid matches Some(u) && cache.contains_key(u) && now - cache[u]
                            >= 10_000_000_000)
                    },
                    _ => v is NotAuthFrame,
                },
            }
        }),
{
}

/// A connection uses up at most one announcement: that of the UUID that it presents
/// together with the secret. Every other stays.
pub proof fn law_connection_uses_up_its_announcement(
    server_secret: Seq<char>,
    cache: Map<Seq<char>, u64>,
    first: FirstFrame,
    uuid: Seq<char>,
)
    ensures
        ({
            let after = cache_after_auth(server_secret, cache, first);
            let used = first matches FirstFrame::Frame(f) && f@ == FrameView::Control(
                MessageView::Auth { secret: server_secret, client_uuid: Some(uuid) },
            );
            &&& after.contains_key(uuid) <==> cache.contains_key(uuid) && !used
            &&& after.contains_key(uuid) ==> after[uuid] == cache[uuid]
        }),
{
}

/// A client is told whether it was accepted, and else why; who stays silent is told
/// nothing. Each refusal ends the session with an error of its own, an unreadable frame
/// with the reader's.
pub proof fn law_refusals_have_their_words(v: AuthVerdict)
    ensures
        auth_reply(v) == (match v {
            AuthVerdict::Accepted => Some(MessageView::AuthOk),
            AuthVerdict::InvalidSecret => Some(
                MessageView::AuthFailed { reason: "invalid secret"@ },
            ),
            AuthVerdict::PreAuthExpired => Some(
                MessageView::AuthFailed { reason: "pre-auth expired"@ },
            ),
            AuthVerdict::NotPreAuthorized => Some(
                MessageView::AuthFailed { reason: "not pre-authorized by manager"@ },
            ),
            AuthVerdict::NotAuthFrame => Some(
                MessageView::AuthFailed { reason: "expected auth frame"@ },
            ),
            AuthVerdict::Unreadable => Some(
                MessageView::AuthFailed { reason: "malformed auth frame"@ },
            ),
            AuthVerdict::TimedOut => None,
        }),
        auth_error(v) is None <==> v is Accepted || v is Unreadable,
        v is InvalidSecret ==> auth_error(v) == Some("authentication failed"@),
        v is PreAuthExpired ==> auth_error(v) == Some("pre-auth expired"@),
        v is NotPreAuthorized ==> auth_error(v) == Some("not pre-authorized"@),
        v is NotAuthFrame ==> auth_error(v) == Some("expected Auth frame"@),
        v is TimedOut ==> auth_error(v) == Some("authentication timeout"@),
{
}

/// A client takes itself for accepted on `AuthOk` alone, and for refused, with the
/// reason as it came, on `AuthFailed` alone.
pub proof fn law_answers_are_read_as_sent(f: FrameView)
    ensures
        auth_answer(f).0 <==> f == FrameView::Control(MessageView::AuthOk),
        auth_answer(f).1 matches Some(r) ==> f == FrameView::Control(
            MessageView::AuthFailed { reason: r },
        ),
        f matches FrameView::Control(MessageView::AuthFailed { reason }) ==> auth_answer(f).1
            == Some(reason),
{
}

/// A server is found by its id: the first one that has it, and none only where no
/// server has it.
pub proof fn law_server_is_found_by_id(servers: Seq<ManagedServer>, id: u32, i: int, j: int)
    requires
        first_with_id(servers, id, i),
        0 <= j < servers.len(),
    ensures
        0 <= i < servers.len() && servers[i].id == id,
        servers[j].id == id ==> i <= j,
        !none_with_id(servers, id),
        first_with_id(servers, id, j) ==> i == j,
{
    assert(servers[i].id == id);
    if servers[j].id == id && j < i {
        assert(servers[j].id != id);
    }
    if first_with_id(servers, id, j) && i < j {
        assert(servers[i].id != id);
    }
}

/// No server is found exactly where none has the id.
pub proof fn law_missing_server_is_missing(servers: Seq<ManagedServer>, id: u32)
    ensures
        none_with_id(servers, id) <==> !exists|j: int|
            0 <= j < servers.len() && (#[trigger] servers[j]).id == id,
{
}

/// A tunnel's records point to the server that it names, and to the first one where it
/// names none; one that names an unknown server has no target.
pub proof fn law_records_point_to_the_server(t: DnsTunnel, servers: Seq<ManagedServer>, i: int)
    ensures
        t.server_id matches Some(sid) ==> (dns_server(t, servers, i) <==> 0 <= i < servers.len()
            && servers[i].id == sid && forall|j: int|
            0 <= j < i ==> (#[trigger] servers[j]).id != sid),
        t.server_id is None ==> (dns_server(t, servers, i) <==> i == 0 && servers.len() > 0),
{
}

/// A client is found by the UUID that it presents: the first of the configuration that
/// has it.
pub proof fn law_client_is_found_by_uuid(clients: Seq<ClientIdentity>, uuid: Seq<char>, i: int)
    ensures
        first_with_uuid(clients, uuid, i) <==> 0 <= i < clients.len() && clients[i].uuid is Some
            && clients[i].uuid->Some_0@ == uuid && forall|j: int|
            0 <= j < i ==> (#[trigger] clients[j]).uuid is None || clients[j].uuid->Some_0@ != uuid,
{
    if first_with_uuid(clients, uuid, i) {
        assert forall|j: int| 0 <= j < i implies (#[trigger] clients[j]).uuid is None
            || clients[j].uuid->Some_0@ != uuid by {}
    }
}

/// Where a client is sent: to all servers that its tunnels are on, in order; else to the
/// one that it was last sent to; else to the first one configured.
pub proof fn law_client_is_sent_where_it_belongs(
    assigned: Seq<u32>,
    fallback: Option<u32>,
    servers: Seq<ManagedServer>,
)
    ensures
        assigned.len() > 0 ==> servers_owed(assigned, fallback, servers) == Some(assigned),
        assigned.len() == 0 && fallback is Some ==> servers_owed(assigned, fallback, servers)
            == Some(seq![fallback->Some_0]),
        assigned.len() == 0 && fallback is None && servers.len() > 0 ==> servers_owed(
            assigned,
            fallback,
            servers,
        ) == Some(seq![servers[0].id]),
        assigned.len() == 0 && fallback is None && servers.len() == 0 ==> servers_owed(
            assigned,
            fallback,
            servers,
        ) is None,
{
}

/// The servers that are told of a client are those of the list that are configured, in
/// order, and each as often as it is listed.
pub proof fn law_configured_servers_are_told(
    a: Seq<u32>,
    b: Seq<u32>,
    id: u32,
    servers: Seq<ManagedServer>,
)
    ensures
        configured_ids(a + b, servers) == configured_ids(a, servers) + configured_ids(b, servers),
        (exists|j: int| 0 <= j < servers.len() && (#[trigger] servers[j]).id == id)
            ==> configured_ids(seq![id], servers) == seq![id],
        (forall|j: int| 0 <= j < servers.len() ==> (#[trigger] servers[j]).id != id)
            ==> configured_ids(seq![id], servers) == Seq::<u32>::empty(),
    decreases b.len(),
{
    let one = seq![id];
    assert(one.drop_last().len() == 0);
    assert(configured_ids(one.drop_last(), servers) =~= Seq::<u32>::empty());
    assert(one.last() == id);
    if none_with_id(servers, id) {
        assert(configured_ids(one, servers) =~= Seq::<u32>::empty());
    } else {
        assert(configured_ids(one, servers) =~= seq![id]);
    }
    if b.len() == 0 {
        assert(a + b =~= a);
        assert(configured_ids(a + b, servers) =~= configured_ids(a, servers) + configured_ids(
            b,
            servers,
        ));
    } else {
        law_configured_servers_are_told(a, b.drop_last(), id, servers);
        assert((a + b).drop_last() =~= a + b.drop_last());
        assert((a + b).last() == b.last());
        assert(configured_ids(a + b, servers) =~= configured_ids(a, servers) + configured_ids(
            b,
            servers,
        ));
    }
}

/// An announcement goes to the management address of the server that it names.
pub proof fn law_announcement_goes_to_its_server(a: Announcement, servers: Seq<ManagedServer>)
    requires
        well_addressed(a, servers),
    ensures
        exists|i: int|
            0 <= i < servers.len() && (#[trigger] servers[i]).id == a.server_id && a.url@
                == no_trailing_slash(servers[i].mgmt_url@) + "/api/manager/pre-auth"@ && forall|
                j: int,
            |
                0 <= j < i ==> (#[trigger] servers[j]).id != a.server_id,
{
    let i = choose|i: int| #[trigger] goes_to(a, servers, i);
    assert(servers[i].id == a.server_id);
}

/// A management address is the server's, without a slash at its end, and then the path.
pub proof fn law_management_addresses(base: Seq<char>, path: Seq<char>)
    ensures
        mgmt_url(base, path) == no_trailing_slash(base) + path,
        base.len() > 0 && base.last() != '/' ==> mgmt_url(base, path) == base + path,
        mgmt_url(base.push('/'), path) == mgmt_url(base, path),
{
    assert(base.push('/').drop_last() =~= base);
}

/// An answer says its status and its text.
pub proof fn law_answers_say_status_and_text(r: Reply, status: u16, text: Seq<char>)
    ensures
        says(r, status, text) <==> r.status == status && r.text@ == text,
{
}

/// The statistics of a client are asked for at every URL of its list, in order, and then
/// at its single one, unless that is in the list.
pub proof fn law_every_url_is_asked(single: Option<Seq<char>>, listed: Seq<Seq<char>>, url: Seq<char>)
    ensures
        ({
            let all = merged_stats_urls(single, listed);
            &&& all.contains(url) <==> listed.contains(url) || single == Some(url)
            &&& listed.is_prefix_of(all)
            &&& all.len() == listed.len() + if single is Some && !listed.contains(single->Some_0) {
                1int
            } else {
                0int
            }
            &&& listed.no_duplicates() ==> all.no_duplicates()
        }),
{
    let all = merged_stats_urls(single, listed);
    if let Some(u) = single {
        if !listed.contains(u) {
            assert(all[listed.len() as int] == u);
            if listed.contains(url) {
                let i = listed.index_of(url);
                assert(all[i] == url);
            }
            if all.contains(url) && url != u {
                let i = all.index_of(url);
                assert(listed[i] == url);
            }
        }
    }
}

/// The address of a database names user, password, host, port and database, each in its
/// place.
pub proof fn law_database_address(
    user: Seq<char>,
    password: Seq<char>,
    host: Seq<char>,
    port: u16,
    database: Seq<char>,
)
    ensures
        database_url_text(user, password, host, port, database) == "mysql://"@ + user + ":"@
            + password + "@"@ + host + ":"@ + decimal_text(port as nat) + "/"@ + database,
{
}

/// The load of a client is what is counted for it, and nothing where nothing is; a
/// tunnel counts for the client that it names.
pub proof fn law_load_is_what_is_counted(
    counts: Map<Seq<char>, usize>,
    client: Seq<char>,
    named: Option<String>,
)
    ensures
        counts.contains_key(client) ==> load_of(counts, client) == counts[client],
        !counts.contains_key(client) ==> load_of(counts, client) == 0,
        names_client(client)(named) <==> named is Some && named->Some_0@ == client,
{
}

/// How many of some assignments went to a client.
pub open spec fn given_to(
    clients: Seq<ManagedClient>,
    given: Seq<Assignment>,
    client: Seq<char>,
) -> nat {
    count_where(given, |g: Assignment| clients[g.client as int].id@ == client)
}

/// What a client has after some assignments is what it had before and what was given
/// to it.
pub proof fn law_loads_grow_by_what_is_given(
    counts: Map<Seq<char>, usize>,
    clients: Seq<ManagedClient>,
    given: Seq<Assignment>,
    client: Seq<char>,
)
    requires
        room_for(counts, given.len()),
    ensures
        load_of(counts_after(counts, clients, given), client) == load_of(counts, client) + given_to(
            clients,
            given,
            client,
        ),
        given_to(clients, given, client) <= given.len(),
    decreases given.len(),
{
    if given.len() > 0 {
        let init = given.drop_last();
        let last = clients[given.last().client as int].id@;
        assert forall|k: Seq<char>| #[trigger] load_of(counts, k) + init.len() <= usize::MAX by {
            assert(load_of(counts, k) + given.len() <= usize::MAX);
        }
        law_loads_grow_by_what_is_given(counts, clients, init, client);
        law_loads_grow_by_what_is_given(counts, clients, init, last);
        assert(load_of(counts, last) + given.len() <= usize::MAX);
        let before = counts_after(counts, clients, init);
        assert(load_of(before, last) + 1 <= usize::MAX);
    }
}

/// A tunnel goes to a client that had, at its turn, no more tunnels than any other, and
/// fewer than every client that is configured before it.
pub proof fn law_tunnel_goes_to_the_least_loaded(
    counts: Map<Seq<char>, usize>,
    clients: Seq<ManagedClient>,
    given: Seq<Assignment>,
    j: int,
    other: int,
)
    requires
        room_for(counts, given.len()),
        fairly_given(counts, clients, given),
        0 <= j < given.len(),
        0 <= other < clients.len(),
    ensures
        ({
            let chosen = given[j].client as int;
            let had = |c: int|
                load_of(counts, clients[c].id@) + given_to(clients, given.take(j), clients[c].id@);
            &&& 0 <= chosen < clients.len()
            &&& had(chosen) <= had(other)
            &&& other < chosen ==> had(chosen) < had(other)
        }),
{
    let before = given.take(j);
    let chosen = given[j].client as int;
    assert(fair_step(counts, clients, given, j));
    assert(first_least_loaded(clients, counts_after(counts, clients, before), chosen));
    assert forall|k: Seq<char>| #[trigger] load_of(counts, k) + before.len() <= usize::MAX by {
        assert(load_of(counts, k) + given.len() <= usize::MAX);
    }
    law_loads_grow_by_what_is_given(counts, clients, before, clients[chosen].id@);
    law_loads_grow_by_what_is_given(counts, clients, before, clients[other].id@);
    assert(clients[other].id@ == clients[other].id@);
}

/// A client is directed to a server that hosts as many of its tunnels as any other, and
/// more than every server that is listed before it.
pub proof fn law_client_is_directed_to_the_busiest(ids: Seq<u32>, i: int, j: int)
    requires
        first_most_frequent(ids, i),
        0 <= j < ids.len(),
    ensures
        0 <= i < ids.len(),
        count_where(ids, |x: u32| x == ids[j]) <= count_where(ids, |x: u32| x == ids[i]),
        j < i ==> count_where(ids, |x: u32| x == ids[j]) < count_where(ids, |x: u32| x == ids[i]),
{
    assert(occurrences(ids, ids[j]) <= occurrences(ids, ids[i]));
    lemma_same_count(ids, ids[j]);
    lemma_same_count(ids, ids[i]);
    if j < i {
        assert(occurrences(ids, ids[j]) < occurrences(ids, ids[i]));
    }
}

proof fn lemma_same_count(ids: Seq<u32>, id: u32)
    ensures
        occurrences(ids, id) == count_where(ids, |x: u32| x == id),
    decreases ids.len(),
{
    if ids.len() > 0 {
        lemma_same_count(ids.drop_last(), id);
    }
}

/// A client's URLs are those of its configuration.
pub proof fn law_client_urls_are_configured(cfg: ManagedClient, url: Seq<char>)
    ensures
        cfg.stats_url_views().contains(url) <==> (cfg.stats_url is Some && cfg.stats_url->Some_0@
            == url) || exists|i: int|
            0 <= i < cfg.stats_urls@.len() && (#[trigger] cfg.stats_urls@[i])@ == url,
        forall|i: int|
            0 <= i < cfg.stats_urls@.len() ==> cfg.stats_url_views()[i]
                == (#[trigger] cfg.stats_urls@[i])@,
{
    let listed = string_views(cfg.stats_urls@);
    law_every_url_is_asked(opt_text(cfg.stats_url), listed, url);
    if listed.contains(url) {
        let i = listed.index_of(url);
        assert(cfg.stats_urls@[i]@ == url);
    }
    if exists|i: int| 0 <= i < cfg.stats_urls@.len() && (#[trigger] cfg.stats_urls@[i])@ == url {
        let i = choose|i: int|
            0 <= i < cfg.stats_urls@.len() && (#[trigger] cfg.stats_urls@[i])@ == url;
        assert(listed[i] == url);
    }
    assert forall|i: int| 0 <= i < cfg.stats_urls@.len() implies cfg.stats_url_views()[i] == (
    #[trigger] cfg.stats_urls@[i])@ by {
        assert(listed[i] == cfg.stats_urls@[i]@);
    }
}

} // verus!
