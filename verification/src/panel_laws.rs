//! What the panel stores and shows, and what goes to the name service, told column by
//! column.

use vstd::prelude::*;
use vstd::string::*;
use crate::config::CloudflareZone;
use crate::database::{add_column_text, column_views, needed_columns, status_or_stopped,
    text_or_empty, Column, Program};
use crate::dns::{deletion_planned, records_address, records_planned, Deleter, DeletePlan, DnsPlan};
use crate::text::{decimal_text, joined, trimmed};
use crate::web::{answer_without_manager, assignments, bind_views, changes_nothing, column_changes,
    fulfils, in_use, manager_address, set_columns, set_values, update_binds, update_text, Bind,
    BindView, CreateTunnelRequest, ManagerRequest, NewTunnel, UpdateTunnelRequest, WithoutManager};

verus! {

/// A new tunnel is stored as it was asked for: the local address and port, the public
/// port, the names, the server, the client and the flags, each in its own column.
/// What the request leaves open is an empty name, `tcp` and `sinomcit.com`.
pub proof fn law_new_tunnel_is_stored_as_asked(
    t: NewTunnel,
    req: CreateTunnelRequest,
    id: u32,
    uuid: Seq<char>,
)
    requires
        fulfils(t, req, id, uuid),
    ensures
        t.id == id && t.uuid@ == uuid,
        t.server_ip == req.server_ip,
        t.server_port == req.server_port,
        t.remote_port == req.remote_port,
        t.subdomain == req.subdomain,
        t.server_id == req.server_id,
        t.client_id == req.client_id,
        t.create_srv == req.create_srv,
        t.proxy_protocol == req.proxy_protocol,
        req.name matches Some(n) ==> t.name@ == n@,
        req.name is None ==> t.name@.len() == 0,
        req.protocol matches Some(p) ==> t.protocol@ == p@,
        req.protocol is None ==> t.protocol@ == "tcp"@,
        req.domain matches Some(d) ==> t.domain@ == d@,
        req.domain is None ==> t.domain@ == "sinomcit.com"@,
{
}

/// An id is in use exactly where the list holds it.
pub proof fn law_ids_in_use_are_listed(ids: Seq<u64>, n: u64)
    ensures
        in_use(ids, n as int) <==> ids.contains(n),
{
    if in_use(ids, n as int) {
        let i = choose|i: int| 0 <= i < ids.len() && #[trigger] ids[i] == n as int;
        assert(ids[i] == n);
    }
    if ids.contains(n) {
        let i = ids.index_of(n);
        assert(ids[i] == n as int);
    }
}

/// A statement sets this column, and the value in the same place is this one.
pub open spec fn sets(req: UpdateTunnelRequest, column: Seq<char>, value: BindView) -> bool {
    exists|p: int|
        0 <= p < set_columns(column_changes(req)).len() && #[trigger] set_columns(
            column_changes(req),
        )[p] == column && set_values(column_changes(req))[p] == value
}

proof fn lemma_value_stands_at_its_column(cs: Seq<(Seq<char>, Option<BindView>)>, i: int)
    requires
        0 <= i < cs.len(),
        cs[i].1 is Some,
    ensures
        set_columns(cs).len() == set_values(cs).len(),
        exists|p: int|
            0 <= p < set_columns(cs).len() && #[trigger] set_columns(cs)[p] == cs[i].0
                && set_values(cs)[p] == cs[i].1->Some_0,
    decreases cs.len(),
{
    let init = cs.drop_last();
    lemma_as_many_values(init);
    if i < init.len() {
        assert(init[i] == cs[i]);
        lemma_value_stands_at_its_column(init, i);
        let p = choose|p: int|
            0 <= p < set_columns(init).len() && #[trigger] set_columns(init)[p] == init[i].0
                && set_values(init)[p] == init[i].1->Some_0;
        assert(set_columns(cs)[p] == cs[i].0);
    } else {
        let p = set_columns(init).len() as int;
        assert(cs.last() == cs[i]);
        assert(set_columns(cs)[p] == cs[i].0);
    }
}

proof fn lemma_as_many_values(cs: Seq<(Seq<char>, Option<BindView>)>)
    ensures
        set_columns(cs).len() == set_values(cs).len(),
    decreases cs.len(),
{
    if cs.len() > 0 {
        lemma_as_many_values(cs.drop_last());
    }
}

/// What a change names is set, each column to its own value: texts, ports and flags as
/// they are, a negative server to none, and the client `-` to none.
pub proof fn law_change_sets_what_it_names(req: UpdateTunnelRequest)
    ensures
        req.name matches Some(x) ==> sets(req, "name = ?"@, BindView::Text(x@)),
        req.server_ip matches Some(x) ==> sets(req, "server_ip = ?"@, BindView::Text(x@)),
        req.server_port matches Some(x) ==> sets(req, "server_port = ?"@, BindView::U16(x)),
        req.remote_port matches Some(x) ==> sets(req, "remote_port = ?"@, BindView::U16(x)),
        req.protocol matches Some(x) ==> sets(req, "protocol = ?"@, BindView::Text(x@)),
        req.subdomain matches Some(x) ==> sets(req, "subdomain = ?"@, BindView::Text(x@)),
        req.domain matches Some(x) ==> sets(req, "domain = ?"@, BindView::Text(x@)),
        req.online matches Some(x) ==> sets(req, "online = ?"@, BindView::Bool(x)),
        req.server_id matches Some(x) ==> (x >= 0 ==> sets(
            req,
            "server_id = ?"@,
            BindView::OptU32(Some(x as u32)),
        )) && (x < 0 ==> sets(req, "server_id = ?"@, BindView::OptU32(None))),
        req.client_id matches Some(x) ==> (x@ != "-"@ ==> sets(
            req,
            "client_id = ?"@,
            BindView::OptText(Some(x@)),
        )) && (x@ == "-"@ ==> sets(req, "client_id = ?"@, BindView::OptText(None))),
        req.create_srv matches Some(x) ==> sets(req, "create_srv = ?"@, BindView::Bool(x)),
        req.proxy_protocol matches Some(x) ==> sets(req, "proxy_protocol = ?"@, BindView::Bool(x)),
{
    let cs = column_changes(req);
    assert(cs.len() == 12);
    assert forall|i: int| 0 <= i < 12 && (#[trigger] cs[i]).1 is Some implies sets(
        req,
        cs[i].0,
        cs[i].1->Some_0,
    ) by {
        lemma_value_stands_at_its_column(cs, i);
    }
    assert(cs[0] == cs[0] && cs[1] == cs[1] && cs[2] == cs[2] && cs[3] == cs[3]);
    assert(cs[4] == cs[4] && cs[5] == cs[5] && cs[6] == cs[6] && cs[7] == cs[7]);
    assert(cs[8] == cs[8] && cs[9] == cs[9] && cs[10] == cs[10] && cs[11] == cs[11]);
}

/// One for a value that is there.
pub open spec fn one_if(there: bool) -> nat {
    if there {
        1
    } else {
        0
    }
}

/// A change sets as many columns as it names, and no other.
pub proof fn law_change_sets_nothing_else(req: UpdateTunnelRequest)
    ensures
        set_columns(column_changes(req)).len() == one_if(req.name is Some) + one_if(
            req.server_ip is Some,
        ) + one_if(req.server_port is Some) + one_if(req.remote_port is Some) + one_if(
            req.protocol is Some,
        ) + one_if(req.subdomain is Some) + one_if(req.domain is Some) + one_if(
            req.online is Some,
        ) + one_if(req.server_id is Some) + one_if(req.client_id is Some) + one_if(
            req.create_srv is Some,
        ) + one_if(req.proxy_protocol is Some),
{
    let cs = column_changes(req);
    assert forall|n: int| 0 <= n < 12 implies #[trigger] cs.take(n + 1).drop_last() =~= cs.take(
        n,
    ) by {}
    assert(cs.take(12) =~= cs);
    assert(cs.take(0) =~= Seq::<(Seq<char>, Option<BindView>)>::empty());
    lemma_one_more_column(cs, 0);
    lemma_one_more_column(cs, 1);
    lemma_one_more_column(cs, 2);
    lemma_one_more_column(cs, 3);
    lemma_one_more_column(cs, 4);
    lemma_one_more_column(cs, 5);
    lemma_one_more_column(cs, 6);
    lemma_one_more_column(cs, 7);
    lemma_one_more_column(cs, 8);
    lemma_one_more_column(cs, 9);
    lemma_one_more_column(cs, 10);
    lemma_one_more_column(cs, 11);
}

proof fn lemma_one_more_column(cs: Seq<(Seq<char>, Option<BindView>)>, n: int)
    requires
        0 <= n < cs.len(),
    ensures
        set_columns(cs.take(n + 1)).len() == set_columns(cs.take(n)).len() + one_if(
            cs[n].1 is Some,
        ),
{
    assert(cs.take(n + 1).drop_last() =~= cs.take(n));
    assert(cs.take(n + 1).last() == cs[n]);
}

/// The statement of a change names its columns in order, between commas, and then the
/// tunnel. The records are to be set anew exactly where the change names the public
/// port, the server, one of the names or the service record.
pub proof fn law_change_is_one_statement(req: UpdateTunnelRequest, id: u32)
    ensures
        ({
            let columns = set_columns(column_changes(req));
            let anew = req.remote_port is Some || req.server_id is Some || req.subdomain is Some
                || req.domain is Some || req.create_srv is Some;
            &&& anew ==> assignments(req) == columns.push("dns_set = FALSE"@)
            &&& !anew ==> assignments(req) == columns
            &&& update_text(req) == "UPDATE tunnels SET "@ + joined(assignments(req), ", "@)
                + " WHERE id = ?"@
            &&& update_binds(req, id) == set_values(column_changes(req)).push(BindView::U32(id))
        }),
{
}

/// A request goes to the manager under its own path; where no manager is configured,
/// a list is empty, a count is an error, and a player cannot be forced off.
pub proof fn law_requests_have_their_paths(base: Seq<char>, tunnel: u32, stream_id: u64)
    ensures
        manager_address(base, ManagerRequest::Stats) == base + "/api/stats"@,
        manager_address(base, ManagerRequest::Clients) == base + "/api/clients"@,
        manager_address(base, ManagerRequest::Connections { tunnel }) == base + "/api/tunnels/"@
            + decimal_text(tunnel as nat) + "/connections"@,
        manager_address(base, ManagerRequest::Disconnect { tunnel, stream_id }) == base
            + "/api/tunnels/"@ + decimal_text(tunnel as nat) + "/connections/"@ + decimal_text(
            stream_id as nat,
        ),
        answer_without_manager(ManagerRequest::Stats) == WithoutManager::ErrorObject,
        answer_without_manager(ManagerRequest::Clients) == WithoutManager::EmptyList,
        answer_without_manager(ManagerRequest::Connections { tunnel }) == WithoutManager::EmptyList,
        answer_without_manager(ManagerRequest::Disconnect { tunnel, stream_id })
            == WithoutManager::Unavailable,
{
}

/// The records of a tunnel: an address record under its name, for the server's address,
/// and where it is asked for a service record with the public port. They go to the
/// first zone of the domain; a domain without a zone is refused.
pub proof fn law_records_say_where_the_tunnel_is(
    zones: Seq<CloudflareZone>,
    subdomain: Seq<char>,
    domain: Seq<char>,
    vps_ip: Seq<char>,
    port: u16,
    create_srv: bool,
    r: Result<DnsPlan, String>,
)
    requires
        records_planned(zones, subdomain, domain, vps_ip, port, create_srv, r),
    ensures
        r is Ok <==> exists|i: int|
            0 <= i < zones.len() && (#[trigger] zones[i]).domain@ == trimmed(domain),
        r matches Ok(plan) ==> {
            let name = trimmed(subdomain) + "."@ + trimmed(domain);
            &&& exists|i: int|
                0 <= i < zones.len() && (#[trigger] zones[i]).domain@ == trimmed(domain)
                    && plan.zone_id@ == zones[i].zone_id@ && forall|j: int|
                    0 <= j < i ==> (#[trigger] zones[j]).domain@ != trimmed(domain)
            &&& plan.a.record_type@ == "A"@
            &&& plan.a.name@ == name
            &&& plan.a.content@ == trimmed(vps_ip)
            &&& plan.a.ttl == 120 && !plan.a.proxied
            &&& plan.srv is Some <==> create_srv
            &&& plan.srv matches Some(srv) ==> {
                &&& srv.record_type@ == "SRV"@
                &&& srv.name@ == "_minecraft._tcp."@ + trimmed(subdomain) + "."@ + trimmed(domain)
                &&& srv.data.priority == 1 && srv.data.weight == 5
                &&& srv.data.port == port
                &&& srv.data.target@ == name + "."@
                &&& srv.ttl == 120
            }
        },
        r matches Err(e) ==> e@ == "no zone for '"@ + trimmed(domain) + "'"@,
{
    if let Ok(plan) = r {
        let i = choose|i: int| #[trigger]
            crate::dns::first_zone(zones, trimmed(domain), i) && plan.zone_id@ == zones[i].zone_id@;
        assert(zones[i].domain@ == trimmed(domain));
    }
}

/// The records that go with a tunnel: those under its name and its service name, in the
/// first zone of the domain.
pub proof fn law_deletion_names_the_records(
    zones: Seq<CloudflareZone>,
    who: Deleter,
    subdomain: Seq<char>,
    domain: Seq<char>,
    r: Result<DeletePlan, String>,
)
    requires
        deletion_planned(zones, who, subdomain, domain, r),
    ensures
        r is Ok <==> exists|i: int|
            0 <= i < zones.len() && (#[trigger] zones[i]).domain@ == domain,
        r matches Ok(plan) ==> {
            &&& exists|i: int|
                0 <= i < zones.len() && (#[trigger] zones[i]).domain@ == domain && plan.zone_id@
                    == zones[i].zone_id@ && forall|j: int|
                    0 <= j < i ==> (#[trigger] zones[j]).domain@ != domain
            &&& plan.a_name@ == subdomain + "."@ + domain
            &&& plan.srv_name@ == "_minecraft._tcp."@ + subdomain + "."@ + domain
        },
        r matches Err(e) ==> e@ == (match who {
            Deleter::Manager => "no zone for "@,
            Deleter::Web => "no zone configured for domain "@,
        }) + domain,
{
    if let Ok(plan) = r {
        let i = choose|i: int| #[trigger]
            crate::dns::first_zone(zones, domain, i) && plan.zone_id@ == zones[i].zone_id@;
        assert(zones[i].domain@ == domain);
    }
}

/// A column that was read is shown as it is; one that was not is empty, and the state
/// of a tunnel is then `stopped`.
pub proof fn law_unread_columns_have_defaults(s: Option<String>)
    ensures
        s matches Some(t) ==> text_or_empty(s) == t@ && status_or_stopped(s) == t@,
        s is None ==> text_or_empty(s).len() == 0 && status_or_stopped(s) == "stopped"@,
{
}

/// Each program sees to the columns that it uses, each with its one definition: the
/// client to those that it writes, the manager to the one on the records too, and the
/// panel to those that it offers besides.
pub proof fn law_programs_see_to_their_columns(p: Program, c: (Seq<char>, Seq<char>))
    ensures
        needed_columns(p).contains(c) <==> {
            ||| c == ("client_id"@, "VARCHAR(50) DEFAULT NULL"@)
            ||| c == ("tunnel_status"@, "VARCHAR(20) NOT NULL DEFAULT 'stopped'"@)
            ||| c == ("last_seen"@, "DATETIME DEFAULT NULL"@)
            ||| !(p is Client) && c == ("dns_set"@, "BOOLEAN NOT NULL DEFAULT FALSE"@)
            ||| p is Web && c == ("create_srv"@, "BOOLEAN NOT NULL DEFAULT TRUE"@)
            ||| p is Web && c == ("proxy_protocol"@, "BOOLEAN NOT NULL DEFAULT FALSE"@)
        },
{
    let cs = needed_columns(p);
    if cs.contains(c) {
        let i = cs.index_of(c);
        assert(cs[i] == c);
    }
    match p {
        Program::Client => {
            assert(cs.contains(cs[0]) && cs.contains(cs[1]) && cs.contains(cs[2]));
        },
        Program::Manager => {
            assert(cs.contains(cs[0]) && cs.contains(cs[1]) && cs.contains(cs[2]));
            assert(cs.contains(cs[3]));
        },
        Program::Web => {
            assert(cs.contains(cs[0]) && cs.contains(cs[1]) && cs.contains(cs[2]));
            assert(cs.contains(cs[3]) && cs.contains(cs[4]) && cs.contains(cs[5]));
        },
    }
}

/// A change is none exactly where it names nothing at all.
pub proof fn law_empty_change_names_nothing(req: UpdateTunnelRequest)
    ensures
        changes_nothing(req) <==> req.name is None && req.server_ip is None
            && req.server_port is None && req.remote_port is None && req.protocol is None
            && req.subdomain is None && req.domain is None && req.online is None
            && req.server_id is None && req.client_id is None && req.create_srv is None
            && req.proxy_protocol is None,
{
    let cs = column_changes(req);
    if changes_nothing(req) {
        assert(cs[0].1 is None && cs[1].1 is None && cs[2].1 is None && cs[3].1 is None);
        assert(cs[4].1 is None && cs[5].1 is None && cs[6].1 is None && cs[7].1 is None);
        assert(cs[8].1 is None && cs[9].1 is None && cs[10].1 is None && cs[11].1 is None);
    }
}

/// The values of a statement stand for what they hold, in order.
pub proof fn law_values_stand_for_what_they_hold(bs: Seq<Bind>, i: int)
    requires
        0 <= i < bs.len(),
    ensures
        bind_views(bs).len() == bs.len(),
        bs[i] matches Bind::Text(t) ==> bind_views(bs)[i] == BindView::Text(t@),
        bs[i] matches Bind::OptText(Some(t)) ==> bind_views(bs)[i] == BindView::OptText(Some(t@)),
        bs[i] matches Bind::OptText(None) ==> bind_views(bs)[i] == BindView::OptText(None),
        bs[i] matches Bind::U16(n) ==> bind_views(bs)[i] == BindView::U16(n),
        bs[i] matches Bind::U32(n) ==> bind_views(bs)[i] == BindView::U32(n),
        bs[i] matches Bind::OptU32(n) ==> bind_views(bs)[i] == BindView::OptU32(n),
        bs[i] matches Bind::Bool(b) ==> bind_views(bs)[i] == BindView::Bool(b),
{
}

/// A column is added by name and definition; the client's statement leaves one that is
/// there alone.
pub proof fn law_column_is_added_as_defined(p: Program, name: Seq<char>, definition: Seq<char>)
    ensures
        p is Client ==> add_column_text(p, name, definition)
            == "ALTER TABLE tunnels ADD COLUMN IF NOT EXISTS "@ + name + " "@ + definition,
        !(p is Client) ==> add_column_text(p, name, definition)
            == "ALTER TABLE tunnels ADD COLUMN "@ + name + " "@ + definition,
{
}

/// Columns stand for their names and definitions, in order.
pub proof fn law_columns_stand_for_their_texts(cs: Seq<Column>, i: int)
    requires
        0 <= i < cs.len(),
    ensures
        column_views(cs).len() == cs.len(),
        column_views(cs)[i] == (cs[i].name@, cs[i].definition@),
{
}

/// The records of a zone have their address.
pub proof fn law_records_have_their_address(zone_id: Seq<char>)
    ensures
        records_address(zone_id) == "https://api.cloudflare.com/client/v4"@ + "/zones/"@ + zone_id
            + "/dns_records"@,
{
}

} // verus!
