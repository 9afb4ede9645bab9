//! The DNS records of a tunnel, and the requests to the Cloudflare API that set
//! and delete them.

use vstd::prelude::*;
use vstd::string::*;
use crate::config::{CloudflareConfig, CloudflareZone};
use crate::text::{text_eq, trim_text, trimmed, trimmed_end, trimmed_start, white_space};

verus! {

/// How long a record may be cached, in seconds.
pub const DNS_TTL: u32 = 120;

/// The base of the API's URLs.
pub open spec fn api_base() -> Seq<char> {
    "https://api.cloudflare.com/client/v4"@
}

/// An `A` record to be written.
#[derive(Debug, Clone, PartialEq, Eq)]
pub struct DnsCreate {
    pub record_type: String,
    pub name: String,
    pub content: String,
    pub ttl: u32,
    pub proxied: bool,
}

/// An `SRV` record to be written.
#[derive(Debug, Clone, PartialEq, Eq)]
pub struct SrvCreate {
    pub record_type: String,
    pub name: String,
    pub data: SrvData,
    pub ttl: u32,
}

/// What an `SRV` record says.
#[derive(Debug, Clone, PartialEq, Eq)]
pub struct SrvData {
    pub priority: u16,
    pub weight: u16,
    pub port: u16,
    pub target: String,
}

/// The records that a tunnel needs, and the zone that they go to.
#[derive(Debug, Clone)]
pub struct DnsPlan {
    pub zone_id: String,
    pub a: DnsCreate,
    pub srv: Option<SrvCreate>,
}

/// The records that a tunnel leaves behind: their names, and their zone.
#[derive(Debug, Clone)]
pub struct DeletePlan {
    pub zone_id: String,
    pub a_name: String,
    pub srv_name: String,
}

/// How a record is written: over an existing one, or as a new one.
#[derive(Debug, Clone, PartialEq, Eq)]
pub enum RecordWrite {
    Put(String),
    Post(String),
}

/// Who deletes records: the two report a missing zone in their own words.
#[derive(Debug, Clone, Copy, PartialEq, Eq, Structural)]
pub enum Deleter {
    Manager,
    Web,
}

/// The name of a tunnel.
pub open spec fn host_name(subdomain: Seq<char>, domain: Seq<char>) -> Seq<char> {
    subdomain + "."@ + domain
}

/// The name of a tunnel's `SRV` record.
pub open spec fn service_name(subdomain: Seq<char>, domain: Seq<char>) -> Seq<char> {
    "_minecraft._tcp."@ + subdomain + "."@ + domain
}

/// The first zone for a domain is at position `i`.
pub open spec fn first_zone(zones: Seq<CloudflareZone>, domain: Seq<char>, i: int) -> bool {
    &&& 0 <= i < zones.len()
    &&& zones[i].domain@ == domain
    &&& forall|j: int| 0 <= j < i ==> (#[trigger] zones[j]).domain@ != domain
}

/// There is no zone for a domain.
pub open spec fn no_zone(zones: Seq<CloudflareZone>, domain: Seq<char>) -> bool {
    forall|j: int| 0 <= j < zones.len() ==> (#[trigger] zones[j]).domain@ != domain
}

/// Finds the zone of a domain.
pub fn find_zone<'a>(config: &'a CloudflareConfig, domain: &str) -> (r: Option<&'a CloudflareZone>)
    ensures
        match r {
            Some(z) => exists|i: int| #[trigger]
                first_zone(config.zones@, domain@, i) && *z == config.zones@[i],
            None => no_zone(config.zones@, domain@),
        },
{
    let mut i: usize = 0;
    while i < config.zones.len()
        invariant
            i <= config.zones@.len(),
            forall|j: int| 0 <= j < i ==> (#[trigger] config.zones@[j]).domain@ != domain@,
        decreases config.zones@.len() - i,
    {
        if text_eq(config.zones[i].domain.as_str(), domain) {
            assert(first_zone(config.zones@, domain@, i as int));
            return Some(&config.zones[i]);
        }
        i += 1;
    }
    None
}

fn host_text(subdomain: &str, domain: &str) -> (r: String)
    ensures
        r@ == host_name(subdomain@, domain@),
{
    let mut name = subdomain.to_string();
    name.append(".");
    name.append(domain);
    name
}

fn service_text(subdomain: &str, domain: &str) -> (r: String)
    ensures
        r@ == service_name(subdomain@, domain@),
{
    let mut name = "_minecraft._tcp.".to_string();
    name.append(subdomain);
    name.append(".");
    name.append(domain);
    name
}

/// The `A` record of a tunnel.
pub open spec fn is_a_record(r: DnsCreate, name: Seq<char>, ip: Seq<char>) -> bool {
    &&& r.record_type@ == "A"@
    &&& r.name@ == name
    &&& r.content@ == ip
    &&& r.ttl == DNS_TTL
    &&& !r.proxied
}

/// The `SRV` record of a tunnel: it names the `A` record, with a final dot.
pub open spec fn is_srv_record(
    r: SrvCreate,
    subdomain: Seq<char>,
    domain: Seq<char>,
    port: u16,
) -> bool {
    &&& r.record_type@ == "SRV"@
    &&& r.name@ == service_name(subdomain, domain)
    &&& r.data.priority == 1
    &&& r.data.weight == 5
    &&& r.data.port == port
    &&& r.data.target@ == host_name(subdomain, domain) + "."@
    &&& r.ttl == DNS_TTL
}

/// The records of a tunnel are worked out: for the first zone of its domain, with
/// the names and the address trimmed. There are none where the domain has no zone.
pub open spec fn records_planned(
    zones: Seq<CloudflareZone>,
    subdomain: Seq<char>,
    domain: Seq<char>,
    vps_ip: Seq<char>,
    port: u16,
    create_srv: bool,
    r: Result<DnsPlan, String>,
) -> bool {
    match r {
        Ok(plan) => {
            &&& exists|i: int| #[trigger]
                first_zone(zones, trimmed(domain), i) && plan.zone_id@ == zones[i].zone_id@
            &&& is_a_record(
                plan.a,
                host_name(trimmed(subdomain), trimmed(domain)),
                trimmed(vps_ip),
            )
            &&& match plan.srv {
                Some(srv) => create_srv && is_srv_record(
                    srv,
                    trimmed(subdomain),
                    trimmed(domain),
                    port,
                ),
                None => !create_srv,
            }
        },
        Err(e) => no_zone(zones, trimmed(domain)) && e@ == "no zone for '"@ + trimmed(domain)
            + "'"@,
    }
}

/// Works out the records of a tunnel. White space round the names and the
/// address does not count. Fails where the domain has no zone.
pub fn plan_records(
    config: &CloudflareConfig,
    subdomain: &str,
    domain: &str,
    vps_ip: &str,
    port: u16,
    create_srv: bool,
) -> (r: Result<DnsPlan, String>)
    ensures
        records_planned(config.zones@, subdomain@, domain@, vps_ip@, port, create_srv, r),
{
    let subdomain = trim_text(subdomain);
    let domain = trim_text(domain);
    let ip = trim_text(vps_ip);
    let zone = match find_zone(config, domain) {
        Some(z) => z,
        None => {
            let mut e = "no zone for '".to_string();
            e.append(domain);
            e.append("'");
            return Err(e);
        },
    };
    let a = DnsCreate {
        record_type: "A".to_string(),
        name: host_text(subdomain, domain),
        content: ip.to_string(),
        ttl: DNS_TTL,
        proxied: false,
    };
    let srv = if create_srv {
        let mut target = host_text(subdomain, domain);
        target.append(".");
        Some(
            SrvCreate {
                record_type: "SRV".to_string(),
                name: service_text(subdomain, domain),
                data: SrvData { priority: 1, weight: 5, port, target },
                ttl: DNS_TTL,
            },
        )
    } else {
        None
    };
    Ok(DnsPlan { zone_id: zone.zone_id.clone(), a, srv })
}

/// The error where a domain has no zone.
pub open spec fn missing_zone_text(who: Deleter, domain: Seq<char>) -> Seq<char> {
    (match who {
        Deleter::Manager => "no zone for "@,
        Deleter::Web => "no zone configured for domain "@,
    }) + domain
}

/// The records to delete with a tunnel are worked out: in the first zone of its
/// domain, under its names as they are. There are none where the domain has no
/// zone.
pub open spec fn deletion_planned(
    zones: Seq<CloudflareZone>,
    who: Deleter,
    subdomain: Seq<char>,
    domain: Seq<char>,
    r: Result<DeletePlan, String>,
) -> bool {
    match r {
        Ok(plan) => {
            &&& exists|i: int| #[trigger]
                first_zone(zones, domain, i) && plan.zone_id@ == zones[i].zone_id@
            &&& plan.a_name@ == host_name(subdomain, domain)
            &&& plan.srv_name@ == service_name(subdomain, domain)
        },
        Err(e) => no_zone(zones, domain) && e@ == missing_zone_text(who, domain),
    }
}

/// Works out which records to delete with a tunnel. Fails where the domain has
/// no zone.
pub fn plan_delete(config: &CloudflareConfig, who: Deleter, subdomain: &str, domain: &str) -> (r:
    Result<DeletePlan, String>)
    ensures
        deletion_planned(config.zones@, who, subdomain@, domain@, r),
{
    match find_zone(config, domain) {
        Some(z) => Ok(
            DeletePlan {
                zone_id: z.zone_id.clone(),
                a_name: host_text(subdomain, domain),
                srv_name: service_text(subdomain, domain),
            },
        ),
        None => {
            let mut e = match who {
                Deleter::Manager => "no zone for ".to_string(),
                Deleter::Web => "no zone configured for domain ".to_string(),
            };
            e.append(domain);
            Err(e)
        },
    }
}

/// The URL of a zone's records.
pub open spec fn records_address(zone_id: Seq<char>) -> Seq<char> {
    api_base() + "/zones/"@ + zone_id + "/dns_records"@
}

/// The URL of a zone's records.
pub fn records_url(zone_id: &str) -> (r: String)
    ensures
        r@ == records_address(zone_id@),
{
    let mut url = "https://api.cloudflare.com/client/v4".to_string();
    url.append("/zones/");
    url.append(zone_id);
    url.append("/dns_records");
    url
}

/// The URL of one record.
pub fn record_url(zone_id: &str, record_id: &str) -> (r: String)
    ensures
        r@ == records_address(zone_id@) + "/"@ + record_id@,
{
    let mut url = records_url(zone_id);
    url.append("/");
    url.append(record_id);
    url
}

/// The URL that lists the records of a type and a name.
pub fn find_url(zone_id: &str, record_type: &str, name: &str) -> (r: String)
    ensures
        r@ == records_address(zone_id@) + "?type="@ + record_type@ + "&name="@ + name@,
{
    let mut url = records_url(zone_id);
    url.append("?type=");
    url.append(record_type);
    url.append("&name=");
    url.append(name);
    url
}

/// The record that a listing found: the first one. The manager ignores one
/// without an id.
pub fn found_record(who: Deleter, ids: &[String]) -> (r: Option<String>)
    ensures
        match r {
            Some(id) => ids@.len() > 0 && id@ == ids@[0]@ && (who == Deleter::Manager ==> id@.len()
                > 0),
            None => ids@.len() == 0 || (who == Deleter::Manager && ids@[0]@.len() == 0),
        },
{
    if ids.len() == 0 {
        return None;
    }
    match who {
        Deleter::Manager => if ids[0].as_str().is_empty() {
            None
        } else {
            Some(ids[0].clone())
        },
        Deleter::Web => Some(ids[0].clone()),
    }
}

/// Decides how a record is written: over the record that was found, else as a
/// new one. Nothing is deleted first. `found` is nothing where the search
/// failed.
pub fn plan_write(zone_id: &str, found: Option<&str>) -> (r: RecordWrite)
    ensures
        match r {
            RecordWrite::Put(url) => found is Some && found->Some_0@.len() > 0 && url@
                == records_address(zone_id@) + "/"@ + found->Some_0@,
            RecordWrite::Post(url) => (found is None || found->Some_0@.len() == 0) && url@
                == records_address(zone_id@),
        },
{
    match found {
        Some(id) => if id.is_empty() {
            RecordWrite::Post(records_url(zone_id))
        } else {
            RecordWrite::Put(record_url(zone_id, id))
        },
        None => RecordWrite::Post(records_url(zone_id)),
    }
}

/// The error text for a write that the API refused.
pub fn write_error_text(srv: bool, put: bool, status: &str, body: &str) -> (r: String)
    ensures
        r@ == (if srv {
            "SRV "@
        } else {
            ""@
        }) + (if put {
            "PUT failed: "@
        } else {
            "POST failed: "@
        }) + status@ + ": "@ + body@,
{
    let mut e = if srv {
        "SRV ".to_string()
    } else {
        "".to_string()
    };
    e.append(
        if put {
            "PUT failed: "
        } else {
            "POST failed: "
        },
    );
    e.append(status);
    e.append(": ");
    e.append(body);
    e
}

proof fn lemma_trimmed_start_starts_black(s: Seq<char>)
    ensures
        trimmed_start(s).len() > 0 ==> !white_space(trimmed_start(s)[0]),
        trimmed_start(s).len() <= s.len(),
    decreases s.len(),
{
    if s.len() > 0 && white_space(s[0]) {
        lemma_trimmed_start_starts_black(s.drop_first());
    }
}

proof fn lemma_trimmed_end_keeps_start(s: Seq<char>)
    ensures
        trimmed_end(s).len() > 0 ==> trimmed_end(s)[0] == s[0] && !white_space(
            trimmed_end(s).last(),
        ),
        trimmed_end(s).len() <= s.len(),
    decreases s.len(),
{
    if s.len() > 0 && white_space(s.last()) {
        lemma_trimmed_end_keeps_start(s.drop_last());
    }
}

/// Trimming a trimmed text changes nothing.
pub proof fn law_trim_is_idempotent(s: Seq<char>)
    ensures
        trimmed(trimmed(s)) == trimmed(s),
{
    let a = trimmed_start(s);
    let t = trimmed_end(a);
    lemma_trimmed_start_starts_black(s);
    lemma_trimmed_end_keeps_start(a);
    assert(trimmed_start(t) == t);
    assert(trimmed_end(t) == t);
}

/// The records that are deleted with a tunnel are those that were set for it, in
/// the same zone and under the same names, as long as its names carry no white
/// space around them. Either both have a zone or neither.
pub proof fn law_delete_finds_what_was_set(
    zones: Seq<CloudflareZone>,
    who: Deleter,
    subdomain: Seq<char>,
    domain: Seq<char>,
    vps_ip: Seq<char>,
    port: u16,
    create_srv: bool,
    set: Result<DnsPlan, String>,
    deleted: Result<DeletePlan, String>,
)
    requires
        trimmed(subdomain) == subdomain,
        trimmed(domain) == domain,
        records_planned(zones, subdomain, domain, vps_ip, port, create_srv, set),
        deletion_planned(zones, who, subdomain, domain, deleted),
    ensures
        set is Ok <==> deleted is Ok,
        set matches Ok(plan) ==> {
            &&& deleted matches Ok(del)
            &&& del.zone_id@ == plan.zone_id@
            &&& del.a_name@ == plan.a.name@
            &&& plan.srv matches Some(srv) ==> del.srv_name@ == srv.name@
        },
{
    if set is Ok {
        let i = choose|i: int| #[trigger]
            first_zone(zones, domain, i) && set->Ok_0.zone_id@ == zones[i].zone_id@;
        assert(first_zone(zones, domain, i));
        assert(!no_zone(zones, domain)) by {
            assert(zones[i].domain@ == domain);
        }
        let j = choose|j: int| #[trigger]
            first_zone(zones, domain, j) && deleted->Ok_0.zone_id@ == zones[j].zone_id@;
        assert(first_zone(zones, domain, j));
        assert(zones[i].domain@ == domain && zones[j].domain@ == domain);
        assert(i == j);
    } else if deleted is Ok {
        let j = choose|j: int| #[trigger]
            first_zone(zones, domain, j) && deleted->Ok_0.zone_id@ == zones[j].zone_id@;
        assert(zones[j].domain@ == domain);
    }
}

/// An `SRV` record points to the tunnel's `A` record.
pub proof fn law_srv_points_to_a(
    a: DnsCreate,
    srv: SrvCreate,
    subdomain: Seq<char>,
    domain: Seq<char>,
    ip: Seq<char>,
    port: u16,
)
    requires
        is_a_record(a, host_name(subdomain, domain), ip),
        is_srv_record(srv, subdomain, domain, port),
    ensures
        srv.data.target@ == a.name@ + "."@,
        srv.name@ == "_minecraft._tcp."@ + a.name@,
        srv.ttl == a.ttl,
{
    assert(service_name(subdomain, domain) =~= "_minecraft._tcp."@ + host_name(subdomain, domain));
}

} // verus!
