//! What the programs are configured with.

use vstd::prelude::*;
use vstd::string::*;
use crate::text::{decimal, decimal_text, opt_text, str_views, text_eq};

verus! {

/// Which transport a tunnel carries.
#[derive(Debug, Clone, Copy, PartialEq, Eq, Structural)]
pub enum Protocol {
    Tcp,
    Udp,
    Both,
}

/// The client program.
#[derive(Debug, Clone)]
pub struct ClientConfig {
    pub client_id: String,
    /// Identifies this client towards the manager and the servers.
    pub client_uuid: String,
    pub client_name: String,
    /// Base URL of the manager API (e.g. "http://manager:8080").
    pub manager_url: String,
    pub database: DatabaseConfig,
    /// How to reach each server. The manager decides which ones to use.
    pub servers: Vec<ServerEntry>,
}

/// How a client reaches one server.
#[derive(Debug, Clone)]
pub struct ServerEntry {
    pub id: u32,
    pub name: String,
    pub address: String,
    pub secret: String,
    pub tls_ca: String,
}

/// A MySQL database.
#[derive(Debug, Clone)]
pub struct DatabaseConfig {
    pub host: String,
    pub port: u16,
    pub user: String,
    pub password: String,
    pub database: String,
    pub poll_interval_secs: u64,
}

/// The DNS provider account.
#[derive(Debug, Clone)]
pub struct CloudflareConfig {
    pub api_token: String,
    pub zones: Vec<CloudflareZone>,
}

/// One DNS zone.
#[derive(Debug, Clone)]
pub struct CloudflareZone {
    pub domain: String,
    pub zone_id: String,
}

/// The relay server program.
#[derive(Debug, Clone)]
pub struct ServerConfig {
    /// Must match the id in the manager's configuration.
    pub server_id: u32,
    pub bind_address: String,
    pub secret: String,
    pub public_bind_address: Option<String>,
    pub tls_cert: String,
    pub tls_key: String,
    /// Address of the management HTTP listener.
    pub mgmt_bind_address: String,
}

/// The manager program.
#[derive(Debug, Clone)]
pub struct ManagerConfig {
    pub bind_address: String,
    pub database: DatabaseConfig,
    pub cloudflare: CloudflareConfig,
    pub clients: Vec<ManagedClient>,
    pub assign_interval_secs: u64,
    pub servers: Vec<ManagedServer>,
}

/// A client as the manager knows it.
#[derive(Debug, Clone)]
pub struct ManagedClient {
    pub id: String,
    pub name: String,
    /// A single stats URL, the older form.
    pub stats_url: Option<String>,
    /// Several stats URLs, one per client process.
    pub stats_urls: Vec<String>,
}

/// A server as the manager knows it.
#[derive(Debug, Clone)]
pub struct ManagedServer {
    pub id: u32,
    pub name: String,
    pub public_ip: String,
    /// Management API URL of this server (e.g. "http://10.0.0.2:9001").
    pub mgmt_url: String,
}

/// Seconds between two polls where the configuration names none.
pub fn default_poll() -> (secs: u64)
    ensures
        secs == 5,
{
    5
}

/// The management listener's address where the configuration names none.
pub fn default_mgmt_bind() -> (address: String)
    ensures
        address@ == "0.0.0.0:9001"@,
{
    "0.0.0.0:9001".to_string()
}

/// Seconds between two management cycles where the configuration names none.
pub fn default_assign_interval() -> (secs: u64)
    ensures
        secs == 5,
{
    5
}

/// The characters of each text.
pub open spec fn string_views(parts: Seq<String>) -> Seq<Seq<char>> {
    parts.map_values(|p: String| p@)
}

/// The listed URLs in order, then the single one where the list lacks it.
pub open spec fn merged_stats_urls(single: Option<Seq<char>>, listed: Seq<Seq<char>>) -> Seq<
    Seq<char>,
> {
    match single {
        Some(url) => if listed.contains(url) {
            listed
        } else {
            listed.push(url)
        },
        None => listed,
    }
}

impl ManagedClient {
    /// The URLs at which this client reports its statistics.
    pub open spec fn stats_url_views(&self) -> Seq<Seq<char>> {
        merged_stats_urls(opt_text(self.stats_url), string_views(self.stats_urls@))
    }

    /// All configured stats URLs: the list, then the single one unless it is
    /// in the list.
    pub fn all_stats_urls(&self) -> (urls: Vec<&str>)
        ensures
            str_views(urls@) == self.stats_url_views(),
    {
        let mut urls: Vec<&str> = Vec::new();
        let ghost listed = string_views(self.stats_urls@);
        let mut i: usize = 0;
        while i < self.stats_urls.len()
            invariant
                listed == string_views(self.stats_urls@),
                i <= self.stats_urls@.len(),
                str_views(urls@) == listed.take(i as int),
            decreases self.stats_urls@.len() - i,
        {
            let ghost before = urls@;
            urls.push(self.stats_urls[i].as_str());
            assert(str_views(urls@) =~= str_views(before).push(listed[i as int]));
            assert(listed.take(i + 1) =~= listed.take(i as int).push(listed[i as int]));
            i += 1;
        }
        assert(str_views(urls@) =~= listed);
        if let Some(url) = &self.stats_url {
            let mut known: bool = false;
            let mut j: usize = 0;
            while j < urls.len()
                invariant
                    str_views(urls@) == listed,
                    j <= urls@.len(),
                    known == listed.take(j as int).contains(url@),
                decreases urls@.len() - j,
            {
                let ghost before = listed.take(j as int);
                let ghost after = listed.take(j + 1);
                assert(after =~= before.push(urls@[j as int]@));
                if text_eq(urls[j], url.as_str()) {
                    assert(after[j as int] == url@);
                    known = true;
                } else {
                    proof {
                        if before.contains(url@) {
                            let k = before.index_of(url@);
                            assert(after[k] == url@);
                        }
                    }
                }
                j += 1;
            }
            assert(listed.take(listed.len() as int) =~= listed);
            if !known {
                urls.push(url.as_str());
                assert(str_views(urls@) =~= listed.push(url@));
            }
        }
        urls
    }
}

/// The URL under which a database is reached.
pub open spec fn database_url_text(
    user: Seq<char>,
    password: Seq<char>,
    host: Seq<char>,
    port: u16,
    database: Seq<char>,
) -> Seq<char> {
    "mysql://"@ + user + ":"@ + password + "@"@ + host + ":"@ + decimal_text(port as nat) + "/"@
        + database
}

impl DatabaseConfig {
    /// The URL under which the database is reached.
    pub fn url(&self) -> (url: String)
        ensures
            url@ == database_url_text(
                self.user@,
                self.password@,
                self.host@,
                self.port,
                self.database@,
            ),
    {
        let mut url = "mysql://".to_string();
        url.append(self.user.as_str());
        url.append(":");
        url.append(self.password.as_str());
        url.append("@");
        url.append(self.host.as_str());
        url.append(":");
        url.append(decimal(self.port as u64).as_str());
        url.append("/");
        url.append(self.database.as_str());
        url
    }
}

} // verus!
