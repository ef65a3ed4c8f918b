//! What the fleet service is configured with.

use vstd::prelude::*;
use vstd::string::*;

verus! {

/// A host of the fleet.
#[derive(Clone, Debug)]
pub struct HostConfig {
    pub name: String,
    pub url: String,
}

/// The identity presented to hosts.
#[derive(Clone, Debug)]
pub struct TlsFiles {
    pub ca: String,
    pub cert: String,
    pub key: String,
}

#[derive(Debug)]
pub struct Config {
    pub listen: String,
    pub db: String,
    /// Plain HTTP in and out. Never in production.
    pub insecure: bool,
    /// The fleet's own CA: server certificate for `listen`, and the client
    /// certificates of its administrators.
    pub pki_dir: String,
    /// Extra names for the server certificate.
    pub extra_sans: Vec<String>,
    pub sync_every_ms: u64,
    /// How long a VM may sit in `creating` without the host knowing it before it
    /// is written off as failed.
    pub create_grace_secs: u64,
    /// How long a signature over a policy lives.
    pub policy_ttl_secs: u64,
    /// The identity presented to hosts.
    pub hosts_tls: Option<TlsFiles>,
    pub hosts: Vec<HostConfig>,
}

pub fn default_listen() -> (r: String)
    ensures
        r@ == "0.0.0.0:7080"@,
{
    "0.0.0.0:7080".to_string()
}

pub fn default_db() -> (r: String)
    ensures
        r@ == "/var/lib/iso-fleet/fleet.db"@,
{
    "/var/lib/iso-fleet/fleet.db".to_string()
}

pub fn default_pki() -> (r: String)
    ensures
        r@ == "/var/lib/iso-fleet/pki"@,
{
    "/var/lib/iso-fleet/pki".to_string()
}

pub fn default_sync() -> (r: u64)
    ensures
        r == 3000,
{
    3000
}

pub fn default_grace() -> (r: u64)
    ensures
        r == 60,
{
    60
}

/// A day.
pub fn default_policy_ttl() -> (r: u64)
    ensures
        r == 86_400,
{
    86_400
}

/// Whether `r` is what a configuration comes to.
pub open spec fn loads(c: Config, r: Result<Config, String>) -> bool {
    match r {
        Ok(x) => x == c && c.hosts@.len() > 0 && (c.insecure || c.hosts_tls is Some),
        Err(m) => if c.hosts@.len() == 0 {
            m@ == "no [[hosts]] configured"@
        } else {
            &&& !c.insecure
            &&& c.hosts_tls is None
            &&& m@ == "[hosts_tls] is required unless insecure = true"@
        },
    }
}

/// **Law.** A fleet without hosts does not start, and none speaks to its hosts
/// without an identity unless plain HTTP was asked for. What is accepted is taken
/// as it is.
pub proof fn law_a_fleet_has_hosts_and_an_identity(c: Config, r: Result<Config, String>)
    requires
        loads(c, r),
    ensures
        r is Ok <==> c.hosts@.len() > 0 && (c.insecure || c.hosts_tls is Some),
        r matches Ok(x) ==> x == c,
{
}

impl Config {
    /// Refuses a configuration that names no host, or that would speak to hosts
    /// without an identity unless plain HTTP was asked for.
    pub fn load(self) -> (r: Result<Config, String>)
        ensures
            loads(self, r),
    {
        if self.hosts.len() == 0 {
            return Err("no [[hosts]] configured".to_string());
        }
        if !self.insecure && self.hosts_tls.is_none() {
            return Err("[hosts_tls] is required unless insecure = true".to_string());
        }
        Ok(self)
    }

    /// A configuration for tests: plain HTTP, an in-memory database.
    pub fn dev(hosts: Vec<HostConfig>) -> (r: Config)
        ensures
            r.listen@ == "127.0.0.1:0"@,
            r.db@ == ":memory:"@,
            r.insecure,
            r.pki_dir@ == "/nonexistent"@,
            r.extra_sans@.len() == 0,
            r.sync_every_ms == 100,
            r.create_grace_secs == 2,
            r.policy_ttl_secs == 86_400,
            r.hosts_tls is None,
            r.hosts == hosts,
    {
        Config {
            listen: "127.0.0.1:0".to_string(),
            db: ":memory:".to_string(),
            insecure: true,
            pki_dir: "/nonexistent".to_string(),
            extra_sans: Vec::new(),
            sync_every_ms: 100,
            create_grace_secs: 2,
            policy_ttl_secs: 86_400,
            hosts_tls: None,
            hosts,
        }
    }
}

} // verus!
