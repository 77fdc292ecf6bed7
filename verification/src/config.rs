//! Federation configuration (loaded from TOML by the application) and the
//! choice of the server's hostname.

use vstd::prelude::*;
use crate::input::keys::opt_string_view;

verus! {

/// Top-level federation config.
#[derive(Debug)]
pub struct FederationConfig {
    /// Local server identity overrides.
    pub server: Option<ServerIdentityConfig>,
    /// Default token used for backends that don't specify their own.
    pub default_token: Option<String>,
    /// Backend servers to connect to.
    pub servers: Vec<BackendServerConfig>,
    /// CIDR rules for the addresses that backends resolve to.
    pub ip_access: Option<IpAccessConfig>,
}

/// Server identity section.
#[derive(Debug)]
pub struct ServerIdentityConfig {
    /// Override system hostname.
    pub hostname: Option<String>,
}

/// A single backend server entry.
#[derive(Debug)]
pub struct BackendServerConfig {
    /// Network address (host:port).
    pub address: String,
    /// Per-server auth token.
    pub token: Option<String>,
}

/// CIDR blocklist and allowlist for backend connections.
#[derive(Debug)]
pub struct IpAccessConfig {
    pub blocklist: Vec<String>,
    pub allowlist: Vec<String>,
}

impl Default for FederationConfig {
    fn default() -> (r: Self)
        ensures
            r.server is None,
            r.default_token is None,
            r.servers@.len() == 0,
            r.ip_access is None,
    {
        FederationConfig { server: None, default_token: None, servers: Vec::new(), ip_access: None }
    }
}

/// The hostname the server goes by: the configured override if there is
/// one, else the system hostname, else `unknown`.
pub open spec fn chosen_hostname(configured: Option<Seq<char>>, system: Option<Seq<char>>) -> Seq<char> {
    match configured {
        Some(h) => h,
        None => match system {
            Some(h) => h,
            None => "unknown"@,
        },
    }
}

/// The configured hostname override, if any.
pub open spec fn configured_hostname(server_config: Option<&ServerIdentityConfig>) -> Option<Seq<char>> {
    match server_config {
        Some(c) => opt_string_view(c.hostname),
        None => None,
    }
}

/// The hostname of this machine as a `String`, through `hostname::get`.
///
/// Nothing is stated of the result: it depends on the machine. `None` when
/// the call fails or the name is not valid Unicode.
#[verifier::external_body]
fn system_hostname() -> (r: Option<String>) {
    hostname::get().ok().and_then(|h| h.into_string().ok())
}

/// Choose the hostname given what the system reports.
pub fn choose_hostname(server_config: Option<&ServerIdentityConfig>, system: Option<String>) -> (r: String)
    ensures
        r@ == chosen_hostname(configured_hostname(server_config), opt_string_view(system)),
{
    if let Some(config) = server_config {
        if let Some(hostname) = &config.hostname {
            return hostname.clone();
        }
    }
    match system {
        Some(h) => h,
        None => crate::text::owned("unknown"),
    }
}

/// Resolve the server's hostname. Uses config override if present,
/// otherwise falls back to the system hostname (or `unknown`).
pub fn resolve_hostname(server_config: Option<&ServerIdentityConfig>) -> (r: String)
    ensures
        configured_hostname(server_config) matches Some(h) ==> r@ == h,
        exists|system: Option<Seq<char>>| r@ == #[trigger] chosen_hostname(configured_hostname(server_config), system),
{
    if let Some(config) = server_config {
        if let Some(hostname) = &config.hostname {
            assert(hostname@ == chosen_hostname(configured_hostname(server_config), None));
            return hostname.clone();
        }
    }
    let system = system_hostname();
    let r = choose_hostname(server_config, system);
    assert(r@ == chosen_hostname(configured_hostname(server_config), opt_string_view(system)));
    r
}

} // verus!
