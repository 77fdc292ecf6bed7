//! The federation manager: the backend registry together with the tokens
//! used to authenticate to the backends.
//!
//! The manager decides which backends are registered and with which token;
//! the application keeps one persistent connection per registered backend
//! beside it (see `connection`).
//!
//! Backends are registered by their `host:port` address. A configured or
//! added address may carry an `http://` or `https://` scheme; the manager
//! removes it before the registry validates the address, which must be
//! scheme-free. URLs for a backend are built from its registered address.

use vstd::prelude::*;
use crate::config::{BackendServerConfig, FederationConfig};
use crate::federation::auth::{opt_str_view, resolve_backend_token, token_cascade};
use crate::federation::connection::{strip_scheme, without_scheme, link_action, link_backoff, link_registry, BackendLink, LinkAction, LinkEvent};
use crate::federation::registry::{
    add_step, add_unchecked_step, has_address, has_hostname, lemma_without_absent_address,
    without_address, without_hostname, BackendEntry, BackendEntryView, BackendHealth,
    BackendRegistry, BackendRole, RegistryError,
};
use crate::input::keys::opt_string_view;

verus! {

/// The entry registered for a configured backend: no hostname yet,
/// connecting, a member of the federation.
pub open spec fn new_backend_entry(address: Seq<char>, token: Option<Seq<char>>) -> BackendEntryView {
    BackendEntryView {
        address,
        token,
        hostname: None,
        health: BackendHealth::Connecting,
        role: BackendRole::Member,
        server_id: None,
    }
}

/// The registry after trying to add `e`: unchanged when the addition is
/// refused.
pub open spec fn add_or_keep(s: Seq<BackendEntryView>, e: BackendEntryView) -> Seq<BackendEntryView> {
    match add_step(s, e) {
        Ok(next) => next,
        Err(_) => s,
    }
}

/// The registry built from the configured backends, in order, each with the
/// token chosen by the cascade (its own, else `default_token`, else
/// `local_token`); refused entries are skipped.
pub open spec fn configured_registry(
    servers: Seq<BackendServerConfig>,
    default_token: Option<Seq<char>>,
    local_token: Option<Seq<char>>,
) -> Seq<BackendEntryView>
    decreases servers.len(),
{
    if servers.len() == 0 {
        seq![]
    } else {
        let c = servers.last();
        add_or_keep(
            configured_registry(servers.drop_last(), default_token, local_token),
            new_backend_entry(strip_scheme(c.address@), token_cascade(opt_string_view(c.token), default_token, local_token)),
        )
    }
}

/// Owns the backend registry and the tokens used for new backends.
#[derive(Debug)]
pub struct FederationManager {
    registry: BackendRegistry,
    default_token: Option<String>,
    local_token: Option<String>,
}

/// The mathematical content of a [`FederationManager`].
pub struct FederationManagerView {
    pub backends: Seq<BackendEntryView>,
    pub default_token: Option<Seq<char>>,
    pub local_token: Option<Seq<char>>,
}

impl View for FederationManager {
    type V = FederationManagerView;

    closed spec fn view(&self) -> FederationManagerView {
        FederationManagerView {
            backends: self.registry@,
            default_token: opt_string_view(self.default_token),
            local_token: opt_string_view(self.local_token),
        }
    }
}

fn copy_opt_string(o: &Option<String>) -> (r: Option<String>)
    ensures
        opt_string_view(r) == opt_string_view(*o),
{
    match o {
        Some(s) => Some(s.clone()),
        None => None,
    }
}

fn opt_as_str(o: &Option<String>) -> (r: Option<&str>)
    ensures
        opt_str_view(r) == opt_string_view(*o),
{
    match o {
        Some(s) => Some(s.as_str()),
        None => None,
    }
}

impl FederationManager {
    /// Create an empty manager (no backends, no tokens).
    pub fn new() -> (r: Self)
        ensures
            r@.backends == Seq::<BackendEntryView>::empty(),
            r@.default_token is None,
            r@.local_token is None,
    {
        FederationManager { registry: BackendRegistry::new(), default_token: None, local_token: None }
    }

    /// Create from config: registers each configured backend, in order, with
    /// the token chosen from its own, `default_token` and `local_token`.
    /// Backends that the registry refuses are skipped. The default token kept
    /// for later additions is `default_token`, else the config's.
    pub fn from_config(config: FederationConfig, local_token: Option<String>, default_token: Option<String>) -> (r: Self)
        ensures
            r@.backends == configured_registry(config.servers@, opt_string_view(default_token), opt_string_view(local_token)),
            r@.local_token == opt_string_view(local_token),
            r@.default_token == (if default_token is Some {
                opt_string_view(default_token)
            } else {
                opt_string_view(config.default_token)
            }),
    {
        let mut registry = BackendRegistry::new();
        let servers = &config.servers;
        let ghost dt = opt_string_view(default_token);
        let ghost lt = opt_string_view(local_token);
        let mut k: usize = 0;
        while k < servers.len()
            invariant
                k <= servers@.len(),
                registry@ == configured_registry(servers@.take(k as int), dt, lt),
                dt == opt_string_view(default_token),
                lt == opt_string_view(local_token),
            decreases servers@.len() - k,
        {
            let c = &servers[k];
            let token = resolve_backend_token(opt_as_str(&c.token), opt_as_str(&default_token), opt_as_str(&local_token));
            let entry = BackendEntry {
                address: without_scheme(c.address.as_str()),
                token,
                hostname: None,
                health: BackendHealth::Connecting,
                role: BackendRole::Member,
                server_id: None,
            };
            proof {
                assert(servers@.take(k + 1).drop_last() =~= servers@.take(k as int));
                assert(servers@.take(k + 1).last() == servers@[k as int]);
            }
            let _ = registry.add(entry);
            k = k + 1;
        }
        proof {
            assert(servers@.take(k as int) =~= servers@);
        }
        let kept_default = match default_token {
            Some(t) => Some(t),
            None => copy_opt_string(&config.default_token),
        };
        FederationManager { registry, default_token: kept_default, local_token }
    }

    /// The backend registry.
    pub fn registry(&self) -> (r: &BackendRegistry)
        ensures
            r@ == self@.backends,
    {
        &self.registry
    }

    /// Add a backend at runtime: removes an `http://` or `https://` scheme,
    /// validates the address, then registers it with the token chosen from
    /// `token`, the default token and the local token.
    pub fn add_backend(&mut self, address: &str, token: Option<&str>) -> (r: Result<(), RegistryError>)
        ensures
            final(self)@.default_token == old(self)@.default_token,
            final(self)@.local_token == old(self)@.local_token,
            match add_step(
                old(self)@.backends,
                new_backend_entry(strip_scheme(address@), token_cascade(opt_str_view(token), old(self)@.default_token, old(self)@.local_token)),
            ) {
                Ok(next) => r is Ok && final(self)@.backends == next,
                Err(e) => r matches Err(x) && x@ == e && final(self)@.backends == old(self)@.backends,
            },
    {
        let plain = without_scheme(address);
        match crate::federation::registry::validate_backend_address(plain.as_str()) {
            Err(m) => {
                return Err(RegistryError::InvalidAddress(m));
            },
            Ok(()) => {},
        }
        let resolved = resolve_backend_token(token, opt_as_str(&self.default_token), opt_as_str(&self.local_token));
        let entry = BackendEntry {
            address: plain,
            token: resolved,
            hostname: None,
            health: BackendHealth::Connecting,
            role: BackendRole::Member,
            server_id: None,
        };
        self.registry.add(entry)
    }

    /// Remove a backend by address (with or without its `http://` or
    /// `https://` scheme). Returns true if one was removed.
    pub fn remove_backend_by_address(&mut self, address: &str) -> (r: bool)
        ensures
            final(self)@.backends == without_address(old(self)@.backends, strip_scheme(address@)),
            r == has_address(old(self)@.backends, strip_scheme(address@)),
            final(self)@.default_token == old(self)@.default_token,
            final(self)@.local_token == old(self)@.local_token,
    {
        let plain = without_scheme(address);
        self.registry.remove_by_address(plain.as_str())
    }

    /// Remove a backend by hostname. Returns true if one was removed.
    pub fn remove_backend_by_hostname(&mut self, hostname: &str) -> (r: bool)
        ensures
            final(self)@.backends == without_hostname(old(self)@.backends, hostname@),
            r == has_hostname(old(self)@.backends, hostname@),
            final(self)@.default_token == old(self)@.default_token,
            final(self)@.local_token == old(self)@.local_token,
    {
        self.registry.remove_by_hostname(hostname)
    }

    /// Record what happened on the connection to `link`'s backend and say
    /// what that connection does next.
    pub fn apply_link_event(&mut self, link: &mut BackendLink, local_server_id: &str, event: LinkEvent) -> (r: LinkAction)
        ensures
            r == link_action(old(link)@.backoff_ms, local_server_id@, event@),
            final(link)@.backoff_ms == link_backoff(old(link)@.backoff_ms, event@),
            final(link)@.address == old(link)@.address,
            final(self)@.backends == link_registry(old(self)@.backends, old(link)@.address, local_server_id@, event@),
            final(self)@.default_token == old(self)@.default_token,
            final(self)@.local_token == old(self)@.local_token,
    {
        link.step(&mut self.registry, local_server_id, event)
    }
}

/// Every backend registered from the configuration starts out connecting,
/// with no hostname yet.
pub proof fn law_configured_backends_start_connecting(
    servers: Seq<BackendServerConfig>,
    default_token: Option<Seq<char>>,
    local_token: Option<Seq<char>>,
)
    ensures
        forall|i: int| 0 <= i < configured_registry(servers, default_token, local_token).len() ==>
            (#[trigger] configured_registry(servers, default_token, local_token)[i]).health == BackendHealth::Connecting
            && configured_registry(servers, default_token, local_token)[i].hostname is None,
    decreases servers.len(),
{
    if servers.len() > 0 {
        law_configured_backends_start_connecting(servers.drop_last(), default_token, local_token);
        let prev = configured_registry(servers.drop_last(), default_token, local_token);
        let c = servers.last();
        let e = new_backend_entry(strip_scheme(c.address@), token_cascade(opt_string_view(c.token), default_token, local_token));
        if add_step(prev, e) is Ok {
            assert(add_step(prev, e) == add_unchecked_step(prev, e));
            assert(add_step(prev, e) == Ok::<Seq<BackendEntryView>, crate::federation::registry::RegistryErrorView>(prev.push(e)));
        }
    }
}

/// Removing by address a backend that was just added gives back the
/// registry as it was before the addition.
pub proof fn law_add_then_remove_restores(s: Seq<BackendEntryView>, e: BackendEntryView)
    requires
        add_step(s, e) is Ok,
    ensures
        without_address(add_step(s, e)->Ok_0, e.address) == s,
{
    let n = add_step(s, e)->Ok_0;
    assert(!has_address(s, e.address));
    assert(n == s.push(e));
    assert(n.drop_last() =~= s);
    lemma_without_absent_address(s, e.address);
}

impl Default for FederationManager {
    fn default() -> (r: Self)
        ensures
            r@.backends == Seq::<BackendEntryView>::empty(),
            r@.default_token is None,
            r@.local_token is None,
    {
        Self::new()
    }
}

} // verus!
