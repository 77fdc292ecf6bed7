//! The decisions of the HTTP/WebSocket API: errors, authentication, origin
//! checks, tickets, WebSocket method envelopes and request parameters.

pub mod auth;
pub mod dispatch;
pub mod error;
pub mod handlers;
pub mod origin;
pub mod proxy;
pub mod server_ws;
pub mod recording;
pub mod ticket;
pub mod transport;
pub mod ws_events;
pub mod ws_json;
pub mod ws_methods;

use vstd::prelude::*;
use crate::api::error::ApiError;
use crate::json::{bool_field, Json};
use crate::text::{concat2, decimal, decimal_string};

verus! {

/// Configuration controlling server lifecycle behavior.
///
/// In ephemeral mode (default, `persistent = false`) the server shuts down
/// when its last session exits or is destroyed. In persistent mode the server
/// stays alive indefinitely, waiting for new sessions to be created.
#[derive(Debug)]
pub struct ServerConfig {
    persistent: bool,
}

impl View for ServerConfig {
    type V = bool;

    closed spec fn view(&self) -> bool {
        self.persistent
    }
}

impl ServerConfig {
    pub fn new(persistent: bool) -> (r: Self)
        ensures
            r@ == persistent,
    {
        ServerConfig { persistent }
    }

    pub fn is_persistent(&self) -> (r: bool)
        ensures
            r == self@,
    {
        self.persistent
    }

    pub fn set_persistent(&mut self, value: bool)
        ensures
            final(self)@ == value,
    {
        self.persistent = value;
    }
}

/// The persistence a `PUT /server/persist` body asks for: its boolean
/// `persistent` field (`None` when missing or not a boolean, which is a bad
/// request).
pub fn requested_persistence(body: &Json) -> (r: Option<bool>)
    ensures
        r == bool_field(body.jview(), "persistent"@),
{
    body.get_bool("persistent")
}

/// Maximum concurrent server-level WebSocket connections.
pub const MAX_SERVER_WS_CONNECTIONS: usize = 256;

/// Maximum concurrent MCP sessions allowed via the Streamable HTTP transport.
pub const MAX_MCP_SESSIONS: usize = 256;

/// The session that a lookup found, or `SessionNotFound` naming `name`.
pub fn get_session<S>(found: Option<S>, name: &str) -> (r: Result<S, ApiError>)
    ensures
        match found {
            Some(s) => r == Ok::<S, ApiError>(s),
            None => r matches Err(ApiError::SessionNotFound(n)) && n@ == name@,
        },
{
    match found {
        Some(s) => Ok(s),
        None => Err(ApiError::SessionNotFound(crate::text::owned(name))),
    }
}

/// The origins allowed to open WebSockets on a server without a token:
/// the loopback origins on the server's port, then the configured CORS
/// origins.
pub open spec fn allowed_ws_origins(port: u16, cors_origins: Seq<Seq<char>>) -> Seq<Seq<char>> {
    seq![
        "http://127.0.0.1:"@ + decimal(port as nat),
        "http://localhost:"@ + decimal(port as nat),
        "http://[::1]:"@ + decimal(port as nat),
    ] + cors_origins
}

/// Build the list of origins allowed to open WebSockets when the server
/// runs without a token.
pub fn ws_allowed_origins(port: u16, cors_origins: &Vec<String>) -> (r: Vec<String>)
    ensures
        crate::input::keys::strings_view(r@) == allowed_ws_origins(port, crate::input::keys::strings_view(cors_origins@)),
{
    let p = decimal_string(port as u64);
    let mut r: Vec<String> = Vec::new();
    r.push(concat2("http://127.0.0.1:", p.as_str()));
    r.push(concat2("http://localhost:", p.as_str()));
    r.push(concat2("http://[::1]:", p.as_str()));
    let mut k: usize = 0;
    while k < cors_origins.len()
        invariant
            k <= cors_origins@.len(),
            crate::input::keys::strings_view(r@) == allowed_ws_origins(port, crate::input::keys::strings_view(cors_origins@.take(k as int))),
        decreases cors_origins@.len() - k,
    {
        let c = cors_origins[k].clone();
        let ghost before = r@;
        r.push(c);
        proof {
            let sv = crate::input::keys::strings_view(cors_origins@.take(k as int));
            assert(crate::input::keys::strings_view(cors_origins@.take(k + 1)) =~= sv.push(cors_origins@[k as int]@));
            assert(crate::input::keys::strings_view(r@) =~= crate::input::keys::strings_view(before).push(c@));
            assert(allowed_ws_origins(port, sv.push(c@)) =~= allowed_ws_origins(port, sv).push(c@));
        }
        k = k + 1;
    }
    proof {
        assert(cors_origins@.take(k as int) =~= cors_origins@);
    }
    r
}

} // verus!
