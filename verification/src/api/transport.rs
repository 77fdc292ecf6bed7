//! The transport a request arrived over: a Unix domain socket (local,
//! privileged, with peer credentials) or TCP (potentially remote).

use vstd::prelude::*;
use crate::federation::ip_access::IpAddress;

verus! {

/// Transport metadata of a request.
#[derive(Debug, Clone, Copy, PartialEq, Eq, Structural)]
pub enum Transport {
    /// Connection arrived over a Unix domain socket.
    Uds { uid: u32, gid: u32, pid: Option<i32> },
    /// Connection arrived over TCP from this address and port.
    Tcp { ip: IpAddress, port: u16 },
}

impl Transport {
    /// Returns `true` if this is a local UDS connection (privileged).
    pub fn is_local(&self) -> (r: bool)
        ensures
            r == (*self is Uds),
    {
        match self {
            Transport::Uds { .. } => true,
            Transport::Tcp { .. } => false,
        }
    }
}

/// Peer credentials of a Unix-socket connection, as far as the system
/// reported them.
#[derive(Debug, Clone, Copy, PartialEq, Eq, Structural)]
pub struct PeerCredentials {
    pub uid: u32,
    pub gid: u32,
    pub pid: Option<i32>,
}

/// The transport of a Unix-socket connection: its peer credentials, or
/// user and group 0 and no process when they are unknown.
pub fn uds_transport(cred: Option<PeerCredentials>) -> (r: Transport)
    ensures
        r == match cred {
            Some(c) => Transport::Uds { uid: c.uid, gid: c.gid, pid: c.pid },
            None => Transport::Uds { uid: 0, gid: 0, pid: None },
        },
{
    match cred {
        Some(c) => Transport::Uds { uid: c.uid, gid: c.gid, pid: c.pid },
        None => Transport::Uds { uid: 0, gid: 0, pid: None },
    }
}

} // verus!
