//! Where a dialog connects: the name the client says it dialed, and the
//! socket address.

use crate::net::SocketAddr;
use vstd::prelude::*;

verus! {

/// A host name that did not resolve to an address.
#[derive(Debug)]
pub struct CantResolveHost {
    host: String,
}

impl CantResolveHost {
    /// The host that did not resolve.
    pub closed spec fn spec_host(&self) -> Seq<char> {
        self.host@
    }

    /// The error for `host`.
    pub fn new(host: String) -> (r: CantResolveHost)
        ensures
            r.spec_host() == host@,
    {
        CantResolveHost { host }
    }

    /// The host that did not resolve.
    pub fn host(&self) -> (r: &str)
        ensures
            r@ == self.spec_host(),
    {
        self.host.as_str()
    }
}

/// The port a Minecraft server listens on when nothing else is said.
pub const DEFAULT_MC_PORT: u16 = 25565;

/// Where a dialog connects.
#[derive(Debug, PartialEq, Eq)]
pub struct ServerDst {
    pub server_name: String,
    pub socket_addr: SocketAddr,
}

impl Clone for ServerDst {
    fn clone(&self) -> (r: ServerDst)
        ensures
            r == *self,
    {
        ServerDst { server_name: self.server_name.clone(), socket_addr: self.socket_addr }
    }
}

impl ServerDst {
    /// The name and port the client gives a server as the game client does:
    /// the target of the `_minecraft._tcp` SRV record when there is one,
    /// else `name`; the port given, else the record's, else the default.
    pub fn choose_name_and_port(name: String, srv: Option<(String, u16)>, port: Option<u16>) -> (r: (
        String,
        u16,
    ))
        ensures
            srv is None ==> r.0 == name && r.1 == port.unwrap_or(DEFAULT_MC_PORT),
            srv matches Some((t, p)) ==> r.0 == t && r.1 == port.unwrap_or(p),
    {
        match srv {
            Some((target, srv_port)) => (target, port.unwrap_or(srv_port)),
            None => (name, port.unwrap_or(DEFAULT_MC_PORT)),
        }
    }
}

} // verus!
