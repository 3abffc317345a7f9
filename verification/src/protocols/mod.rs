//! The two exchanges with a remote node: the discovery PING and the
//! handshake, as far as they are computed rather than sent.

pub mod auth;
pub mod ping;

use vstd::prelude::*;
use crate::rlpx::types::{Endpoint, Ping};

verus! {

/// The remote node: its address and the port of its discovery and its
/// handshake endpoint.
pub struct Prot {
    addr: String,
    port: u16,
}

impl Prot {
    /// The address of the remote node.
    pub closed spec fn addr(&self) -> Seq<char> {
        self.addr@
    }

    /// The port of the remote node.
    pub closed spec fn port(&self) -> u16 {
        self.port
    }

    /// Names the remote node by address and port.
    pub fn new(addr: &str, port: u16) -> (out: Prot)
        ensures
            out.addr() == addr@,
            out.port() == port,
    {
        Prot { addr: addr.to_owned(), port }
    }

    /// The address of the remote node.
    pub fn address(&self) -> (out: &str)
        ensures
            out@ == self.addr(),
    {
        self.addr.as_str()
    }

    /// The port of the remote node.
    pub fn remote_port(&self) -> (out: u16)
        ensures
            out == self.port(),
    {
        self.port
    }

    /// Builds the data of the PING that `from` sends to the remote node at
    /// the time `now_unix`.
    pub fn ping_data(&self, from: Endpoint, now_unix: u64) -> (out: Ping)
        requires
            now_unix + ping::EXPIRATION_SECS <= u64::MAX,
        ensures
            out@ == ping::ping_data_spec(from@, self.addr(), self.port(), now_unix),
    {
        ping::ping_data(from, self.addr.as_str(), self.port, now_unix)
    }
}

} // verus!
