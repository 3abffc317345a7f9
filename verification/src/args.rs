//! What the program is told on its command line.

use vstd::prelude::*;
use vstd::utf8::encode_utf8;
use crate::error::Error;
use crate::hex::{decode, decoded, is_hex};

verus! {

/// The port a node listens on unless told otherwise.
pub const DEFAULT_PORT: u16 = 30303;

/// The length of a node id.
pub const NODE_ID_LEN: usize = 64;

/// The arguments: the id of the remote node as hexadecimal text, its
/// address and its port.
#[derive(Debug)]
pub struct Args {
    pub remote_id: String,
    pub address: String,
    pub port: u16,
}

/// The node id that hexadecimal text stands for: 64 bytes given as 128
/// digits; `None` for any other text.
pub open spec fn node_id_of(text: Seq<char>) -> Option<Seq<u8>> {
    if is_hex(encode_utf8(text)) && decoded(encode_utf8(text)).len() == NODE_ID_LEN {
        Some(decoded(encode_utf8(text)))
    } else {
        None
    }
}

impl Args {
    /// The arguments for a remote node at the default address `127.0.0.1`
    /// and the default port 30303.
    pub fn new(remote_id: String) -> (out: Args)
        ensures
            out.remote_id@ == remote_id@,
            out.address@ == "127.0.0.1"@,
            out.port == DEFAULT_PORT,
    {
        Args { remote_id, address: "127.0.0.1".to_owned(), port: DEFAULT_PORT }
    }

    /// The id of the remote node as bytes. Text that is not 128 hexadecimal
    /// digits is rejected.
    pub fn remote_node_id(&self) -> (out: Result<Vec<u8>, Error>)
        ensures
            match out {
                Ok(id) => node_id_of(self.remote_id@) == Some(id@) && id@.len() == NODE_ID_LEN,
                Err(e) => node_id_of(self.remote_id@) is None && e == Error::HexDecode,
            },
    {
        match decode(self.remote_id.as_str()) {
            Ok(id) => {
                if id.len() == NODE_ID_LEN {
                    Ok(id)
                } else {
                    Err(Error::HexDecode)
                }
            },
            Err(_) => Err(Error::HexDecode),
        }
    }
}

} // verus!
