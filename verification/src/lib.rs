//! Client side of an Ethereum-style peer handshake: the discovery PING
//! packet, the RLPx `auth`/`ack` exchange with its key derivation, and the
//! first encrypted frame carrying the Hello message.
//!
//! Every function states its behaviour over sequences of bytes. The
//! elliptic-curve, hash and cipher primitives come from their crates; what
//! the library assumes of each of them is declared in [`primitives`].

pub mod args;
pub mod error;
pub mod ffi;
pub mod hex;
pub mod mac;
pub mod primitives;
pub mod protocols;
pub mod rlp;
pub mod rlpx;
pub mod stream;
pub mod utils;

pub use error::Error;
