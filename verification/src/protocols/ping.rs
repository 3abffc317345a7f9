//! The discovery PING packet and the reading of its answer.
//!
//! A packet is `hash[32] ‖ signature[65] ‖ type[1] ‖ data`, where the data
//! is the encoded [`Ping`], the signature is made over the Keccak-256 hash
//! of type and data, and the hash is the Keccak-256 hash of everything that
//! follows it.

use vstd::prelude::*;
use crate::error::Error;
use crate::ffi::{signature_of, EncFfi};
use crate::primitives::{keccak256, keccak256_spec, secp256k1_random_secret};
use crate::rlpx::types::{Endpoint, EndpointView, Ping, PingView};
use crate::utils::concat;

verus! {

/// The version of the discovery protocol.
pub const DISCOVERY_VERSION: u16 = 4;

/// The packet type of PING.
pub const PING_TYPE: u8 = 1;

/// The packet type of PONG.
pub const PONG_TYPE: u8 = 2;

/// The index of the packet type: it follows the hash and the signature.
pub const TYPE_OFFSET: usize = 97;

/// The seconds a PING stays valid after it was made.
pub const EXPIRATION_SECS: u64 = 420;

/// The data of the PING that `from` sends to the discovery endpoint at
/// `addr` and `port` at the time `now_unix`.
pub open spec fn ping_data_spec(from: EndpointView, addr: Seq<char>, port: u16, now_unix: u64) -> PingView {
    PingView {
        version: DISCOVERY_VERSION,
        from,
        to: EndpointView { address: addr, udp_port: port, tcp_port: 0 },
        timestamp: (now_unix + EXPIRATION_SECS) as u64,
    }
}

/// The PING packet that carries `data`, signed with `signing_key`; `None`
/// where signing fails.
pub open spec fn ping_packet_spec(data: PingView, signing_key: Seq<u8>) -> Option<Seq<u8>> {
    let typed = seq![PING_TYPE] + data.rlp();
    match signature_of(signing_key, keccak256_spec(typed)) {
        Some(signature) => Some(keccak256_spec(signature + typed) + signature + typed),
        None => None,
    }
}

/// Whether a datagram is a PONG: its byte at index 97 is the type of PONG.
/// A datagram too short to have that byte is none.
pub open spec fn is_pong_spec(datagram: Seq<u8>) -> bool {
    datagram.len() > TYPE_OFFSET && datagram[TYPE_OFFSET as int] == PONG_TYPE
}

/// Builds the data of the PING that `from` sends to the discovery endpoint
/// at `addr` and `port`. The packet expires 420 seconds after `now_unix`,
/// which must leave room for them.
pub fn ping_data(from: Endpoint, addr: &str, port: u16, now_unix: u64) -> (out: Ping)
    requires
        now_unix + EXPIRATION_SECS <= u64::MAX,
    ensures
        out@ == ping_data_spec(from@, addr@, port, now_unix),
{
    Ping::new(
        DISCOVERY_VERSION,
        from,
        Endpoint::new(addr.to_owned(), port, 0),
        now_unix + EXPIRATION_SECS,
    )
}

/// Builds the PING packet that carries `data`, signed with `signing_key`.
/// Fails when no signature can be made, which is a failure of the backend.
pub fn ping_packet(data: &Ping, signing_key: &[u8]) -> (out: Result<Vec<u8>, Error>)
    ensures
        match out {
            Ok(packet) => {
                &&& ping_packet_spec(data@, signing_key@) == Some(packet@)
                &&& packet@.len() == 98 + data@.rlp().len()
                &&& packet@[TYPE_OFFSET as int] == PING_TYPE
                &&& packet@.subrange(0, 32) == keccak256_spec(
                    packet@.subrange(32, packet@.len() as int),
                )
            },
            Err(e) => ping_packet_spec(data@, signing_key@) is None && e == Error::CryptoBackend,
        },
{
    let encoded = data.encode();
    let mut typed: Vec<u8> = Vec::new();
    typed.push(PING_TYPE);
    typed.extend_from_slice(encoded.as_slice());
    assert(typed@ =~= seq![PING_TYPE] + data@.rlp());
    let digest = keccak256(typed.as_slice());
    let signature = match EncFfi::ecdsa_sign(signing_key, digest.as_slice()) {
        Ok(signature) => signature,
        Err(_) => { return Err(Error::CryptoBackend); },
    };
    let signed = concat(signature.as_slice(), typed.as_slice());
    let hash = keccak256(signed.as_slice());
    let packet = concat(hash.as_slice(), signed.as_slice());
    assert(packet@ =~= hash@ + signature@ + typed@);
    assert(packet@.subrange(32, packet@.len() as int) =~= signed@);
    assert(packet@.subrange(0, 32) =~= hash@);
    Ok(packet)
}

/// Builds the PING packet that `from` sends to the discovery endpoint at
/// `addr` and `port`, signed with a key made for this packet alone.
/// Whatever key was sampled, the result is the packet of some key.
pub fn ping(from: Endpoint, addr: &str, port: u16, now_unix: u64) -> (out: Result<Vec<u8>, Error>)
    requires
        now_unix + EXPIRATION_SECS <= u64::MAX,
    ensures
        match out {
            Ok(packet) => {
                &&& exists|signing_key: Seq<u8>| #[trigger]
                    ping_packet_spec(
                        ping_data_spec(from@, addr@, port, now_unix),
                        signing_key,
                    ) == Some(packet@)
                &&& packet@[TYPE_OFFSET as int] == PING_TYPE
                &&& packet@.len() > TYPE_OFFSET
            },
            Err(e) => e == Error::CryptoBackend,
        },
{
    let data = ping_data(from, addr, port, now_unix);
    let signing_key = secp256k1_random_secret();
    ping_packet(&data, signing_key.as_slice())
}

/// Tells whether a received datagram is a PONG. Only the type byte is
/// looked at; hash and signature are not checked.
pub fn is_pong(datagram: &[u8]) -> (out: bool)
    ensures
        out == is_pong_spec(datagram@),
{
    datagram.len() > TYPE_OFFSET && datagram[TYPE_OFFSET] == PONG_TYPE
}

} // verus!
