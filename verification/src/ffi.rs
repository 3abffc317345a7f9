//! The cryptographic backend of the handshake: key agreement, signing, and
//! the ECIES envelope that carries `auth` and `ack`.
//!
//! The envelope of a plaintext is
//! `0x04 ‖ sender-public-key[64] ‖ IV[16] ‖ ciphertext ‖ tag[32]`. The
//! sender agrees on a shared secret with a fresh key of its own, derives an
//! AES-128 key and a MAC key from the secret with the Concat-KDF of NIST SP
//! 800-56A over SHA-256, encrypts in counter mode and tags
//! `IV ‖ ciphertext ‖ associated data` with HMAC-SHA-256.

use vstd::prelude::*;
use crate::error::Error;
use crate::primitives::{
    aes128_ctr_apply, aes128_ctr_keystream, ecdsa_sign_prehash, ecdsa_sign_recoverable,
    hmac_sha256, hmac_sha256_spec, random_bytes, secp256k1_derive_public, secp256k1_ecdh_point,
    secp256k1_is_point, secp256k1_public_key, secp256k1_random_secret, secp256k1_shared_point,
    sha256, sha256_spec,
};
use crate::utils::{concat, copy_range, xor_seq};

verus! {

/// The bytes an ECIES envelope adds to its plaintext: the sender's public
/// key with its tag byte, the IV and the authentication tag.
pub const ECIES_OVERHEAD: usize = 113;

/// The x coordinate of the point two parties agree on, or `None` where a key
/// is invalid.
pub open spec fn ecdh_x(private_key: Seq<u8>, public_key: Seq<u8>) -> Option<Seq<u8>> {
    match secp256k1_shared_point(private_key, public_key) {
        Some(point) => Some(point.subrange(0, 32)),
        None => None,
    }
}

/// The recoverable signature `r ‖ s ‖ v` of a 32-byte message, or `None`
/// where signing fails or the recovery id is not 0 or 1.
pub open spec fn signature_of(private_key: Seq<u8>, message: Seq<u8>) -> Option<Seq<u8>> {
    match ecdsa_sign_prehash(private_key, message) {
        Some((rs, v)) => if v <= 1 {
            Some(rs.push(v))
        } else {
            None
        },
        None => None,
    }
}

/// The 32 bytes of key material the Concat-KDF derives from a shared
/// secret: one round of SHA-256 over the counter 1 and the secret.
pub open spec fn kdf_material(shared: Seq<u8>) -> Seq<u8> {
    sha256_spec(seq![0u8, 0u8, 0u8, 1u8] + shared)
}

/// The AES-128 key that decrypts the envelope in `message`, which starts
/// with a 2-byte size and the sender's public key; `None` where the message
/// is too short to hold the key or a key is invalid.
pub open spec fn kdf_key_of(message: Seq<u8>, private_key: Seq<u8>) -> Option<Seq<u8>> {
    if message.len() < 67 {
        None
    } else {
        match ecdh_x(private_key, message.subrange(2, 67)) {
            Some(shared) => Some(kdf_material(shared).subrange(0, 16)),
            None => None,
        }
    }
}

/// The envelope of `plain` for the holder of `remote_key`, sealed with the
/// sender key `sender_key` and the IV `iv`; `None` where a key is invalid.
pub open spec fn sealed(
    plain: Seq<u8>,
    remote_key: Seq<u8>,
    mac_data: Seq<u8>,
    sender_key: Seq<u8>,
    iv: Seq<u8>,
) -> Option<Seq<u8>> {
    match (secp256k1_public_key(sender_key), ecdh_x(sender_key, remote_key)) {
        (Some(sender_public), Some(shared)) => {
            let material = kdf_material(shared);
            let cipher = xor_seq(
                plain,
                aes128_ctr_keystream(material.subrange(0, 16), iv, plain.len()),
            );
            let tag = hmac_sha256_spec(material.subrange(16, 32), iv + cipher + mac_data);
            Some(sender_public + iv + cipher + tag)
        },
        _ => None,
    }
}

/// The cryptographic operations the session relies on.
pub struct EncFfi;

impl EncFfi {
    /// Signs a 32-byte message with a private key. The signature is
    /// `r ‖ s ‖ v`, 65 bytes, with `v` 0 or 1. Any failure to produce such a
    /// signature is a failure of the backend.
    pub fn ecdsa_sign(eph_private_key: &[u8], message: &[u8]) -> (out: Result<Vec<u8>, Error>)
        ensures
            match out {
                Ok(signature) => {
                    &&& signature_of(eph_private_key@, message@) == Some(signature@)
                    &&& signature@.len() == 65
                    &&& signature@[64] <= 1
                },
                Err(e) => signature_of(eph_private_key@, message@) is None && e
                    == Error::CryptoBackend,
            },
    {
        match ecdsa_sign_recoverable(eph_private_key, message) {
            Some((rs, v)) => {
                if v <= 1 {
                    let mut signature = rs;
                    signature.push(v);
                    Ok(signature)
                } else {
                    Err(Error::CryptoBackend)
                }
            },
            None => Err(Error::CryptoBackend),
        }
    }

    /// Agrees on a shared secret: the raw 32-byte x coordinate of the
    /// product of a private key and a public key, not hashed. An invalid key
    /// on either side is rejected, and nothing else is.
    pub fn ecdhx(private_key: &[u8], public_key: &[u8]) -> (out: Result<Vec<u8>, Error>)
        ensures
            out is Ok <==> secp256k1_public_key(private_key@) is Some && secp256k1_is_point(
                public_key@,
            ),
            match out {
                Ok(shared) => ecdh_x(private_key@, public_key@) == Some(shared@) && shared@.len()
                    == 32,
                Err(e) => ecdh_x(private_key@, public_key@) is None && e == Error::InvalidKey,
            },
    {
        match secp256k1_ecdh_point(private_key, public_key) {
            Some(point) => Ok(copy_range(point.as_slice(), 0, 32)),
            None => Err(Error::InvalidKey),
        }
    }

    /// Derives the 32 bytes of key material of a shared secret: the first 16
    /// are the AES-128 key, the last 16 the MAC key.
    pub fn kdf(shared: &[u8]) -> (out: Vec<u8>)
        ensures
            out@ == kdf_material(shared@),
            out@.len() == 32,
    {
        let mut input: Vec<u8> = Vec::new();
        input.push(0u8);
        input.push(0u8);
        input.push(0u8);
        input.push(1u8);
        input.extend_from_slice(shared);
        assert(input@ =~= seq![0u8, 0u8, 0u8, 1u8] + shared@);
        sha256(input.as_slice())
    }

    /// Seals `msg` in an envelope for the holder of `client_pk` with the
    /// given sender key and 16-byte IV; `mac_data` is authenticated with it
    /// but not sent. Fails exactly when a key is invalid.
    pub fn tagged_kdf_with(
        msg: &[u8],
        client_pk: &[u8],
        mac_data: &[u8],
        sender_key: &[u8],
        iv: &[u8],
    ) -> (out: Result<Vec<u8>, Error>)
        requires
            iv@.len() == 16,
        ensures
            out is Ok <==> secp256k1_public_key(sender_key@) is Some && secp256k1_is_point(
                client_pk@,
            ),
            match out {
                Ok(envelope) => {
                    &&& sealed(msg@, client_pk@, mac_data@, sender_key@, iv@) == Some(envelope@)
                    &&& envelope@.len() == msg@.len() + ECIES_OVERHEAD
                    &&& envelope@[0] == 4
                    &&& Some(envelope@.subrange(0, 65)) == secp256k1_public_key(sender_key@)
                    &&& envelope@.subrange(65, 81) == iv@
                },
                Err(e) => sealed(msg@, client_pk@, mac_data@, sender_key@, iv@) is None && e
                    == Error::InvalidKey,
            },
    {
        let sender_public = match secp256k1_derive_public(sender_key) {
            Some(point) => point,
            None => { return Err(Error::InvalidKey); },
        };
        let shared = match Self::ecdhx(sender_key, client_pk) {
            Ok(shared) => shared,
            Err(_) => { return Err(Error::InvalidKey); },
        };
        let material = Self::kdf(shared.as_slice());
        let enc_key = copy_range(material.as_slice(), 0, 16);
        let mac_key = copy_range(material.as_slice(), 16, 32);
        let cipher = aes128_ctr_apply(enc_key.as_slice(), iv, msg);
        let mut tagged = concat(iv, cipher.as_slice());
        tagged.extend_from_slice(mac_data);
        assert(tagged@ =~= iv@ + cipher@ + mac_data@);
        let tag = hmac_sha256(mac_key.as_slice(), tagged.as_slice());
        let mut envelope = concat(sender_public.as_slice(), iv);
        envelope.extend_from_slice(cipher.as_slice());
        envelope.extend_from_slice(tag.as_slice());
        assert(envelope@ =~= sender_public@ + iv@ + cipher@ + tag@);
        assert(envelope@.subrange(0, 65) =~= sender_public@);
        assert(envelope@.subrange(65, 81) =~= iv@);
        Ok(envelope)
    }

    /// Seals `msg` in an envelope for the holder of `client_pk` with a fresh
    /// sender key and a fresh IV. Fails exactly when `client_pk` is no valid
    /// public key. Whatever was sampled, the result is the envelope of some
    /// valid sender key and some IV.
    pub fn tagged_kdf(msg: &[u8], client_pk: &[u8], mac_data: &[u8]) -> (out: Result<
        Vec<u8>,
        Error,
    >)
        ensures
            out is Ok <==> secp256k1_is_point(client_pk@),
            match out {
                Ok(envelope) => {
                    &&& exists|sender_key: Seq<u8>, iv: Seq<u8>|
                        #[trigger] sealed(msg@, client_pk@, mac_data@, sender_key, iv) == Some(
                            envelope@,
                        ) && iv.len() == 16
                    &&& envelope@.len() == msg@.len() + ECIES_OVERHEAD
                },
                Err(e) => e == Error::InvalidKey,
            },
    {
        let sender_key = secp256k1_random_secret();
        let iv = random_bytes(16);
        Self::tagged_kdf_with(msg, client_pk, mac_data, sender_key.as_slice(), iv.as_slice())
    }

    /// Derives the AES-128 key that decrypts an incoming envelope. `msg` is
    /// the whole record: a 2-byte size and then the envelope, which starts
    /// with the sender's public key. Fails exactly when the record is too
    /// short to hold that key or a key is invalid.
    pub fn concat_kdf(msg: &[u8], private_key: &[u8]) -> (out: Result<Vec<u8>, Error>)
        ensures
            out is Ok <==> msg@.len() >= 67 && secp256k1_public_key(private_key@) is Some
                && secp256k1_is_point(msg@.subrange(2, 67)),
            match out {
                Ok(key) => kdf_key_of(msg@, private_key@) == Some(key@) && key@.len() == 16,
                Err(e) => kdf_key_of(msg@, private_key@) is None && e == Error::InvalidKey,
            },
    {
        if msg.len() < 67 {
            return Err(Error::InvalidKey);
        }
        let sender_public = copy_range(msg, 2, 67);
        match Self::ecdhx(private_key, sender_public.as_slice()) {
            Ok(shared) => {
                let material = Self::kdf(shared.as_slice());
                Ok(copy_range(material.as_slice(), 0, 16))
            },
            Err(_) => Err(Error::InvalidKey),
        }
    }
}

} // verus!
