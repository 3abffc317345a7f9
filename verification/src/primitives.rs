//! The cryptographic primitives the library obtains from other crates.
//!
//! Nothing in this module is proved. Each function below makes its call into
//! another crate, turns a failure of that crate into `None`, and carries the
//! assumption the rest of the library relies on; each uninterpreted function
//! names the value such a call returns, so that contracts elsewhere can speak
//! of it. Results that depend on chance have no name: only what holds of
//! every sample is stated.

use vstd::prelude::*;
use crate::utils::xor_seq;
use aes::cipher::{BlockEncrypt, KeyInit, KeyIvInit, StreamCipher, StreamCipherSeek};
use aes::cipher::generic_array::GenericArray;

verus! {

/// The Keccak-256 digest of `data`.
pub uninterp spec fn keccak256_spec(data: Seq<u8>) -> Seq<u8>;

/// The SHA-256 digest of `data`.
pub uninterp spec fn sha256_spec(data: Seq<u8>) -> Seq<u8>;

/// The HMAC-SHA-256 tag of `data` under `key`.
pub uninterp spec fn hmac_sha256_spec(key: Seq<u8>, data: Seq<u8>) -> Seq<u8>;

/// The AES-256 encryption of one 16-byte block under a 32-byte key.
pub uninterp spec fn aes256_encrypt_block_spec(key: Seq<u8>, block: Seq<u8>) -> Seq<u8>;

/// The `len` bytes of AES-256-CTR keystream (64-bit big-endian counter) that
/// start `offset` bytes into the stream of `key` and `iv`.
pub uninterp spec fn aes256_ctr_keystream(key: Seq<u8>, iv: Seq<u8>, offset: nat, len: nat) -> Seq<
    u8,
>;

/// The first `len` bytes of AES-128-CTR keystream (64-bit big-endian
/// counter) of `key` and `iv`.
pub uninterp spec fn aes128_ctr_keystream(key: Seq<u8>, iv: Seq<u8>, len: nat) -> Seq<u8>;

/// The uncompressed secp256k1 public key (65 bytes, tag included) of a
/// secret key, or `None` where the bytes are no valid secret key.
pub uninterp spec fn secp256k1_public_key(secret: Seq<u8>) -> Option<Seq<u8>>;

/// Whether `public` is the serialization of a point of the secp256k1
/// curve, in any of the forms the curve library reads.
pub uninterp spec fn secp256k1_is_point(public: Seq<u8>) -> bool;

/// The coordinates `x ‖ y` of the secp256k1 point `secret · public`, or
/// `None` where either key is invalid.
pub uninterp spec fn secp256k1_shared_point(secret: Seq<u8>, public: Seq<u8>) -> Option<Seq<u8>>;

/// The deterministic ECDSA signature over secp256k1 of a message prehash:
/// `r ‖ s` and the recovery id, or `None` where signing fails.
pub uninterp spec fn ecdsa_sign_prehash(key: Seq<u8>, prehash: Seq<u8>) -> Option<(Seq<u8>, u8)>;

/// Calls `sha3::Keccak256::digest`. Assumed: the digest is a function of the
/// input alone and is 32 bytes long.
#[verifier::external_body]
pub(crate) fn keccak256(data: &[u8]) -> (out: Vec<u8>)
    ensures
        out@ == keccak256_spec(data@),
        out@.len() == 32,
{
    <sha3::Keccak256 as sha3::Digest>::digest(data).to_vec()
}

/// Calls `sha2::Sha256::digest`. Assumed: the digest is a function of the
/// input alone and is 32 bytes long.
#[verifier::external_body]
pub(crate) fn sha256(data: &[u8]) -> (out: Vec<u8>)
    ensures
        out@ == sha256_spec(data@),
        out@.len() == 32,
{
    <sha2::Sha256 as sha2::Digest>::digest(data).to_vec()
}

/// Keys an `hmac::Hmac<sha2::Sha256>` with `key`, feeds it `data` and
/// finalizes it. Assumed: the tag is a function of key and data alone and is
/// 32 bytes long. A key of any length is accepted.
#[verifier::external_body]
pub(crate) fn hmac_sha256(key: &[u8], data: &[u8]) -> (out: Vec<u8>)
    ensures
        out@ == hmac_sha256_spec(key@, data@),
        out@.len() == 32,
{
    let mut mac = <hmac::Hmac<sha2::Sha256> as hmac::Mac>::new_from_slice(key).unwrap();
    hmac::Mac::update(&mut mac, data);
    hmac::Mac::finalize(mac).into_bytes().to_vec()
}

/// Calls `aes::Aes256Enc::encrypt_block` on a copy of `block`. Assumed: the
/// result is a function of key and block alone and is 16 bytes long. The
/// lengths are required because the crate panics on any other.
#[verifier::external_body]
pub(crate) fn aes256_encrypt_block(key: &[u8], block: &[u8]) -> (out: Vec<u8>)
    requires
        key@.len() == 32,
        block@.len() == 16,
    ensures
        out@ == aes256_encrypt_block_spec(key@, block@),
        out@.len() == 16,
{
    let cipher = aes::Aes256Enc::new(GenericArray::from_slice(key));
    let mut buffer = GenericArray::clone_from_slice(block);
    cipher.encrypt_block(&mut buffer);
    buffer.to_vec()
}

/// Creates a `ctr::Ctr64BE<aes::Aes256>`, seeks to byte `offset` of its
/// keystream and applies the keystream to a copy of `data`. Assumed: the
/// result is `data` exclusive-or the keystream, which is a function of key,
/// IV and position alone. The lengths are required because the crate panics
/// on any other; every 64-bit byte position lies within the keystream.
#[verifier::external_body]
pub(crate) fn aes256_ctr_apply(key: &[u8], iv: &[u8], offset: u64, data: &[u8]) -> (out: Vec<u8>)
    requires
        key@.len() == 32,
        iv@.len() == 16,
        offset + data@.len() <= u64::MAX,
    ensures
        out@ == xor_seq(data@, aes256_ctr_keystream(key@, iv@, offset as nat, data@.len())),
        out@.len() == data@.len(),
{
    let mut cipher = ctr::Ctr64BE::<aes::Aes256>::new(
        GenericArray::from_slice(key),
        GenericArray::from_slice(iv),
    );
    cipher.seek(offset);
    let mut out = data.to_vec();
    cipher.apply_keystream(&mut out);
    out
}

/// Creates a `ctr::Ctr64BE<aes::Aes128>` and applies the start of its
/// keystream to a copy of `data`. Assumed: the result is `data` exclusive-or
/// the keystream, which is a function of key and IV alone. The lengths are
/// required because the crate panics on any other.
#[verifier::external_body]
pub(crate) fn aes128_ctr_apply(key: &[u8], iv: &[u8], data: &[u8]) -> (out: Vec<u8>)
    requires
        key@.len() == 16,
        iv@.len() == 16,
    ensures
        out@ == xor_seq(data@, aes128_ctr_keystream(key@, iv@, data@.len())),
        out@.len() == data@.len(),
{
    let mut cipher = ctr::Ctr64BE::<aes::Aes128>::new(
        GenericArray::from_slice(key),
        GenericArray::from_slice(iv),
    );
    let mut out = data.to_vec();
    cipher.apply_keystream(&mut out);
    out
}

/// Parses `secret` with `secp256k1::SecretKey::from_slice` and serializes
/// `secp256k1::PublicKey::from_secret_key` of it uncompressed. Assumed: the
/// outcome is a function of the bytes alone; a key is accepted only if it is
/// 32 bytes long; the serialization is 65 bytes and starts with `0x04`.
#[verifier::external_body]
pub(crate) fn secp256k1_derive_public(secret: &[u8]) -> (out: Option<Vec<u8>>)
    ensures
        match out {
            Some(key) => {
                &&& secp256k1_public_key(secret@) == Some(key@)
                &&& secret@.len() == 32
                &&& key@.len() == 65
                &&& key@[0] == 4
            },
            None => secp256k1_public_key(secret@) is None,
        },
{
    let key = secp256k1::SecretKey::from_slice(secret).ok()?;
    let point = secp256k1::PublicKey::from_secret_key(&secp256k1::Secp256k1::new(), &key);
    Some(point.serialize_uncompressed().to_vec())
}

/// Parses both keys with `secp256k1` and calls
/// `secp256k1::ecdh::shared_secret_point`. Assumed: the outcome is a function
/// of the two byte strings alone, and the point is 64 bytes long. The call
/// itself cannot fail, so there is a result exactly when both keys are
/// read: the secret key by the parser that public-key derivation uses, the
/// public key by `secp256k1::PublicKey::from_slice`.
#[verifier::external_body]
pub(crate) fn secp256k1_ecdh_point(secret: &[u8], public: &[u8]) -> (out: Option<Vec<u8>>)
    ensures
        match out {
            Some(point) => {
                &&& secp256k1_shared_point(secret@, public@) == Some(point@)
                &&& point@.len() == 64
                &&& secp256k1_public_key(secret@) is Some
                &&& secp256k1_is_point(public@)
            },
            None => {
                &&& secp256k1_shared_point(secret@, public@) is None
                &&& !(secp256k1_public_key(secret@) is Some && secp256k1_is_point(public@))
            },
        },
{
    let key = secp256k1::SecretKey::from_slice(secret).ok()?;
    let point = secp256k1::PublicKey::from_slice(public).ok()?;
    Some(secp256k1::ecdh::shared_secret_point(&point, &key).to_vec())
}

/// Calls `secp256k1::SecretKey::new` on the operating system's generator.
/// Assumed of every sample: it is 32 bytes long and a valid secret key, as
/// the crate draws again until the key passes the check that parsing applies.
#[verifier::external_body]
pub(crate) fn secp256k1_random_secret() -> (out: Vec<u8>)
    ensures
        out@.len() == 32,
        secp256k1_public_key(out@) is Some,
{
    secp256k1::SecretKey::new(&mut rand::rngs::OsRng).secret_bytes().to_vec()
}

/// Parses `key` with `k256::ecdsa::SigningKey::from_slice` and calls
/// `sign_prehash_recoverable` on it. Assumed: the outcome is a function of
/// key and prehash alone (the nonce is derived from them), and `r ‖ s` is 64
/// bytes long.
#[verifier::external_body]
pub(crate) fn ecdsa_sign_recoverable(key: &[u8], prehash: &[u8]) -> (out: Option<(Vec<u8>, u8)>)
    ensures
        match out {
            Some((signature, recovery)) => {
                &&& ecdsa_sign_prehash(key@, prehash@) == Some((signature@, recovery))
                &&& signature@.len() == 64
            },
            None => ecdsa_sign_prehash(key@, prehash@) is None,
        },
{
    let key = k256::ecdsa::SigningKey::from_slice(key).ok()?;
    let (signature, recovery) = key.sign_prehash_recoverable(prehash).ok()?;
    Some((signature.to_bytes().to_vec(), recovery.to_byte()))
}

/// Calls `String::from_utf8` of the standard library. Assumed, as it is
/// documented: the call succeeds exactly on valid UTF-8, and the text then
/// has these bytes as its UTF-8 form.
#[verifier::external_body]
pub(crate) fn string_from_utf8(bytes: Vec<u8>) -> (out: Option<String>)
    ensures
        match out {
            Some(text) => vstd::utf8::valid_utf8(bytes@) && text@ == vstd::utf8::decode_utf8(
                bytes@,
            ),
            None => !vstd::utf8::valid_utf8(bytes@),
        },
{
    String::from_utf8(bytes).ok()
}

/// Calls `rand::RngCore::fill_bytes` on the generator of the operating
/// system. Assumed of every sample: the whole buffer is filled, so the
/// length is `len`.
#[verifier::external_body]
pub(crate) fn random_bytes(len: usize) -> (out: Vec<u8>)
    ensures
        out@.len() == len,
{
    let mut out = vec![0u8; len];
    rand::RngCore::fill_bytes(&mut rand::rngs::OsRng, &mut out);
    out
}

/// Calls `rand::Rng::gen_range` on the thread-local generator with the
/// inclusive range `low..=high`. Assumed of every sample: it lies in the
/// range. The range must not be empty, on which the crate panics.
#[verifier::external_body]
pub(crate) fn random_in_range(low: usize, high: usize) -> (out: usize)
    requires
        low <= high,
    ensures
        low <= out <= high,
{
    rand::Rng::gen_range(&mut rand::thread_rng(), low..=high)
}

} // verus!
