//! The rolling message authentication code of RLPx frames.
//!
//! The engine absorbs bytes into a Keccak-256 hash that is never finalized
//! and seals each digest with one AES-256 block encryption under the MAC
//! secret. A frame takes two tags from it, one over the header and then one
//! over the body, so the body tag depends on everything absorbed before it.

use vstd::prelude::*;
use crate::error::Error;
use crate::primitives::{aes256_encrypt_block, aes256_encrypt_block_spec, keccak256, keccak256_spec};
use crate::utils::{xor, xor_seq};

verus! {

/// The tag read from a hash that has absorbed `absorbed`: the first 16 bytes
/// of its Keccak-256 digest.
pub open spec fn digest_of(absorbed: Seq<u8>) -> Seq<u8> {
    keccak256_spec(absorbed).subrange(0, 16)
}

/// What the hash has absorbed once the header tag of `header` was taken.
pub open spec fn absorbed_after_header(secret: Seq<u8>, absorbed: Seq<u8>, header: Seq<u8>) -> Seq<
    u8,
> {
    absorbed + xor_seq(aes256_encrypt_block_spec(secret, digest_of(absorbed)), header)
}

/// The header tag of `header` for a hash that has absorbed `absorbed`.
pub open spec fn header_tag_of(secret: Seq<u8>, absorbed: Seq<u8>, header: Seq<u8>) -> Seq<u8> {
    digest_of(absorbed_after_header(secret, absorbed, header))
}

/// What the hash has absorbed once the body tag of `body` was taken.
pub open spec fn absorbed_after_body(secret: Seq<u8>, absorbed: Seq<u8>, body: Seq<u8>) -> Seq<u8> {
    let with_body = absorbed + body;
    let digest = digest_of(with_body);
    with_body + xor_seq(aes256_encrypt_block_spec(secret, digest), digest)
}

/// The body tag of `body` for a hash that has absorbed `absorbed`.
pub open spec fn body_tag_of(secret: Seq<u8>, absorbed: Seq<u8>, body: Seq<u8>) -> Seq<u8> {
    digest_of(absorbed_after_body(secret, absorbed, body))
}

/// The MAC engine: the 32-byte MAC secret and everything absorbed so far.
pub struct Mac {
    secret: Vec<u8>,
    absorbed: Vec<u8>,
}

/// Taking the tags of a frame only adds to what the hash has absorbed, and
/// in this order: the header-tag input, the body, the body-tag input. So
/// the body tag depends on the header and on everything absorbed before it.
pub proof fn lemma_frame_tags_chain(
    secret: Seq<u8>,
    absorbed: Seq<u8>,
    header: Seq<u8>,
    body: Seq<u8>,
)
    ensures
        ({
            let after_header = absorbed_after_header(secret, absorbed, header);
            let after_body = absorbed_after_body(secret, after_header, body);
            let header_input = xor_seq(
                aes256_encrypt_block_spec(secret, digest_of(absorbed)),
                header,
            );
            let digest = digest_of(after_header + body);
            let body_input = xor_seq(aes256_encrypt_block_spec(secret, digest), digest);
            &&& after_header == absorbed + header_input
            &&& after_body == absorbed + header_input + body + body_input
            &&& body_tag_of(secret, after_header, body) == digest_of(
                absorbed + header_input + body + body_input,
            )
        }),
{
}

/// What an engine holds: the MAC secret and the bytes absorbed so far.
pub struct MacState {
    pub secret: Seq<u8>,
    pub absorbed: Seq<u8>,
}

impl View for Mac {
    type V = MacState;

    open spec fn view(&self) -> MacState {
        MacState { secret: self.secret(), absorbed: self.absorbed() }
    }
}

impl Mac {
    /// The MAC secret the engine was keyed with.
    pub closed spec fn secret(&self) -> Seq<u8> {
        self.secret@
    }

    /// All bytes absorbed so far, in order.
    pub closed spec fn absorbed(&self) -> Seq<u8> {
        self.absorbed@
    }

    /// An engine is well formed when its secret is an AES-256 key.
    pub open spec fn wf(&self) -> bool {
        self.secret().len() == 32
    }

    /// Keys a new engine whose hash has absorbed nothing. The secret must be
    /// 32 bytes long; any other length is rejected as an invalid key.
    pub fn with_secret(secret: &[u8]) -> (out: Result<Mac, Error>)
        ensures
            secret@.len() == 32 ==> out is Ok && out->Ok_0.secret() == secret@
                && out->Ok_0.absorbed() == Seq::<u8>::empty(),
            secret@.len() != 32 ==> out == Err::<Mac, Error>(Error::InvalidKey),
    {
        if secret.len() != 32 {
            return Err(Error::InvalidKey);
        }
        let mut key: Vec<u8> = Vec::with_capacity(32);
        key.extend_from_slice(secret);
        assert(key@ =~= secret@);
        Ok(Mac { secret: key, absorbed: Vec::new() })
    }

    /// A copy of the MAC secret.
    pub fn secret_bytes(&self) -> (out: Vec<u8>)
        ensures
            out@ == self.secret(),
    {
        vstd::slice::slice_to_vec(self.secret.as_slice())
    }

    /// A copy of everything absorbed so far.
    pub fn absorbed_bytes(&self) -> (out: Vec<u8>)
        ensures
            out@ == self.absorbed(),
    {
        vstd::slice::slice_to_vec(self.absorbed.as_slice())
    }

    /// Absorbs `data` into the hash. No tag is produced.
    pub fn update(&mut self, data: &[u8])
        ensures
            final(self).secret() == old(self).secret(),
            final(self).absorbed() == old(self).absorbed() + data@,
    {
        self.absorbed.extend_from_slice(data);
        assert(self.absorbed@ =~= old(self).absorbed@ + data@);
    }

    /// Reads the current tag without disturbing the hash: the first 16 bytes
    /// of the Keccak-256 digest of everything absorbed so far.
    pub fn digest(&self) -> (out: Vec<u8>)
        ensures
            out@ == digest_of(self.absorbed()),
            out@.len() == 16,
    {
        let full = keccak256(self.absorbed.as_slice());
        let mut out: Vec<u8> = Vec::with_capacity(16);
        out.extend_from_slice(vstd::slice::slice_subrange(full.as_slice(), 0, 16));
        assert(out@ =~= full@.subrange(0, 16));
        out
    }

    /// Takes the tag of a 16-byte frame header: encrypts the current digest
    /// with one AES-256 block, absorbs that block exclusive-or the header,
    /// and returns the digest that results.
    pub fn header_tag(&mut self, data: &[u8]) -> (out: Vec<u8>)
        requires
            old(self).wf(),
            data@.len() == 16,
        ensures
            final(self).secret() == old(self).secret(),
            final(self).absorbed() == absorbed_after_header(
                old(self).secret(),
                old(self).absorbed(),
                data@,
            ),
            out@ == header_tag_of(old(self).secret(), old(self).absorbed(), data@),
            out@.len() == 16,
    {
        let digest = self.digest();
        let encrypted = aes256_encrypt_block(self.secret.as_slice(), digest.as_slice());
        let input = xor(encrypted.as_slice(), data);
        self.update(input.as_slice());
        self.digest()
    }

    /// Takes the tag of a frame body: absorbs the body, encrypts the digest
    /// that results with one AES-256 block, absorbs that block exclusive-or
    /// the digest, and returns the final digest. The body is a positive
    /// multiple of 16 bytes long, and the header tag of the same frame is
    /// taken first.
    pub fn data_tag(&mut self, data: &[u8]) -> (out: Vec<u8>)
        requires
            old(self).wf(),
            data@.len() > 0,
            data@.len() % 16 == 0,
        ensures
            final(self).secret() == old(self).secret(),
            final(self).absorbed() == absorbed_after_body(
                old(self).secret(),
                old(self).absorbed(),
                data@,
            ),
            out@ == body_tag_of(old(self).secret(), old(self).absorbed(), data@),
            out@.len() == 16,
    {
        self.update(data);
        let digest = self.digest();
        let encrypted = aes256_encrypt_block(self.secret.as_slice(), digest.as_slice());
        let input = xor(encrypted.as_slice(), digest.as_slice());
        self.update(input.as_slice());
        self.digest()
    }
}

} // verus!
