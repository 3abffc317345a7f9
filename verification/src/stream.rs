//! The AES-256-CTR stream that encrypts RLPx frames.
//!
//! A session has one keystream. Whatever is encrypted consumes the next
//! bytes of it, so the header and the body of a frame use adjoining parts.

use vstd::prelude::*;
use crate::error::Error;
use crate::primitives::{aes256_ctr_apply, aes256_ctr_keystream};
use crate::utils::xor_seq;

verus! {

/// What `data` becomes under the keystream of `key` and `iv`, starting
/// `offset` bytes into that keystream.
pub open spec fn ctr_applied(key: Seq<u8>, iv: Seq<u8>, offset: nat, data: Seq<u8>) -> Seq<u8> {
    xor_seq(data, aes256_ctr_keystream(key, iv, offset, data.len()))
}

/// An AES-256-CTR cipher with a 64-bit big-endian counter: its key, its
/// initial counter block, and how many keystream bytes were consumed.
pub struct Aes256Ctr {
    key: Vec<u8>,
    iv: Vec<u8>,
    offset: u64,
}

/// What a cipher holds: key, initial counter block and position in the
/// keystream.
pub struct CipherState {
    pub key: Seq<u8>,
    pub iv: Seq<u8>,
    pub offset: nat,
}

impl View for Aes256Ctr {
    type V = CipherState;

    open spec fn view(&self) -> CipherState {
        CipherState { key: self.key(), iv: self.iv(), offset: self.offset() }
    }
}

impl Aes256Ctr {
    /// The 32-byte key.
    pub closed spec fn key(&self) -> Seq<u8> {
        self.key@
    }

    /// The 16-byte initial counter block.
    pub closed spec fn iv(&self) -> Seq<u8> {
        self.iv@
    }

    /// The number of keystream bytes consumed so far.
    pub closed spec fn offset(&self) -> nat {
        self.offset as nat
    }

    /// A cipher is well formed when key and counter block have the lengths
    /// AES-256-CTR takes.
    pub open spec fn wf(&self) -> bool {
        &&& self.key().len() == 32
        &&& self.iv().len() == 16
        &&& self.offset() <= u64::MAX
    }

    /// Creates the cipher at the start of its keystream. The key must be 32
    /// and the counter block 16 bytes long; anything else is rejected as an
    /// invalid key.
    pub fn new(key: &[u8], iv: &[u8]) -> (out: Result<Aes256Ctr, Error>)
        ensures
            key@.len() == 32 && iv@.len() == 16 ==> out is Ok && out->Ok_0.wf() && out->Ok_0.key()
                == key@ && out->Ok_0.iv() == iv@ && out->Ok_0.offset() == 0,
            !(key@.len() == 32 && iv@.len() == 16) ==> out == Err::<Aes256Ctr, Error>(
                Error::InvalidKey,
            ),
    {
        if key.len() != 32 || iv.len() != 16 {
            return Err(Error::InvalidKey);
        }
        let mut k: Vec<u8> = Vec::with_capacity(32);
        k.extend_from_slice(key);
        let mut v: Vec<u8> = Vec::with_capacity(16);
        v.extend_from_slice(iv);
        assert(k@ =~= key@);
        assert(v@ =~= iv@);
        Ok(Aes256Ctr { key: k, iv: v, offset: 0 })
    }

    /// How many keystream bytes were consumed so far.
    pub fn position(&self) -> (out: u64)
        ensures
            out == self.offset(),
    {
        self.offset
    }

    /// A copy of the key.
    pub fn key_bytes(&self) -> (out: Vec<u8>)
        ensures
            out@ == self.key(),
    {
        vstd::slice::slice_to_vec(self.key.as_slice())
    }

    /// Applies the next `data.len()` keystream bytes to `data` and returns
    /// the result; the cipher moves on by that many bytes.
    pub fn apply_keystream(&mut self, data: &[u8]) -> (out: Vec<u8>)
        requires
            old(self).wf(),
            old(self).offset() + data@.len() <= u64::MAX,
        ensures
            final(self).wf(),
            final(self).key() == old(self).key(),
            final(self).iv() == old(self).iv(),
            final(self).offset() == old(self).offset() + data@.len(),
            out@ == ctr_applied(old(self).key(), old(self).iv(), old(self).offset(), data@),
            out@.len() == data@.len(),
    {
        let out = aes256_ctr_apply(self.key.as_slice(), self.iv.as_slice(), self.offset, data);
        self.offset = self.offset + (data.len() as u64);
        out
    }
}

} // verus!
