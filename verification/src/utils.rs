//! Byte-level helpers shared by the MAC, the discovery packet and the
//! session.

use vstd::prelude::*;
use crate::error::Error;
use crate::primitives::{random_bytes, secp256k1_derive_public, secp256k1_public_key};

verus! {

/// Elementwise exclusive-or of two byte sequences, cut to the shorter one.
pub open spec fn xor_seq(a: Seq<u8>, b: Seq<u8>) -> Seq<u8> {
    Seq::new(
        if a.len() <= b.len() { a.len() } else { b.len() },
        |i: int| a[i] ^ b[i],
    )
}

/// The smallest multiple of 16 that is not below `n`.
pub open spec fn align_16_spec(n: int) -> int {
    ((n + 15) / 16) * 16
}

/// A node id as the uncompressed public key it stands for: the tag byte
/// `0x04` followed by the id.
pub open spec fn id2pk_spec(id: Seq<u8>) -> Seq<u8> {
    seq![4u8] + id
}

/// The 64-byte node id of a private key: its uncompressed public key without
/// the leading tag byte, or `None` where the key is invalid.
pub open spec fn pub_key_spec(private_key: Seq<u8>) -> Option<Seq<u8>> {
    match secp256k1_public_key(private_key) {
        Some(point) => Some(point.subrange(1, 65)),
        None => None,
    }
}

/// `n` zero bytes.
pub open spec fn zeros(n: nat) -> Seq<u8> {
    Seq::new(n, |i: int| 0u8)
}

/// `data` followed by as many zero bytes as bring it to `len` bytes.
pub fn zero_padded(data: &[u8], len: usize) -> (out: Vec<u8>)
    requires
        data@.len() <= len,
    ensures
        out@ == data@ + zeros((len - data@.len()) as nat),
        out@.len() == len,
{
    let mut out: Vec<u8> = Vec::with_capacity(len);
    out.extend_from_slice(data);
    let mut i: usize = data.len();
    while i < len
        invariant
            data@.len() <= i <= len,
            out@.len() == i,
            out@.subrange(0, data@.len() as int) == data@,
            forall|j: int| data@.len() <= j < i ==> out@[j] == 0,
        decreases len - i,
    {
        out.push(0u8);
        i += 1;
        assert(out@.subrange(0, data@.len() as int) =~= data@);
    }
    assert(out@ =~= data@ + zeros((len - data@.len()) as nat));
    out
}

/// A copy of the bytes of `data` from index `from` up to, not including,
/// index `to`.
pub fn copy_range(data: &[u8], from: usize, to: usize) -> (out: Vec<u8>)
    requires
        from <= to <= data@.len(),
    ensures
        out@ == data@.subrange(from as int, to as int),
{
    let mut out: Vec<u8> = Vec::with_capacity(to - from);
    out.extend_from_slice(vstd::slice::slice_subrange(data, from, to));
    assert(out@ =~= data@.subrange(from as int, to as int));
    out
}

/// The bytes of `a` followed by those of `b`.
pub fn concat(a: &[u8], b: &[u8]) -> (out: Vec<u8>)
    ensures
        out@ == a@ + b@,
{
    let mut out: Vec<u8> = Vec::new();
    out.extend_from_slice(a);
    out.extend_from_slice(b);
    assert(out@ =~= a@ + b@);
    out
}

/// Returns the elementwise exclusive-or of `a` and `b`. The result is as long
/// as the shorter input; the rest of the longer one is ignored.
pub fn xor(a: &[u8], b: &[u8]) -> (out: Vec<u8>)
    ensures
        out@ == xor_seq(a@, b@),
{
    let n: usize = if a.len() <= b.len() { a.len() } else { b.len() };
    let mut out: Vec<u8> = Vec::with_capacity(n);
    let mut i: usize = 0;
    while i < n
        invariant
            i <= n,
            n <= a.len(),
            n <= b.len(),
            out@.len() == i,
            forall|j: int| 0 <= j < i ==> out@[j] == a@[j] ^ b@[j],
        decreases n - i,
    {
        out.push(a[i] ^ b[i]);
        i += 1;
    }
    assert(out@ =~= xor_seq(a@, b@));
    out
}

/// Rounds `a` up to the next multiple of 16.
pub fn align_16(a: usize) -> (out: usize)
    requires
        a + 15 <= usize::MAX,
    ensures
        out == align_16_spec(a as int),
        out % 16 == 0,
        a <= out,
        out - a < 16,
{
    (a + 15) / 16 * 16
}

/// Prefixes a 64-byte node id with the tag `0x04` of an uncompressed point.
pub fn id2pk(id: &[u8]) -> (out: Vec<u8>)
    ensures
        out@ == id2pk_spec(id@),
        out@.len() == id@.len() + 1,
        out@[0] == 4,
        out@.subrange(1, out@.len() as int) == id@,
{
    let mut out: Vec<u8> = Vec::with_capacity(1);
    out.push(4u8);
    out.extend_from_slice(id);
    assert(out@ =~= id2pk_spec(id@));
    assert(out@.subrange(1, out@.len() as int) =~= id@);
    out
}

/// Derives the 64-byte node id of a private key. A key that is not a valid
/// secp256k1 scalar of 32 bytes is rejected. Prefixing the id with the tag
/// `0x04` gives the uncompressed public key back.
pub fn pub_key(private_key: &[u8]) -> (out: Result<Vec<u8>, Error>)
    ensures
        match out {
            Ok(id) => {
                &&& pub_key_spec(private_key@) == Some(id@)
                &&& id@.len() == 64
                &&& private_key@.len() == 32
                &&& secp256k1_public_key(private_key@) == Some(id2pk_spec(id@))
            },
            Err(e) => pub_key_spec(private_key@) is None && e == Error::InvalidKey,
        },
{
    match secp256k1_derive_public(private_key) {
        Some(point) => {
            let id = copy_range(point.as_slice(), 1, 65);
            assert(id2pk_spec(id@) =~= point@);
            Ok(id)
        },
        None => Err(Error::InvalidKey),
    }
}

/// Samples a fresh 32-byte nonce.
pub fn nonce() -> (out: Vec<u8>)
    ensures
        out@.len() == 32,
{
    random_bytes(32)
}

/// Exclusive-or with the same sequence twice gives back the first operand,
/// when the second operand is as long as the first, or longer.
pub proof fn lemma_xor_involution(a: Seq<u8>, b: Seq<u8>)
    requires
        a.len() <= b.len(),
    ensures
        xor_seq(xor_seq(a, b), b) == a,
{
    assert forall|i: int| 0 <= i < a.len() implies (a[i] ^ b[i]) ^ b[i] == a[i] by {
        let x: u8 = a[i];
        let y: u8 = b[i];
        assert((x ^ y) ^ y == x) by (bit_vector);
    }
    assert(xor_seq(xor_seq(a, b), b) =~= a);
}

/// Rounding up to a multiple of 16 gives a multiple of 16 and adds fewer
/// than 16.
pub proof fn lemma_align_16(n: int)
    requires
        0 <= n,
    ensures
        align_16_spec(n) % 16 == 0,
        n <= align_16_spec(n),
        align_16_spec(n) - n < 16,
{
}

/// No multiple of 16 that reaches `n` is smaller than `n` rounded up.
pub proof fn lemma_align_16_least(n: int, m: int)
    requires
        0 <= n <= m,
        m % 16 == 0,
    ensures
        align_16_spec(n) <= m,
{
}

/// Dropping the first byte of the public key built from an id gives the id
/// back.
pub proof fn lemma_id2pk_strip(id: Seq<u8>)
    ensures
        id2pk_spec(id).subrange(1, id2pk_spec(id).len() as int) == id,
{
    assert(id2pk_spec(id).subrange(1, id2pk_spec(id).len() as int) =~= id);
}

} // verus!
