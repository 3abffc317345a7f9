//! Recursive Length Prefix encoding of byte strings, integers and lists.
//!
//! An item is either a byte string or a list of items. A single byte below
//! `0x80` stands for itself; every other string and every list is preceded
//! by a header that gives the length of its payload.

use vstd::prelude::*;

verus! {

/// The big-endian digits of `n` in base 256, without leading zeros; empty
/// for zero.
pub open spec fn be_bytes(n: nat) -> Seq<u8>
    decreases n,
{
    if n == 0 {
        Seq::empty()
    } else {
        be_bytes(n / 256).push((n % 256) as u8)
    }
}

/// The number that big-endian digits stand for.
pub open spec fn from_be(digits: Seq<u8>) -> nat
    decreases digits.len(),
{
    if digits.len() == 0 {
        0
    } else {
        from_be(digits.drop_last()) * 256 + digits.last() as nat
    }
}

/// `256` to the power `k`.
pub open spec fn pow256(k: nat) -> nat
    decreases k,
{
    if k == 0 {
        1
    } else {
        256 * pow256((k - 1) as nat)
    }
}

/// The header of a payload of `len` bytes: `base` is `0x80` for a string and
/// `0xc0` for a list.
pub open spec fn rlp_header(base: nat, len: nat) -> Seq<u8> {
    if len < 56 {
        seq![(base + len) as u8]
    } else {
        seq![(base + 55 + be_bytes(len).len()) as u8] + be_bytes(len)
    }
}

/// The encoding of a byte string.
pub open spec fn rlp_bytes(data: Seq<u8>) -> Seq<u8> {
    if data.len() == 1 && data[0] < 0x80 {
        data
    } else {
        rlp_header(0x80, data.len()) + data
    }
}

/// The encoding of a non-negative integer: that of its big-endian digits.
pub open spec fn rlp_uint(n: nat) -> Seq<u8> {
    rlp_bytes(be_bytes(n))
}

/// The encoding of a list whose items, already encoded, make up `payload`.
pub open spec fn rlp_list(payload: Seq<u8>) -> Seq<u8> {
    rlp_header(0xc0, payload.len()) + payload
}

/// A number below `256^k` has at most `k` digits.
pub proof fn lemma_be_bytes_len(n: nat, k: nat)
    requires
        n < pow256(k),
    ensures
        be_bytes(n).len() <= k,
    decreases k,
{
    if n != 0 {
        assert(k > 0);
        lemma_be_bytes_len(n / 256, (k - 1) as nat);
    }
}

/// The first digit of a positive number is not zero.
pub proof fn lemma_be_bytes_leading(n: nat)
    requires
        n > 0,
    ensures
        be_bytes(n).len() > 0,
        be_bytes(n)[0] != 0,
    decreases n,
{
    if n / 256 > 0 {
        lemma_be_bytes_leading(n / 256);
    } else {
        assert(be_bytes(n / 256) =~= Seq::<u8>::empty());
    }
}

/// Reading the digits of a number gives the number back.
pub proof fn lemma_from_be_of_be_bytes(n: nat)
    ensures
        from_be(be_bytes(n)) == n,
    decreases n,
{
    if n != 0 {
        lemma_from_be_of_be_bytes(n / 256);
        assert(be_bytes(n).drop_last() =~= be_bytes(n / 256));
    }
}

/// Powers of 256 grow with the exponent.
pub proof fn lemma_pow256_mono(i: nat, j: nat)
    requires
        i <= j,
    ensures
        pow256(i) <= pow256(j),
        pow256(i) >= 1,
    decreases j,
{
    if i < j {
        lemma_pow256_mono(i, (j - 1) as nat);
    } else if i > 0 {
        lemma_pow256_mono((i - 1) as nat, (i - 1) as nat);
    }
}

/// Digits without a leading zero are the digits of the number they stand
/// for.
pub proof fn lemma_be_bytes_of_from_be(digits: Seq<u8>)
    requires
        digits.len() == 0 || digits[0] != 0,
    ensures
        be_bytes(from_be(digits)) == digits,
    decreases digits.len(),
{
    if digits.len() > 0 {
        let front = digits.drop_last();
        let n = from_be(digits);
        assert(n / 256 == from_be(front));
        assert(n % 256 == digits.last() as nat);
        if front.len() > 0 {
            lemma_be_bytes_of_from_be(front);
            lemma_from_be_positive(front);
        } else {
            assert(from_be(front) == 0);
            assert(digits.last() == digits[0]);
        }
        assert(n != 0);
        assert(be_bytes(n) == be_bytes(n / 256).push((n % 256) as u8));
        assert(be_bytes(n / 256).push((n % 256) as u8) =~= digits);
    } else {
        assert(digits =~= Seq::<u8>::empty());
    }
}

/// Digits that start with a non-zero digit stand for a positive number.
pub proof fn lemma_from_be_positive(digits: Seq<u8>)
    requires
        digits.len() > 0,
        digits[0] != 0,
    ensures
        from_be(digits) > 0,
    decreases digits.len(),
{
    if digits.len() > 1 {
        lemma_from_be_positive(digits.drop_last());
    } else {
        assert(digits.last() == digits[0]);
    }
}

/// `256^8` is the number of values of a 64-bit integer.
pub proof fn lemma_pow256_8()
    ensures
        pow256(8) == 0x1_0000_0000_0000_0000,
{
    reveal_with_fuel(pow256, 9);
}

/// The header of the item at the start of `s`, where a header made of
/// `digits` length digits follows the first byte: whether the item is a
/// list, where its payload starts and how long the payload is. The digits
/// have no leading zero and stand for a length of at least 56.
pub open spec fn long_header(s: Seq<u8>, is_list: bool, digits: nat) -> Option<(bool, nat, nat)> {
    if s.len() < 1 + digits {
        None
    } else {
        let d = s.subrange(1, 1 + digits as int);
        if d[0] == 0 || from_be(d) < 56 {
            None
        } else {
            Some((is_list, 1 + digits, from_be(d)))
        }
    }
}

/// The header of the item at the start of `s`: whether the item is a list,
/// where its payload starts and how long the payload is; `None` where `s`
/// starts with no header in its shortest form.
pub open spec fn item_header(s: Seq<u8>) -> Option<(bool, nat, nat)> {
    if s.len() == 0 {
        None
    } else {
        let b = s[0];
        if b < 0x80 {
            Some((false, 0nat, 1nat))
        } else if b < 0xb8 {
            let len = (b - 0x80) as nat;
            if len == 1 && s.len() >= 2 && s[1] < 0x80 {
                None
            } else {
                Some((false, 1nat, len))
            }
        } else if b < 0xc0 {
            long_header(s, false, (b - 0xb7) as nat)
        } else if b < 0xf8 {
            Some((true, 1nat, (b - 0xc0) as nat))
        } else {
            long_header(s, true, (b - 0xf7) as nat)
        }
    }
}

/// The item at the start of `s`: whether it is a list, its payload, and the
/// number of bytes the whole item takes; `None` where `s` does not start
/// with a complete item.
#[verifier::opaque]
pub open spec fn decode_item(s: Seq<u8>) -> Option<(bool, Seq<u8>, nat)> {
    match item_header(s) {
        Some((is_list, start, len)) => if start + len > s.len() {
            None
        } else {
            Some((is_list, s.subrange(start as int, (start + len) as int), start + len))
        },
        None => None,
    }
}

/// The byte strings that make up `payload`, in order; `None` where the
/// payload is not a sequence of complete byte-string items.
pub open spec fn decode_strings(payload: Seq<u8>) -> Option<Seq<Seq<u8>>>
    decreases payload.len(),
{
    if payload.len() == 0 {
        Some(Seq::empty())
    } else {
        match decode_item(payload) {
            Some((is_list, data, total)) => if is_list || total == 0 || total > payload.len() {
                None
            } else {
                match decode_strings(payload.skip(total as int)) {
                    Some(rest) => Some(seq![data] + rest),
                    None => None,
                }
            },
            None => None,
        }
    }
}

/// A canonical integer read from the payload of a byte-string item: its
/// digits have no leading zero.
pub open spec fn uint_of(digits: Seq<u8>) -> Option<nat> {
    if digits.len() > 0 && digits[0] == 0 {
        None
    } else {
        Some(from_be(digits))
    }
}

/// The byte string at the start of `s`: its content and the number of bytes
/// the item takes; `None` where `s` starts with no byte string.
#[verifier::opaque]
pub open spec fn take_bytes(s: Seq<u8>) -> Option<(Seq<u8>, nat)> {
    match decode_item(s) {
        Some((is_list, data, total)) => if is_list {
            None
        } else {
            Some((data, total))
        },
        None => None,
    }
}

/// The list at the start of `s`: its payload and the number of bytes the
/// item takes; `None` where `s` starts with no list.
#[verifier::opaque]
pub open spec fn take_list(s: Seq<u8>) -> Option<(Seq<u8>, nat)> {
    match decode_item(s) {
        Some((is_list, payload, total)) => if is_list {
            Some((payload, total))
        } else {
            None
        },
        None => None,
    }
}

/// The integer of at most `max` at the start of `s`: its value and the
/// number of bytes the item takes; `None` where `s` starts with no such
/// integer in its shortest form.
#[verifier::opaque]
pub open spec fn take_uint(s: Seq<u8>, max: nat) -> Option<(nat, nat)> {
    match take_bytes(s) {
        Some((digits, total)) => match uint_of(digits) {
            Some(value) => if value <= max {
                Some((value, total))
            } else {
                None
            },
            None => None,
        },
        None => None,
    }
}

/// Digits that start with a non-zero digit stand for a number that needs
/// all of them.
pub proof fn lemma_from_be_lower(digits: Seq<u8>)
    requires
        digits.len() > 0,
        digits[0] != 0,
    ensures
        from_be(digits) >= pow256((digits.len() - 1) as nat),
    decreases digits.len(),
{
    if digits.len() > 1 {
        lemma_from_be_lower(digits.drop_last());
        assert(pow256((digits.len() - 1) as nat) == 256 * pow256((digits.len() - 2) as nat));
    } else {
        assert(digits.last() == digits[0]);
        assert(pow256(0) == 1);
    }
}

/// What was encoded as a byte string is read back as it was, whatever
/// follows it.
pub proof fn lemma_take_bytes(data: Seq<u8>, rest: Seq<u8>)
    requires
        data.len() < pow256(8),
    ensures
        take_bytes(rlp_bytes(data) + rest) == Some((data, rlp_bytes(data).len())),
{
    reveal(decode_item);
    reveal(take_bytes);
    let s = rlp_bytes(data) + rest;
    lemma_pow256_8();
    if data.len() == 1 && data[0] < 0x80 {
        assert(s[0] == data[0]);
        assert(s.subrange(0, 1) =~= data);
    } else if data.len() < 56 {
        assert(s[0] == (0x80 + data.len()) as u8);
        if data.len() == 1 {
            assert(s[1] == data[0]);
        }
        assert(s.subrange(1, 1 + data.len() as int) =~= data);
    } else {
        let d = be_bytes(data.len());
        lemma_be_bytes_len(data.len(), 8);
        lemma_be_bytes_leading(data.len());
        lemma_from_be_of_be_bytes(data.len());
        assert(s[0] == (0x80 + 55 + d.len()) as u8);
        assert(s.subrange(1, 1 + d.len() as int) =~= d);
        assert(s.subrange(1 + d.len() as int, 1 + d.len() + data.len() as int) =~= data);
    }
}

/// What was encoded as a list is read back as it was, whatever follows it.
pub proof fn lemma_take_list(payload: Seq<u8>, rest: Seq<u8>)
    requires
        payload.len() < pow256(8),
    ensures
        take_list(rlp_list(payload) + rest) == Some((payload, rlp_list(payload).len())),
{
    reveal(decode_item);
    reveal(take_list);
    let s = rlp_list(payload) + rest;
    lemma_pow256_8();
    if payload.len() < 56 {
        assert(s[0] == (0xc0 + payload.len()) as u8);
        assert(s.subrange(1, 1 + payload.len() as int) =~= payload);
    } else {
        let d = be_bytes(payload.len());
        lemma_be_bytes_len(payload.len(), 8);
        lemma_be_bytes_leading(payload.len());
        lemma_from_be_of_be_bytes(payload.len());
        assert(s[0] == (0xc0 + 55 + d.len()) as u8);
        assert(s.subrange(1, 1 + d.len() as int) =~= d);
        assert(s.subrange(1 + d.len() as int, 1 + d.len() + payload.len() as int) =~= payload);
    }
}

/// What was encoded as an integer is read back as it was, whatever follows
/// it.
pub proof fn lemma_take_uint(n: nat, max: nat, rest: Seq<u8>)
    requires
        n <= max,
        n < pow256(8),
    ensures
        take_uint(rlp_uint(n) + rest, max) == Some((n, rlp_uint(n).len())),
{
    reveal(take_uint);
    lemma_pow256_8();
    lemma_be_bytes_len(n, 8);
    lemma_from_be_of_be_bytes(n);
    if n > 0 {
        lemma_be_bytes_leading(n);
    }
    lemma_take_bytes(be_bytes(n), rest);
}

/// Only the encoding of a byte string is read as that byte string: what is
/// read is encoded to the very bytes it was read from.
pub proof fn lemma_take_bytes_canonical(s: Seq<u8>)
    requires
        take_bytes(s) is Some,
    ensures
        take_bytes(s)->Some_0.1 <= s.len(),
        s.subrange(0, take_bytes(s)->Some_0.1 as int) == rlp_bytes(take_bytes(s)->Some_0.0),
{
    reveal(decode_item);
    reveal(take_bytes);
    let (data, total) = take_bytes(s)->Some_0;
    let b = s[0];
    if b < 0x80 {
        assert(s.subrange(0, total as int) =~= rlp_bytes(data));
    } else if b < 0xb8 {
        assert(s.subrange(0, total as int) =~= rlp_bytes(data));
    } else {
        let digits = s.subrange(1, 1 + (b - 0xb7) as int);
        lemma_be_bytes_of_from_be(digits);
        assert(s.subrange(0, total as int) =~= rlp_bytes(data));
    }
}

/// Only the encoding of a list is read as that list.
pub proof fn lemma_take_list_canonical(s: Seq<u8>)
    requires
        take_list(s) is Some,
    ensures
        take_list(s)->Some_0.1 <= s.len(),
        s.subrange(0, take_list(s)->Some_0.1 as int) == rlp_list(take_list(s)->Some_0.0),
{
    reveal(decode_item);
    reveal(take_list);
    let (payload, total) = take_list(s)->Some_0;
    let b = s[0];
    if b < 0xf8 {
        assert(s.subrange(0, total as int) =~= rlp_list(payload));
    } else {
        let digits = s.subrange(1, 1 + (b - 0xf7) as int);
        lemma_be_bytes_of_from_be(digits);
        assert(s.subrange(0, total as int) =~= rlp_list(payload));
    }
}

/// Only the encoding of an integer is read as that integer.
pub proof fn lemma_take_uint_canonical(s: Seq<u8>, max: nat)
    requires
        take_uint(s, max) is Some,
    ensures
        take_uint(s, max)->Some_0.0 <= max,
        take_uint(s, max)->Some_0.1 <= s.len(),
        s.subrange(0, take_uint(s, max)->Some_0.1 as int) == rlp_uint(take_uint(s, max)->Some_0.0),
{
    reveal(take_uint);
    let digits = take_bytes(s)->Some_0.0;
    lemma_take_bytes_canonical(s);
    lemma_be_bytes_of_from_be(digits);
}

/// An encoded item is never empty.
pub proof fn lemma_rlp_nonempty(data: Seq<u8>)
    ensures
        rlp_bytes(data).len() > 0,
        rlp_list(data).len() > 0,
        rlp_bytes(data).len() >= data.len(),
        rlp_list(data).len() >= data.len(),
{
}

/// The big-endian digits of `n` without leading zeros.
pub fn be_encode(n: u64) -> (out: Vec<u8>)
    ensures
        out@ == be_bytes(n as nat),
        out@.len() <= 8,
{
    let mut out: Vec<u8> = Vec::new();
    let mut rest: u64 = n;
    while rest > 0
        invariant
            be_bytes(n as nat) == be_bytes(rest as nat) + out@,
        decreases rest,
    {
        let digit: u8 = (rest % 256) as u8;
        let ghost before = out@;
        out.insert(0, digit);
        proof {
            assert(out@ =~= seq![digit] + before);
            assert(be_bytes(rest as nat) == be_bytes((rest / 256) as nat).push(digit));
            assert(be_bytes((rest / 256) as nat).push(digit) + before =~= be_bytes(
                (rest / 256) as nat,
            ) + out@);
        }
        rest = rest / 256;
    }
    proof {
        assert(be_bytes(0) + out@ =~= out@);
        lemma_pow256_8();
        lemma_be_bytes_len(n as nat, 8);
    }
    out
}

/// The header of a payload of `len` bytes under `base`, which is `0x80` for
/// a string and `0xc0` for a list.
pub fn encode_header(base: u8, len: usize) -> (out: Vec<u8>)
    requires
        base == 0x80 || base == 0xc0,
    ensures
        out@ == rlp_header(base as nat, len as nat),
        1 <= out@.len() <= 9,
{
    let mut out: Vec<u8> = Vec::new();
    if len < 56 {
        out.push(base + (len as u8));
        assert(out@ =~= rlp_header(base as nat, len as nat));
    } else {
        let digits = be_encode(len as u64);
        out.push(base + 55 + (digits.len() as u8));
        out.extend_from_slice(digits.as_slice());
        assert(out@ =~= rlp_header(base as nat, len as nat));
    }
    out
}

/// Encodes a byte string.
pub fn encode_bytes(data: &[u8]) -> (out: Vec<u8>)
    ensures
        out@ == rlp_bytes(data@),
{
    if data.len() == 1 && data[0] < 0x80 {
        let mut out: Vec<u8> = Vec::new();
        out.push(data[0]);
        assert(out@ =~= data@);
        out
    } else {
        let mut out = encode_header(0x80, data.len());
        out.extend_from_slice(data);
        assert(out@ =~= rlp_header(0x80, data@.len()) + data@);
        out
    }
}

/// Encodes a non-negative integer.
pub fn encode_uint(n: u64) -> (out: Vec<u8>)
    ensures
        out@ == rlp_uint(n as nat),
{
    let digits = be_encode(n);
    encode_bytes(digits.as_slice())
}

/// Encodes a list from the concatenated encodings of its items.
pub fn encode_list(payload: &[u8]) -> (out: Vec<u8>)
    ensures
        out@ == rlp_list(payload@),
{
    let mut out = encode_header(0xc0, payload.len());
    out.extend_from_slice(payload);
    assert(out@ =~= rlp_header(0xc0, payload@.len()) + payload@);
    out
}

/// Encodes a text as the byte string of its UTF-8 form.
pub fn encode_str(text: &str) -> (out: Vec<u8>)
    ensures
        out@ == rlp_bytes(vstd::utf8::encode_utf8(text@)),
{
    encode_bytes(text.as_bytes())
}

/// The number that at most eight big-endian digits stand for.
pub fn be_decode(digits: &[u8]) -> (out: u64)
    requires
        digits@.len() <= 8,
    ensures
        out == from_be(digits@),
{
    let mut acc: u64 = 0;
    let mut i: usize = 0;
    proof {
        lemma_pow256_8();
        assert(digits@.subrange(0, 0) =~= Seq::<u8>::empty());
    }
    while i < digits.len()
        invariant
            i <= digits@.len() <= 8,
            acc == from_be(digits@.subrange(0, i as int)),
            acc < pow256(i as nat),
            pow256(8) == 0x1_0000_0000_0000_0000,
        decreases digits.len() - i,
    {
        proof {
            let next = digits@.subrange(0, i + 1);
            assert(next.drop_last() =~= digits@.subrange(0, i as int));
            assert(next.last() == digits@[i as int]);
            lemma_pow256_mono((i + 1) as nat, 8);
            assert(pow256((i + 1) as nat) == 256 * pow256(i as nat));
        }
        acc = acc * 256 + (digits[i] as u64);
        i += 1;
    }
    assert(digits@.subrange(0, i as int) =~= digits@);
    acc
}

/// Reads the item that starts at index `pos` of `buf`: whether it is a
/// list, and the range of `buf` that holds its payload. The item ends where
/// its payload ends.
pub fn decode_item_at(buf: &[u8], pos: usize) -> (out: Option<(bool, usize, usize)>)
    requires
        pos <= buf@.len(),
    ensures
        match out {
            Some((is_list, start, end)) => {
                &&& pos <= start <= end <= buf@.len()
                &&& pos < end
                &&& decode_item(buf@.skip(pos as int)) == Some(
                    (is_list, buf@.subrange(start as int, end as int), (end - pos) as nat),
                )
            },
            None => decode_item(buf@.skip(pos as int)) is None,
        },
{
    reveal(decode_item);
    let ghost s = buf@.skip(pos as int);
    if pos >= buf.len() {
        return None;
    }
    let rest: usize = buf.len() - pos;
    let b: u8 = buf[pos];
    assert(s[0] == b);
    if b < 0x80 {
        assert(s.subrange(0, 1) =~= buf@.subrange(pos as int, pos + 1));
        Some((false, pos, pos + 1))
    } else if b < 0xb8 {
        let len: usize = (b - 0x80) as usize;
        if len == 1 && rest >= 2 && buf[pos + 1] < 0x80 {
            assert(s[1] == buf@[pos + 1]);
            None
        } else if 1 + len > rest {
            None
        } else {
            assert(s.subrange(1, 1 + len) =~= buf@.subrange(pos + 1, pos + 1 + len));
            Some((false, pos + 1, pos + 1 + len))
        }
    } else if b >= 0xc0 && b < 0xf8 {
        let len: usize = (b - 0xc0) as usize;
        if 1 + len > rest {
            None
        } else {
            assert(s.subrange(1, 1 + len) =~= buf@.subrange(pos + 1, pos + 1 + len));
            Some((true, pos + 1, pos + 1 + len))
        }
    } else {
        let is_list: bool = b >= 0xc0;
        let digits: usize = if is_list {
            (b - 0xf7) as usize
        } else {
            (b - 0xb7) as usize
        };
        if rest < 1 + digits {
            return None;
        }
        let d = vstd::slice::slice_subrange(buf, pos + 1, pos + 1 + digits);
        assert(d@ =~= s.subrange(1, 1 + digits));
        if d[0] == 0 {
            return None;
        }
        let len: u64 = be_decode(d);
        if len < 56 {
            return None;
        }
        if len > (rest - 1 - digits) as u64 {
            return None;
        }
        let start: usize = pos + 1 + digits;
        let end: usize = start + (len as usize);
        assert(s.subrange(1 + digits, 1 + digits + len) =~= buf@.subrange(
            start as int,
            end as int,
        ));
        Some((is_list, start, end))
    }
}

/// Reads the byte string that starts at index `pos` of `buf`: its content
/// and the index where the next item starts.
pub fn read_bytes(buf: &[u8], pos: usize) -> (out: Option<(Vec<u8>, usize)>)
    requires
        pos <= buf@.len(),
    ensures
        match out {
            Some((data, next)) => pos < next <= buf@.len() && take_bytes(buf@.skip(pos as int))
                == Some((data@, (next - pos) as nat)),
            None => take_bytes(buf@.skip(pos as int)) is None,
        },
{
    reveal(take_bytes);
    match decode_item_at(buf, pos) {
        Some((is_list, start, end)) => {
            if is_list {
                None
            } else {
                let data = vstd::slice::slice_to_vec(vstd::slice::slice_subrange(buf, start, end));
                Some((data, end))
            }
        },
        None => None,
    }
}

/// Reads the list that starts at index `pos` of `buf`: the range of `buf`
/// that holds its payload. The next item starts where the payload ends.
pub fn read_list(buf: &[u8], pos: usize) -> (out: Option<(usize, usize)>)
    requires
        pos <= buf@.len(),
    ensures
        match out {
            Some((start, end)) => pos < end <= buf@.len() && pos <= start <= end && take_list(
                buf@.skip(pos as int),
            ) == Some((buf@.subrange(start as int, end as int), (end - pos) as nat)),
            None => take_list(buf@.skip(pos as int)) is None,
        },
{
    reveal(take_list);
    match decode_item_at(buf, pos) {
        Some((is_list, start, end)) => {
            if is_list {
                Some((start, end))
            } else {
                None
            }
        },
        None => None,
    }
}

/// Reads the integer of at most `max` that starts at index `pos` of `buf`:
/// its value and the index where the next item starts.
pub fn read_uint(buf: &[u8], pos: usize, max: u64) -> (out: Option<(u64, usize)>)
    requires
        pos <= buf@.len(),
    ensures
        match out {
            Some((value, next)) => pos < next <= buf@.len() && value <= max && take_uint(
                buf@.skip(pos as int),
                max as nat,
            ) == Some((value as nat, (next - pos) as nat)),
            None => take_uint(buf@.skip(pos as int), max as nat) is None,
        },
{
    reveal(take_bytes);
    reveal(take_uint);
    match decode_item_at(buf, pos) {
        Some((is_list, start, end)) => {
            if is_list {
                return None;
            }
            let digits = vstd::slice::slice_subrange(buf, start, end);
            if digits.len() > 0 && digits[0] == 0 {
                return None;
            }
            if digits.len() > 8 {
                proof {
                    lemma_from_be_lower(digits@);
                    lemma_pow256_8();
                    lemma_pow256_mono(8, (digits@.len() - 1) as nat);
                }
                return None;
            }
            let value = be_decode(digits);
            if value <= max {
                Some((value, end))
            } else {
                None
            }
        },
        None => None,
    }
}

/// Reads `payload` as a sequence of byte-string items and returns their
/// contents in order.
pub fn decode_string_items(payload: &[u8]) -> (out: Option<Vec<Vec<u8>>>)
    ensures
        match out {
            Some(items) => decode_strings(payload@) == Some(items@.map_values(|v: Vec<u8>| v@)),
            None => decode_strings(payload@) is None,
        },
{
    let mut items: Vec<Vec<u8>> = Vec::new();
    let mut pos: usize = 0;
    assert(payload@.skip(0) =~= payload@);
    assert(items@.map_values(|v: Vec<u8>| v@) =~= Seq::<Seq<u8>>::empty());
    assert(Seq::<Seq<u8>>::empty() + decode_strings(payload@.skip(0))->Some_0 =~= decode_strings(
        payload@.skip(0),
    )->Some_0);
    while pos < payload.len()
        invariant
            pos <= payload@.len(),
            decode_strings(payload@) == match decode_strings(payload@.skip(pos as int)) {
                Some(rest) => Some(items@.map_values(|v: Vec<u8>| v@) + rest),
                None => None,
            },
        decreases payload.len() - pos,
    {
        let ghost before = items@.map_values(|v: Vec<u8>| v@);
        let ghost s = payload@.skip(pos as int);
        match decode_item_at(payload, pos) {
            Some((is_list, start, end)) => {
                if is_list {
                    return None;
                }
                let data = vstd::slice::slice_to_vec(
                    vstd::slice::slice_subrange(payload, start, end),
                );
                items.push(data);
                proof {
                    assert(s.skip(end - pos) =~= payload@.skip(end as int));
                    assert(items@.map_values(|v: Vec<u8>| v@) =~= before + seq![data@]);
                    match decode_strings(payload@.skip(end as int)) {
                        Some(rest) => {
                            assert(before + (seq![data@] + rest) =~= (before + seq![data@])
                                + rest);
                        },
                        None => {},
                    }
                }
                pos = end;
            },
            None => {
                return None;
            },
        }
    }
    proof {
        assert(decode_strings(payload@.skip(pos as int)) == Some(Seq::<Seq<u8>>::empty()));
        assert(items@.map_values(|v: Vec<u8>| v@) + Seq::<Seq<u8>>::empty()
            =~= items@.map_values(|v: Vec<u8>| v@));
    }
    Some(items)
}

} // verus!
