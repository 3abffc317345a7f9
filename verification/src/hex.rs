//! Hexadecimal text as bytes.

use vstd::prelude::*;
use crate::error::Error;

verus! {

/// The value of a hexadecimal digit given as its character code, in either
/// case; `None` for any other byte.
pub open spec fn digit_value(c: u8) -> Option<u8> {
    if 0x30 <= c <= 0x39 {
        Some((c - 0x30) as u8)
    } else if 0x61 <= c <= 0x66 {
        Some((c - 0x61 + 10) as u8)
    } else if 0x41 <= c <= 0x46 {
        Some((c - 0x41 + 10) as u8)
    } else {
        None
    }
}

/// Whether `text` is an even number of hexadecimal digits.
pub open spec fn is_hex(text: Seq<u8>) -> bool {
    &&& text.len() % 2 == 0
    &&& forall|i: int| 0 <= i < text.len() ==> (#[trigger] digit_value(text[i])) is Some
}

/// The bytes that hexadecimal text stands for: each pair of digits is one
/// byte, the first digit its upper half.
pub open spec fn decoded(text: Seq<u8>) -> Seq<u8> {
    Seq::new(
        text.len() / 2,
        |i: int| (digit_value(text[2 * i])->Some_0 * 16 + digit_value(text[2 * i + 1])->Some_0) as u8,
    )
}

/// The value of one hexadecimal digit.
pub fn digit(c: u8) -> (out: Option<u8>)
    ensures
        out == digit_value(c),
        out is Some ==> out->Some_0 < 16,
{
    if 0x30 <= c && c <= 0x39 {
        Some(c - 0x30)
    } else if 0x61 <= c && c <= 0x66 {
        Some(c - 0x61 + 10)
    } else if 0x41 <= c && c <= 0x46 {
        Some(c - 0x41 + 10)
    } else {
        None
    }
}

/// Decodes hexadecimal text. Text of odd length or with a character that is
/// no hexadecimal digit is rejected.
pub fn decode(text: &str) -> (out: Result<Vec<u8>, Error>)
    ensures
        match out {
            Ok(bytes) => is_hex(vstd::utf8::encode_utf8(text@)) && bytes@ == decoded(
                vstd::utf8::encode_utf8(text@),
            ),
            Err(e) => !is_hex(vstd::utf8::encode_utf8(text@)) && e == Error::HexDecode,
        },
{
    let chars = text.as_bytes();
    if chars.len() % 2 != 0 {
        return Err(Error::HexDecode);
    }
    let count: usize = chars.len() / 2;
    let mut bytes: Vec<u8> = Vec::with_capacity(count);
    let mut i: usize = 0;
    while i < count
        invariant
            i <= count,
            count * 2 == chars@.len(),
            count * 2 <= usize::MAX,
            chars@ == vstd::utf8::encode_utf8(text@),
            bytes@.len() == i,
            forall|j: int| 0 <= j < 2 * i ==> (#[trigger] digit_value(chars@[j])) is Some,
            forall|j: int| 0 <= j < i ==> bytes@[j] == decoded(chars@)[j],
        decreases count - i,
    {
        let high = match digit(chars[2 * i]) {
            Some(value) => value,
            None => {
                assert(digit_value(chars@[2 * i]) is None);
                return Err(Error::HexDecode);
            },
        };
        let low = match digit(chars[2 * i + 1]) {
            Some(value) => value,
            None => {
                assert(digit_value(chars@[2 * i + 1]) is None);
                return Err(Error::HexDecode);
            },
        };
        bytes.push(high * 16 + low);
        i += 1;
    }
    assert(bytes@ =~= decoded(chars@));
    Ok(bytes)
}

} // verus!
