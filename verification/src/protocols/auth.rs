//! The framing of the `ack` on the wire: two bytes of size, big-endian, and
//! then as many bytes as the size says.

use vstd::prelude::*;
use crate::utils::copy_range;

verus! {

/// The seconds a connection is kept open after the handshake.
pub const HOLD_OPEN_SECS: u64 = 5;

/// The length of the whole `ack` whose first bytes are `received`: the size
/// its first two bytes give, and those two bytes. `None` while fewer than two
/// bytes were received.
pub open spec fn ack_len_spec(received: Seq<u8>) -> Option<nat> {
    if received.len() < 2 {
        None
    } else {
        Some((received[0] as nat * 256 + received[1] as nat + 2) as nat)
    }
}

/// The `ack` at the start of `received`, once all of it was received.
pub open spec fn take_ack_spec(received: Seq<u8>) -> Option<Seq<u8>> {
    match ack_len_spec(received) {
        Some(len) => if received.len() >= len {
            Some(received.subrange(0, len as int))
        } else {
            None
        },
        None => None,
    }
}

/// The length of the whole `ack` whose first bytes are `received`, as soon
/// as its size was received.
pub fn ack_len(received: &[u8]) -> (out: Option<usize>)
    ensures
        match out {
            Some(len) => ack_len_spec(received@) == Some(len as nat),
            None => ack_len_spec(received@) is None,
        },
{
    if received.len() < 2 {
        None
    } else {
        Some((received[0] as usize) * 256 + (received[1] as usize) + 2)
    }
}

/// The `ack` at the start of `received`, or `None` while more bytes have to
/// be read. What follows the `ack` is left out.
pub fn take_ack(received: &[u8]) -> (out: Option<Vec<u8>>)
    ensures
        match out {
            Some(ack) => take_ack_spec(received@) == Some(ack@),
            None => take_ack_spec(received@) is None,
        },
{
    match ack_len(received) {
        Some(len) => {
            if received.len() >= len {
                Some(copy_range(received, 0, len))
            } else {
                None
            }
        },
        None => None,
    }
}

} // verus!
