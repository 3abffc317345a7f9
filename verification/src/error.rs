//! The failures a handshake can end in.

use vstd::prelude::*;

verus! {

/// Why an operation of the library failed. Every failure is fatal to the
/// handshake it occurred in.
#[derive(Clone, Copy, Debug, PartialEq, Eq, Structural)]
pub enum Error {
    /// Private or public key material is malformed.
    InvalidKey,
    /// A cryptographic primitive failed.
    CryptoBackend,
    /// The decrypted ack is too short or is not the expected RLP list.
    MalformedAck,
    /// A handshake step was called out of order.
    State,
    /// The frame body does not fit the 24-bit length field.
    OversizeFrame,
    /// The transport failed.
    Io,
    /// The transport reported a timeout.
    Timeout,
    /// A textual input is not valid hexadecimal of the expected length.
    HexDecode,
}

impl Error {
    /// A short human-readable description of the failure.
    pub fn message(&self) -> (text: &'static str)
        ensures
            text@ == Self::message_of(*self),
    {
        match self {
            Error::InvalidKey => "malformed key material",
            Error::CryptoBackend => "cryptographic primitive failed",
            Error::MalformedAck => "malformed ack message",
            Error::State => "handshake step called out of order",
            Error::OversizeFrame => "frame body exceeds the 24-bit length field",
            Error::Io => "transport failure",
            Error::Timeout => "transport timeout",
            Error::HexDecode => "malformed hexadecimal input",
        }
    }

    /// The text that [`Error::message`] returns for each failure.
    pub open spec fn message_of(e: Error) -> Seq<char> {
        match e {
            Error::InvalidKey => "malformed key material"@,
            Error::CryptoBackend => "cryptographic primitive failed"@,
            Error::MalformedAck => "malformed ack message"@,
            Error::State => "handshake step called out of order"@,
            Error::OversizeFrame => "frame body exceeds the 24-bit length field"@,
            Error::Io => "transport failure"@,
            Error::Timeout => "transport timeout"@,
            Error::HexDecode => "malformed hexadecimal input"@,
        }
    }
}

} // verus!
