use p2p_handshake::args::Args;
use p2p_handshake::error::Error;
use p2p_handshake::hex::{decode, digit};

#[test]
fn digits_have_their_values_in_either_case() {
    assert_eq!(digit(b'0'), Some(0));
    assert_eq!(digit(b'9'), Some(9));
    assert_eq!(digit(b'a'), Some(10));
    assert_eq!(digit(b'f'), Some(15));
    assert_eq!(digit(b'A'), Some(10));
    assert_eq!(digit(b'F'), Some(15));
    assert_eq!(digit(b'g'), None);
    assert_eq!(digit(b'G'), None);
    assert_eq!(digit(b'/'), None);
    assert_eq!(digit(b':'), None);
    assert_eq!(digit(b' '), None);
}

#[test]
fn hexadecimal_text_decodes_as_the_reference_decoder_does() {
    for text in ["", "00", "ff", "FF", "0a1B2c3D", "deadbeef", "0123456789abcdefABCDEF"] {
        assert_eq!(decode(text).unwrap(), hex::decode(text).unwrap());
    }
    assert_eq!(decode("0aff10").unwrap(), vec![0x0a, 0xff, 0x10]);
}

#[test]
fn malformed_hexadecimal_text_is_rejected() {
    for text in ["0", "abc", "zz", "0x12", "12 4", "\u{e1}\u{e1}", "1g"] {
        assert_eq!(decode(text), Err(Error::HexDecode));
        assert!(hex::decode(text).is_err());
    }
}

#[test]
fn arguments_default_to_the_local_address_and_port_30303() {
    let args = Args::new("ab".repeat(64));
    assert_eq!(args.address, "127.0.0.1");
    assert_eq!(args.port, 30303);
    assert_eq!(args.remote_id, "ab".repeat(64));
}

#[test]
fn remote_id_is_128_hexadecimal_digits() {
    let args = Args::new("0f".repeat(64));
    assert_eq!(args.remote_node_id(), Ok(vec![0x0f; 64]));
    assert_eq!(Args::new("0f".repeat(63)).remote_node_id(), Err(Error::HexDecode));
    assert_eq!(Args::new("0f".repeat(65)).remote_node_id(), Err(Error::HexDecode));
    assert_eq!(Args::new("0g".repeat(64)).remote_node_id(), Err(Error::HexDecode));
    assert_eq!(Args::new(String::new()).remote_node_id(), Err(Error::HexDecode));
    let args = Args { remote_id: "AB".repeat(64), address: "10.0.0.1".to_string(), port: 1 };
    assert_eq!(args.remote_node_id(), Ok(vec![0xab; 64]));
}

#[test]
fn every_error_has_its_message() {
    assert_eq!(Error::InvalidKey.message(), "malformed key material");
    assert_eq!(Error::CryptoBackend.message(), "cryptographic primitive failed");
    assert_eq!(Error::MalformedAck.message(), "malformed ack message");
    assert_eq!(Error::State.message(), "handshake step called out of order");
    assert_eq!(Error::OversizeFrame.message(), "frame body exceeds the 24-bit length field");
    assert_eq!(Error::Io.message(), "transport failure");
    assert_eq!(Error::Timeout.message(), "transport timeout");
    assert_eq!(Error::HexDecode.message(), "malformed hexadecimal input");
}
