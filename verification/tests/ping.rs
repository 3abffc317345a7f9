use p2p_handshake::error::Error;
use p2p_handshake::protocols::ping::{is_pong, ping, ping_data, ping_packet};
use p2p_handshake::protocols::Prot;
use p2p_handshake::rlpx::types::{Endpoint, Ping};
use p2p_handshake::utils::pub_key;
use sha3::{Digest, Keccak256};

const SIGNING_KEY: [u8; 32] = [0x42; 32];

fn local() -> Endpoint {
    Endpoint::new("127.0.0.1".to_string(), 8081, 8081)
}

#[test]
fn ping_data_has_version_4_and_expires_after_420_seconds() {
    let data = ping_data(local(), "10.1.2.3", 30303, 1_700_000_000);
    assert_eq!(data.version, 4);
    assert_eq!(data.from.address, "127.0.0.1");
    assert_eq!(data.from.udp_port, 8081);
    assert_eq!(data.from.tcp_port, 8081);
    assert_eq!(data.to.address, "10.1.2.3");
    assert_eq!(data.to.udp_port, 30303);
    assert_eq!(data.to.tcp_port, 0);
    assert_eq!(data.timestamp, 1_700_000_420);
}

#[test]
fn prot_builds_ping_data_for_its_node() {
    let prot = Prot::new("192.168.0.9", 30304);
    assert_eq!(prot.address(), "192.168.0.9");
    assert_eq!(prot.remote_port(), 30304);
    let data = prot.ping_data(local(), 1000);
    assert_eq!(data.to.address, "192.168.0.9");
    assert_eq!(data.to.udp_port, 30304);
    assert_eq!(data.timestamp, 1420);
}

#[test]
fn ping_packet_has_hash_signature_type_and_data() {
    let data = Ping::new(
        4,
        Endpoint::new("127.0.0.1".to_string(), 30303, 30303),
        Endpoint::new("127.0.0.1".to_string(), 30303, 0),
        1_700_000_000,
    );
    let encoded = data.encode();
    let packet = ping_packet(&data, &SIGNING_KEY).unwrap();
    assert_eq!(packet.len(), 32 + 65 + 1 + encoded.len());
    assert_eq!(&packet[..32], Keccak256::digest(&packet[32..]).as_slice());
    assert_eq!(packet[97], 0x01);
    assert_eq!(&packet[98..], &encoded[..]);

    let digest = Keccak256::digest(&packet[97..]);
    let signature = k256::ecdsa::Signature::from_slice(&packet[32..96]).unwrap();
    let recovery = k256::ecdsa::RecoveryId::from_byte(packet[96]).unwrap();
    assert!(packet[96] <= 1);
    let recovered =
        k256::ecdsa::VerifyingKey::recover_from_prehash(&digest, &signature, recovery).unwrap();
    assert_eq!(
        &recovered.to_encoded_point(false).as_bytes()[1..],
        &pub_key(&SIGNING_KEY).unwrap()[..]
    );
}

#[test]
fn ping_packet_is_deterministic_for_a_fixed_key() {
    let data = ping_data(local(), "127.0.0.1", 30303, 1_700_000_000);
    assert_eq!(ping_packet(&data, &SIGNING_KEY), ping_packet(&data, &SIGNING_KEY));
    assert_ne!(ping_packet(&data, &SIGNING_KEY), ping_packet(&data, &[0x43; 32]));
}

#[test]
fn ping_packet_fails_without_a_valid_signing_key() {
    let data = ping_data(local(), "127.0.0.1", 30303, 0);
    assert_eq!(ping_packet(&data, &[0u8; 32]), Err(Error::CryptoBackend));
    assert_eq!(ping_packet(&data, &[1u8; 5]), Err(Error::CryptoBackend));
}

#[test]
fn ping_signs_with_a_fresh_key_each_time() {
    let a = ping(local(), "127.0.0.1", 30303, 1_700_000_000).unwrap();
    let b = ping(local(), "127.0.0.1", 30303, 1_700_000_000).unwrap();
    assert_eq!(a[97], 0x01);
    assert_eq!(&a[..32], Keccak256::digest(&a[32..]).as_slice());
    assert_eq!(&a[97..], &b[97..]);
    assert_ne!(&a[32..97], &b[32..97]);
}

#[test]
fn pong_is_told_by_the_byte_at_offset_97() {
    let mut datagram = vec![0u8; 1024];
    assert!(!is_pong(&datagram));
    datagram[97] = 2;
    assert!(is_pong(&datagram));
    datagram[97] = 1;
    assert!(!is_pong(&datagram));
    assert!(!is_pong(&[2u8; 97]));
    assert!(is_pong(&[2u8; 98]));
    assert!(!is_pong(&[]));
    let packet = ping(local(), "127.0.0.1", 30303, 0).unwrap();
    assert!(!is_pong(&packet));
}
