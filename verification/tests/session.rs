use aes::cipher::{KeyIvInit, StreamCipher};
use p2p_handshake::error::Error;
use p2p_handshake::ffi::EncFfi;
use p2p_handshake::mac::Mac;
use p2p_handshake::rlpx::types::AckMsg;
use p2p_handshake::rlpx::{derive_secrets, envelope_size, hello_body, seal_frame, Rlpx, Stage};
use p2p_handshake::stream::Aes256Ctr;
use p2p_handshake::utils::{align_16, id2pk, pub_key, xor};
use sha3::{Digest, Keccak256};

const LOCAL_KEY: [u8; 32] = [0x11; 32];
const REMOTE_KEY: [u8; 32] = [0x22; 32];
const EPHEMERAL_KEY: [u8; 32] = [0x33; 32];
const LOCAL_NONCE: [u8; 32] = [0x44; 32];
const SENDER_KEY: [u8; 32] = [0x55; 32];
const IV: [u8; 16] = [0x66; 16];
const REMOTE_EPHEMERAL_KEY: [u8; 32] = [0x77; 32];
const REMOTE_NONCE: [u8; 32] = [0x88; 32];

fn keccak(data: &[u8]) -> Vec<u8> {
    Keccak256::digest(data).to_vec()
}

fn session() -> Rlpx {
    let remote_id = pub_key(&REMOTE_KEY).unwrap();
    Rlpx::with_secrets(&LOCAL_KEY, &remote_id, &EPHEMERAL_KEY, &LOCAL_NONCE).unwrap()
}

fn ack_with_body(body: &[u8], padding: usize) -> Vec<u8> {
    let mut plain = body.to_vec();
    plain.resize(body.len() + padding, 0);
    let total = plain.len() + 113;
    let size = [(total / 256) as u8, (total % 256) as u8];
    let local_id = pub_key(&LOCAL_KEY).unwrap();
    let envelope =
        EncFfi::tagged_kdf_with(&plain, &id2pk(&local_id), &size, &[0x99; 32], &[0xaa; 16]).unwrap();
    let mut ack = size.to_vec();
    ack.extend_from_slice(&envelope);
    ack
}

fn ack() -> Vec<u8> {
    let remote_ephemeral_id = pub_key(&REMOTE_EPHEMERAL_KEY).unwrap();
    let body = AckMsg::new(remote_ephemeral_id, REMOTE_NONCE.to_vec(), 4).encode();
    ack_with_body(&body, 120)
}

fn secured() -> Rlpx {
    let mut s = session();
    s.get_auth_with(100, &SENDER_KEY, &IV).unwrap();
    s.parse_ack(&ack()).unwrap();
    s
}

#[test]
fn new_session_starts_in_init_and_holds_nothing_yet() {
    let s = session();
    assert_eq!(s.stage(), Stage::Init);
    assert_eq!(s.local_id(), pub_key(&LOCAL_KEY).unwrap());
    assert_eq!(s.local_nonce(), LOCAL_NONCE.to_vec());
    assert!(s.initiator_auth_bytes().is_none());
    assert!(s.aes_secret().is_none());
    assert!(s.mac_secret().is_none());
    assert!(s.remote_nonce().is_none());
}

#[test]
fn session_rejects_an_invalid_private_key() {
    let remote_id = pub_key(&REMOTE_KEY).unwrap();
    assert!(matches!(Rlpx::with_private_key(&[0u8; 32], &remote_id), Err(Error::InvalidKey)));
    assert!(matches!(Rlpx::with_private_key(&[1u8; 31], &remote_id), Err(Error::InvalidKey)));
    assert!(matches!(Rlpx::with_private_key(&[0xff; 32], &remote_id), Err(Error::InvalidKey)));
    assert!(matches!(
        Rlpx::with_secrets(&LOCAL_KEY, &remote_id, &[0u8; 32], &LOCAL_NONCE),
        Err(Error::InvalidKey)
    ));
    assert!(Rlpx::with_private_key(&LOCAL_KEY, &remote_id).is_ok());
}

#[test]
fn fresh_sessions_differ_in_nonce() {
    let remote_id = pub_key(&REMOTE_KEY).unwrap();
    let a = Rlpx::with_private_key(&LOCAL_KEY, &remote_id).unwrap();
    let b = Rlpx::with_private_key(&LOCAL_KEY, &remote_id).unwrap();
    assert_eq!(a.local_nonce().len(), 32);
    assert_ne!(a.local_nonce(), b.local_nonce());
}

#[test]
fn auth_with_fixed_randomness_has_the_expected_length_and_layout() {
    let mut s = session();
    let auth = s.get_auth_with(100, &SENDER_KEY, &IV).unwrap();
    assert_eq!(auth.len(), 2 + 113 + 169 + 100);
    assert_eq!(&auth[..2], &[(382 / 256) as u8, (382 % 256) as u8]);
    assert_eq!(auth[2], 0x04);
    assert_eq!(&auth[3..67], &pub_key(&SENDER_KEY).unwrap()[..]);
    assert_eq!(&auth[67..83], &IV);
    assert_eq!(s.stage(), Stage::AuthSent);
    assert_eq!(s.initiator_auth_bytes(), Some(auth));
}

#[test]
fn auth_is_deterministic_under_fixed_randomness() {
    let a = session().get_auth_with(100, &SENDER_KEY, &IV).unwrap();
    let b = session().get_auth_with(100, &SENDER_KEY, &IV).unwrap();
    assert_eq!(a, b);
    assert_eq!(a.len(), 2 + 113 + 169 + 100);
    assert_eq!(
        keccak(&a),
        [
            0xc9, 0xee, 0xab, 0x1f, 0xa0, 0x8c, 0x7e, 0xd7, 0x57, 0x2d, 0xf8, 0xd5, 0x65, 0x11,
            0x64, 0xc2, 0x49, 0xe1, 0x61, 0x11, 0x5e, 0x58, 0x14, 0x45, 0x37, 0x7b, 0xf9, 0x7d,
            0x29, 0x82, 0x4c, 0x3b
        ]
    );
    assert_eq!(
        &a[a.len() - 32..],
        &[
            0x57, 0x14, 0xc6, 0x46, 0x11, 0x2a, 0xa4, 0x11, 0x3a, 0x9a, 0x9d, 0x9a, 0xf6, 0x2f,
            0xa9, 0x6b, 0xcc, 0x84, 0xf5, 0xd8, 0xae, 0x26, 0x7d, 0x0c, 0xcd, 0x0f, 0x05, 0x17,
            0xec, 0xe3, 0xa5, 0x5f
        ]
    );
    let c = session().get_auth_with(101, &SENDER_KEY, &IV).unwrap();
    assert_eq!(c.len(), a.len() + 1);
    let d = session().get_auth_with(100, &SENDER_KEY, &[0x67; 16]).unwrap();
    assert_ne!(a, d);
}

#[test]
fn auth_opens_for_the_remote_node_and_carries_the_signed_body() {
    let mut s = session();
    let auth = s.get_auth_with(100, &SENDER_KEY, &IV).unwrap();
    let local_id = pub_key(&LOCAL_KEY).unwrap();

    let key = EncFfi::concat_kdf(&auth, &REMOTE_KEY).unwrap();
    let mut plain = auth[83..auth.len() - 32].to_vec();
    let mut cipher = ctr::Ctr64BE::<aes::Aes128>::new(key.as_slice().into(), (&IV).into());
    cipher.apply_keystream(&mut plain);

    let body = rlp::Rlp::new(&plain[..169]);
    assert_eq!(body.item_count().unwrap(), 4);
    let sig: Vec<u8> = body.val_at(0).unwrap();
    let id: Vec<u8> = body.val_at(1).unwrap();
    let nonce: Vec<u8> = body.val_at(2).unwrap();
    let version: u16 = body.val_at(3).unwrap();
    assert_eq!(sig.len(), 65);
    assert_eq!(id, local_id);
    assert_eq!(nonce, LOCAL_NONCE.to_vec());
    assert_eq!(version, 4);
    assert!(plain[169..].iter().all(|b| *b == 0));
    assert_eq!(plain.len(), 269);

    let shared = EncFfi::ecdhx(&REMOTE_KEY, &id2pk(&local_id)).unwrap();
    let signed = xor(&shared, &LOCAL_NONCE);
    let signature = k256::ecdsa::Signature::from_slice(&sig[..64]).unwrap();
    let recovery = k256::ecdsa::RecoveryId::from_byte(sig[64]).unwrap();
    let recovered =
        k256::ecdsa::VerifyingKey::recover_from_prehash(&signed, &signature, recovery).unwrap();
    let ephemeral_id = pub_key(&EPHEMERAL_KEY).unwrap();
    assert_eq!(&recovered.to_encoded_point(false).as_bytes()[1..], &ephemeral_id[..]);
}

#[test]
fn auth_with_sampled_randomness_is_within_the_padding_bounds() {
    for _ in 0..20 {
        let mut s = session();
        let auth = s.get_auth().unwrap();
        assert!(auth.len() >= 169 + 100 + 113 + 2);
        assert!(auth.len() <= 169 + 250 + 113 + 2);
        let size = (auth[0] as usize) * 256 + auth[1] as usize;
        assert_eq!(size + 2, auth.len());
        assert_eq!(s.initiator_auth_bytes(), Some(auth));
        assert_eq!(s.stage(), Stage::AuthSent);
    }
}

#[test]
fn auth_tag_authenticates_iv_ciphertext_and_size() {
    let auth = session().get_auth_with(100, &SENDER_KEY, &IV).unwrap();
    let shared = EncFfi::ecdhx(&REMOTE_KEY, &auth[2..67]).unwrap();
    let material = EncFfi::kdf(&shared);
    let mut mac = <hmac::Hmac<sha2::Sha256> as hmac::Mac>::new_from_slice(&material[16..]).unwrap();
    hmac::Mac::update(&mut mac, &auth[67..auth.len() - 32]);
    hmac::Mac::update(&mut mac, &auth[..2]);
    assert_eq!(&auth[auth.len() - 32..], hmac::Mac::finalize(mac).into_bytes().as_slice());
}

#[test]
fn auth_fails_for_a_remote_id_that_is_no_point() {
    let mut s = Rlpx::with_secrets(&LOCAL_KEY, &[0u8; 64], &EPHEMERAL_KEY, &LOCAL_NONCE).unwrap();
    assert_eq!(s.get_auth_with(100, &SENDER_KEY, &IV), Err(Error::InvalidKey));
    assert_eq!(s.stage(), Stage::Init);
    assert!(s.initiator_auth_bytes().is_none());
    let mut short = Rlpx::with_secrets(&LOCAL_KEY, &[1u8; 10], &EPHEMERAL_KEY, &LOCAL_NONCE).unwrap();
    assert_eq!(short.get_auth(), Err(Error::InvalidKey));
}

#[test]
fn auth_a_second_time_fails_with_state_error() {
    let mut s = session();
    let first = s.get_auth_with(100, &SENDER_KEY, &IV).unwrap();
    assert_eq!(s.get_auth_with(100, &SENDER_KEY, &IV), Err(Error::State));
    assert_eq!(s.get_auth(), Err(Error::State));
    assert_eq!(s.initiator_auth_bytes(), Some(first));
}

#[test]
fn ack_before_auth_fails_with_state_error() {
    let mut s = session();
    assert_eq!(s.parse_ack(&ack()), Err(Error::State));
    assert_eq!(s.stage(), Stage::Init);
    assert!(s.aes_secret().is_none());
}

#[test]
fn ack_derives_the_secrets_of_the_session() {
    let mut s = session();
    let auth = s.get_auth_with(100, &SENDER_KEY, &IV).unwrap();
    assert_eq!(s.parse_ack(&ack()), Ok(()));
    assert_eq!(s.stage(), Stage::SecurePending);

    let ephemeral_id = pub_key(&EPHEMERAL_KEY).unwrap();
    let shared = EncFfi::ecdhx(&REMOTE_EPHEMERAL_KEY, &id2pk(&ephemeral_id)).unwrap();
    let h_nonce = keccak(&[&REMOTE_NONCE[..], &LOCAL_NONCE[..]].concat());
    let shared_secret = keccak(&[&shared[..], &h_nonce[..]].concat());
    let aes_secret = keccak(&[&shared[..], &shared_secret[..]].concat());
    let mac_secret = keccak(&[&shared[..], &aes_secret[..]].concat());
    assert_eq!(s.aes_secret(), Some(aes_secret));
    assert_eq!(s.mac_secret(), Some(mac_secret.clone()));
    assert_eq!(s.remote_nonce(), Some(REMOTE_NONCE.to_vec()));
    let mut seed = xor(&mac_secret, &REMOTE_NONCE);
    seed.extend_from_slice(&auth);
    assert_eq!(s.mac_absorbed(), Some(seed));
}

#[test]
fn ack_a_second_time_fails_with_state_error() {
    let mut s = secured();
    let secret = s.aes_secret();
    assert_eq!(s.parse_ack(&ack()), Err(Error::State));
    assert_eq!(s.stage(), Stage::SecurePending);
    assert_eq!(s.aes_secret(), secret);
}

#[test]
fn ack_ignores_what_follows_the_first_two_fields() {
    let remote_ephemeral_id = pub_key(&REMOTE_EPHEMERAL_KEY).unwrap();
    let mut stream = rlp::RlpStream::new_list(5);
    stream.append(&remote_ephemeral_id);
    stream.append(&REMOTE_NONCE.to_vec());
    stream.append(&4u16);
    stream.append(&vec![1u8, 2, 3]);
    stream.append(&"more");
    let body = stream.out().to_vec();
    let mut s = session();
    s.get_auth_with(100, &SENDER_KEY, &IV).unwrap();
    assert_eq!(s.parse_ack(&ack_with_body(&body, 7)), Ok(()));
    assert_eq!(s.remote_nonce(), Some(REMOTE_NONCE.to_vec()));
}

#[test]
fn ack_that_is_too_short_is_malformed() {
    let mut s = session();
    s.get_auth_with(100, &SENDER_KEY, &IV).unwrap();
    assert_eq!(s.parse_ack(&[]), Err(Error::MalformedAck));
    assert_eq!(s.parse_ack(&ack()[..114]), Err(Error::MalformedAck));
    assert_eq!(s.stage(), Stage::AuthSent);
}

#[test]
fn ack_whose_body_is_no_list_of_two_byte_strings_is_malformed() {
    let remote_ephemeral_id = pub_key(&REMOTE_EPHEMERAL_KEY).unwrap();
    let bodies: Vec<Vec<u8>> = vec![
        vec![0x01, 0x02, 0x03],
        vec![0x80],
        vec![0xc0],
        {
            let mut one = rlp::RlpStream::new_list(1);
            one.append(&remote_ephemeral_id);
            one.out().to_vec()
        },
        {
            let mut nested = rlp::RlpStream::new_list(2);
            nested.append(&remote_ephemeral_id);
            nested.begin_list(1);
            nested.append(&REMOTE_NONCE.to_vec());
            nested.out().to_vec()
        },
        AckMsg::new(remote_ephemeral_id[..63].to_vec(), REMOTE_NONCE.to_vec(), 4).encode(),
        AckMsg::new(remote_ephemeral_id.clone(), REMOTE_NONCE[..31].to_vec(), 4).encode(),
        vec![0xf8, 0xff, 0x01],
    ];
    for body in bodies {
        let mut s = session();
        s.get_auth_with(100, &SENDER_KEY, &IV).unwrap();
        assert_eq!(s.parse_ack(&ack_with_body(&body, 40)), Err(Error::MalformedAck));
        assert_eq!(s.stage(), Stage::AuthSent);
        assert!(s.aes_secret().is_none());
        assert!(s.mac_secret().is_none());
    }
}

#[test]
fn ack_with_an_invalid_key_fails_with_invalid_key() {
    let mut s = session();
    s.get_auth_with(100, &SENDER_KEY, &IV).unwrap();
    let mut broken = ack();
    for b in broken[3..67].iter_mut() {
        *b = 0;
    }
    assert_eq!(s.parse_ack(&broken), Err(Error::InvalidKey));
    let body = AckMsg::new(vec![0u8; 64], REMOTE_NONCE.to_vec(), 4).encode();
    assert_eq!(s.parse_ack(&ack_with_body(&body, 10)), Err(Error::InvalidKey));
    assert_eq!(s.stage(), Stage::AuthSent);
}

#[test]
fn hello_before_ack_fails_with_state_error() {
    let mut s = session();
    assert_eq!(s.get_hello(30303), Err(Error::State));
    s.get_auth_with(100, &SENDER_KEY, &IV).unwrap();
    assert_eq!(s.get_hello(30303), Err(Error::State));
    assert_eq!(s.stage(), Stage::AuthSent);
}

#[test]
fn hello_frame_decrypts_to_header_and_body() {
    let mut s = secured();
    let aes_secret = s.aes_secret().unwrap();
    let mac_secret = s.mac_secret().unwrap();
    let absorbed = s.mac_absorbed().unwrap();
    let id = s.local_id();
    let frame = s.get_hello(30303).unwrap();
    assert_eq!(s.stage(), Stage::FrameSent);

    let body = hello_body(30303, &id);
    let padded = align_16(body.len());
    assert_eq!(frame.len(), 16 + 16 + padded + 16);

    let mut plain = [&frame[..16], &frame[32..32 + padded]].concat();
    let mut cipher =
        ctr::Ctr64BE::<aes::Aes256>::new(aes_secret.as_slice().into(), (&[0u8; 16]).into());
    cipher.apply_keystream(&mut plain);
    assert_eq!(&plain[..3], &[0, 0, body.len() as u8]);
    assert_eq!(&plain[3..6], &[0xc2, 0x80, 0x80]);
    assert!(plain[6..16].iter().all(|b| *b == 0));
    assert_eq!(&plain[16..16 + body.len()], &body[..]);
    assert!(plain[16 + body.len()..].iter().all(|b| *b == 0));

    let mut mac = Mac::with_secret(&mac_secret).unwrap();
    mac.update(&absorbed);
    assert_eq!(mac.header_tag(&frame[..16]), frame[16..32].to_vec());
    assert_eq!(mac.data_tag(&frame[32..32 + padded]), frame[32 + padded..].to_vec());
    assert_eq!(s.mac_absorbed(), Some(mac.absorbed_bytes()));
}

#[test]
fn hello_a_second_time_fails_with_state_error() {
    let mut s = secured();
    s.get_hello(30303).unwrap();
    let absorbed = s.mac_absorbed();
    assert_eq!(s.get_hello(30303), Err(Error::State));
    assert_eq!(s.parse_ack(&ack()), Err(Error::State));
    assert_eq!(s.get_auth(), Err(Error::State));
    assert_eq!(s.mac_absorbed(), absorbed);
}

#[test]
fn hello_body_is_the_message_id_and_the_encoded_hello() {
    let id = pub_key(&LOCAL_KEY).unwrap();
    let body = hello_body(30303, &id);
    assert_eq!(body[0], 0x80);
    let hello = rlp::Rlp::new(&body[1..]);
    assert_eq!(hello.item_count().unwrap(), 5);
    assert_eq!(hello.val_at::<u32>(0).unwrap(), 5);
    assert_eq!(hello.val_at::<String>(1).unwrap(), "Michal Re\u{17e}\u{148}\u{e1}k");
    let capabilities = hello.at(2).unwrap();
    assert_eq!(capabilities.item_count().unwrap(), 1);
    let capability = capabilities.at(0).unwrap();
    assert_eq!(capability.val_at::<String>(0).unwrap(), "eth");
    assert_eq!(capability.val_at::<u32>(1).unwrap(), 66);
    assert_eq!(hello.val_at::<u16>(3).unwrap(), 30303);
    assert_eq!(hello.val_at::<Vec<u8>>(4).unwrap(), id);
    assert_eq!(hello.as_raw().len(), body.len() - 1);
}

#[test]
fn frame_with_zero_secrets_has_the_expected_shape() {
    let mut aes = Aes256Ctr::new(&[0u8; 32], &[0u8; 16]).unwrap();
    let mut mac = Mac::with_secret(&[0u8; 32]).unwrap();
    let body = hello_body(30303, &pub_key(&LOCAL_KEY).unwrap());
    let frame = seal_frame(&mut aes, &mut mac, &body).unwrap();
    assert_eq!(frame.len(), 16 + 16 + align_16(body.len()) + 16);
    let mut header = frame[..16].to_vec();
    let mut cipher = ctr::Ctr64BE::<aes::Aes256>::new((&[0u8; 32]).into(), (&[0u8; 16]).into());
    cipher.apply_keystream(&mut header);
    assert_eq!(&header[..3], &[0, 0, body.len() as u8]);
    assert_eq!(aes.position(), 16 + align_16(body.len()) as u64);
}

#[test]
fn body_of_16_bytes_needs_no_padding() {
    let mut aes = Aes256Ctr::new(&[0u8; 32], &[0u8; 16]).unwrap();
    let mut mac = Mac::with_secret(&[0u8; 32]).unwrap();
    let frame = seal_frame(&mut aes, &mut mac, &[7u8; 16]).unwrap();
    assert_eq!(frame.len(), 16 + 16 + 16 + 16);
    assert_eq!(aes.position(), 32);
}

#[test]
fn body_of_1_byte_pads_to_16() {
    let mut aes = Aes256Ctr::new(&[0u8; 32], &[0u8; 16]).unwrap();
    let mut mac = Mac::with_secret(&[0u8; 32]).unwrap();
    let frame = seal_frame(&mut aes, &mut mac, &[7u8]).unwrap();
    assert_eq!(frame.len(), 16 + 16 + 16 + 16);
    let mut data = frame[32..48].to_vec();
    let mut cipher = ctr::Ctr64BE::<aes::Aes256>::new((&[0u8; 32]).into(), (&[0u8; 16]).into());
    let mut skipped = [0u8; 16];
    cipher.apply_keystream(&mut skipped);
    cipher.apply_keystream(&mut data);
    assert_eq!(data[0], 7);
    assert!(data[1..].iter().all(|b| *b == 0));
}

#[test]
fn frame_size_is_24_bits_big_endian() {
    let mut aes = Aes256Ctr::new(&[0u8; 32], &[0u8; 16]).unwrap();
    let mut mac = Mac::with_secret(&[0u8; 32]).unwrap();
    let body = vec![1u8; 0x012345];
    let frame = seal_frame(&mut aes, &mut mac, &body).unwrap();
    let mut header = frame[..16].to_vec();
    let mut cipher = ctr::Ctr64BE::<aes::Aes256>::new((&[0u8; 32]).into(), (&[0u8; 16]).into());
    cipher.apply_keystream(&mut header);
    assert_eq!(&header[..3], &[0x01, 0x23, 0x45]);
}

#[test]
fn body_of_2_to_the_24_bytes_is_oversize() {
    let mut aes = Aes256Ctr::new(&[0u8; 32], &[0u8; 16]).unwrap();
    let mut mac = Mac::with_secret(&[0u8; 32]).unwrap();
    let body = vec![0u8; 1 << 24];
    assert_eq!(seal_frame(&mut aes, &mut mac, &body), Err(Error::OversizeFrame));
    assert_eq!(aes.position(), 0);
    assert_eq!(mac.absorbed_bytes(), Vec::<u8>::new());
    assert!(seal_frame(&mut aes, &mut mac, &body[..(1 << 24) - 1]).is_ok());
}

#[test]
fn hello_frame_of_a_session_primed_with_zero_secrets_has_the_expected_shape() {
    let mut s = session();
    let auth = s.get_auth_with(100, &SENDER_KEY, &IV).unwrap();
    assert_eq!(s.install_secrets(&[0u8; 32], &[0u8; 32], &REMOTE_NONCE), Ok(()));
    assert_eq!(s.stage(), Stage::SecurePending);
    assert_eq!(s.aes_secret(), Some(vec![0u8; 32]));
    assert_eq!(s.mac_secret(), Some(vec![0u8; 32]));
    assert_eq!(s.mac_absorbed(), Some([&REMOTE_NONCE[..], &auth[..]].concat()));

    let body = hello_body(30303, &s.local_id());
    let frame = s.get_hello(30303).unwrap();
    assert_eq!(frame.len(), 16 + 16 + align_16(body.len()) + 16);
    let mut header = frame[..16].to_vec();
    let mut cipher = ctr::Ctr64BE::<aes::Aes256>::new((&[0u8; 32]).into(), (&[0u8; 16]).into());
    cipher.apply_keystream(&mut header);
    assert_eq!(&header[..3], &[0, 0, body.len() as u8]);
}

#[test]
fn secrets_are_installed_only_after_auth_and_only_if_32_bytes_long() {
    let mut s = session();
    assert_eq!(s.install_secrets(&[0u8; 32], &[0u8; 32], &REMOTE_NONCE), Err(Error::State));
    s.get_auth_with(100, &SENDER_KEY, &IV).unwrap();
    assert_eq!(s.install_secrets(&[0u8; 31], &[0u8; 32], &REMOTE_NONCE), Err(Error::InvalidKey));
    assert_eq!(s.install_secrets(&[0u8; 32], &[0u8; 33], &REMOTE_NONCE), Err(Error::InvalidKey));
    assert_eq!(s.stage(), Stage::AuthSent);
    assert!(s.aes_secret().is_none());
    assert_eq!(s.install_secrets(&[1u8; 32], &[2u8; 32], &REMOTE_NONCE), Ok(()));
    assert_eq!(s.install_secrets(&[1u8; 32], &[2u8; 32], &REMOTE_NONCE), Err(Error::State));
}

#[test]
fn secrets_are_three_chained_hashes() {
    let shared = [0x01u8; 32];
    let (aes_secret, mac_secret) = derive_secrets(&shared, &REMOTE_NONCE, &LOCAL_NONCE);
    let h_nonce = keccak(&[&REMOTE_NONCE[..], &LOCAL_NONCE[..]].concat());
    let shared_secret = keccak(&[&shared[..], &h_nonce[..]].concat());
    let expected_aes = keccak(&[&shared[..], &shared_secret[..]].concat());
    let expected_mac = keccak(&[&shared[..], &expected_aes[..]].concat());
    assert_eq!(aes_secret, expected_aes);
    assert_eq!(mac_secret, expected_mac);
    assert_ne!(aes_secret, mac_secret);
}

#[test]
fn auth_payload_is_the_encoded_body_and_zero_padding() {
    let s = session();
    let payload = s.auth_payload(&[0xab; 65], 100);
    assert_eq!(payload.len(), 269);
    let mut stream = rlp::RlpStream::new_list(4);
    stream.append(&vec![0xabu8; 65]);
    stream.append(&s.local_id());
    stream.append(&LOCAL_NONCE.to_vec());
    stream.append(&4u16);
    assert_eq!(&payload[..169], &stream.out()[..]);
    assert!(payload[169..].iter().all(|b| *b == 0));
    assert_eq!(s.auth_payload(&[0xab; 65], 250).len(), 419);
}

#[test]
fn envelope_size_is_the_plaintext_length_plus_113_in_two_bytes() {
    assert_eq!(envelope_size(0), vec![0, 113]);
    assert_eq!(envelope_size(269), vec![1, 126]);
    assert_eq!(envelope_size(419), vec![2, 20]);
    assert_eq!(envelope_size(65422), vec![0xff, 0xff]);
}
