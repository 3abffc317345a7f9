//! The RLPx session: the handshake state machine and the framing of the
//! first encrypted message.
//!
//! A session goes through four stages, each reached by one call:
//!
//! ```text
//! Init --get_auth--> AuthSent --parse_ack--> SecurePending --get_hello--> FrameSent
//! ```
//!
//! A call made at any other stage fails with [`Error::State`] and leaves the
//! session as it was, as does every other failure.

pub mod roundtrip;
pub mod types;

use vstd::prelude::*;
use crate::error::Error;
use crate::ffi::{ecdh_x, kdf_key_of, sealed, signature_of, EncFfi, ECIES_OVERHEAD};
use crate::mac::{
    absorbed_after_body, absorbed_after_header, body_tag_of, header_tag_of, Mac, MacState,
};
use crate::primitives::{
    aes128_ctr_apply, aes128_ctr_keystream, keccak256, keccak256_spec, random_bytes,
    random_in_range, secp256k1_derive_public, secp256k1_is_point, secp256k1_public_key,
    secp256k1_random_secret,
};
use crate::rlp::{be_bytes, rlp_bytes, rlp_uint};
use crate::stream::{ctr_applied, Aes256Ctr, CipherState};
use crate::utils::{
    align_16, align_16_spec, concat, copy_range, id2pk, id2pk_spec, nonce, pub_key, pub_key_spec,
    xor, xor_seq, zero_padded, zeros,
};
use types::{
    ack_head, AckMsg, AuthMsg, AuthMsgView, CapHeader, HelloMsg, HelloMsgView, HelloPrefixMsg,
    Protocol, ProtocolView,
};

verus! {

/// The version of the handshake that `auth` announces.
pub const AUTH_VERSION: u16 = 4;

/// The version of the base protocol that Hello announces.
pub const P2P_VERSION: u32 = 5;

/// The version of the `eth` capability that Hello announces.
pub const ETH_VERSION: u32 = 66;

/// The smallest body length that no longer fits the 24-bit size of a frame.
pub const FRAME_SIZE_LIMIT: usize = 0x100_0000;

/// The length of the encoded `auth` body of a well-formed session.
pub const AUTH_BODY_LEN: usize = 169;

/// The shortest `ack` that can hold a size, a public key, an IV and a tag.
pub const ACK_MIN_LEN: usize = 115;

/// The stage a session is in.
#[derive(Clone, Copy, Debug, PartialEq, Eq, Structural)]
pub enum Stage {
    /// Nothing was sent yet.
    Init,
    /// `auth` was produced and is remembered.
    AuthSent,
    /// `ack` was read; cipher and MAC exist and nothing was framed yet.
    SecurePending,
    /// The Hello frame was produced.
    FrameSent,
}

/// What a session holds.
pub struct RlpxView {
    pub remote_id: Seq<u8>,
    pub private_key: Seq<u8>,
    pub pub_key: Seq<u8>,
    pub eph_private_key: Seq<u8>,
    pub nonce: Seq<u8>,
    pub stage: Stage,
    pub init_msg: Option<Seq<u8>>,
    pub aes: Option<CipherState>,
    pub mac: Option<MacState>,
    pub remote_nonce: Option<Seq<u8>>,
}

/// The secrets both sides derive from the handshake.
pub struct Secrets {
    pub aes_secret: Seq<u8>,
    pub mac_secret: Seq<u8>,
}

/// The session of one connection, as its initiator.
pub struct Rlpx {
    client_id: Vec<u8>,
    private_key: Vec<u8>,
    pub_key: Vec<u8>,
    eph_private_key: Vec<u8>,
    nonce: Vec<u8>,
    stage: Stage,
    init_msg: Option<Vec<u8>>,
    aes: Option<Aes256Ctr>,
    mac: Option<Mac>,
    remote_nonce: Option<Vec<u8>>,
}

/// The client name that Hello announces.
pub const CLIENT_NAME: &'static str = "Michal Re\u{17e}\u{148}\u{e1}k";

/// The two big-endian bytes of a size below 65536.
pub open spec fn be16(n: nat) -> Seq<u8> {
    seq![(n / 256) as u8, (n % 256) as u8]
}

/// The three big-endian bytes of a size below 2^24.
pub open spec fn be24(n: nat) -> Seq<u8> {
    seq![(n / 65536) as u8, ((n / 256) % 256) as u8, (n % 256) as u8]
}

/// The secrets derived from the ephemeral shared secret and the two nonces.
pub open spec fn derive_secrets_spec(
    shared: Seq<u8>,
    remote_nonce: Seq<u8>,
    local_nonce: Seq<u8>,
) -> Secrets {
    let h_nonce = keccak256_spec(remote_nonce + local_nonce);
    let shared_secret = keccak256_spec(shared + h_nonce);
    let aes_secret = keccak256_spec(shared + shared_secret);
    let mac_secret = keccak256_spec(shared + aes_secret);
    Secrets { aes_secret, mac_secret }
}

/// The decrypted body of an `ack` of at least [`ACK_MIN_LEN`] bytes: the IV
/// follows the size and the sender's public key, the ciphertext follows the
/// IV and ends where the 32-byte tag starts.
pub open spec fn ack_plaintext(msg: Seq<u8>, key: Seq<u8>) -> Seq<u8> {
    let iv = msg.subrange(67, 83);
    let cipher = msg.subrange(83, msg.len() - 32);
    xor_seq(cipher, aes128_ctr_keystream(key, iv, cipher.len()))
}

/// The plain header of a frame whose body is `len` bytes long: the size,
/// the capability header with both ids zero, and zeros up to 16 bytes.
pub open spec fn frame_header(len: nat) -> Seq<u8> {
    let head = be24(len) + (CapHeader { cap_id: 0, context_id: 0 }).rlp();
    head + zeros((16 - head.len()) as nat)
}

/// A frame body with zeros up to the next multiple of 16 bytes.
pub open spec fn padded_body(body: Seq<u8>) -> Seq<u8> {
    body + zeros((align_16_spec(body.len() as int) - body.len()) as nat)
}

/// The frame that carries `body`, and the cipher and the MAC engine after
/// it: the header and then the padded body take adjoining keystream, the
/// header tag is taken before the body tag.
pub open spec fn sealed_frame(aes: CipherState, mac: MacState, body: Seq<u8>) -> (
    Seq<u8>,
    CipherState,
    MacState,
) {
    let header = ctr_applied(aes.key, aes.iv, aes.offset, frame_header(body.len()));
    let data = ctr_applied(aes.key, aes.iv, aes.offset + 16, padded_body(body));
    let after_header = absorbed_after_header(mac.secret, mac.absorbed, header);
    let header_tag = header_tag_of(mac.secret, mac.absorbed, header);
    let body_tag = body_tag_of(mac.secret, after_header, data);
    (
        header + header_tag + data + body_tag,
        CipherState { key: aes.key, iv: aes.iv, offset: aes.offset + 16 + data.len() },
        MacState {
            secret: mac.secret,
            absorbed: absorbed_after_body(mac.secret, after_header, data),
        },
    )
}

/// The body of the Hello frame: the message id zero and the Hello message
/// of a node that listens on `port` and has the id `pub_key`.
pub open spec fn hello_body_spec(port: u16, pub_key: Seq<u8>) -> Seq<u8> {
    (HelloPrefixMsg { zero: 0 }).rlp() + (HelloMsgView {
        version: P2P_VERSION,
        name: CLIENT_NAME@,
        protocols: seq![ProtocolView { name: "eth"@, t: ETH_VERSION }],
        port,
        pub_key,
    }).rlp()
}

impl RlpxView {
    /// The session that was just created.
    pub open spec fn initial(
        private_key: Seq<u8>,
        pub_key: Seq<u8>,
        remote_id: Seq<u8>,
        eph_private_key: Seq<u8>,
        nonce: Seq<u8>,
    ) -> RlpxView {
        RlpxView {
            remote_id,
            private_key,
            pub_key,
            eph_private_key,
            nonce,
            stage: Stage::Init,
            init_msg: None,
            aes: None,
            mac: None,
            remote_nonce: None,
        }
    }

    /// The keys and the nonce have their lengths, the public key belongs to
    /// the private key, and each stage holds exactly what exists in it: the
    /// `auth` bytes from `AuthSent` on, cipher and MAC from `SecurePending`
    /// on and not before.
    pub open spec fn wf(self) -> bool {
        &&& self.private_key.len() == 32
        &&& self.pub_key.len() == 64
        &&& pub_key_spec(self.private_key) == Some(self.pub_key)
        &&& self.eph_private_key.len() == 32
        &&& secp256k1_public_key(self.eph_private_key) is Some
        &&& self.nonce.len() == 32
        &&& match self.stage {
            Stage::Init => self.init_msg is None && self.aes is None && self.mac is None
                && self.remote_nonce is None,
            Stage::AuthSent => self.init_msg is Some && self.aes is None && self.mac is None
                && self.remote_nonce is None,
            Stage::SecurePending => self.init_msg is Some && self.secured()
                && self.aes->Some_0.offset == 0,
            Stage::FrameSent => self.init_msg is Some && self.secured(),
        }
    }

    /// Cipher and MAC exist and are keyed with 32-byte secrets.
    pub open spec fn secured(self) -> bool {
        &&& self.aes is Some
        &&& self.aes->Some_0.key.len() == 32
        &&& self.aes->Some_0.iv.len() == 16
        &&& self.aes->Some_0.offset <= u64::MAX
        &&& self.mac is Some
        &&& self.mac->Some_0.secret.len() == 32
        &&& self.remote_nonce is Some
    }

    /// The encoded body of `auth` that carries `sig`.
    pub open spec fn auth_body(self, sig: Seq<u8>) -> Seq<u8> {
        (AuthMsgView { sig, pub_key: self.pub_key, nonce: self.nonce, version: AUTH_VERSION }).rlp()
    }

    /// What `get_auth` returns at stage `Init` with `padding` zero bytes of
    /// padding and the given sender key and IV of the envelope: the bytes to
    /// transmit, or why there are none.
    pub open spec fn auth_message(self, padding: nat, sender_key: Seq<u8>, iv: Seq<u8>) -> Result<
        Seq<u8>,
        Error,
    > {
        let remote_key = id2pk_spec(self.remote_id);
        match ecdh_x(self.private_key, remote_key) {
            None => Err(Error::InvalidKey),
            Some(shared) => match signature_of(self.eph_private_key, xor_seq(shared, self.nonce)) {
                None => Err(Error::CryptoBackend),
                Some(sig) => {
                    let payload = self.auth_body(sig) + zeros(padding);
                    let size = be16(payload.len() + ECIES_OVERHEAD as nat);
                    match sealed(payload, remote_key, size, sender_key, iv) {
                        None => Err(Error::InvalidKey),
                        Some(envelope) => Ok(size + envelope),
                    }
                },
            },
        }
    }

    /// Whether `auth` can be produced: the session is at stage `Init`, the
    /// id of the remote node is a point of the curve, and the signing input
    /// can be signed.
    pub open spec fn can_auth(self) -> bool {
        &&& self.stage == Stage::Init
        &&& secp256k1_is_point(id2pk_spec(self.remote_id))
        &&& match ecdh_x(self.private_key, id2pk_spec(self.remote_id)) {
            Some(shared) => signature_of(self.eph_private_key, xor_seq(shared, self.nonce))
                is Some,
            None => false,
        }
    }

    /// What `get_auth` returns at any stage.
    pub open spec fn auth_result(self, padding: nat, sender_key: Seq<u8>, iv: Seq<u8>) -> Result<
        Seq<u8>,
        Error,
    > {
        if self.stage != Stage::Init {
            Err(Error::State)
        } else {
            self.auth_message(padding, sender_key, iv)
        }
    }

    /// The session after `auth` was produced.
    pub open spec fn auth_sent(self, auth: Seq<u8>) -> RlpxView {
        RlpxView { stage: Stage::AuthSent, init_msg: Some(auth), ..self }
    }

    /// The session after the secrets were derived: the cipher starts at the
    /// beginning of its keystream with an all-zero counter block, the MAC
    /// has absorbed its seed, `mac_secret xor remote_nonce`, and the `auth`
    /// bytes.
    pub open spec fn secured_with(self, secrets: Secrets, remote_nonce: Seq<u8>) -> RlpxView {
        RlpxView {
            stage: Stage::SecurePending,
            aes: Some(CipherState { key: secrets.aes_secret, iv: zeros(16), offset: 0 }),
            mac: Some(
                MacState {
                    secret: secrets.mac_secret,
                    absorbed: xor_seq(secrets.mac_secret, remote_nonce) + self.init_msg->Some_0,
                },
            ),
            remote_nonce: Some(remote_nonce),
            ..self
        }
    }

    /// What installing the given secrets makes of the session: the session
    /// that follows, or why there is none.
    pub open spec fn secrets_result(
        self,
        aes_secret: Seq<u8>,
        mac_secret: Seq<u8>,
        remote_nonce: Seq<u8>,
    ) -> Result<RlpxView, Error> {
        if self.stage != Stage::AuthSent {
            Err(Error::State)
        } else if aes_secret.len() != 32 || mac_secret.len() != 32 {
            Err(Error::InvalidKey)
        } else {
            Ok(self.secured_with(Secrets { aes_secret, mac_secret }, remote_nonce))
        }
    }

    /// What `parse_ack` makes of `msg`: the session that follows, or why
    /// there is none.
    pub open spec fn ack_result(self, msg: Seq<u8>) -> Result<RlpxView, Error> {
        if self.stage != Stage::AuthSent {
            Err(Error::State)
        } else if msg.len() < ACK_MIN_LEN {
            Err(Error::MalformedAck)
        } else {
            match kdf_key_of(msg, self.private_key) {
                None => Err(Error::InvalidKey),
                Some(key) => match ack_head(ack_plaintext(msg, key)) {
                    None => Err(Error::MalformedAck),
                    Some((remote_key, remote_nonce)) => if remote_key.len() != 64
                        || remote_nonce.len() != 32 {
                        Err(Error::MalformedAck)
                    } else {
                        match ecdh_x(self.eph_private_key, id2pk_spec(remote_key)) {
                            None => Err(Error::InvalidKey),
                            Some(shared) => Ok(
                                self.secured_with(
                                    derive_secrets_spec(shared, remote_nonce, self.nonce),
                                    remote_nonce,
                                ),
                            ),
                        }
                    },
                },
            }
        }
    }

    /// What `get_hello` returns for the listening port `port`: the frame and
    /// the session that follows, or why there is none.
    pub open spec fn hello_result(self, port: u16) -> Result<(Seq<u8>, RlpxView), Error> {
        if self.stage != Stage::SecurePending {
            Err(Error::State)
        } else {
            let body = hello_body_spec(port, self.pub_key);
            if body.len() >= FRAME_SIZE_LIMIT {
                Err(Error::OversizeFrame)
            } else {
                let (frame, aes, mac) = sealed_frame(self.aes->Some_0, self.mac->Some_0, body);
                Ok(
                    (
                        frame,
                        RlpxView {
                            stage: Stage::FrameSent,
                            aes: Some(aes),
                            mac: Some(mac),
                            ..self
                        },
                    ),
                )
            }
        }
    }
}

impl View for Rlpx {
    type V = RlpxView;

    closed spec fn view(&self) -> RlpxView {
        RlpxView {
            remote_id: self.client_id@,
            private_key: self.private_key@,
            pub_key: self.pub_key@,
            eph_private_key: self.eph_private_key@,
            nonce: self.nonce@,
            stage: self.stage,
            init_msg: match self.init_msg {
                Some(m) => Some(m@),
                None => None,
            },
            aes: match self.aes {
                Some(c) => Some(c@),
                None => None,
            },
            mac: match self.mac {
                Some(m) => Some(m@),
                None => None,
            },
            remote_nonce: match self.remote_nonce {
                Some(n) => Some(n@),
                None => None,
            },
        }
    }
}

/// The encoded `auth` body of a session with a 65-byte signature is 169
/// bytes long.
pub proof fn lemma_auth_body_len(v: RlpxView, sig: Seq<u8>)
    requires
        v.pub_key.len() == 64,
        v.nonce.len() == 32,
        sig.len() == 65,
    ensures
        v.auth_body(sig).len() == AUTH_BODY_LEN,
{
    reveal_with_fuel(be_bytes, 3);
    assert(be_bytes(65).len() == 1);
    assert(be_bytes(64).len() == 1);
    assert(be_bytes(4) =~= seq![4u8]);
    assert(be_bytes(167).len() == 1);
    assert(rlp_bytes(sig).len() == 67);
    assert(rlp_bytes(v.pub_key).len() == 66);
    assert(rlp_bytes(v.nonce).len() == 33);
    assert(rlp_uint(4).len() == 1);
}

/// The capability header with both ids zero encodes to three bytes, and
/// every frame header is 16 bytes long.
pub proof fn lemma_cap_header_zero()
    ensures
        (CapHeader { cap_id: 0, context_id: 0 }).rlp() == seq![0xc2u8, 0x80u8, 0x80u8],
        forall|len: nat| #[trigger] frame_header(len).len() == 16,
{
    reveal_with_fuel(be_bytes, 2);
    assert(be_bytes(0) =~= Seq::<u8>::empty());
    assert(rlp_uint(0) =~= seq![0x80u8]);
    assert((CapHeader { cap_id: 0, context_id: 0 }).rlp() =~= seq![0xc2u8, 0x80u8, 0x80u8]);
    assert forall|len: nat| #[trigger] frame_header(len).len() == 16 by {
        assert(be24(len).len() == 3);
    }
}

/// A session that has produced `auth` produces no second one: the call
/// fails with a state error.
pub proof fn lemma_auth_sent_once(
    v: RlpxView,
    auth: Seq<u8>,
    padding: nat,
    sender_key: Seq<u8>,
    iv: Seq<u8>,
)
    ensures
        v.auth_sent(auth).auth_result(padding, sender_key, iv) == Err::<Seq<u8>, Error>(
            Error::State,
        ),
{
}

/// A session that has read an `ack` reads no second one: whatever the
/// second message is, the call fails with a state error.
pub proof fn lemma_ack_read_once(v: RlpxView, first: Seq<u8>, second: Seq<u8>)
    requires
        v.ack_result(first) is Ok,
    ensures
        v.ack_result(first)->Ok_0.ack_result(second) == Err::<RlpxView, Error>(Error::State),
{
}

/// A session that has framed Hello frames no second one: the call fails
/// with a state error.
pub proof fn lemma_hello_sent_once(v: RlpxView, port: u16, again: u16)
    requires
        v.hello_result(port) is Ok,
    ensures
        v.hello_result(port)->Ok_0.1.hello_result(again) == Err::<(Seq<u8>, RlpxView), Error>(
            Error::State,
        ),
{
}

/// The steps of the handshake succeed only in their order: `ack` is read
/// only after `auth` was produced, and Hello is framed only after `ack` was
/// read.
pub proof fn lemma_steps_in_order(v: RlpxView, msg: Seq<u8>, port: u16)
    ensures
        v.ack_result(msg) is Ok ==> v.stage == Stage::AuthSent,
        v.hello_result(port) is Ok ==> v.stage == Stage::SecurePending,
        v.stage == Stage::Init ==> v.ack_result(msg) == Err::<RlpxView, Error>(Error::State)
            && v.hello_result(port) == Err::<(Seq<u8>, RlpxView), Error>(Error::State),
{
}

/// Framing Hello fails as oversize exactly when its body is 2^24 bytes long
/// or longer.
pub proof fn lemma_hello_oversize(v: RlpxView, port: u16)
    requires
        v.stage == Stage::SecurePending,
    ensures
        hello_body_spec(port, v.pub_key).len() >= FRAME_SIZE_LIMIT <==> v.hello_result(port)
            == Err::<(Seq<u8>, RlpxView), Error>(Error::OversizeFrame),
{
}

/// The size that precedes an envelope whose plaintext is `len` bytes long:
/// the length of the envelope as two big-endian bytes.
pub fn envelope_size(len: usize) -> (out: Vec<u8>)
    requires
        len + ECIES_OVERHEAD < 0x1_0000,
    ensures
        out@ == be16((len + ECIES_OVERHEAD) as nat),
        out@.len() == 2,
{
    let total: usize = len + ECIES_OVERHEAD;
    let mut size: Vec<u8> = Vec::new();
    size.push((total / 256) as u8);
    size.push((total % 256) as u8);
    assert(size@ =~= be16(total as nat));
    size
}

/// Derives the AES and the MAC secret from the ephemeral shared secret and
/// the two nonces.
pub fn derive_secrets(shared: &[u8], remote_nonce: &[u8], local_nonce: &[u8]) -> (out: (
    Vec<u8>,
    Vec<u8>,
))
    ensures
        out.0@ == derive_secrets_spec(shared@, remote_nonce@, local_nonce@).aes_secret,
        out.1@ == derive_secrets_spec(shared@, remote_nonce@, local_nonce@).mac_secret,
        out.0@.len() == 32,
        out.1@.len() == 32,
{
    let h_nonce = keccak256(concat(remote_nonce, local_nonce).as_slice());
    let shared_secret = keccak256(concat(shared, h_nonce.as_slice()).as_slice());
    let aes_secret = keccak256(concat(shared, shared_secret.as_slice()).as_slice());
    let mac_secret = keccak256(concat(shared, aes_secret.as_slice()).as_slice());
    (aes_secret, mac_secret)
}

/// Builds the body of the Hello frame of a node that listens on `port` and
/// has the id `pub_key`.
pub fn hello_body(port: u16, pub_key: &[u8]) -> (out: Vec<u8>)
    ensures
        out@ == hello_body_spec(port, pub_key@),
        out@.len() > 0,
{
    let capability = Protocol::new("eth".to_owned(), ETH_VERSION);
    let mut capabilities: Vec<Protocol> = Vec::new();
    capabilities.push(capability);
    let hello = HelloMsg::new(
        P2P_VERSION,
        CLIENT_NAME.to_owned(),
        capabilities,
        port,
        vstd::slice::slice_to_vec(pub_key),
    );
    assert(hello@.protocols =~= seq![ProtocolView { name: "eth"@, t: ETH_VERSION }]);
    let prefix = HelloPrefixMsg::new(0).encode();
    let message = hello.encode();
    proof {
        reveal_with_fuel(be_bytes, 2);
        assert(rlp_uint(0) =~= seq![0x80u8]);
    }
    concat(prefix.as_slice(), message.as_slice())
}

/// Seals `frame_data` in a frame: the header carries the length of the data
/// before padding, header and padded data are encrypted with adjoining
/// keystream, and each is followed by its tag. Data of 2^24 bytes or more
/// does not fit the header and is rejected; cipher and MAC are then
/// unchanged.
pub fn seal_frame(aes: &mut Aes256Ctr, mac: &mut Mac, frame_data: &[u8]) -> (out: Result<
    Vec<u8>,
    Error,
>)
    requires
        old(aes).wf(),
        old(mac).wf(),
        frame_data@.len() > 0,
        old(aes).offset() + FRAME_SIZE_LIMIT + 32 <= u64::MAX,
    ensures
        final(aes).wf(),
        final(mac).wf(),
        frame_data@.len() >= FRAME_SIZE_LIMIT ==> out == Err::<Vec<u8>, Error>(
            Error::OversizeFrame,
        ) && final(aes)@ == old(aes)@ && final(mac)@ == old(mac)@,
        frame_data@.len() < FRAME_SIZE_LIMIT ==> out is Ok && (
            out->Ok_0@,
            final(aes)@,
            final(mac)@,
        ) == sealed_frame(old(aes)@, old(mac)@, frame_data@) && out->Ok_0@.len() == 48
            + align_16_spec(frame_data@.len() as int),
{
    let len: usize = frame_data.len();
    if len >= FRAME_SIZE_LIMIT {
        return Err(Error::OversizeFrame);
    }
    proof {
        lemma_cap_header_zero();
    }
    let mut head: Vec<u8> = Vec::new();
    head.push((len / 65536) as u8);
    head.push(((len / 256) % 256) as u8);
    head.push((len % 256) as u8);
    let capability = CapHeader::new(0, 0).encode();
    head.extend_from_slice(capability.as_slice());
    assert(head@ =~= be24(len as nat) + (CapHeader { cap_id: 0, context_id: 0 }).rlp());
    let plain_header = zero_padded(head.as_slice(), 16);
    let plain_body = zero_padded(frame_data, align_16(len));
    let header = aes.apply_keystream(plain_header.as_slice());
    let data = aes.apply_keystream(plain_body.as_slice());
    let header_tag = mac.header_tag(header.as_slice());
    let body_tag = mac.data_tag(data.as_slice());
    let mut frame = concat(header.as_slice(), header_tag.as_slice());
    frame.extend_from_slice(data.as_slice());
    frame.extend_from_slice(body_tag.as_slice());
    assert(frame@ =~= header@ + header_tag@ + data@ + body_tag@);
    Ok(frame)
}

impl Rlpx {
    /// A session is well formed when what it holds is; see
    /// [`RlpxView::wf`].
    pub open spec fn wf(&self) -> bool {
        self@.wf()
    }

    /// The stage the session is in.
    pub fn stage(&self) -> (out: Stage)
        ensures
            out == self@.stage,
    {
        self.stage
    }

    /// The 64-byte id of the local node.
    pub fn local_id(&self) -> (out: Vec<u8>)
        ensures
            out@ == self@.pub_key,
    {
        vstd::slice::slice_to_vec(self.pub_key.as_slice())
    }

    /// The nonce of the local node.
    pub fn local_nonce(&self) -> (out: Vec<u8>)
        ensures
            out@ == self@.nonce,
    {
        vstd::slice::slice_to_vec(self.nonce.as_slice())
    }

    /// The `auth` bytes that were produced, from `AuthSent` on.
    pub fn initiator_auth_bytes(&self) -> (out: Option<Vec<u8>>)
        ensures
            out is Some <==> self@.init_msg is Some,
            out is Some ==> out->Some_0@ == self@.init_msg->Some_0,
    {
        match &self.init_msg {
            Some(auth) => Some(vstd::slice::slice_to_vec(auth.as_slice())),
            None => None,
        }
    }

    /// The nonce of the remote node, once `ack` was read.
    pub fn remote_nonce(&self) -> (out: Option<Vec<u8>>)
        ensures
            out is Some <==> self@.remote_nonce is Some,
            out is Some ==> out->Some_0@ == self@.remote_nonce->Some_0,
    {
        match &self.remote_nonce {
            Some(nonce) => Some(vstd::slice::slice_to_vec(nonce.as_slice())),
            None => None,
        }
    }

    /// The AES secret of the session, once `ack` was read.
    pub fn aes_secret(&self) -> (out: Option<Vec<u8>>)
        ensures
            out is Some <==> self@.aes is Some,
            out is Some ==> out->Some_0@ == self@.aes->Some_0.key,
    {
        match &self.aes {
            Some(aes) => Some(aes.key_bytes()),
            None => None,
        }
    }

    /// The MAC secret of the session, once `ack` was read.
    pub fn mac_secret(&self) -> (out: Option<Vec<u8>>)
        ensures
            out is Some <==> self@.mac is Some,
            out is Some ==> out->Some_0@ == self@.mac->Some_0.secret,
    {
        match &self.mac {
            Some(mac) => Some(mac.secret_bytes()),
            None => None,
        }
    }

    /// Everything the MAC of the session has absorbed, once `ack` was read.
    pub fn mac_absorbed(&self) -> (out: Option<Vec<u8>>)
        ensures
            out is Some <==> self@.mac is Some,
            out is Some ==> out->Some_0@ == self@.mac->Some_0.absorbed,
    {
        match &self.mac {
            Some(mac) => Some(mac.absorbed_bytes()),
            None => None,
        }
    }

    /// Creates the session of a connection to the node with the id
    /// `client_id`, with a fresh ephemeral key and a fresh nonce. Fails
    /// exactly when `private_key` is not a valid key.
    pub fn with_private_key(private_key: &[u8], client_id: &[u8]) -> (out: Result<Rlpx, Error>)
        ensures
            out is Ok <==> pub_key_spec(private_key@) is Some,
            match out {
                Ok(session) => {
                    &&& session.wf()
                    &&& session@ == RlpxView::initial(
                        private_key@,
                        pub_key_spec(private_key@)->Some_0,
                        client_id@,
                        session@.eph_private_key,
                        session@.nonce,
                    )
                },
                Err(e) => e == Error::InvalidKey,
            },
    {
        let eph_private_key = secp256k1_random_secret();
        let local_nonce = nonce();
        Self::with_secrets(
            private_key,
            client_id,
            eph_private_key.as_slice(),
            local_nonce.as_slice(),
        )
    }

    /// Creates the session of a connection to the node with the id
    /// `client_id` from a given ephemeral key and a given 32-byte nonce.
    /// Fails exactly when one of the two private keys is not a valid key.
    pub fn with_secrets(
        private_key: &[u8],
        client_id: &[u8],
        eph_private_key: &[u8],
        nonce: &[u8],
    ) -> (out: Result<Rlpx, Error>)
        requires
            nonce@.len() == 32,
        ensures
            out is Ok <==> pub_key_spec(private_key@) is Some && secp256k1_public_key(
                eph_private_key@,
            ) is Some,
            match out {
                Ok(session) => {
                    &&& session.wf()
                    &&& session@ == RlpxView::initial(
                        private_key@,
                        pub_key_spec(private_key@)->Some_0,
                        client_id@,
                        eph_private_key@,
                        nonce@,
                    )
                },
                Err(e) => e == Error::InvalidKey,
            },
    {
        let public = match pub_key(private_key) {
            Ok(public) => public,
            Err(_) => { return Err(Error::InvalidKey); },
        };
        if secp256k1_derive_public(eph_private_key).is_none() {
            return Err(Error::InvalidKey);
        }
        Ok(
            Rlpx {
                client_id: vstd::slice::slice_to_vec(client_id),
                private_key: vstd::slice::slice_to_vec(private_key),
                pub_key: public,
                eph_private_key: vstd::slice::slice_to_vec(eph_private_key),
                nonce: vstd::slice::slice_to_vec(nonce),
                stage: Stage::Init,
                init_msg: None,
                aes: None,
                mac: None,
                remote_nonce: None,
            },
        )
    }

    /// Builds the plaintext of `auth`: the encoded body, which carries the
    /// 65-byte signature `sig`, the local id, the local nonce and the
    /// version, followed by `padding` zero bytes.
    pub fn auth_payload(&self, sig: &[u8], padding: usize) -> (out: Vec<u8>)
        requires
            self.wf(),
            sig@.len() == 65,
            100 <= padding <= 250,
        ensures
            out@ == self@.auth_body(sig@) + zeros(padding as nat),
            out@.len() == AUTH_BODY_LEN + padding,
    {
        proof {
            lemma_auth_body_len(self@, sig@);
        }
        let body = AuthMsg::new(
            vstd::slice::slice_to_vec(sig),
            vstd::slice::slice_to_vec(self.pub_key.as_slice()),
            vstd::slice::slice_to_vec(self.nonce.as_slice()),
            AUTH_VERSION,
        ).encode();
        zero_padded(body.as_slice(), body.len() + padding)
    }

    /// Produces the `auth` message with a random amount of padding between
    /// 100 and 250 bytes, sealed with a fresh sender key and a fresh IV, and
    /// remembers it. Whether it succeeds does not depend on what was
    /// sampled; the result is what [`Rlpx::get_auth_with`] returns for some
    /// such padding, key and IV.
    pub fn get_auth(&mut self) -> (out: Result<Vec<u8>, Error>)
        requires
            old(self).wf(),
        ensures
            final(self).wf(),
            out is Ok <==> old(self)@.can_auth(),
            out == Err::<Vec<u8>, Error>(Error::State) <==> old(self)@.stage != Stage::Init,
            match out {
                Ok(bytes) => {
                    &&& exists|padding: nat, sender_key: Seq<u8>, iv: Seq<u8>|
                        {
                            &&& #[trigger] old(self)@.auth_result(padding, sender_key, iv) == Ok::<
                                Seq<u8>,
                                Error,
                            >(bytes@)
                            &&& 100 <= padding <= 250
                            &&& iv.len() == 16
                            &&& bytes@.len() == AUTH_BODY_LEN + padding + ECIES_OVERHEAD + 2
                        }
                    &&& final(self)@ == old(self)@.auth_sent(bytes@)
                },
                Err(e) => {
                    &&& final(self)@ == old(self)@
                    &&& e == Error::State || e == Error::InvalidKey || e == Error::CryptoBackend
                },
            },
    {
        let padding = random_in_range(100, 250);
        let sender_key = secp256k1_random_secret();
        let iv = random_bytes(16);
        self.get_auth_with(padding, sender_key.as_slice(), iv.as_slice())
    }

    /// Produces the `auth` message with `padding` zero bytes of padding,
    /// sealed with the given sender key and IV, and remembers it: the
    /// signature over `static-shared-secret xor nonce` with the ephemeral
    /// key, the encoded body and the padding are sealed for the remote node,
    /// and the size of the envelope precedes it as two big-endian bytes,
    /// which are also its associated data.
    pub fn get_auth_with(&mut self, padding: usize, sender_key: &[u8], iv: &[u8]) -> (out: Result<
        Vec<u8>,
        Error,
    >)
        requires
            old(self).wf(),
            100 <= padding <= 250,
            iv@.len() == 16,
        ensures
            final(self).wf(),
            out is Ok <==> old(self)@.can_auth() && secp256k1_public_key(sender_key@) is Some,
            match out {
                Ok(bytes) => {
                    &&& old(self)@.auth_result(padding as nat, sender_key@, iv@) == Ok::<
                        Seq<u8>,
                        Error,
                    >(bytes@)
                    &&& final(self)@ == old(self)@.auth_sent(bytes@)
                    &&& bytes@.len() == AUTH_BODY_LEN + padding + ECIES_OVERHEAD + 2
                },
                Err(e) => {
                    &&& old(self)@.auth_result(padding as nat, sender_key@, iv@) == Err::<
                        Seq<u8>,
                        Error,
                    >(e)
                    &&& final(self)@ == old(self)@
                },
            },
    {
        match self.stage {
            Stage::Init => {},
            _ => { return Err(Error::State); },
        }
        let remote_key = id2pk(self.client_id.as_slice());
        let shared = match EncFfi::ecdhx(self.private_key.as_slice(), remote_key.as_slice()) {
            Ok(shared) => shared,
            Err(_) => { return Err(Error::InvalidKey); },
        };
        let signing_input = xor(shared.as_slice(), self.nonce.as_slice());
        let sig = match EncFfi::ecdsa_sign(
            self.eph_private_key.as_slice(),
            signing_input.as_slice(),
        ) {
            Ok(sig) => sig,
            Err(_) => { return Err(Error::CryptoBackend); },
        };
        let payload = self.auth_payload(sig.as_slice(), padding);
        let size = envelope_size(payload.len());
        let envelope = match EncFfi::tagged_kdf_with(
            payload.as_slice(),
            remote_key.as_slice(),
            size.as_slice(),
            sender_key,
            iv,
        ) {
            Ok(envelope) => envelope,
            Err(_) => { return Err(Error::InvalidKey); },
        };
        let message = concat(size.as_slice(), envelope.as_slice());
        self.init_msg = Some(vstd::slice::slice_to_vec(message.as_slice()));
        self.stage = Stage::AuthSent;
        Ok(message)
    }

    /// Installs the secrets of the session, as `parse_ack` does once it has
    /// derived them: the cipher is keyed with `aes_secret` and starts at the
    /// beginning of its keystream with an all-zero counter block, the MAC is
    /// keyed with `mac_secret` and absorbs `mac_secret xor remote_nonce` and
    /// then the `auth` bytes. Both secrets must be 32 bytes long.
    pub fn install_secrets(
        &mut self,
        aes_secret: &[u8],
        mac_secret: &[u8],
        remote_nonce: &[u8],
    ) -> (out: Result<(), Error>)
        requires
            old(self).wf(),
        ensures
            final(self).wf(),
            match out {
                Ok(_) => old(self)@.secrets_result(aes_secret@, mac_secret@, remote_nonce@) == Ok::<
                    RlpxView,
                    Error,
                >(final(self)@),
                Err(e) => old(self)@.secrets_result(aes_secret@, mac_secret@, remote_nonce@)
                    == Err::<RlpxView, Error>(e) && final(self)@ == old(self)@,
            },
    {
        match self.stage {
            Stage::AuthSent => {},
            _ => { return Err(Error::State); },
        }
        if aes_secret.len() != 32 || mac_secret.len() != 32 {
            return Err(Error::InvalidKey);
        }
        let counter = zero_padded(vstd::slice::slice_subrange(aes_secret, 0, 0), 16);
        assert(counter@ =~= zeros(16));
        let aes = match Aes256Ctr::new(aes_secret, counter.as_slice()) {
            Ok(aes) => aes,
            Err(_) => { return Err(Error::InvalidKey); },
        };
        let mut mac = match Mac::with_secret(mac_secret) {
            Ok(mac) => mac,
            Err(_) => { return Err(Error::InvalidKey); },
        };
        let seed = xor(mac_secret, remote_nonce);
        mac.update(seed.as_slice());
        match &self.init_msg {
            Some(auth) => {
                mac.update(auth.as_slice());
            },
            None => {},
        }
        assert(mac.absorbed() =~= seed@ + old(self)@.init_msg->Some_0);
        self.aes = Some(aes);
        self.mac = Some(mac);
        self.remote_nonce = Some(vstd::slice::slice_to_vec(remote_nonce));
        self.stage = Stage::SecurePending;
        Ok(())
    }

    /// Reads the `ack` message: derives the key of its envelope, decrypts
    /// the body, takes the remote ephemeral key and the remote nonce from
    /// it, and derives the secrets of the session. The tag of the envelope
    /// is not checked.
    pub fn parse_ack(&mut self, msg: &[u8]) -> (out: Result<(), Error>)
        requires
            old(self).wf(),
        ensures
            final(self).wf(),
            match out {
                Ok(_) => old(self)@.ack_result(msg@) == Ok::<RlpxView, Error>(final(self)@),
                Err(e) => old(self)@.ack_result(msg@) == Err::<RlpxView, Error>(e) && final(self)@
                    == old(self)@,
            },
    {
        match self.stage {
            Stage::AuthSent => {},
            _ => { return Err(Error::State); },
        }
        if msg.len() < ACK_MIN_LEN {
            return Err(Error::MalformedAck);
        }
        let key = match EncFfi::concat_kdf(msg, self.private_key.as_slice()) {
            Ok(key) => key,
            Err(_) => { return Err(Error::InvalidKey); },
        };
        let iv = copy_range(msg, 67, 83);
        let cipher = vstd::slice::slice_subrange(msg, 83, msg.len() - 32);
        let plain = aes128_ctr_apply(key.as_slice(), iv.as_slice(), cipher);
        let (remote_key, remote_nonce) = match AckMsg::decode_head(plain.as_slice()) {
            Some(head) => head,
            None => { return Err(Error::MalformedAck); },
        };
        if remote_key.len() != 64 || remote_nonce.len() != 32 {
            return Err(Error::MalformedAck);
        }
        let remote_point = id2pk(remote_key.as_slice());
        let shared = match EncFfi::ecdhx(
            self.eph_private_key.as_slice(),
            remote_point.as_slice(),
        ) {
            Ok(shared) => shared,
            Err(_) => { return Err(Error::InvalidKey); },
        };
        let (aes_secret, mac_secret) = derive_secrets(
            shared.as_slice(),
            remote_nonce.as_slice(),
            self.nonce.as_slice(),
        );
        self.install_secrets(aes_secret.as_slice(), mac_secret.as_slice(), remote_nonce.as_slice())
    }

    /// Produces the first encrypted frame, which carries the Hello message
    /// of a node that listens on `port`.
    pub fn get_hello(&mut self, port: u16) -> (out: Result<Vec<u8>, Error>)
        requires
            old(self).wf(),
        ensures
            final(self).wf(),
            match out {
                Ok(frame) => old(self)@.hello_result(port) == Ok::<(Seq<u8>, RlpxView), Error>(
                    (frame@, final(self)@),
                ),
                Err(e) => old(self)@.hello_result(port) == Err::<(Seq<u8>, RlpxView), Error>(e)
                    && final(self)@ == old(self)@,
            },
    {
        match self.stage {
            Stage::SecurePending => {},
            _ => { return Err(Error::State); },
        }
        let body = hello_body(port, self.pub_key.as_slice());
        let mut aes = self.aes.take().unwrap();
        let mut mac = self.mac.take().unwrap();
        let sealed = seal_frame(&mut aes, &mut mac, body.as_slice());
        self.aes = Some(aes);
        self.mac = Some(mac);
        match sealed {
            Ok(frame) => {
                self.stage = Stage::FrameSent;
                Ok(frame)
            },
            Err(e) => Err(e),
        }
    }
}

} // verus!
