//! The records the protocol exchanges. Each is encoded as an RLP list of its
//! fields in the order they are declared, so the order matters.

use vstd::prelude::*;
use vstd::utf8::{decode_utf8, encode_utf8, valid_utf8};
use crate::primitives::string_from_utf8;
use crate::rlp::{
    decode_item, decode_item_at, decode_string_items, decode_strings, encode_bytes, encode_list,
    encode_str, encode_uint, pow256, read_bytes, read_list, read_uint, rlp_bytes, rlp_list,
    rlp_uint, take_bytes, take_list, take_uint,
};

verus! {

/// The capability header that follows the size in a frame header.
#[derive(Clone, Copy, Debug, PartialEq, Eq, Structural)]
pub struct CapHeader {
    pub cap_id: u16,
    pub context_id: u16,
}

/// The body of the `auth` message.
#[derive(Debug)]
pub struct AuthMsg {
    pub sig: Vec<u8>,
    pub pub_key: Vec<u8>,
    pub nonce: Vec<u8>,
    pub version: u16,
}

/// What an [`AuthMsg`] holds.
pub struct AuthMsgView {
    pub sig: Seq<u8>,
    pub pub_key: Seq<u8>,
    pub nonce: Seq<u8>,
    pub version: u16,
}

/// The body of the `ack` message, as far as this side reads it.
#[derive(Debug)]
pub struct AckMsg {
    pub pub_key: Vec<u8>,
    pub nonce: Vec<u8>,
    pub version: u16,
}

/// What an [`AckMsg`] holds.
pub struct AckMsgView {
    pub pub_key: Seq<u8>,
    pub nonce: Seq<u8>,
    pub version: u16,
}

/// A capability: its name and its version.
#[derive(Debug)]
pub struct Protocol {
    pub name: String,
    pub t: u32,
}

/// What a [`Protocol`] holds.
pub struct ProtocolView {
    pub name: Seq<char>,
    pub t: u32,
}

/// The Hello message, the first one sent over an established session.
#[derive(Debug)]
pub struct HelloMsg {
    pub version: u32,
    pub name: String,
    pub protocols: Vec<Protocol>,
    pub port: u16,
    pub pub_key: Vec<u8>,
}

/// What a [`HelloMsg`] holds.
pub struct HelloMsgView {
    pub version: u32,
    pub name: Seq<char>,
    pub protocols: Seq<ProtocolView>,
    pub port: u16,
    pub pub_key: Seq<u8>,
}

/// A network endpoint of the discovery protocol.
#[derive(Debug)]
pub struct Endpoint {
    pub address: String,
    pub udp_port: u16,
    pub tcp_port: u16,
}

/// What an [`Endpoint`] holds.
pub struct EndpointView {
    pub address: Seq<char>,
    pub udp_port: u16,
    pub tcp_port: u16,
}

/// The data of a discovery PING packet.
#[derive(Debug)]
pub struct Ping {
    pub version: u16,
    pub from: Endpoint,
    pub to: Endpoint,
    pub timestamp: u64,
}

/// What a [`Ping`] holds.
pub struct PingView {
    pub version: u16,
    pub from: EndpointView,
    pub to: EndpointView,
    pub timestamp: u64,
}

/// The message id that precedes the Hello message. It is encoded as the
/// bare integer, not as a list.
#[derive(Clone, Copy, Debug, PartialEq, Eq, Structural)]
pub struct HelloPrefixMsg {
    pub zero: u32,
}

impl View for AuthMsg {
    type V = AuthMsgView;

    open spec fn view(&self) -> AuthMsgView {
        AuthMsgView {
            sig: self.sig@,
            pub_key: self.pub_key@,
            nonce: self.nonce@,
            version: self.version,
        }
    }
}

impl View for AckMsg {
    type V = AckMsgView;

    open spec fn view(&self) -> AckMsgView {
        AckMsgView { pub_key: self.pub_key@, nonce: self.nonce@, version: self.version }
    }
}

impl View for Protocol {
    type V = ProtocolView;

    open spec fn view(&self) -> ProtocolView {
        ProtocolView { name: self.name@, t: self.t }
    }
}

impl View for HelloMsg {
    type V = HelloMsgView;

    open spec fn view(&self) -> HelloMsgView {
        HelloMsgView {
            version: self.version,
            name: self.name@,
            protocols: self.protocols@.map_values(|p: Protocol| p@),
            port: self.port,
            pub_key: self.pub_key@,
        }
    }
}

impl View for Endpoint {
    type V = EndpointView;

    open spec fn view(&self) -> EndpointView {
        EndpointView { address: self.address@, udp_port: self.udp_port, tcp_port: self.tcp_port }
    }
}

impl View for Ping {
    type V = PingView;

    open spec fn view(&self) -> PingView {
        PingView {
            version: self.version,
            from: self.from@,
            to: self.to@,
            timestamp: self.timestamp,
        }
    }
}

/// The encodings of the capabilities of a Hello message, one after another.
pub open spec fn rlp_protocols(protocols: Seq<ProtocolView>) -> Seq<u8>
    decreases protocols.len(),
{
    if protocols.len() == 0 {
        Seq::empty()
    } else {
        rlp_protocols(protocols.drop_last()) + protocols.last().rlp()
    }
}

impl CapHeader {
    /// The encoding: the list of the two ids.
    pub open spec fn rlp(self) -> Seq<u8> {
        rlp_list(rlp_uint(self.cap_id as nat) + rlp_uint(self.context_id as nat))
    }

    /// The header that `s` starts with and the number of bytes it takes.
    pub open spec fn decode_prefix(s: Seq<u8>) -> Option<(CapHeader, nat)> {
        match take_list(s) {
            Some((p, total)) => match take_uint(p, 0xffff) {
                Some((cap_id, a)) => match take_uint(p.skip(a as int), 0xffff) {
                    Some((context_id, b)) => if a + b == p.len() {
                        Some(
                            (
                                CapHeader {
                                    cap_id: cap_id as u16,
                                    context_id: context_id as u16,
                                },
                                total,
                            ),
                        )
                    } else {
                        None
                    },
                    None => None,
                },
                None => None,
            },
            None => None,
        }
    }

    /// The header that `s` is the encoding of.
    pub open spec fn decode_spec(s: Seq<u8>) -> Option<CapHeader> {
        match Self::decode_prefix(s) {
            Some((header, total)) => if total == s.len() {
                Some(header)
            } else {
                None
            },
            None => None,
        }
    }

    /// Decodes a header from the whole of `bytes`.
    pub fn decode(bytes: &[u8]) -> (out: Option<CapHeader>)
        ensures
            out == Self::decode_spec(bytes@),
    {
        assert(bytes@.skip(0) =~= bytes@);
        let (start, end) = read_list(bytes, 0)?;
        let p = vstd::slice::slice_subrange(bytes, start, end);
        assert(p@.skip(0) =~= p@);
        let (cap_id, a) = read_uint(p, 0, 0xffff)?;
        let (context_id, b) = read_uint(p, a, 0xffff)?;
        if b != p.len() || end != bytes.len() {
            return None;
        }
        Some(CapHeader { cap_id: cap_id as u16, context_id: context_id as u16 })
    }

    /// Creates the header from its fields.
    pub fn new(cap_id: u16, context_id: u16) -> (out: CapHeader)
        ensures
            out == (CapHeader { cap_id, context_id }),
    {
        CapHeader { cap_id, context_id }
    }

    /// Encodes the header.
    pub fn encode(&self) -> (out: Vec<u8>)
        ensures
            out@ == self.rlp(),
    {
        let mut payload = encode_uint(self.cap_id as u64);
        let second = encode_uint(self.context_id as u64);
        payload.extend_from_slice(second.as_slice());
        assert(payload@ =~= rlp_uint(self.cap_id as nat) + rlp_uint(self.context_id as nat));
        encode_list(payload.as_slice())
    }
}

impl HelloPrefixMsg {
    /// The encoding: that of the integer alone.
    pub open spec fn rlp(self) -> Seq<u8> {
        rlp_uint(self.zero as nat)
    }

    /// The prefix that `s` is the encoding of.
    pub open spec fn decode_spec(s: Seq<u8>) -> Option<HelloPrefixMsg> {
        match take_uint(s, 0xffff_ffff) {
            Some((zero, total)) => if total == s.len() {
                Some(HelloPrefixMsg { zero: zero as u32 })
            } else {
                None
            },
            None => None,
        }
    }

    /// Decodes a prefix from the whole of `bytes`.
    pub fn decode(bytes: &[u8]) -> (out: Option<HelloPrefixMsg>)
        ensures
            out == Self::decode_spec(bytes@),
    {
        assert(bytes@.skip(0) =~= bytes@);
        let (zero, end) = read_uint(bytes, 0, 0xffff_ffff)?;
        if end != bytes.len() {
            return None;
        }
        Some(HelloPrefixMsg { zero: zero as u32 })
    }

    /// Creates the prefix from its field.
    pub fn new(zero: u32) -> (out: HelloPrefixMsg)
        ensures
            out == (HelloPrefixMsg { zero }),
    {
        HelloPrefixMsg { zero }
    }

    /// Encodes the prefix.
    pub fn encode(&self) -> (out: Vec<u8>)
        ensures
            out@ == self.rlp(),
    {
        encode_uint(self.zero as u64)
    }
}

impl AuthMsgView {
    /// The encoding: the list of signature, public key, nonce and version.
    pub open spec fn rlp(self) -> Seq<u8> {
        rlp_list(
            rlp_bytes(self.sig) + rlp_bytes(self.pub_key) + rlp_bytes(self.nonce) + rlp_uint(
                self.version as nat,
            ),
        )
    }

    /// The message that `s` is the encoding of.
    pub open spec fn decode_spec(s: Seq<u8>) -> Option<AuthMsgView> {
        match take_list(s) {
            Some((p, total)) => match take_bytes(p) {
                Some((sig, a)) => match take_bytes(p.skip(a as int)) {
                    Some((pub_key, b)) => match take_bytes(p.skip((a + b) as int)) {
                        Some((nonce, c)) => match take_uint(p.skip((a + b + c) as int), 0xffff) {
                            Some((version, d)) => if a + b + c + d == p.len() && total == s.len() {
                                Some(AuthMsgView { sig, pub_key, nonce, version: version as u16 })
                            } else {
                                None
                            },
                            None => None,
                        },
                        None => None,
                    },
                    None => None,
                },
                None => None,
            },
            None => None,
        }
    }

    /// The encoding is short enough for its lengths to be written down.
    pub open spec fn encodable(self) -> bool {
        self.rlp().len() < pow256(8)
    }
}

impl AuthMsg {
    /// Decodes a message from the whole of `bytes`.
    pub fn decode(bytes: &[u8]) -> (out: Option<AuthMsg>)
        ensures
            match out {
                Some(message) => AuthMsgView::decode_spec(bytes@) == Some(message@),
                None => AuthMsgView::decode_spec(bytes@) is None,
            },
    {
        assert(bytes@.skip(0) =~= bytes@);
        let (start, end) = read_list(bytes, 0)?;
        let p = vstd::slice::slice_subrange(bytes, start, end);
        assert(p@.skip(0) =~= p@);
        let (sig, a) = read_bytes(p, 0)?;
        let (pub_key, b) = read_bytes(p, a)?;
        let (nonce, c) = read_bytes(p, b)?;
        let (version, d) = read_uint(p, c, 0xffff)?;
        if d != p.len() || end != bytes.len() {
            return None;
        }
        Some(AuthMsg { sig, pub_key, nonce, version: version as u16 })
    }

    /// Creates the message from its fields.
    pub fn new(sig: Vec<u8>, pub_key: Vec<u8>, nonce: Vec<u8>, version: u16) -> (out: AuthMsg)
        ensures
            out@ == (AuthMsgView { sig: sig@, pub_key: pub_key@, nonce: nonce@, version }),
    {
        AuthMsg { sig, pub_key, nonce, version }
    }

    /// Encodes the message.
    pub fn encode(&self) -> (out: Vec<u8>)
        ensures
            out@ == self@.rlp(),
    {
        let mut payload = encode_bytes(self.sig.as_slice());
        let key = encode_bytes(self.pub_key.as_slice());
        let nonce = encode_bytes(self.nonce.as_slice());
        let version = encode_uint(self.version as u64);
        payload.extend_from_slice(key.as_slice());
        payload.extend_from_slice(nonce.as_slice());
        payload.extend_from_slice(version.as_slice());
        assert(payload@ =~= rlp_bytes(self.sig@) + rlp_bytes(self.pub_key@) + rlp_bytes(
            self.nonce@,
        ) + rlp_uint(self.version as nat));
        encode_list(payload.as_slice())
    }
}

impl AckMsgView {
    /// The encoding: the list of public key, nonce and version.
    pub open spec fn rlp(self) -> Seq<u8> {
        rlp_list(rlp_bytes(self.pub_key) + rlp_bytes(self.nonce) + rlp_uint(self.version as nat))
    }
}

/// The first two fields of the `ack` body at the start of `plain`: the
/// remote ephemeral public key and the remote nonce. The body is a list of
/// byte strings; what follows the first two, and what follows the list, is
/// ignored. `None` where `plain` does not start with such a list.
pub open spec fn ack_head(plain: Seq<u8>) -> Option<(Seq<u8>, Seq<u8>)> {
    match decode_item(plain) {
        Some((is_list, payload, total)) => if !is_list {
            None
        } else {
            match decode_strings(payload) {
                Some(items) => if items.len() >= 2 {
                    Some((items[0], items[1]))
                } else {
                    None
                },
                None => None,
            }
        },
        None => None,
    }
}

impl AckMsg {
    /// Reads the remote ephemeral public key and the remote nonce from a
    /// decrypted `ack`, which is the encoded body followed by padding.
    pub fn decode_head(plain: &[u8]) -> (out: Option<(Vec<u8>, Vec<u8>)>)
        ensures
            match out {
                Some((key, nonce)) => ack_head(plain@) == Some((key@, nonce@)),
                None => ack_head(plain@) is None,
            },
    {
        assert(plain@.skip(0) =~= plain@);
        match decode_item_at(plain, 0) {
            Some((is_list, start, end)) => {
                if !is_list {
                    return None;
                }
                match decode_string_items(vstd::slice::slice_subrange(plain, start, end)) {
                    Some(items) => {
                        if items.len() < 2 {
                            return None;
                        }
                        let key = vstd::slice::slice_to_vec(items[0].as_slice());
                        let nonce = vstd::slice::slice_to_vec(items[1].as_slice());
                        Some((key, nonce))
                    },
                    None => None,
                }
            },
            None => None,
        }
    }

    /// Creates the message from its fields.
    pub fn new(pub_key: Vec<u8>, nonce: Vec<u8>, version: u16) -> (out: AckMsg)
        ensures
            out@ == (AckMsgView { pub_key: pub_key@, nonce: nonce@, version }),
    {
        AckMsg { pub_key, nonce, version }
    }

    /// Encodes the message.
    pub fn encode(&self) -> (out: Vec<u8>)
        ensures
            out@ == self@.rlp(),
    {
        let mut payload = encode_bytes(self.pub_key.as_slice());
        let nonce = encode_bytes(self.nonce.as_slice());
        let version = encode_uint(self.version as u64);
        payload.extend_from_slice(nonce.as_slice());
        payload.extend_from_slice(version.as_slice());
        assert(payload@ =~= rlp_bytes(self.pub_key@) + rlp_bytes(self.nonce@) + rlp_uint(
            self.version as nat,
        ));
        encode_list(payload.as_slice())
    }
}

impl ProtocolView {
    /// The encoding: the list of name and version.
    pub open spec fn rlp(self) -> Seq<u8> {
        rlp_list(rlp_bytes(encode_utf8(self.name)) + rlp_uint(self.t as nat))
    }

    /// The capability that `s` starts with and the number of bytes it
    /// takes.
    pub open spec fn decode_prefix(s: Seq<u8>) -> Option<(ProtocolView, nat)> {
        match take_list(s) {
            Some((p, total)) => match take_bytes(p) {
                Some((name, a)) => match take_uint(p.skip(a as int), 0xffff_ffff) {
                    Some((t, b)) => if a + b == p.len() && valid_utf8(name) {
                        Some((ProtocolView { name: decode_utf8(name), t: t as u32 }, total))
                    } else {
                        None
                    },
                    None => None,
                },
                None => None,
            },
            None => None,
        }
    }

    /// The capability that `s` is the encoding of.
    pub open spec fn decode_spec(s: Seq<u8>) -> Option<ProtocolView> {
        match Self::decode_prefix(s) {
            Some((capability, total)) => if total == s.len() {
                Some(capability)
            } else {
                None
            },
            None => None,
        }
    }

    /// The encoding is short enough for its lengths to be written down.
    pub open spec fn encodable(self) -> bool {
        self.rlp().len() < pow256(8)
    }
}

impl Protocol {
    /// Decodes the capability that starts at index `pos` of `buf` and
    /// returns it with the index where the next item starts.
    pub fn decode_at(buf: &[u8], pos: usize) -> (out: Option<(Protocol, usize)>)
        requires
            pos <= buf@.len(),
        ensures
            match out {
                Some((capability, next)) => pos < next <= buf@.len() && ProtocolView::decode_prefix(
                    buf@.skip(pos as int),
                ) == Some((capability@, (next - pos) as nat)),
                None => ProtocolView::decode_prefix(buf@.skip(pos as int)) is None,
            },
    {
        let (start, end) = read_list(buf, pos)?;
        let p = vstd::slice::slice_subrange(buf, start, end);
        assert(p@.skip(0) =~= p@);
        let (name, a) = read_bytes(p, 0)?;
        let (t, b) = read_uint(p, a, 0xffff_ffff)?;
        if b != p.len() {
            return None;
        }
        let name = string_from_utf8(name)?;
        Some((Protocol { name, t: t as u32 }, end))
    }

    /// Decodes a capability from the whole of `bytes`.
    pub fn decode(bytes: &[u8]) -> (out: Option<Protocol>)
        ensures
            match out {
                Some(capability) => ProtocolView::decode_spec(bytes@) == Some(capability@),
                None => ProtocolView::decode_spec(bytes@) is None,
            },
    {
        assert(bytes@.skip(0) =~= bytes@);
        let (capability, end) = Self::decode_at(bytes, 0)?;
        if end != bytes.len() {
            return None;
        }
        Some(capability)
    }

    /// Creates the capability from its fields.
    pub fn new(name: String, t: u32) -> (out: Protocol)
        ensures
            out@ == (ProtocolView { name: name@, t }),
    {
        Protocol { name, t }
    }

    /// Encodes the capability.
    pub fn encode(&self) -> (out: Vec<u8>)
        ensures
            out@ == self@.rlp(),
    {
        let mut payload = encode_str(self.name.as_str());
        let version = encode_uint(self.t as u64);
        payload.extend_from_slice(version.as_slice());
        assert(payload@ =~= rlp_bytes(encode_utf8(self.name@)) + rlp_uint(self.t as nat));
        encode_list(payload.as_slice())
    }
}

impl HelloMsgView {
    /// The encoding: the list of version, client name, the list of
    /// capabilities, listening port and node id.
    pub open spec fn rlp(self) -> Seq<u8> {
        rlp_list(
            rlp_uint(self.version as nat) + rlp_bytes(encode_utf8(self.name)) + rlp_list(
                rlp_protocols(self.protocols),
            ) + rlp_uint(self.port as nat) + rlp_bytes(self.pub_key),
        )
    }
}

/// The capabilities whose encodings, one after another, make up `s`.
pub open spec fn decode_protocols(s: Seq<u8>) -> Option<Seq<ProtocolView>>
    decreases s.len(),
{
    if s.len() == 0 {
        Some(Seq::empty())
    } else {
        match ProtocolView::decode_prefix(s) {
            Some((capability, total)) => if total == 0 || total > s.len() {
                None
            } else {
                match decode_protocols(s.skip(total as int)) {
                    Some(rest) => Some(seq![capability] + rest),
                    None => None,
                }
            },
            None => None,
        }
    }
}

impl HelloMsgView {
    /// The message that `s` is the encoding of.
    pub open spec fn decode_spec(s: Seq<u8>) -> Option<HelloMsgView> {
        match take_list(s) {
            Some((p, total)) => match take_uint(p, 0xffff_ffff) {
                Some((version, a)) => match take_bytes(p.skip(a as int)) {
                    Some((name, b)) => match take_list(p.skip((a + b) as int)) {
                        Some((list, c)) => match decode_protocols(list) {
                            Some(protocols) => match take_uint(
                                p.skip((a + b + c) as int),
                                0xffff,
                            ) {
                                Some((port, d)) => match take_bytes(
                                    p.skip((a + b + c + d) as int),
                                ) {
                                    Some((pub_key, e)) => if a + b + c + d + e == p.len() && total
                                        == s.len() && valid_utf8(name) {
                                        Some(
                                            HelloMsgView {
                                                version: version as u32,
                                                name: decode_utf8(name),
                                                protocols,
                                                port: port as u16,
                                                pub_key,
                                            },
                                        )
                                    } else {
                                        None
                                    },
                                    None => None,
                                },
                                None => None,
                            },
                            None => None,
                        },
                        None => None,
                    },
                    None => None,
                },
                None => None,
            },
            None => None,
        }
    }

    /// The encoding is short enough for its lengths to be written down.
    pub open spec fn encodable(self) -> bool {
        self.rlp().len() < pow256(8)
    }
}

/// Decodes the capabilities whose encodings, one after another, make up
/// `payload`.
pub fn decode_protocol_items(payload: &[u8]) -> (out: Option<Vec<Protocol>>)
    ensures
        match out {
            Some(items) => decode_protocols(payload@) == Some(
                items@.map_values(|p: Protocol| p@),
            ),
            None => decode_protocols(payload@) is None,
        },
{
    let mut items: Vec<Protocol> = Vec::new();
    let mut pos: usize = 0;
    assert(payload@.skip(0) =~= payload@);
    assert(items@.map_values(|p: Protocol| p@) =~= Seq::<ProtocolView>::empty());
    assert(Seq::<ProtocolView>::empty() + decode_protocols(payload@.skip(0))->Some_0
        =~= decode_protocols(payload@.skip(0))->Some_0);
    while pos < payload.len()
        invariant
            pos <= payload@.len(),
            decode_protocols(payload@) == match decode_protocols(payload@.skip(pos as int)) {
                Some(rest) => Some(items@.map_values(|p: Protocol| p@) + rest),
                None => None,
            },
        decreases payload.len() - pos,
    {
        let ghost before = items@.map_values(|p: Protocol| p@);
        let ghost s = payload@.skip(pos as int);
        match Protocol::decode_at(payload, pos) {
            Some((item, end)) => {
                let ghost view = item@;
                items.push(item);
                proof {
                    assert(s.skip(end - pos) =~= payload@.skip(end as int));
                    assert(items@.map_values(|p: Protocol| p@) =~= before + seq![view]);
                    match decode_protocols(payload@.skip(end as int)) {
                        Some(rest) => {
                            assert(before + (seq![view] + rest) =~= (before + seq![view]) + rest);
                        },
                        None => {},
                    }
                }
                pos = end;
            },
            None => {
                return None;
            },
        }
    }
    proof {
        assert(decode_protocols(payload@.skip(pos as int)) == Some(
            Seq::<ProtocolView>::empty(),
        ));
        assert(items@.map_values(|p: Protocol| p@) + Seq::<ProtocolView>::empty()
            =~= items@.map_values(|p: Protocol| p@));
    }
    Some(items)
}

impl HelloMsg {
    /// Decodes a message from the whole of `bytes`.
    pub fn decode(bytes: &[u8]) -> (out: Option<HelloMsg>)
        ensures
            match out {
                Some(message) => HelloMsgView::decode_spec(bytes@) == Some(message@),
                None => HelloMsgView::decode_spec(bytes@) is None,
            },
    {
        assert(bytes@.skip(0) =~= bytes@);
        let (start, end) = read_list(bytes, 0)?;
        let p = vstd::slice::slice_subrange(bytes, start, end);
        assert(p@.skip(0) =~= p@);
        let (version, a) = read_uint(p, 0, 0xffff_ffff)?;
        let (name, b) = read_bytes(p, a)?;
        let (list_start, c) = read_list(p, b)?;
        let protocols = decode_protocol_items(vstd::slice::slice_subrange(p, list_start, c))?;
        let (port, d) = read_uint(p, c, 0xffff)?;
        let (pub_key, e) = read_bytes(p, d)?;
        if e != p.len() || end != bytes.len() {
            return None;
        }
        let name = string_from_utf8(name)?;
        Some(HelloMsg { version: version as u32, name, protocols, port: port as u16, pub_key })
    }

    /// Creates the message from its fields.
    pub fn new(
        version: u32,
        name: String,
        protocols: Vec<Protocol>,
        port: u16,
        pub_key: Vec<u8>,
    ) -> (out: HelloMsg)
        ensures
            out.version == version,
            out.name@ == name@,
            out.protocols == protocols,
            out.port == port,
            out.pub_key@ == pub_key@,
    {
        HelloMsg { version, name, protocols, port, pub_key }
    }

    /// Encodes the message.
    pub fn encode(&self) -> (out: Vec<u8>)
        ensures
            out@ == self@.rlp(),
    {
        let ghost views = self@.protocols;
        let mut items: Vec<u8> = Vec::new();
        let mut i: usize = 0;
        assert(views.subrange(0, 0) =~= Seq::<ProtocolView>::empty());
        while i < self.protocols.len()
            invariant
                i <= self.protocols.len(),
                views == self@.protocols,
                views.len() == self.protocols.len(),
                items@ == rlp_protocols(views.subrange(0, i as int)),
            decreases self.protocols.len() - i,
        {
            let item = self.protocols[i].encode();
            items.extend_from_slice(item.as_slice());
            proof {
                let next = views.subrange(0, i + 1);
                assert(next.drop_last() =~= views.subrange(0, i as int));
                assert(next.last() == self.protocols@[i as int]@);
                assert(items@ =~= rlp_protocols(views.subrange(0, i as int)) + next.last().rlp());
            }
            i += 1;
        }
        assert(views.subrange(0, i as int) =~= views);
        let list = encode_list(items.as_slice());
        let mut payload = encode_uint(self.version as u64);
        let name = encode_str(self.name.as_str());
        let port = encode_uint(self.port as u64);
        let key = encode_bytes(self.pub_key.as_slice());
        payload.extend_from_slice(name.as_slice());
        payload.extend_from_slice(list.as_slice());
        payload.extend_from_slice(port.as_slice());
        payload.extend_from_slice(key.as_slice());
        assert(payload@ =~= rlp_uint(self.version as nat) + rlp_bytes(encode_utf8(self.name@))
            + rlp_list(rlp_protocols(views)) + rlp_uint(self.port as nat) + rlp_bytes(
            self.pub_key@,
        ));
        encode_list(payload.as_slice())
    }
}

impl EndpointView {
    /// The encoding: the list of address, UDP port and TCP port.
    pub open spec fn rlp(self) -> Seq<u8> {
        rlp_list(
            rlp_bytes(encode_utf8(self.address)) + rlp_uint(self.udp_port as nat) + rlp_uint(
                self.tcp_port as nat,
            ),
        )
    }

    /// The endpoint that `s` starts with and the number of bytes it takes.
    pub open spec fn decode_prefix(s: Seq<u8>) -> Option<(EndpointView, nat)> {
        match take_list(s) {
            Some((p, total)) => match take_bytes(p) {
                Some((address, a)) => match take_uint(p.skip(a as int), 0xffff) {
                    Some((udp_port, b)) => match take_uint(p.skip((a + b) as int), 0xffff) {
                        Some((tcp_port, c)) => if a + b + c == p.len() && valid_utf8(address) {
                            Some(
                                (
                                    EndpointView {
                                        address: decode_utf8(address),
                                        udp_port: udp_port as u16,
                                        tcp_port: tcp_port as u16,
                                    },
                                    total,
                                ),
                            )
                        } else {
                            None
                        },
                        None => None,
                    },
                    None => None,
                },
                None => None,
            },
            None => None,
        }
    }

    /// The endpoint that `s` is the encoding of.
    pub open spec fn decode_spec(s: Seq<u8>) -> Option<EndpointView> {
        match Self::decode_prefix(s) {
            Some((endpoint, total)) => if total == s.len() {
                Some(endpoint)
            } else {
                None
            },
            None => None,
        }
    }

    /// The encoding is short enough for its lengths to be written down.
    pub open spec fn encodable(self) -> bool {
        self.rlp().len() < pow256(8)
    }
}

impl Endpoint {
    /// Decodes the endpoint that starts at index `pos` of `buf` and returns
    /// it with the index where the next item starts.
    pub fn decode_at(buf: &[u8], pos: usize) -> (out: Option<(Endpoint, usize)>)
        requires
            pos <= buf@.len(),
        ensures
            match out {
                Some((endpoint, next)) => pos < next <= buf@.len() && EndpointView::decode_prefix(
                    buf@.skip(pos as int),
                ) == Some((endpoint@, (next - pos) as nat)),
                None => EndpointView::decode_prefix(buf@.skip(pos as int)) is None,
            },
    {
        let (start, end) = read_list(buf, pos)?;
        let p = vstd::slice::slice_subrange(buf, start, end);
        assert(p@.skip(0) =~= p@);
        let (address, a) = read_bytes(p, 0)?;
        let (udp_port, b) = read_uint(p, a, 0xffff)?;
        let (tcp_port, c) = read_uint(p, b, 0xffff)?;
        if c != p.len() {
            return None;
        }
        let address = string_from_utf8(address)?;
        Some((Endpoint { address, udp_port: udp_port as u16, tcp_port: tcp_port as u16 }, end))
    }

    /// Decodes an endpoint from the whole of `bytes`.
    pub fn decode(bytes: &[u8]) -> (out: Option<Endpoint>)
        ensures
            match out {
                Some(endpoint) => EndpointView::decode_spec(bytes@) == Some(endpoint@),
                None => EndpointView::decode_spec(bytes@) is None,
            },
    {
        assert(bytes@.skip(0) =~= bytes@);
        let (endpoint, end) = Self::decode_at(bytes, 0)?;
        if end != bytes.len() {
            return None;
        }
        Some(endpoint)
    }

    /// Creates the endpoint from its fields.
    pub fn new(address: String, udp_port: u16, tcp_port: u16) -> (out: Endpoint)
        ensures
            out@ == (EndpointView { address: address@, udp_port, tcp_port }),
    {
        Endpoint { address, udp_port, tcp_port }
    }

    /// Encodes the endpoint.
    pub fn encode(&self) -> (out: Vec<u8>)
        ensures
            out@ == self@.rlp(),
    {
        let mut payload = encode_str(self.address.as_str());
        let udp = encode_uint(self.udp_port as u64);
        let tcp = encode_uint(self.tcp_port as u64);
        payload.extend_from_slice(udp.as_slice());
        payload.extend_from_slice(tcp.as_slice());
        assert(payload@ =~= rlp_bytes(encode_utf8(self.address@)) + rlp_uint(self.udp_port as nat)
            + rlp_uint(self.tcp_port as nat));
        encode_list(payload.as_slice())
    }
}

impl PingView {
    /// The encoding: the list of version, sender, recipient and expiration.
    pub open spec fn rlp(self) -> Seq<u8> {
        rlp_list(
            rlp_uint(self.version as nat) + self.from.rlp() + self.to.rlp() + rlp_uint(
                self.timestamp as nat,
            ),
        )
    }

    /// The packet data that `s` is the encoding of.
    pub open spec fn decode_spec(s: Seq<u8>) -> Option<PingView> {
        match take_list(s) {
            Some((p, total)) => match take_uint(p, 0xffff) {
                Some((version, a)) => match EndpointView::decode_prefix(p.skip(a as int)) {
                    Some((from, b)) => match EndpointView::decode_prefix(p.skip((a + b) as int)) {
                        Some((to, c)) => match take_uint(
                            p.skip((a + b + c) as int),
                            0xffff_ffff_ffff_ffff,
                        ) {
                            Some((timestamp, d)) => if a + b + c + d == p.len() && total
                                == s.len() {
                                Some(
                                    PingView {
                                        version: version as u16,
                                        from,
                                        to,
                                        timestamp: timestamp as u64,
                                    },
                                )
                            } else {
                                None
                            },
                            None => None,
                        },
                        None => None,
                    },
                    None => None,
                },
                None => None,
            },
            None => None,
        }
    }

    /// The encoding is short enough for its lengths to be written down.
    pub open spec fn encodable(self) -> bool {
        self.rlp().len() < pow256(8)
    }
}

impl Ping {
    /// Decodes packet data from the whole of `bytes`.
    pub fn decode(bytes: &[u8]) -> (out: Option<Ping>)
        ensures
            match out {
                Some(data) => PingView::decode_spec(bytes@) == Some(data@),
                None => PingView::decode_spec(bytes@) is None,
            },
    {
        assert(bytes@.skip(0) =~= bytes@);
        let (start, end) = read_list(bytes, 0)?;
        let p = vstd::slice::slice_subrange(bytes, start, end);
        assert(p@.skip(0) =~= p@);
        let (version, a) = read_uint(p, 0, 0xffff)?;
        let (from, b) = Endpoint::decode_at(p, a)?;
        let (to, c) = Endpoint::decode_at(p, b)?;
        let (timestamp, d) = read_uint(p, c, 0xffff_ffff_ffff_ffff)?;
        if d != p.len() || end != bytes.len() {
            return None;
        }
        Some(Ping { version: version as u16, from, to, timestamp })
    }

    /// Creates the packet data from its fields.
    pub fn new(version: u16, from: Endpoint, to: Endpoint, timestamp: u64) -> (out: Ping)
        ensures
            out@ == (PingView { version, from: from@, to: to@, timestamp }),
    {
        Ping { version, from, to, timestamp }
    }

    /// Encodes the packet data.
    pub fn encode(&self) -> (out: Vec<u8>)
        ensures
            out@ == self@.rlp(),
    {
        let mut payload = encode_uint(self.version as u64);
        let from = self.from.encode();
        let to = self.to.encode();
        let timestamp = encode_uint(self.timestamp);
        payload.extend_from_slice(from.as_slice());
        payload.extend_from_slice(to.as_slice());
        payload.extend_from_slice(timestamp.as_slice());
        assert(payload@ =~= rlp_uint(self.version as nat) + self.from@.rlp() + self.to@.rlp()
            + rlp_uint(self.timestamp as nat));
        encode_list(payload.as_slice())
    }
}

} // verus!
