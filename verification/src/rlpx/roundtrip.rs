//! Decoding undoes encoding: for every record, what was encoded is decoded
//! to the record it was encoded from.
//!
//! The one condition is that the encoding is shorter than 2^64 bytes, since
//! a length is written with at most eight bytes; every record that fits in
//! memory meets it.

use vstd::prelude::*;
use vstd::utf8::{encode_utf8, encode_utf8_decode_utf8, encode_utf8_valid_utf8};
use crate::rlp::{
    lemma_be_bytes_len, lemma_pow256_8, lemma_rlp_nonempty, lemma_take_bytes,
    lemma_take_list, lemma_take_uint, pow256, rlp_bytes, rlp_list, rlp_uint, take_bytes,
    take_list, take_uint,
};
use super::types::{
    decode_protocols, rlp_protocols, AuthMsgView, CapHeader, EndpointView, HelloMsgView,
    HelloPrefixMsg, PingView, ProtocolView,
};

verus! {

/// An integer below 2^64 is encoded in at most nine bytes and at least one.
pub proof fn lemma_rlp_uint_len(n: nat)
    requires
        n < pow256(8),
    ensures
        1 <= rlp_uint(n).len() <= 9,
{
    lemma_be_bytes_len(n, 8);
}

/// Decoding an encoded capability header gives the header back.
pub proof fn lemma_cap_header_roundtrip(header: CapHeader)
    ensures
        CapHeader::decode_spec(header.rlp()) == Some(header),
{
    let a = rlp_uint(header.cap_id as nat);
    let b = rlp_uint(header.context_id as nat);
    let p = a + b;
    lemma_pow256_8();
    lemma_rlp_uint_len(header.cap_id as nat);
    lemma_rlp_uint_len(header.context_id as nat);
    lemma_take_list(p, Seq::empty());
    assert(rlp_list(p) + Seq::<u8>::empty() =~= rlp_list(p));
    lemma_take_uint(header.cap_id as nat, 0xffff, b);
    assert(p.skip(a.len() as int) =~= b + Seq::<u8>::empty());
    lemma_take_uint(header.context_id as nat, 0xffff, Seq::empty());
}

/// Decoding an encoded Hello prefix gives the prefix back.
pub proof fn lemma_hello_prefix_roundtrip(prefix: HelloPrefixMsg)
    ensures
        HelloPrefixMsg::decode_spec(prefix.rlp()) == Some(prefix),
{
    lemma_pow256_8();
    lemma_take_uint(prefix.zero as nat, 0xffff_ffff, Seq::empty());
    assert(rlp_uint(prefix.zero as nat) + Seq::<u8>::empty() =~= rlp_uint(prefix.zero as nat));
}

/// Decoding an encoded `auth` body gives the body back.
pub proof fn lemma_auth_roundtrip(message: AuthMsgView)
    requires
        message.encodable(),
    ensures
        AuthMsgView::decode_spec(message.rlp()) == Some(message),
{
    let a = rlp_bytes(message.sig);
    let b = rlp_bytes(message.pub_key);
    let c = rlp_bytes(message.nonce);
    let d = rlp_uint(message.version as nat);
    let p = a + b + c + d;
    lemma_pow256_8();
    lemma_take_list(p, Seq::empty());
    assert(rlp_list(p) + Seq::<u8>::empty() =~= rlp_list(p));
    assert(p =~= a + (b + c + d));
    lemma_take_bytes(message.sig, b + c + d);
    assert(p.skip(a.len() as int) =~= b + (c + d));
    lemma_take_bytes(message.pub_key, c + d);
    assert(p.skip((a.len() + b.len()) as int) =~= c + d);
    lemma_take_bytes(message.nonce, d);
    assert(p.skip((a.len() + b.len() + c.len()) as int) =~= d + Seq::<u8>::empty());
    lemma_take_uint(message.version as nat, 0xffff, Seq::empty());
}

/// An encoded capability is decoded to itself, whatever follows it.
pub proof fn lemma_protocol_prefix(capability: ProtocolView, rest: Seq<u8>)
    requires
        capability.encodable(),
    ensures
        ProtocolView::decode_prefix(capability.rlp() + rest) == Some(
            (capability, capability.rlp().len()),
        ),
{
    let name = encode_utf8(capability.name);
    let a = rlp_bytes(name);
    let b = rlp_uint(capability.t as nat);
    let p = a + b;
    lemma_pow256_8();
    lemma_take_list(p, rest);
    lemma_take_bytes(name, b);
    assert(p.skip(a.len() as int) =~= b + Seq::<u8>::empty());
    lemma_take_uint(capability.t as nat, 0xffff_ffff, Seq::empty());
    encode_utf8_valid_utf8(capability.name);
    encode_utf8_decode_utf8(capability.name);
}

/// Decoding an encoded capability gives the capability back.
pub proof fn lemma_protocol_roundtrip(capability: ProtocolView)
    requires
        capability.encodable(),
    ensures
        ProtocolView::decode_spec(capability.rlp()) == Some(capability),
{
    lemma_protocol_prefix(capability, Seq::empty());
    assert(capability.rlp() + Seq::<u8>::empty() =~= capability.rlp());
}

/// An encoded endpoint is decoded to itself, whatever follows it.
pub proof fn lemma_endpoint_prefix(endpoint: EndpointView, rest: Seq<u8>)
    requires
        endpoint.encodable(),
    ensures
        EndpointView::decode_prefix(endpoint.rlp() + rest) == Some(
            (endpoint, endpoint.rlp().len()),
        ),
{
    let address = encode_utf8(endpoint.address);
    let a = rlp_bytes(address);
    let b = rlp_uint(endpoint.udp_port as nat);
    let c = rlp_uint(endpoint.tcp_port as nat);
    let p = a + b + c;
    lemma_pow256_8();
    lemma_take_list(p, rest);
    assert(p =~= a + (b + c));
    lemma_take_bytes(address, b + c);
    assert(p.skip(a.len() as int) =~= b + c);
    lemma_take_uint(endpoint.udp_port as nat, 0xffff, c);
    assert(p.skip((a.len() + b.len()) as int) =~= c + Seq::<u8>::empty());
    lemma_take_uint(endpoint.tcp_port as nat, 0xffff, Seq::empty());
    encode_utf8_valid_utf8(endpoint.address);
    encode_utf8_decode_utf8(endpoint.address);
}

/// Decoding an encoded endpoint gives the endpoint back.
pub proof fn lemma_endpoint_roundtrip(endpoint: EndpointView)
    requires
        endpoint.encodable(),
    ensures
        EndpointView::decode_spec(endpoint.rlp()) == Some(endpoint),
{
    lemma_endpoint_prefix(endpoint, Seq::empty());
    assert(endpoint.rlp() + Seq::<u8>::empty() =~= endpoint.rlp());
}

/// Decoding encoded PING data gives the data back.
pub proof fn lemma_ping_roundtrip(data: PingView)
    requires
        data.encodable(),
    ensures
        PingView::decode_spec(data.rlp()) == Some(data),
{
    let a = rlp_uint(data.version as nat);
    let b = data.from.rlp();
    let c = data.to.rlp();
    let d = rlp_uint(data.timestamp as nat);
    let p = a + b + c + d;
    lemma_pow256_8();
    lemma_take_list(p, Seq::empty());
    assert(rlp_list(p) + Seq::<u8>::empty() =~= rlp_list(p));
    assert(p =~= a + (b + c + d));
    lemma_take_uint(data.version as nat, 0xffff, b + c + d);
    assert(p.skip(a.len() as int) =~= b + (c + d));
    lemma_endpoint_prefix(data.from, c + d);
    assert(p.skip((a.len() + b.len()) as int) =~= c + d);
    lemma_endpoint_prefix(data.to, d);
    assert(p.skip((a.len() + b.len() + c.len()) as int) =~= d + Seq::<u8>::empty());
    lemma_take_uint(data.timestamp as nat, 0xffff_ffff_ffff_ffff, Seq::empty());
}

/// The encoding of capabilities starts with the encoding of the first one.
pub proof fn lemma_rlp_protocols_front(first: ProtocolView, rest: Seq<ProtocolView>)
    ensures
        rlp_protocols(seq![first] + rest) == first.rlp() + rlp_protocols(rest),
    decreases rest.len(),
{
    let all = seq![first] + rest;
    if rest.len() == 0 {
        assert(all.drop_last() =~= Seq::<ProtocolView>::empty());
        assert(all.last() == first);
        assert(rlp_protocols(all.drop_last()) =~= Seq::<u8>::empty());
        assert(rlp_protocols(all) =~= first.rlp() + rlp_protocols(rest));
    } else {
        lemma_rlp_protocols_front(first, rest.drop_last());
        assert(all.drop_last() =~= seq![first] + rest.drop_last());
        assert(all.last() == rest.last());
        assert(rlp_protocols(all) =~= first.rlp() + rlp_protocols(rest));
    }
}

/// Decoding encoded capabilities gives the capabilities back.
pub proof fn lemma_protocols_roundtrip(protocols: Seq<ProtocolView>)
    requires
        rlp_protocols(protocols).len() < pow256(8),
    ensures
        decode_protocols(rlp_protocols(protocols)) == Some(protocols),
    decreases protocols.len(),
{
    if protocols.len() == 0 {
        assert(rlp_protocols(protocols) =~= Seq::<u8>::empty());
        assert(protocols =~= Seq::<ProtocolView>::empty());
    } else {
        let first = protocols[0];
        let rest = protocols.skip(1);
        assert(protocols =~= seq![first] + rest);
        lemma_rlp_protocols_front(first, rest);
        let s = rlp_protocols(protocols);
        assert(s == first.rlp() + rlp_protocols(rest));
        lemma_protocol_prefix(first, rlp_protocols(rest));
        assert(s.skip(first.rlp().len() as int) =~= rlp_protocols(rest));
        lemma_protocols_roundtrip(rest);
        assert(first.rlp().len() > 0);
    }
}

/// Where the parts of a sequence of five parts start.
proof fn lemma_five_parts(a: Seq<u8>, b: Seq<u8>, c: Seq<u8>, d: Seq<u8>, e: Seq<u8>)
    ensures
        (a + b + c + d + e).len() == a.len() + b.len() + c.len() + d.len() + e.len(),
        a + b + c + d + e == a + (b + c + d + e),
        (a + b + c + d + e).skip(a.len() as int) == b + (c + d + e),
        (a + b + c + d + e).skip((a.len() + b.len()) as int) == c + (d + e),
        (a + b + c + d + e).skip((a.len() + b.len() + c.len()) as int) == d + e,
        (a + b + c + d + e).skip((a.len() + b.len() + c.len() + d.len()) as int) == e
            + Seq::<u8>::empty(),
{
    let p = a + b + c + d + e;
    assert(p =~= a + (b + c + d + e));
    assert(p.skip(a.len() as int) =~= b + (c + d + e));
    assert(p.skip((a.len() + b.len()) as int) =~= c + (d + e));
    assert(p.skip((a.len() + b.len() + c.len()) as int) =~= d + e);
    assert(p.skip((a.len() + b.len() + c.len() + d.len()) as int) =~= e + Seq::<u8>::empty());
}

/// The parts of an encoded Hello message are read where the one before
/// ends.
proof fn lemma_hello_parts(message: HelloMsgView, p: Seq<u8>)
    requires
        message.encodable(),
        p == rlp_uint(message.version as nat) + rlp_bytes(encode_utf8(message.name)) + rlp_list(
            rlp_protocols(message.protocols),
        ) + rlp_uint(message.port as nat) + rlp_bytes(message.pub_key),
    ensures
        ({
            let name = encode_utf8(message.name);
            let list = rlp_protocols(message.protocols);
            let a = rlp_uint(message.version as nat).len();
            let b = rlp_bytes(name).len();
            let c = rlp_list(list).len();
            let d = rlp_uint(message.port as nat).len();
            let e = rlp_bytes(message.pub_key).len();
            &&& take_list(rlp_list(p)) == Some((p, rlp_list(p).len()))
            &&& take_uint(p, 0xffff_ffff) == Some((message.version as nat, a))
            &&& take_bytes(p.skip(a as int)) == Some((name, b))
            &&& take_list(p.skip((a + b) as int)) == Some((list, c))
            &&& list.len() < pow256(8)
            &&& take_uint(p.skip((a + b + c) as int), 0xffff) == Some((message.port as nat, d))
            &&& take_bytes(p.skip((a + b + c + d) as int)) == Some((message.pub_key, e))
            &&& a + b + c + d + e == p.len()
        }),
{
    let name = encode_utf8(message.name);
    let list = rlp_protocols(message.protocols);
    let a = rlp_uint(message.version as nat);
    let b = rlp_bytes(name);
    let c = rlp_list(list);
    let d = rlp_uint(message.port as nat);
    let e = rlp_bytes(message.pub_key);
    lemma_five_parts(a, b, c, d, e);
    lemma_pow256_8();
    lemma_rlp_nonempty(p);
    lemma_rlp_nonempty(name);
    lemma_rlp_nonempty(list);
    lemma_rlp_nonempty(message.pub_key);
    lemma_take_list(p, Seq::empty());
    assert(rlp_list(p) + Seq::<u8>::empty() =~= rlp_list(p));
    lemma_take_uint(message.version as nat, 0xffff_ffff, b + c + d + e);
    lemma_take_bytes(name, c + d + e);
    lemma_take_list(list, d + e);
    lemma_take_uint(message.port as nat, 0xffff, e);
    lemma_take_bytes(message.pub_key, Seq::empty());
}

/// Decoding an encoded Hello message gives the message back.
pub proof fn lemma_hello_roundtrip(message: HelloMsgView)
    requires
        message.encodable(),
    ensures
        HelloMsgView::decode_spec(message.rlp()) == Some(message),
{
    let name = encode_utf8(message.name);
    let list = rlp_protocols(message.protocols);
    let p = rlp_uint(message.version as nat) + rlp_bytes(name) + rlp_list(list) + rlp_uint(
        message.port as nat,
    ) + rlp_bytes(message.pub_key);
    lemma_hello_parts(message, p);
    lemma_protocols_roundtrip(message.protocols);
    encode_utf8_valid_utf8(message.name);
    encode_utf8_decode_utf8(message.name);
}

} // verus!
