use vstd::prelude::*;

use crate::checksum::frame_checksum_of;
use crate::message::{
    kind_of, AddressView, MessageSerialError, MessageView, NodeView, ObjectBodyView, ObjectView,
    VersionView, MAGIC,
};
use crate::state::MessageKind;
use crate::wire::{
    be16, be32, be32_value, be64, command_field, command_name, concat_map,
    decode_message, encode_address, encode_message, encode_node, encode_object, encode_payload,
    encode_version, is_ascii, kind_named, max_payload, message_wf, name_len, parse_address,
    parse_ascii, parse_command, parse_hash, parse_many, parse_node, parse_object,
    parse_payload, parse_u16, parse_u32, parse_u64, parse_varint, parse_varint32, parse_version,
    take_bytes, varint, Parsed,
};

verus! {

proof fn lemma_assoc(a: Seq<u8>, b: Seq<u8>, c: Seq<u8>)
    ensures
        a + b + c == a + (b + c),
{
    assert(a + b + c =~= a + (b + c));
}

proof fn lemma_u16(v: u16, r: Seq<u8>)
    ensures
        parse_u16(be16(v) + r) == Ok::<(u16, Seq<u8>), MessageSerialError>((v, r)),
{
    let s = be16(v) + r;
    assert(((((v >> 8u16) & 0xff) as u8) as u16) << 8u16 | (((v & 0xff) as u8) as u16) == v)
        by (bit_vector);
    assert(s.skip(2) =~= r);
}

proof fn lemma_u32(v: u32, r: Seq<u8>)
    ensures
        parse_u32(be32(v) + r) == Ok::<(u32, Seq<u8>), MessageSerialError>((v, r)),
{
    let s = be32(v) + r;
    assert(((((v >> 24u32) & 0xff) as u8) as u32) << 24u32 | ((((v >> 16u32) & 0xff) as u8) as u32)
        << 16u32 | ((((v >> 8u32) & 0xff) as u8) as u32) << 8u32 | (((v & 0xff) as u8) as u32) == v)
        by (bit_vector);
    assert(s.skip(4) =~= r);
}

proof fn lemma_u64(v: u64, r: Seq<u8>)
    ensures
        parse_u64(be64(v) + r) == Ok::<(u64, Seq<u8>), MessageSerialError>((v, r)),
{
    let s = be64(v) + r;
    assert(((((v >> 56u64) & 0xff) as u8) as u64) << 56u64 | ((((v >> 48u64) & 0xff) as u8) as u64)
        << 48u64 | ((((v >> 40u64) & 0xff) as u8) as u64) << 40u64 | ((((v >> 32u64) & 0xff) as u8)
        as u64) << 32u64 | ((((v >> 24u64) & 0xff) as u8) as u64) << 24u64 | ((((v >> 16u64) & 0xff)
        as u8) as u64) << 16u64 | ((((v >> 8u64) & 0xff) as u8) as u64) << 8u64 | (((v & 0xff) as u8)
        as u64) == v) by (bit_vector);
    assert(s.skip(8) =~= r);
}

proof fn lemma_varint(v: u64, r: Seq<u8>)
    ensures
        parse_varint(varint(v) + r) == Ok::<(u64, Seq<u8>), MessageSerialError>((v, r)),
{
    let s = varint(v) + r;
    if v < 0xfd {
        assert(s.skip(1) =~= r);
    } else if v <= 0xffff {
        lemma_u16(v as u16, r);
        assert(s.skip(1) =~= be16(v as u16) + r);
    } else if v <= 0xffff_ffff {
        lemma_u32(v as u32, r);
        assert(s.skip(1) =~= be32(v as u32) + r);
    } else {
        lemma_u64(v, r);
        assert(s.skip(1) =~= be64(v) + r);
    }
}

proof fn lemma_varint32(v: u32, r: Seq<u8>)
    ensures
        parse_varint32(varint(v as u64) + r) == Ok::<(u32, Seq<u8>), MessageSerialError>((v, r)),
{
    lemma_varint(v as u64, r);
}

proof fn lemma_take(b: Seq<u8>, r: Seq<u8>)
    ensures
        take_bytes(b + r, b.len() as int) == Ok::<(Seq<u8>, Seq<u8>), MessageSerialError>((b, r)),
{
    assert((b + r).take(b.len() as int) =~= b);
    assert((b + r).skip(b.len() as int) =~= r);
}

proof fn lemma_ascii(b: Seq<u8>, r: Seq<u8>)
    requires
        is_ascii(b),
        b.len() <= 0xffff_ffff_ffff_ffff,
    ensures
        parse_ascii(varint(b.len() as u64) + b + r) == Ok::<(Seq<u8>, Seq<u8>), MessageSerialError>((b, r)),
{
    let n = b.len() as u64;
    lemma_varint(n, b + r);
    lemma_assoc(varint(n), b, r);
    lemma_take(b, r);
    assert(n as int == b.len());
}

proof fn lemma_address(services: u64, a: AddressView, r: Seq<u8>)
    requires
        a.ip.len() == 16,
    ensures
        parse_address(encode_address(services, a) + r) == Ok::<(AddressView, Seq<u8>), MessageSerialError>(
            (a, r),
        ),
{
    reveal(parse_address);
    lemma_u64(services, a.ip + be16(a.port) + r);
    assert(encode_address(services, a) + r =~= be64(services) + (a.ip + be16(a.port) + r));
    lemma_take(a.ip, be16(a.port) + r);
    assert(a.ip + be16(a.port) + r =~= a.ip + (be16(a.port) + r));
    lemma_u16(a.port, r);
}

proof fn lemma_node(n: NodeView, r: Seq<u8>)
    requires
        n.addr.ip.len() == 16,
    ensures
        parse_node(encode_node(n) + r) == Ok::<(NodeView, Seq<u8>), MessageSerialError>((n, r)),
{
    reveal(parse_node);
    let r4 = be16(n.addr.port) + r;
    let r3 = n.addr.ip + r4;
    let r2 = be64(n.services) + r3;
    let r1 = be32(n.stream) + r2;
    assert(encode_node(n) + r =~= be64(n.last_seen) + r1);
    lemma_u64(n.last_seen, r1);
    lemma_u32(n.stream, r2);
    lemma_u64(n.services, r3);
    lemma_take(n.addr.ip, r4);
    lemma_u16(n.addr.port, r);
}

/// Reading back elements written one after the other gives them back.
proof fn lemma_many<T>(xs: Seq<T>, r: Seq<u8>, enc: spec_fn(T) -> Seq<u8>, p: spec_fn(Seq<u8>) -> Parsed<T>)
    requires
        forall|i: int, t: Seq<u8>|
            0 <= i < xs.len() ==> #[trigger] p(enc(xs[i]) + t) == Ok::<(T, Seq<u8>), MessageSerialError>(
                (xs[i], t),
            ),
    ensures
        parse_many(concat_map(xs, enc) + r, xs.len(), p) == Ok::<(Seq<T>, Seq<u8>), MessageSerialError>(
            (xs, r),
        ),
    decreases xs.len(),
{
    if xs.len() == 0 {
        assert(concat_map(xs, enc) + r =~= r);
        assert(xs =~= Seq::<T>::empty());
    } else {
        let init = xs.drop_last();
        let last = xs.last();
        let t = enc(last) + r;
        assert forall|i: int, u: Seq<u8>| 0 <= i < init.len() implies #[trigger] p(enc(init[i]) + u) == Ok::<
            (T, Seq<u8>),
            MessageSerialError,
        >((init[i], u)) by {
            assert(init[i] == xs[i]);
        }
        lemma_many(init, t, enc, p);
        assert(concat_map(xs, enc) + r =~= concat_map(init, enc) + t);
        assert(p(enc(xs[xs.len() - 1]) + r) == Ok::<(T, Seq<u8>), MessageSerialError>((last, r)));
        assert(init.push(last) =~= xs);
    }
}

#[verifier::rlimit(50)]
proof fn lemma_version(v: VersionView, r: Seq<u8>)
    requires
        v.user_agent.len() <= 0xffff_ffff_ffff_ffff,
        v.streams.len() <= 0xffff_ffff_ffff_ffff,
        v.addr_recv.ip.len() == 16,
        v.addr_from.ip.len() == 16,
        is_ascii(v.user_agent),
    ensures
        parse_version(encode_version(v) + r) == Ok::<(VersionView, Seq<u8>), MessageSerialError>((v, r)),
{
    reveal(parse_version);
    let f = |x: u64| varint(x);
    let p = |t: Seq<u8>| parse_varint(t);
    let r9 = concat_map(v.streams, f) + r;
    let r8 = varint(v.streams.len() as u64) + r9;
    let r7 = varint(v.user_agent.len() as u64) + v.user_agent + r8;
    let r6 = be64(v.nonce) + r7;
    let r5 = encode_address(v.services, v.addr_from) + r6;
    let r4 = encode_address(v.services, v.addr_recv) + r5;
    let r3 = be64(v.timestamp) + r4;
    let r2 = be64(v.services) + r3;
    let a6 = encode_address(v.services, v.addr_from);
    let a5 = encode_address(v.services, v.addr_recv);
    let x1 = be32(v.version) + be64(v.services) + be64(v.timestamp) + a5 + a6 + be64(v.nonce);
    let x2 = x1 + varint(v.user_agent.len() as u64) + v.user_agent;
    let x3 = x2 + varint(v.streams.len() as u64);
    assert(encode_version(v) == x3 + concat_map(v.streams, f));
    lemma_assoc(x3, concat_map(v.streams, f), r);
    lemma_assoc(x2, varint(v.streams.len() as u64), r9);
    lemma_assoc(x1 + varint(v.user_agent.len() as u64), v.user_agent, r8);
    lemma_assoc(x1, varint(v.user_agent.len() as u64), v.user_agent + r8);
    assert(varint(v.user_agent.len() as u64) + (v.user_agent + r8) == r7) by {
        lemma_assoc(varint(v.user_agent.len() as u64), v.user_agent, r8);
    }
    let y1 = be32(v.version) + be64(v.services) + be64(v.timestamp) + a5 + a6;
    lemma_assoc(y1, be64(v.nonce), r7);
    let y2 = be32(v.version) + be64(v.services) + be64(v.timestamp) + a5;
    lemma_assoc(y2, a6, r6);
    let y3 = be32(v.version) + be64(v.services) + be64(v.timestamp);
    lemma_assoc(y3, a5, r5);
    lemma_assoc(be32(v.version) + be64(v.services), be64(v.timestamp), r4);
    lemma_assoc(be32(v.version), be64(v.services), r3);
    lemma_u32(v.version, r2);
    lemma_u64(v.services, r3);
    lemma_u64(v.timestamp, r4);
    lemma_address(v.services, v.addr_recv, r5);
    lemma_address(v.services, v.addr_from, r6);
    lemma_u64(v.nonce, r7);
    lemma_ascii(v.user_agent, r8);
    lemma_varint(v.streams.len() as u64, r9);
    assert forall|i: int, t: Seq<u8>| 0 <= i < v.streams.len() implies #[trigger] p(f(v.streams[i]) + t)
        == Ok::<(u64, Seq<u8>), MessageSerialError>((v.streams[i], t)) by {
        lemma_varint(v.streams[i], t);
    }
    lemma_many(v.streams, r, f, p);
}

#[verifier::rlimit(50)]
proof fn lemma_object(o: ObjectView, r: Seq<u8>)
    requires
        o.version == crate::wire::GETPUBKEY_TAG_VERSION,
        o.body matches ObjectBodyView::GetPubKeyV4 { tag } && tag.len() == 32,
    ensures
        parse_object(encode_object(o) + r) == Ok::<(ObjectView, Seq<u8>), MessageSerialError>((o, r)),
{
    reveal(parse_object);
    let tag = match o.body {
        ObjectBodyView::GetPubKeyV4 { tag } => tag,
    };
    let r5 = tag + r;
    let r4 = varint(o.stream as u64) + r5;
    let r3 = varint(o.version as u64) + r4;
    let r2 = be32(crate::wire::OBJECT_GETPUBKEY) + r3;
    let r1 = be64(o.expiry) + r2;
    let z = be64(o.nonce) + be64(o.expiry) + be32(crate::wire::OBJECT_GETPUBKEY);
    assert(encode_object(o) == z + varint(o.version as u64) + varint(o.stream as u64) + tag);
    lemma_assoc(z + varint(o.version as u64), varint(o.stream as u64), tag);
    lemma_assoc(z + varint(o.version as u64), varint(o.stream as u64) + tag, r);
    lemma_assoc(varint(o.stream as u64), tag, r);
    lemma_assoc(z, varint(o.version as u64), varint(o.stream as u64) + tag + r);
    lemma_assoc(be64(o.nonce) + be64(o.expiry), be32(crate::wire::OBJECT_GETPUBKEY), r3);
    lemma_assoc(be64(o.nonce), be64(o.expiry), r2);
    lemma_u64(o.nonce, r1);
    lemma_u64(o.expiry, r2);
    lemma_u32(crate::wire::OBJECT_GETPUBKEY, r3);
    lemma_varint32(o.version, r4);
    lemma_varint32(o.stream, r5);
    lemma_take(tag, r);
}

proof fn lemma_name_len(name: Seq<u8>, pad: Seq<u8>)
    requires
        forall|i: int| 0 <= i < name.len() ==> name[i] != 0,
        pad.len() > 0 ==> pad[0] == 0,
    ensures
        name_len(name + pad) == name.len(),
    decreases name.len(),
{
    if name.len() > 0 {
        assert((name + pad).drop_first() =~= name.drop_first() + pad);
        lemma_name_len(name.drop_first(), pad);
    } else {
        assert(name + pad =~= pad);
    }
}

proof fn lemma_command(k: MessageKind)
    ensures
        parse_command(command_field(k)) == Ok::<MessageKind, MessageSerialError>(k),
{
    let name = command_name(k);
    let pad = Seq::new((12 - name.len()) as nat, |i: int| 0u8);
    let c = command_field(k);
    lemma_name_len(name, pad);
    assert(c.take(name.len() as int) =~= name);
    assert(kind_named(name) == Some(k));
}

proof fn lemma_hashes(hashes: Seq<Seq<u8>>, r: Seq<u8>)
    requires
        forall|i: int| 0 <= i < hashes.len() ==> (#[trigger] hashes[i]).len() == 32,
    ensures
        parse_many(concat_map(hashes, |h: Seq<u8>| h) + r, hashes.len(), |t: Seq<u8>| parse_hash(t))
            == Ok::<(Seq<Seq<u8>>, Seq<u8>), MessageSerialError>((hashes, r)),
{
    let f = |h: Seq<u8>| h;
    let p = |t: Seq<u8>| parse_hash(t);
    assert forall|i: int, t: Seq<u8>| 0 <= i < hashes.len() implies #[trigger] p(f(hashes[i]) + t) == Ok::<
        (Seq<u8>, Seq<u8>),
        MessageSerialError,
    >((hashes[i], t)) by {
        lemma_take(hashes[i], t);
    }
    lemma_many(hashes, r, f, p);
}

proof fn lemma_nodes(nodes: Seq<NodeView>, r: Seq<u8>)
    requires
        forall|i: int| 0 <= i < nodes.len() ==> (#[trigger] nodes[i]).addr.ip.len() == 16,
    ensures
        parse_many(concat_map(nodes, |n: NodeView| encode_node(n)) + r, nodes.len(), |t: Seq<u8>| parse_node(t))
            == Ok::<(Seq<NodeView>, Seq<u8>), MessageSerialError>((nodes, r)),
{
    let f = |n: NodeView| encode_node(n);
    let p = |t: Seq<u8>| parse_node(t);
    assert forall|i: int, t: Seq<u8>| 0 <= i < nodes.len() implies #[trigger] p(f(nodes[i]) + t) == Ok::<
        (NodeView, Seq<u8>),
        MessageSerialError,
    >((nodes[i], t)) by {
        lemma_node(nodes[i], t);
    }
    lemma_many(nodes, r, f, p);
}

proof fn lemma_concat_len<T>(xs: Seq<T>, f: spec_fn(T) -> Seq<u8>)
    requires
        forall|x: T| #[trigger] f(x).len() >= 1,
    ensures
        concat_map(xs, f).len() >= xs.len(),
    decreases xs.len(),
{
    if xs.len() > 0 {
        lemma_concat_len(xs.drop_last(), f);
        assert(f(xs.last()).len() >= 1);
    }
}

proof fn lemma_payload(m: MessageView)
    requires
        message_wf(m),
    ensures
        parse_payload(kind_of(m), encode_payload(m)) == Ok::<MessageView, MessageSerialError>(m),
{
    reveal(encode_payload);
    reveal(parse_payload);
    let e = Seq::<u8>::empty();
    let payload = encode_payload(m);
    assert(payload + e =~= payload);
    match m {
        MessageView::Version(v) => {
            lemma_concat_len(v.streams, |x: u64| varint(x));
            lemma_version(v, e);
        },
        MessageView::Verack => {},
        MessageView::Addr(nodes) => {
            let body = concat_map(nodes, |n: NodeView| encode_node(n));
            lemma_nodes(nodes, e);
            assert(body + e =~= body);
            lemma_varint(nodes.len() as u64, body);
        },
        MessageView::Inv(hashes) => {
            let body = concat_map(hashes, |h: Seq<u8>| h);
            lemma_hashes(hashes, e);
            assert(body + e =~= body);
            lemma_varint(hashes.len() as u64, body);
        },
        MessageView::GetData(hashes) => {
            let body = concat_map(hashes, |h: Seq<u8>| h);
            lemma_hashes(hashes, e);
            assert(body + e =~= body);
            lemma_varint(hashes.len() as u64, body);
        },
        MessageView::Object(o) => {
            lemma_object(o, e);
        },
    }
}

/// Decoding the frame of a message that stays within the protocol's limits
/// gives the message back.
pub proof fn lemma_round_trip(m: MessageView)
    requires
        message_wf(m),
    ensures
        decode_message(encode_message(m)) == Ok::<MessageView, MessageSerialError>(m),
{
    let payload = encode_payload(m);
    let kind = kind_of(m);
    let len = payload.len() as u32;
    let field = command_field(kind);
    let cs = frame_checksum_of(payload);
    let s = encode_message(m);
    let e = Seq::<u8>::empty();
    assert(s =~= be32(MAGIC) + (field + (be32(len) + (cs + payload))));
    lemma_u32(MAGIC, field + (be32(len) + (cs + payload)));
    assert(s.subrange(4, 16) =~= field);
    lemma_command(kind);
    assert(s.subrange(16, 20) =~= be32(len) + e);
    lemma_u32(len, e);
    assert(s.subrange(20, 24) =~= cs);
    assert(s.skip(24) =~= payload);
    lemma_payload(m);
}

/// A frame whose declared payload length differs from the number of payload
/// bytes that follow the header is refused with `PayloadSize`.
pub proof fn lemma_length_mismatch_rejected(s: Seq<u8>)
    requires
        s.len() >= 24,
        be32_value(s) == MAGIC,
        parse_command(s.subrange(4, 16)) is Ok,
        s.len() != 24 + be32_value(s.subrange(16, 20)),
    ensures
        decode_message(s) == Err::<MessageView, MessageSerialError>(MessageSerialError::PayloadSize),
{
}

/// A frame whose checksum field is not the checksum of its payload is
/// refused with `ChecksumMismatch`.
pub proof fn lemma_checksum_mismatch_rejected(s: Seq<u8>)
    requires
        s.len() >= 24,
        be32_value(s) == MAGIC,
        parse_command(s.subrange(4, 16)) is Ok,
        s.len() == 24 + be32_value(s.subrange(16, 20)),
        be32_value(s.subrange(16, 20)) <= max_payload(parse_command(s.subrange(4, 16))->Ok_0),
        s.subrange(20, 24) != frame_checksum_of(s.skip(24)),
    ensures
        decode_message(s) == Err::<MessageView, MessageSerialError>(MessageSerialError::ChecksumMismatch),
{
}

/// The header fields of a message's frame, read from any bytes that begin
/// with that frame's magic, command and length.
proof fn lemma_frame_header(m: MessageView, s: Seq<u8>)
    requires
        message_wf(m),
        s.len() >= 24,
        s.take(20) == encode_message(m).take(20),
    ensures
        be32_value(s) == MAGIC,
        parse_command(s.subrange(4, 16)) == Ok::<MessageKind, MessageSerialError>(kind_of(m)),
        be32_value(s.subrange(16, 20)) == encode_payload(m).len(),
        encode_payload(m).len() <= max_payload(kind_of(m)),
        encode_message(m).len() == 24 + encode_payload(m).len(),
{
    let payload = encode_payload(m);
    let kind = kind_of(m);
    let len = payload.len() as u32;
    let field = command_field(kind);
    let f = encode_message(m);
    let e = Seq::<u8>::empty();
    assert forall|i: int| 0 <= i < 20 implies s[i] == f[i] by {
        assert(s[i] == s.take(20)[i]);
    }
    assert(f =~= be32(MAGIC) + (field + (be32(len) + (frame_checksum_of(payload) + payload))));
    lemma_u32(MAGIC, e);
    assert(s.subrange(4, 16) =~= field);
    lemma_command(kind);
    assert(s.subrange(16, 20) =~= be32(len) + e);
    lemma_u32(len, e);
}

/// A frame of a message, cut short or with bytes after it, is refused with
/// `PayloadSize`.
pub proof fn lemma_resized_frame_rejected(m: MessageView, s: Seq<u8>)
    requires
        message_wf(m),
        s.len() >= 24,
        s.take(20) == encode_message(m).take(20),
        s.len() != encode_message(m).len(),
    ensures
        decode_message(s) == Err::<MessageView, MessageSerialError>(MessageSerialError::PayloadSize),
{
    lemma_frame_header(m, s);
}

/// A frame of a message whose checksum field was altered, and nothing
/// else, is refused with `ChecksumMismatch`.
pub proof fn lemma_altered_checksum_rejected(m: MessageView, s: Seq<u8>)
    requires
        message_wf(m),
        s.len() == encode_message(m).len(),
        s.take(20) == encode_message(m).take(20),
        s.skip(24) == encode_message(m).skip(24),
        s.subrange(20, 24) != encode_message(m).subrange(20, 24),
    ensures
        decode_message(s) == Err::<MessageView, MessageSerialError>(MessageSerialError::ChecksumMismatch),
{
    let f = encode_message(m);
    let payload = encode_payload(m);
    let len = payload.len() as u32;
    let field = command_field(kind_of(m));
    lemma_frame_header(m, s);
    assert(f =~= be32(MAGIC) + field + be32(len) + frame_checksum_of(payload) + payload);
    assert(f.subrange(20, 24) =~= frame_checksum_of(payload));
    assert(f.skip(24) =~= payload);
}

} // verus!
