use vstd::prelude::*;

use crate::checksum::frame_checksum_of;
use crate::message::{
    kind_of, AddressView, MessageSerialError, MessageView, NodeView, ObjectBodyView, ObjectView, VersionView,
    MAGIC, MAX_GETDATA_COUNT, MAX_INV_COUNT, MAX_NODES_COUNT, MAX_PAYLOAD_LENGTH,
    MAX_PAYLOAD_LENGTH_FOR_OBJECT,
};
use crate::state::MessageKind;

verus! {

/// A parse result: the value read and the bytes that follow it.
pub type Parsed<T> = Result<(T, Seq<u8>), MessageSerialError>;

pub open spec fn be16(v: u16) -> Seq<u8> {
    seq![((v >> 8u16) & 0xff) as u8, (v & 0xff) as u8]
}

pub open spec fn be32(v: u32) -> Seq<u8> {
    seq![
        ((v >> 24u32) & 0xff) as u8,
        ((v >> 16u32) & 0xff) as u8,
        ((v >> 8u32) & 0xff) as u8,
        (v & 0xff) as u8,
    ]
}

pub open spec fn be64(v: u64) -> Seq<u8> {
    seq![
        ((v >> 56u64) & 0xff) as u8,
        ((v >> 48u64) & 0xff) as u8,
        ((v >> 40u64) & 0xff) as u8,
        ((v >> 32u64) & 0xff) as u8,
        ((v >> 24u64) & 0xff) as u8,
        ((v >> 16u64) & 0xff) as u8,
        ((v >> 8u64) & 0xff) as u8,
        (v & 0xff) as u8,
    ]
}

pub open spec fn be16_value(s: Seq<u8>) -> u16 {
    ((s[0] as u16) << 8u16) | (s[1] as u16)
}

pub open spec fn be32_value(s: Seq<u8>) -> u32 {
    ((s[0] as u32) << 24u32) | ((s[1] as u32) << 16u32) | ((s[2] as u32) << 8u32) | (s[3] as u32)
}

pub open spec fn be64_value(s: Seq<u8>) -> u64 {
    ((s[0] as u64) << 56u64) | ((s[1] as u64) << 48u64) | ((s[2] as u64) << 40u64) | ((s[3] as u64)
        << 32u64) | ((s[4] as u64) << 24u64) | ((s[5] as u64) << 16u64) | ((s[6] as u64) << 8u64)
        | (s[7] as u64)
}

/// The variable-length encoding of an integer: one byte below 0xfd, else a
/// marker byte and the value in two, four or eight big-endian bytes.
pub open spec fn varint(v: u64) -> Seq<u8> {
    if v < 0xfd {
        seq![v as u8]
    } else if v <= 0xffff {
        seq![0xfdu8] + be16(v as u16)
    } else if v <= 0xffff_ffff {
        seq![0xfeu8] + be32(v as u32)
    } else {
        seq![0xffu8] + be64(v)
    }
}

/// The first `n` bytes, and the rest.
pub open spec fn take_bytes(s: Seq<u8>, n: int) -> Parsed<Seq<u8>> {
    if s.len() < n {
        Err(MessageSerialError::OutOfData)
    } else {
        Ok((s.take(n), s.skip(n)))
    }
}

pub open spec fn parse_u16(s: Seq<u8>) -> Parsed<u16> {
    if s.len() < 2 {
        Err(MessageSerialError::OutOfData)
    } else {
        Ok((be16_value(s), s.skip(2)))
    }
}

pub open spec fn parse_u32(s: Seq<u8>) -> Parsed<u32> {
    if s.len() < 4 {
        Err(MessageSerialError::OutOfData)
    } else {
        Ok((be32_value(s), s.skip(4)))
    }
}

pub open spec fn parse_u64(s: Seq<u8>) -> Parsed<u64> {
    if s.len() < 8 {
        Err(MessageSerialError::OutOfData)
    } else {
        Ok((be64_value(s), s.skip(8)))
    }
}

pub open spec fn parse_varint(s: Seq<u8>) -> Parsed<u64> {
    if s.len() < 1 {
        Err(MessageSerialError::OutOfData)
    } else if s[0] < 0xfd {
        Ok((s[0] as u64, s.skip(1)))
    } else if s[0] == 0xfd {
        match parse_u16(s.skip(1)) {
            Ok((v, r)) => Ok((v as u64, r)),
            Err(e) => Err(e),
        }
    } else if s[0] == 0xfe {
        match parse_u32(s.skip(1)) {
            Ok((v, r)) => Ok((v as u64, r)),
            Err(e) => Err(e),
        }
    } else {
        parse_u64(s.skip(1))
    }
}

/// A variable-length integer that must fit in 32 bits.
pub open spec fn parse_varint32(s: Seq<u8>) -> Parsed<u32> {
    match parse_varint(s) {
        Ok((v, r)) => if v > 0xffff_ffff {
            Err(MessageSerialError::MaximumValueExceeded)
        } else {
            Ok((v as u32, r))
        },
        Err(e) => Err(e),
    }
}

pub open spec fn is_ascii(s: Seq<u8>) -> bool {
    forall|i: int| 0 <= i < s.len() ==> s[i] < 128
}

/// A length-prefixed ASCII string.
pub open spec fn parse_ascii(s: Seq<u8>) -> Parsed<Seq<u8>> {
    match parse_varint(s) {
        Ok((n, r)) => match take_bytes(r, n as int) {
            Ok((t, r2)) => if is_ascii(t) {
                Ok((t, r2))
            } else {
                Err(MessageSerialError::BadAscii)
            },
            Err(e) => Err(e),
        },
        Err(e) => Err(e),
    }
}

/// Writes the elements of `xs` one after the other.
pub open spec fn concat_map<T>(xs: Seq<T>, f: spec_fn(T) -> Seq<u8>) -> Seq<u8>
    decreases xs.len(),
{
    if xs.len() == 0 {
        Seq::empty()
    } else {
        concat_map(xs.drop_last(), f) + f(xs.last())
    }
}

/// Reads `n` elements with `p`, one after the other.
pub open spec fn parse_many<T>(s: Seq<u8>, n: nat, p: spec_fn(Seq<u8>) -> Parsed<T>) -> Parsed<Seq<T>>
    decreases n,
{
    if n == 0 {
        Ok((Seq::empty(), s))
    } else {
        match parse_many(s, (n - 1) as nat, p) {
            Ok((xs, r)) => match p(r) {
                Ok((x, r2)) => Ok((xs.push(x), r2)),
                Err(e) => Err(e),
            },
            Err(e) => Err(e),
        }
    }
}

pub open spec fn encode_address(services: u64, a: AddressView) -> Seq<u8> {
    be64(services) + a.ip + be16(a.port)
}

/// An address after its services field, which is read and not kept.
#[verifier::opaque]
pub open spec fn parse_address(s: Seq<u8>) -> Parsed<AddressView> {
    match parse_u64(s) {
        Ok((_services, r)) => match take_bytes(r, 16) {
            Ok((ip, r2)) => match parse_u16(r2) {
                Ok((port, r3)) => Ok((AddressView { ip, port }, r3)),
                Err(e) => Err(e),
            },
            Err(e) => Err(e),
        },
        Err(e) => Err(e),
    }
}

pub open spec fn encode_node(n: NodeView) -> Seq<u8> {
    be64(n.last_seen) + be32(n.stream) + be64(n.services) + n.addr.ip + be16(n.addr.port)
}

#[verifier::opaque]
pub open spec fn parse_node(s: Seq<u8>) -> Parsed<NodeView> {
    match parse_u64(s) {
        Ok((last_seen, r)) => match parse_u32(r) {
            Ok((stream, r2)) => match parse_u64(r2) {
                Ok((services, r3)) => match take_bytes(r3, 16) {
                    Ok((ip, r4)) => match parse_u16(r4) {
                        Ok((port, r5)) => Ok(
                            (NodeView { last_seen, stream, services, addr: AddressView { ip, port } }, r5),
                        ),
                        Err(e) => Err(e),
                    },
                    Err(e) => Err(e),
                },
                Err(e) => Err(e),
            },
            Err(e) => Err(e),
        },
        Err(e) => Err(e),
    }
}

pub open spec fn parse_hash(s: Seq<u8>) -> Parsed<Seq<u8>> {
    take_bytes(s, 32)
}

pub open spec fn encode_version(v: VersionView) -> Seq<u8> {
    be32(v.version) + be64(v.services) + be64(v.timestamp) + encode_address(v.services, v.addr_recv)
        + encode_address(v.services, v.addr_from) + be64(v.nonce) + varint(v.user_agent.len() as u64)
        + v.user_agent + varint(v.streams.len() as u64) + concat_map(v.streams, |x: u64| varint(x))
}

#[verifier::opaque]
pub open spec fn parse_version(s: Seq<u8>) -> Parsed<VersionView> {
    match parse_u32(s) {
        Err(e) => Err(e),
        Ok((version, s)) => match parse_u64(s) {
            Err(e) => Err(e),
            Ok((services, s)) => match parse_u64(s) {
                Err(e) => Err(e),
                Ok((timestamp, s)) => match parse_address(s) {
                    Err(e) => Err(e),
                    Ok((addr_recv, s)) => match parse_address(s) {
                        Err(e) => Err(e),
                        Ok((addr_from, s)) => match parse_u64(s) {
                            Err(e) => Err(e),
                            Ok((nonce, s)) => match parse_ascii(s) {
                                Err(e) => Err(e),
                                Ok((user_agent, s)) => match parse_varint(s) {
                                    Err(e) => Err(e),
                                    Ok((n, s)) => match parse_many(s, n as nat, |t: Seq<u8>| parse_varint(t)) {
                                        Err(e) => Err(e),
                                        Ok((streams, s)) => Ok(
                                            (
                                                VersionView {
                                                    version,
                                                    services,
                                                    timestamp,
                                                    addr_recv,
                                                    addr_from,
                                                    nonce,
                                                    user_agent,
                                                    streams,
                                                },
                                                s,
                                            ),
                                        ),
                                    },
                                },
                            },
                        },
                    },
                },
            },
        },
    }
}

/// A count that may not exceed `max`, followed by that many elements.
pub open spec fn parse_list<T>(s: Seq<u8>, max: u64, p: spec_fn(Seq<u8>) -> Parsed<T>) -> Parsed<Seq<T>> {
    match parse_varint(s) {
        Err(e) => Err(e),
        Ok((n, r)) => if n > max {
            Err(MessageSerialError::MaximumValueExceeded)
        } else {
            parse_many(r, n as nat, p)
        },
    }
}

/// The object type code of a public key request.
pub const OBJECT_GETPUBKEY: u32 = 0;

/// The object version whose public key request carries a tag.
pub const GETPUBKEY_TAG_VERSION: u32 = 4;

pub open spec fn encode_object(o: ObjectView) -> Seq<u8> {
    be64(o.nonce) + be64(o.expiry) + be32(OBJECT_GETPUBKEY) + varint(o.version as u64) + varint(
        o.stream as u64,
    ) + match o.body {
        ObjectBodyView::GetPubKeyV4 { tag } => tag,
    }
}

#[verifier::opaque]
pub open spec fn parse_object(s: Seq<u8>) -> Parsed<ObjectView> {
    match parse_u64(s) {
        Err(e) => Err(e),
        Ok((nonce, s)) => match parse_u64(s) {
            Err(e) => Err(e),
            Ok((expiry, s)) => match parse_u32(s) {
                Err(e) => Err(e),
                Ok((object_type, s)) => if object_type != OBJECT_GETPUBKEY {
                    Err(MessageSerialError::UnknownObjectType)
                } else {
                    match parse_varint32(s) {
                        Err(e) => Err(e),
                        Ok((version, s)) => match parse_varint32(s) {
                            Err(e) => Err(e),
                            Ok((stream, s)) => if version != GETPUBKEY_TAG_VERSION {
                                Err(MessageSerialError::UnknownObjectVersion)
                            } else {
                                match take_bytes(s, 32) {
                                    Err(e) => Err(e),
                                    Ok((tag, s)) => Ok(
                                        (
                                            ObjectView {
                                                nonce,
                                                expiry,
                                                version,
                                                stream,
                                                body: ObjectBodyView::GetPubKeyV4 { tag },
                                            },
                                            s,
                                        ),
                                    ),
                                }
                            },
                        },
                    }
                },
            },
        },
    }
}

#[verifier::opaque]
pub open spec fn encode_payload(m: MessageView) -> Seq<u8> {
    match m {
        MessageView::Version(v) => encode_version(v),
        MessageView::Verack => Seq::empty(),
        MessageView::Addr(nodes) => varint(nodes.len() as u64) + concat_map(nodes, |n: NodeView| encode_node(n)),
        MessageView::Inv(hashes) => varint(hashes.len() as u64) + concat_map(hashes, |h: Seq<u8>| h),
        MessageView::GetData(hashes) => varint(hashes.len() as u64) + concat_map(hashes, |h: Seq<u8>| h),
        MessageView::Object(o) => encode_object(o),
    }
}

/// The body of a message of the given kind, and the bytes that follow it.
pub open spec fn parse_body(kind: MessageKind, s: Seq<u8>) -> Parsed<MessageView> {
    match kind {
        MessageKind::Version => match parse_version(s) {
            Ok((v, r)) => Ok((MessageView::Version(v), r)),
            Err(e) => Err(e),
        },
        MessageKind::Verack => Ok((MessageView::Verack, s)),
        MessageKind::Addr => match parse_list(s, MAX_NODES_COUNT, |t: Seq<u8>| parse_node(t)) {
            Ok((v, r)) => Ok((MessageView::Addr(v), r)),
            Err(e) => Err(e),
        },
        MessageKind::Inv => match parse_list(s, MAX_INV_COUNT, |t: Seq<u8>| parse_hash(t)) {
            Ok((v, r)) => Ok((MessageView::Inv(v), r)),
            Err(e) => Err(e),
        },
        MessageKind::GetData => match parse_list(s, MAX_GETDATA_COUNT, |t: Seq<u8>| parse_hash(t)) {
            Ok((v, r)) => Ok((MessageView::GetData(v), r)),
            Err(e) => Err(e),
        },
        MessageKind::Object => match parse_object(s) {
            Ok((v, r)) => Ok((MessageView::Object(v), r)),
            Err(e) => Err(e),
        },
    }
}

/// The payload of a message of the given kind; bytes left over are an error.
#[verifier::opaque]
pub open spec fn parse_payload(kind: MessageKind, s: Seq<u8>) -> Result<MessageView, MessageSerialError> {
    match parse_body(kind, s) {
        Ok((m, rest)) => if rest.len() == 0 {
            Ok(m)
        } else {
            Err(MessageSerialError::PayloadSize)
        },
        Err(e) => Err(e),
    }
}

/// The command name of each kind, in ASCII.
pub open spec fn command_name(k: MessageKind) -> Seq<u8> {
    match k {
        MessageKind::Version => seq![118u8, 101, 114, 115, 105, 111, 110],
        MessageKind::Verack => seq![118u8, 101, 114, 97, 99, 107],
        MessageKind::Addr => seq![97u8, 100, 100, 114],
        MessageKind::Inv => seq![105u8, 110, 118],
        MessageKind::GetData => seq![103u8, 101, 116, 100, 97, 116, 97],
        MessageKind::Object => seq![111u8, 98, 106, 101, 99, 116],
    }
}

/// The 12-byte command field: the name, padded with zero bytes.
pub open spec fn command_field(k: MessageKind) -> Seq<u8> {
    command_name(k) + Seq::new((12 - command_name(k).len()) as nat, |i: int| 0u8)
}

/// The number of bytes before the first zero byte.
pub open spec fn name_len(c: Seq<u8>) -> nat
    decreases c.len(),
{
    if c.len() == 0 || c[0] == 0 {
        0
    } else {
        1 + name_len(c.drop_first())
    }
}

pub open spec fn kind_named(name: Seq<u8>) -> Option<MessageKind> {
    if name == command_name(MessageKind::Version) {
        Some(MessageKind::Version)
    } else if name == command_name(MessageKind::Verack) {
        Some(MessageKind::Verack)
    } else if name == command_name(MessageKind::Addr) {
        Some(MessageKind::Addr)
    } else if name == command_name(MessageKind::Inv) {
        Some(MessageKind::Inv)
    } else if name == command_name(MessageKind::GetData) {
        Some(MessageKind::GetData)
    } else if name == command_name(MessageKind::Object) {
        Some(MessageKind::Object)
    } else {
        None
    }
}

/// Reads a command field: an ASCII name, then zero bytes only.
pub open spec fn parse_command(c: Seq<u8>) -> Result<MessageKind, MessageSerialError> {
    let n = name_len(c);
    if !is_ascii(c.take(n as int)) {
        Err(MessageSerialError::BadAscii)
    } else if exists|i: int| n <= i < c.len() && c[i] != 0 {
        Err(MessageSerialError::NonZeroPadding)
    } else {
        match kind_named(c.take(n as int)) {
            Some(k) => Ok(k),
            None => Err(MessageSerialError::UnknownCommand),
        }
    }
}

/// The largest payload that a frame of this kind may carry.
pub open spec fn max_payload(k: MessageKind) -> u32 {
    if k is Object {
        MAX_PAYLOAD_LENGTH_FOR_OBJECT
    } else {
        MAX_PAYLOAD_LENGTH
    }
}

/// The whole frame of a message.
pub open spec fn encode_message(m: MessageView) -> Seq<u8> {
    let payload = encode_payload(m);
    be32(MAGIC) + command_field(kind_of(m)) + be32(payload.len() as u32) + frame_checksum_of(payload)
        + payload
}

/// Decodes one frame that fills `s` exactly.
pub open spec fn decode_message(s: Seq<u8>) -> Result<MessageView, MessageSerialError> {
    if s.len() < 24 {
        Err(MessageSerialError::OutOfData)
    } else if be32_value(s) != MAGIC {
        Err(MessageSerialError::BadMagic)
    } else {
        match parse_command(s.subrange(4, 16)) {
            Err(e) => Err(e),
            Ok(kind) => {
                let len = be32_value(s.subrange(16, 20));
                if len > max_payload(kind) || s.len() != 24 + len {
                    Err(MessageSerialError::PayloadSize)
                } else if s.subrange(20, 24) != frame_checksum_of(s.skip(24)) {
                    Err(MessageSerialError::ChecksumMismatch)
                } else {
                    parse_payload(kind, s.skip(24))
                }
            },
        }
    }
}

/// A message that stays within every limit of the protocol.
pub open spec fn message_wf(m: MessageView) -> bool {
    &&& encode_payload(m).len() <= max_payload(kind_of(m))
    &&& match m {
        MessageView::Version(v) => {
            &&& v.addr_recv.ip.len() == 16
            &&& v.addr_from.ip.len() == 16
            &&& is_ascii(v.user_agent)
        },
        MessageView::Verack => true,
        MessageView::Addr(nodes) => {
            &&& nodes.len() <= MAX_NODES_COUNT
            &&& forall|i: int| 0 <= i < nodes.len() ==> (#[trigger] nodes[i]).addr.ip.len() == 16
        },
        MessageView::Inv(hashes) => {
            &&& hashes.len() <= MAX_INV_COUNT
            &&& forall|i: int| 0 <= i < hashes.len() ==> (#[trigger] hashes[i]).len() == 32
        },
        MessageView::GetData(hashes) => {
            &&& hashes.len() <= MAX_GETDATA_COUNT
            &&& forall|i: int| 0 <= i < hashes.len() ==> (#[trigger] hashes[i]).len() == 32
        },
        MessageView::Object(o) => {
            &&& o.version == GETPUBKEY_TAG_VERSION
            &&& match o.body {
                ObjectBodyView::GetPubKeyV4 { tag } => tag.len() == 32,
            }
        },
    }
}

} // verus!
