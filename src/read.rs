use vstd::prelude::*;

use crate::checksum::frame_checksum;
use crate::message::{
    hashes_view, nodes_view, GetPubKey, InventoryVector, KnownNode, Message, MessageSerialError,
    Object, ObjectData, SocketAddress, VersionData, MAGIC, MAX_GETDATA_COUNT, MAX_INV_COUNT,
    MAX_NODES_COUNT, MAX_PAYLOAD_LENGTH, MAX_PAYLOAD_LENGTH_FOR_OBJECT,
};
use crate::state::MessageKind;
use crate::wire::{
    be32_value, command_name, decode_message, is_ascii, name_len, parse_address, parse_ascii,
    parse_body, parse_command, parse_hash, parse_many, parse_node, parse_object, parse_payload,
    parse_u16, parse_u32, parse_u64, parse_varint, parse_varint32, parse_version, take_bytes, Parsed,
    GETPUBKEY_TAG_VERSION, OBJECT_GETPUBKEY,
};
use crate::write::command_bytes;

verus! {

/// The bytes of `input` from `pos` on.
pub open spec fn after(input: Seq<u8>, pos: usize) -> Seq<u8> {
    input.skip(pos as int)
}

/// An executable read from `pos` that agrees with the parse `spec` of the
/// bytes from `pos` on, the value seen through `view`.
pub open spec fn agrees<T, V>(
    input: Seq<u8>,
    pos: usize,
    r: Result<(T, usize), MessageSerialError>,
    spec: Parsed<V>,
    view: spec_fn(T) -> V,
) -> bool {
    match r {
        Ok((v, p)) => pos <= p <= input.len() && spec == Ok::<(V, Seq<u8>), MessageSerialError>(
            (view(v), after(input, p)),
        ),
        Err(e) => spec == Err::<(V, Seq<u8>), MessageSerialError>(e),
    }
}

fn read_u16(input: &[u8], pos: usize) -> (r: Result<(u16, usize), MessageSerialError>)
    requires
        pos <= input@.len(),
    ensures
        agrees(input@, pos, r, parse_u16(after(input@, pos)), |v: u16| v),
{
    if input.len() - pos < 2 {
        return Err(MessageSerialError::OutOfData);
    }
    let v = ((input[pos] as u16) << 8u16) | (input[pos + 1] as u16);
    assert(after(input@, pos).skip(2) =~= after(input@, (pos + 2) as usize));
    Ok((v, pos + 2))
}

fn read_u32(input: &[u8], pos: usize) -> (r: Result<(u32, usize), MessageSerialError>)
    requires
        pos <= input@.len(),
    ensures
        agrees(input@, pos, r, parse_u32(after(input@, pos)), |v: u32| v),
{
    if input.len() - pos < 4 {
        return Err(MessageSerialError::OutOfData);
    }
    let v = ((input[pos] as u32) << 24u32) | ((input[pos + 1] as u32) << 16u32) | ((input[pos + 2] as u32)
        << 8u32) | (input[pos + 3] as u32);
    assert(after(input@, pos).skip(4) =~= after(input@, (pos + 4) as usize));
    Ok((v, pos + 4))
}

fn read_u64(input: &[u8], pos: usize) -> (r: Result<(u64, usize), MessageSerialError>)
    requires
        pos <= input@.len(),
    ensures
        agrees(input@, pos, r, parse_u64(after(input@, pos)), |v: u64| v),
{
    if input.len() - pos < 8 {
        return Err(MessageSerialError::OutOfData);
    }
    let v = ((input[pos] as u64) << 56u64) | ((input[pos + 1] as u64) << 48u64) | ((input[pos + 2] as u64)
        << 40u64) | ((input[pos + 3] as u64) << 32u64) | ((input[pos + 4] as u64) << 24u64) | ((input[pos
        + 5] as u64) << 16u64) | ((input[pos + 6] as u64) << 8u64) | (input[pos + 7] as u64);
    assert(after(input@, pos).skip(8) =~= after(input@, (pos + 8) as usize));
    Ok((v, pos + 8))
}

fn read_varint(input: &[u8], pos: usize) -> (r: Result<(u64, usize), MessageSerialError>)
    requires
        pos <= input@.len(),
    ensures
        agrees(input@, pos, r, parse_varint(after(input@, pos)), |v: u64| v),
{
    if input.len() - pos < 1 {
        return Err(MessageSerialError::OutOfData);
    }
    let first = input[pos];
    assert(after(input@, pos).skip(1) =~= after(input@, (pos + 1) as usize));
    if first < 0xfd {
        Ok((first as u64, pos + 1))
    } else if first == 0xfd {
        match read_u16(input, pos + 1) {
            Ok((v, p)) => Ok((v as u64, p)),
            Err(e) => Err(e),
        }
    } else if first == 0xfe {
        match read_u32(input, pos + 1) {
            Ok((v, p)) => Ok((v as u64, p)),
            Err(e) => Err(e),
        }
    } else {
        read_u64(input, pos + 1)
    }
}

fn read_varint32(input: &[u8], pos: usize) -> (r: Result<(u32, usize), MessageSerialError>)
    requires
        pos <= input@.len(),
    ensures
        agrees(input@, pos, r, parse_varint32(after(input@, pos)), |v: u32| v),
{
    match read_varint(input, pos) {
        Ok((v, p)) => if v > 0xffff_ffff {
            Err(MessageSerialError::MaximumValueExceeded)
        } else {
            Ok((v as u32, p))
        },
        Err(e) => Err(e),
    }
}

fn read_bytes(input: &[u8], pos: usize, n: u64) -> (r: Result<(Vec<u8>, usize), MessageSerialError>)
    requires
        pos <= input@.len(),
    ensures
        agrees(input@, pos, r, take_bytes(after(input@, pos), n as int), |v: Vec<u8>| v@),
{
    if n > (input.len() - pos) as u64 {
        return Err(MessageSerialError::OutOfData);
    }
    let n = n as usize;
    let mut out: Vec<u8> = Vec::new();
    let mut i: usize = 0;
    while i < n
        invariant
            pos + n <= input.len(),
            0 <= i <= n,
            out@ =~= input@.subrange(pos as int, pos + i),
        decreases n - i,
    {
        out.push(input[pos + i]);
        i = i + 1;
    }
    assert(out@ =~= after(input@, pos).take(n as int));
    assert(after(input@, pos).skip(n as int) =~= after(input@, (pos + n) as usize));
    Ok((out, pos + n))
}

fn check_ascii(b: &Vec<u8>) -> (r: bool)
    ensures
        r == is_ascii(b@),
{
    let mut i: usize = 0;
    while i < b.len()
        invariant
            0 <= i <= b@.len(),
            forall|j: int| 0 <= j < i ==> b@[j] < 128,
        decreases b@.len() - i,
    {
        if b[i] >= 128 {
            return false;
        }
        i = i + 1;
    }
    true
}

fn read_ascii(input: &[u8], pos: usize) -> (r: Result<(Vec<u8>, usize), MessageSerialError>)
    requires
        pos <= input@.len(),
    ensures
        agrees(input@, pos, r, parse_ascii(after(input@, pos)), |v: Vec<u8>| v@),
{
    match read_varint(input, pos) {
        Err(e) => Err(e),
        Ok((n, p)) => match read_bytes(input, p, n) {
            Err(e) => Err(e),
            Ok((t, next)) => if check_ascii(&t) {
                Ok((t, next))
            } else {
                Err(MessageSerialError::BadAscii)
            },
        },
    }
}

fn read_address(input: &[u8], pos: usize) -> (r: Result<(SocketAddress, usize), MessageSerialError>)
    requires
        pos <= input@.len(),
    ensures
        agrees(input@, pos, r, parse_address(after(input@, pos)), |v: SocketAddress| v@),
{
    reveal(parse_address);
    match read_u64(input, pos) {
        Err(e) => Err(e),
        Ok((_services, p)) => match read_bytes(input, p, 16) {
            Err(e) => Err(e),
            Ok((ip, p)) => match read_u16(input, p) {
                Err(e) => Err(e),
                Ok((port, p)) => Ok((SocketAddress { ip, port }, p)),
            },
        },
    }
}

fn read_node(input: &[u8], pos: usize) -> (r: Result<(KnownNode, usize), MessageSerialError>)
    requires
        pos <= input@.len(),
    ensures
        agrees(input@, pos, r, parse_node(after(input@, pos)), |v: KnownNode| v@),
{
    reveal(parse_node);
    match read_u64(input, pos) {
        Err(e) => Err(e),
        Ok((last_seen, p)) => match read_u32(input, p) {
            Err(e) => Err(e),
            Ok((stream, p)) => match read_u64(input, p) {
                Err(e) => Err(e),
                Ok((services, p)) => match read_bytes(input, p, 16) {
                    Err(e) => Err(e),
                    Ok((ip, p)) => match read_u16(input, p) {
                        Err(e) => Err(e),
                        Ok((port, p)) => Ok(
                            (
                                KnownNode {
                                    last_seen,
                                    stream,
                                    services,
                                    socket_addr: SocketAddress { ip, port },
                                },
                                p,
                            ),
                        ),
                    },
                },
            },
        },
    }
}

/// Once `n` elements fail to parse, so do all longer runs.
proof fn lemma_parse_many_err<T>(s: Seq<u8>, i: nat, n: nat, p: spec_fn(Seq<u8>) -> Parsed<T>)
    requires
        i <= n,
        parse_many(s, i, p) is Err,
    ensures
        parse_many(s, n, p) == parse_many(s, i, p),
    decreases n - i,
{
    if i < n {
        lemma_parse_many_err(s, i, (n - 1) as nat, p);
    }
}

fn read_nodes(input: &[u8], pos: usize, n: u64) -> (r: Result<(Vec<KnownNode>, usize), MessageSerialError>)
    requires
        pos <= input@.len(),
    ensures
        agrees(
            input@,
            pos,
            r,
            parse_many(after(input@, pos), n as nat, |t: Seq<u8>| parse_node(t)),
            |v: Vec<KnownNode>| nodes_view(v@),
        ),
{
    let mut out: Vec<KnownNode> = Vec::new();
    let mut p = pos;
    assert(nodes_view(out@) =~= Seq::empty());
    let mut i: u64 = 0;
    while i < n
        invariant
            pos <= p <= input@.len(),
            0 <= i <= n,
            parse_many(after(input@, pos), i as nat, |t: Seq<u8>| parse_node(t)) == Ok::<
                (Seq<crate::message::NodeView>, Seq<u8>),
                MessageSerialError,
            >((nodes_view(out@), after(input@, p))),
        decreases n - i,
    {
        match read_node(input, p) {
            Err(e) => {
                proof {
                    lemma_parse_many_err(after(input@, pos), (i + 1) as nat, n as nat, |t: Seq<u8>| parse_node(t));
                }
                return Err(e);
            },
            Ok((node, next)) => {
                let ghost before = out@;
                out.push(node);
                assert(nodes_view(out@) =~= nodes_view(before).push(node@));
                p = next;
                i = i + 1;
            },
        }
    }
    Ok((out, p))
}

fn read_hashes(input: &[u8], pos: usize, n: u64) -> (r: Result<(Vec<InventoryVector>, usize), MessageSerialError>)
    requires
        pos <= input@.len(),
    ensures
        agrees(
            input@,
            pos,
            r,
            parse_many(after(input@, pos), n as nat, |t: Seq<u8>| parse_hash(t)),
            |v: Vec<InventoryVector>| hashes_view(v@),
        ),
{
    let mut out: Vec<InventoryVector> = Vec::new();
    let mut p = pos;
    assert(hashes_view(out@) =~= Seq::empty());
    let mut i: u64 = 0;
    while i < n
        invariant
            pos <= p <= input@.len(),
            0 <= i <= n,
            parse_many(after(input@, pos), i as nat, |t: Seq<u8>| parse_hash(t)) == Ok::<
                (Seq<Seq<u8>>, Seq<u8>),
                MessageSerialError,
            >((hashes_view(out@), after(input@, p))),
        decreases n - i,
    {
        match read_bytes(input, p, 32) {
            Err(e) => {
                proof {
                    lemma_parse_many_err(after(input@, pos), (i + 1) as nat, n as nat, |t: Seq<u8>| parse_hash(t));
                }
                return Err(e);
            },
            Ok((hash, next)) => {
                let ghost before = out@;
                out.push(InventoryVector { hash });
                assert(hashes_view(out@) =~= hashes_view(before).push(out@.last().hash@));
                p = next;
                i = i + 1;
            },
        }
    }
    Ok((out, p))
}

fn read_varints(input: &[u8], pos: usize, n: u64) -> (r: Result<(Vec<u64>, usize), MessageSerialError>)
    requires
        pos <= input@.len(),
    ensures
        agrees(
            input@,
            pos,
            r,
            parse_many(after(input@, pos), n as nat, |t: Seq<u8>| parse_varint(t)),
            |v: Vec<u64>| v@,
        ),
{
    let mut out: Vec<u64> = Vec::new();
    let mut p = pos;
    let mut i: u64 = 0;
    while i < n
        invariant
            pos <= p <= input@.len(),
            0 <= i <= n,
            parse_many(after(input@, pos), i as nat, |t: Seq<u8>| parse_varint(t)) == Ok::<
                (Seq<u64>, Seq<u8>),
                MessageSerialError,
            >((out@, after(input@, p))),
        decreases n - i,
    {
        match read_varint(input, p) {
            Err(e) => {
                proof {
                    lemma_parse_many_err(after(input@, pos), (i + 1) as nat, n as nat, |t: Seq<u8>| parse_varint(t));
                }
                return Err(e);
            },
            Ok((v, next)) => {
                out.push(v);
                p = next;
                i = i + 1;
            },
        }
    }
    Ok((out, p))
}

fn read_version(input: &[u8], pos: usize) -> (r: Result<(VersionData, usize), MessageSerialError>)
    requires
        pos <= input@.len(),
    ensures
        agrees(input@, pos, r, parse_version(after(input@, pos)), |v: VersionData| v@),
{
    reveal(parse_version);
    let (version, p) = match read_u32(input, pos) {
        Err(e) => return Err(e),
        Ok(x) => x,
    };
    let (services, p) = match read_u64(input, p) {
        Err(e) => return Err(e),
        Ok(x) => x,
    };
    let (timestamp, p) = match read_u64(input, p) {
        Err(e) => return Err(e),
        Ok(x) => x,
    };
    let (addr_recv, p) = match read_address(input, p) {
        Err(e) => return Err(e),
        Ok(x) => x,
    };
    let (addr_from, p) = match read_address(input, p) {
        Err(e) => return Err(e),
        Ok(x) => x,
    };
    let (nonce, p) = match read_u64(input, p) {
        Err(e) => return Err(e),
        Ok(x) => x,
    };
    let (user_agent, p) = match read_ascii(input, p) {
        Err(e) => return Err(e),
        Ok(x) => x,
    };
    let (n, p) = match read_varint(input, p) {
        Err(e) => return Err(e),
        Ok(x) => x,
    };
    let (streams, p) = match read_varints(input, p, n) {
        Err(e) => return Err(e),
        Ok(x) => x,
    };
    Ok((VersionData { version, services, timestamp, addr_recv, addr_from, nonce, user_agent, streams }, p))
}

fn read_object(input: &[u8], pos: usize) -> (r: Result<(ObjectData, usize), MessageSerialError>)
    requires
        pos <= input@.len(),
    ensures
        agrees(input@, pos, r, parse_object(after(input@, pos)), |v: ObjectData| v@),
{
    reveal(parse_object);
    let (nonce, p) = match read_u64(input, pos) {
        Err(e) => return Err(e),
        Ok(x) => x,
    };
    let (expiry, p) = match read_u64(input, p) {
        Err(e) => return Err(e),
        Ok(x) => x,
    };
    let (object_type, p) = match read_u32(input, p) {
        Err(e) => return Err(e),
        Ok(x) => x,
    };
    if object_type != OBJECT_GETPUBKEY {
        return Err(MessageSerialError::UnknownObjectType);
    }
    let (version, p) = match read_varint32(input, p) {
        Err(e) => return Err(e),
        Ok(x) => x,
    };
    let (stream, p) = match read_varint32(input, p) {
        Err(e) => return Err(e),
        Ok(x) => x,
    };
    if version != GETPUBKEY_TAG_VERSION {
        return Err(MessageSerialError::UnknownObjectVersion);
    }
    let (tag, p) = match read_bytes(input, p, 32) {
        Err(e) => return Err(e),
        Ok(x) => x,
    };
    Ok((ObjectData { nonce, expiry, version, stream, object: Object::GetPubKey(GetPubKey::V4 { tag }) }, p))
}

fn read_count(input: &[u8], pos: usize, max: u64) -> (r: Result<(u64, usize), MessageSerialError>)
    requires
        pos <= input@.len(),
    ensures
        match r {
            Ok((n, p)) => pos <= p <= input@.len() && n <= max && parse_varint(after(input@, pos)) == Ok::<
                (u64, Seq<u8>),
                MessageSerialError,
            >((n, after(input@, p))),
            Err(e) => match parse_varint(after(input@, pos)) {
                Ok((n, _)) => n > max && e == MessageSerialError::MaximumValueExceeded,
                Err(e2) => e == e2,
            },
        },
{
    match read_varint(input, pos) {
        Err(e) => Err(e),
        Ok((n, p)) => if n > max {
            Err(MessageSerialError::MaximumValueExceeded)
        } else {
            Ok((n, p))
        },
    }
}

fn read_addr_body(input: &[u8], pos: usize) -> (r: Result<(Message, usize), MessageSerialError>)
    requires
        pos <= input@.len(),
    ensures
        agrees(input@, pos, r, parse_body(MessageKind::Addr, after(input@, pos)), |m: Message| m@),
{
    let (n, p) = match read_count(input, pos, MAX_NODES_COUNT) {
        Err(e) => return Err(e),
        Ok(x) => x,
    };
    match read_nodes(input, p, n) {
        Err(e) => Err(e),
        Ok((v, p)) => Ok((Message::Addr { addr_list: v }, p)),
    }
}

fn read_inv_body(input: &[u8], pos: usize, getdata: bool) -> (r: Result<(Message, usize), MessageSerialError>)
    requires
        pos <= input@.len(),
    ensures
        agrees(
            input@,
            pos,
            r,
            parse_body(
                if getdata {
                    MessageKind::GetData
                } else {
                    MessageKind::Inv
                },
                after(input@, pos),
            ),
            |m: Message| m@,
        ),
{
    let max = if getdata {
        MAX_GETDATA_COUNT
    } else {
        MAX_INV_COUNT
    };
    let (n, p) = match read_count(input, pos, max) {
        Err(e) => return Err(e),
        Ok(x) => x,
    };
    match read_hashes(input, p, n) {
        Err(e) => Err(e),
        Ok((v, p)) => if getdata {
            Ok((Message::GetData { inventory: v }, p))
        } else {
            Ok((Message::Inv { inventory: v }, p))
        },
    }
}

fn read_body(kind: MessageKind, input: &[u8], pos: usize) -> (r: Result<(Message, usize), MessageSerialError>)
    requires
        pos <= input@.len(),
    ensures
        agrees(input@, pos, r, parse_body(kind, after(input@, pos)), |m: Message| m@),
{
    match kind {
        MessageKind::Version => match read_version(input, pos) {
            Err(e) => Err(e),
            Ok((v, p)) => Ok((Message::Version(v), p)),
        },
        MessageKind::Verack => Ok((Message::Verack, pos)),
        MessageKind::Addr => read_addr_body(input, pos),
        MessageKind::Inv => read_inv_body(input, pos, false),
        MessageKind::GetData => read_inv_body(input, pos, true),
        MessageKind::Object => match read_object(input, pos) {
            Err(e) => Err(e),
            Ok((o, p)) => Ok((Message::Object(o), p)),
        },
    }
}

/// Reads the payload of a message of the given kind, which must fill
/// `input` from `pos` on exactly.
pub fn read_payload(kind: MessageKind, input: &[u8], pos: usize) -> (r: Result<Message, MessageSerialError>)
    requires
        pos <= input@.len(),
    ensures
        match r {
            Ok(m) => parse_payload(kind, after(input@, pos)) == Ok::<
                crate::message::MessageView,
                MessageSerialError,
            >(m@),
            Err(e) => parse_payload(kind, after(input@, pos)) == Err::<
                crate::message::MessageView,
                MessageSerialError,
            >(e),
        },
{
    reveal(parse_payload);
    match read_body(kind, input, pos) {
        Err(e) => Err(e),
        Ok((m, p)) => {
            if p != input.len() {
                return Err(MessageSerialError::PayloadSize);
            }
            assert(after(input@, p).len() == 0);
            Ok(m)
        },
    }
}

/// Whether the name in the command field, `n` bytes long, is that of `kind`.
fn name_is(input: &[u8], n: usize, kind: MessageKind) -> (r: bool)
    requires
        16 <= input@.len(),
        n <= 12,
    ensures
        r == (input@.subrange(4, 16).take(n as int) == command_name(kind)),
{
    let ghost c = input@.subrange(4, 16);
    let name = command_bytes(kind);
    if name.len() != n {
        return false;
    }
    let mut i: usize = 0;
    while i < n
        invariant
            16 <= input@.len(),
            n <= 12,
            c == input@.subrange(4, 16),
            name@ == command_name(kind),
            name@.len() == n,
            0 <= i <= n,
            forall|k: int| 0 <= k < i ==> c[k] == name@[k],
        decreases n - i,
    {
        if input[4 + i] != name[i] {
            assert(c.take(n as int)[i as int] != name@[i as int]);
            return false;
        }
        i = i + 1;
    }
    assert(c.take(n as int) =~= name@);
    true
}

/// Reads the 12-byte command field at offset 4.
fn read_command(input: &[u8]) -> (r: Result<MessageKind, MessageSerialError>)
    requires
        16 <= input@.len(),
    ensures
        r == parse_command(input@.subrange(4, 16)),
{
    let ghost c = input@.subrange(4, 16);
    let mut n: usize = 0;
    assert(c.skip(0) =~= c);
    while n < 12 && input[4 + n] != 0
        invariant
            16 <= input@.len(),
            c == input@.subrange(4, 16),
            0 <= n <= 12,
            name_len(c) == n + name_len(c.skip(n as int)),
            forall|k: int| 0 <= k < n ==> c[k] != 0,
        decreases 12 - n,
    {
        assert(c.skip(n as int).drop_first() =~= c.skip(n + 1));
        n = n + 1;
    }
    assert(name_len(c.skip(n as int)) == 0);
    assert(name_len(c) == n);
    let mut i: usize = 0;
    while i < n
        invariant
            16 <= input@.len(),
            c == input@.subrange(4, 16),
            n <= 12,
            name_len(c) == n,
            0 <= i <= n,
            forall|k: int| 0 <= k < i ==> c[k] < 128,
        decreases n - i,
    {
        if input[4 + i] >= 128 {
            assert(c.take(n as int)[i as int] >= 128);
            return Err(MessageSerialError::BadAscii);
        }
        i = i + 1;
    }
    assert(is_ascii(c.take(n as int)));
    let mut j: usize = n;
    while j < 12
        invariant
            16 <= input@.len(),
            c == input@.subrange(4, 16),
            n <= j <= 12,
            name_len(c) == n,
            is_ascii(c.take(n as int)),
            forall|k: int| n <= k < j ==> c[k] == 0,
        decreases 12 - j,
    {
        if input[4 + j] != 0 {
            assert(c[j as int] != 0);
            return Err(MessageSerialError::NonZeroPadding);
        }
        j = j + 1;
    }
    if name_is(input, n, MessageKind::Version) {
        Ok(MessageKind::Version)
    } else if name_is(input, n, MessageKind::Verack) {
        Ok(MessageKind::Verack)
    } else if name_is(input, n, MessageKind::Addr) {
        Ok(MessageKind::Addr)
    } else if name_is(input, n, MessageKind::Inv) {
        Ok(MessageKind::Inv)
    } else if name_is(input, n, MessageKind::GetData) {
        Ok(MessageKind::GetData)
    } else if name_is(input, n, MessageKind::Object) {
        Ok(MessageKind::Object)
    } else {
        Err(MessageSerialError::UnknownCommand)
    }
}

/// Decodes one frame that fills `input` exactly: checks the magic, the
/// command, the payload length and the checksum, then reads the payload.
pub fn read_message(input: &[u8]) -> (r: Result<Message, MessageSerialError>)
    ensures
        match r {
            Ok(m) => decode_message(input@) == Ok::<crate::message::MessageView, MessageSerialError>(m@),
            Err(e) => decode_message(input@) == Err::<crate::message::MessageView, MessageSerialError>(e),
        },
{
    if input.len() < 24 {
        return Err(MessageSerialError::OutOfData);
    }
    assert(after(input@, 0) =~= input@);
    let magic = match read_u32(input, 0) {
        Ok((v, _)) => v,
        Err(e) => return Err(e),
    };
    if magic != MAGIC {
        return Err(MessageSerialError::BadMagic);
    }
    let kind = match read_command(input) {
        Ok(k) => k,
        Err(e) => return Err(e),
    };
    let len = match read_u32(input, 16) {
        Ok((v, _)) => v,
        Err(e) => return Err(e),
    };
    assert(be32_value(after(input@, 16)) == be32_value(input@.subrange(16, 20)));
    let max = if kind == MessageKind::Object {
        MAX_PAYLOAD_LENGTH_FOR_OBJECT
    } else {
        MAX_PAYLOAD_LENGTH
    };
    if len > max || input.len() - 24 != len as usize {
        return Err(MessageSerialError::PayloadSize);
    }
    let payload = match read_bytes(input, 24, len as u64) {
        Ok((b, _)) => b,
        Err(e) => return Err(e),
    };
    assert(payload@ =~= input@.skip(24));
    let checksum = frame_checksum(payload.as_slice());
    if input[20] != checksum[0] || input[21] != checksum[1] || input[22] != checksum[2] || input[23]
        != checksum[3] {
        assert(input@.subrange(20, 24) != checksum@) by {
            if input@.subrange(20, 24) == checksum@ {
                assert(input@.subrange(20, 24)[0] == checksum@[0]);
                assert(input@.subrange(20, 24)[1] == checksum@[1]);
                assert(input@.subrange(20, 24)[2] == checksum@[2]);
                assert(input@.subrange(20, 24)[3] == checksum@[3]);
            }
        }
        return Err(MessageSerialError::ChecksumMismatch);
    }
    assert(input@.subrange(20, 24) =~= checksum@);
    read_payload(kind, input, 24)
}

/// The payload length that a frame header declares, once the 24 header
/// bytes are there.
pub fn declared_payload_length(header: &[u8]) -> (r: Option<u32>)
    ensures
        header@.len() < 24 ==> r is None,
        header@.len() >= 24 ==> r == Some(be32_value(header@.subrange(16, 20))),
{
    if header.len() < 24 {
        return None;
    }
    match read_u32(header, 16) {
        Ok((v, _)) => {
            assert(be32_value(after(header@, 16)) == be32_value(header@.subrange(16, 20)));
            Some(v)
        },
        Err(_) => None,
    }
}

} // verus!
