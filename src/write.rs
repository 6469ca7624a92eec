use vstd::prelude::*;

use crate::checksum::frame_checksum;
use crate::message::{
    hashes_view, nodes_view, GetPubKey, InventoryVector, KnownNode, Message, Object, ObjectData,
    SocketAddress, VersionData, MAGIC,
};
use crate::state::MessageKind;
use crate::wire::{
    be16, be32, be64, command_field, command_name, concat_map, encode_address, encode_message,
    encode_node, encode_object, encode_payload, encode_version, message_wf, varint, OBJECT_GETPUBKEY,
};

verus! {

fn push_u16(out: &mut Vec<u8>, v: u16)
    ensures
        final(out)@ == old(out)@ + be16(v),
{
    out.push(((v >> 8u16) & 0xff) as u8);
    out.push((v & 0xff) as u8);
    assert(final(out)@ =~= old(out)@ + be16(v));
}

fn push_u32(out: &mut Vec<u8>, v: u32)
    ensures
        final(out)@ == old(out)@ + be32(v),
{
    out.push(((v >> 24u32) & 0xff) as u8);
    out.push(((v >> 16u32) & 0xff) as u8);
    out.push(((v >> 8u32) & 0xff) as u8);
    out.push((v & 0xff) as u8);
    assert(final(out)@ =~= old(out)@ + be32(v));
}

fn push_u64(out: &mut Vec<u8>, v: u64)
    ensures
        final(out)@ == old(out)@ + be64(v),
{
    out.push(((v >> 56u64) & 0xff) as u8);
    out.push(((v >> 48u64) & 0xff) as u8);
    out.push(((v >> 40u64) & 0xff) as u8);
    out.push(((v >> 32u64) & 0xff) as u8);
    out.push(((v >> 24u64) & 0xff) as u8);
    out.push(((v >> 16u64) & 0xff) as u8);
    out.push(((v >> 8u64) & 0xff) as u8);
    out.push((v & 0xff) as u8);
    assert(final(out)@ =~= old(out)@ + be64(v));
}

fn push_varint(out: &mut Vec<u8>, v: u64)
    ensures
        final(out)@ == old(out)@ + varint(v),
{
    if v < 0xfd {
        out.push(v as u8);
        assert(final(out)@ =~= old(out)@ + varint(v));
    } else if v <= 0xffff {
        out.push(0xfdu8);
        push_u16(out, v as u16);
        assert(final(out)@ =~= old(out)@ + varint(v));
    } else if v <= 0xffff_ffff {
        out.push(0xfeu8);
        push_u32(out, v as u32);
        assert(final(out)@ =~= old(out)@ + varint(v));
    } else {
        out.push(0xffu8);
        push_u64(out, v);
        assert(final(out)@ =~= old(out)@ + varint(v));
    }
}

fn push_bytes(out: &mut Vec<u8>, b: &[u8])
    ensures
        final(out)@ == old(out)@ + b@,
{
    let mut i: usize = 0;
    while i < b.len()
        invariant
            0 <= i <= b@.len(),
            out@ == old(out)@ + b@.take(i as int),
        decreases b@.len() - i,
    {
        proof {
            assert(b@.take(i + 1) =~= b@.take(i as int).push(b@[i as int]));
        }
        out.push(b[i]);
        i = i + 1;
    }
    assert(b@.take(i as int) =~= b@);
}

proof fn lemma_concat_map_step<T>(xs: Seq<T>, i: int, f: spec_fn(T) -> Seq<u8>)
    requires
        0 <= i < xs.len(),
    ensures
        concat_map(xs.take(i + 1), f) == concat_map(xs.take(i), f) + f(xs[i]),
{
    assert(xs.take(i + 1).drop_last() =~= xs.take(i));
}

fn push_address(out: &mut Vec<u8>, services: u64, a: &SocketAddress)
    ensures
        final(out)@ == old(out)@ + encode_address(services, a@),
{
    push_u64(out, services);
    push_bytes(out, a.ip.as_slice());
    push_u16(out, a.port);
    assert(final(out)@ =~= old(out)@ + encode_address(services, a@));
}

fn push_node(out: &mut Vec<u8>, n: &KnownNode)
    ensures
        final(out)@ == old(out)@ + encode_node(n@),
{
    push_u64(out, n.last_seen);
    push_u32(out, n.stream);
    push_u64(out, n.services);
    push_bytes(out, n.socket_addr.ip.as_slice());
    push_u16(out, n.socket_addr.port);
    assert(final(out)@ =~= old(out)@ + encode_node(n@));
}

fn push_nodes(out: &mut Vec<u8>, nodes: &Vec<KnownNode>)
    ensures
        final(out)@ == old(out)@ + concat_map(nodes_view(nodes@), |n| encode_node(n)),
{
    let ghost xs = nodes_view(nodes@);
    let mut i: usize = 0;
    while i < nodes.len()
        invariant
            0 <= i <= nodes@.len(),
            xs == nodes_view(nodes@),
            out@ == old(out)@ + concat_map(xs.take(i as int), |n| encode_node(n)),
        decreases nodes@.len() - i,
    {
        push_node(out, &nodes[i]);
        proof {
            lemma_concat_map_step(xs, i as int, |n| encode_node(n));
            assert(out@ =~= old(out)@ + concat_map(xs.take(i + 1), |n| encode_node(n)));
        }
        i = i + 1;
    }
    assert(xs.take(i as int) =~= xs);
}

fn push_hashes(out: &mut Vec<u8>, inventory: &Vec<InventoryVector>)
    ensures
        final(out)@ == old(out)@ + concat_map(hashes_view(inventory@), |h: Seq<u8>| h),
{
    let ghost xs = hashes_view(inventory@);
    let mut i: usize = 0;
    while i < inventory.len()
        invariant
            0 <= i <= inventory@.len(),
            xs == hashes_view(inventory@),
            out@ == old(out)@ + concat_map(xs.take(i as int), |h: Seq<u8>| h),
        decreases inventory@.len() - i,
    {
        push_bytes(out, inventory[i].hash.as_slice());
        proof {
            lemma_concat_map_step(xs, i as int, |h: Seq<u8>| h);
            assert(out@ =~= old(out)@ + concat_map(xs.take(i + 1), |h: Seq<u8>| h));
        }
        i = i + 1;
    }
    assert(xs.take(i as int) =~= xs);
}

fn push_varints(out: &mut Vec<u8>, values: &Vec<u64>)
    ensures
        final(out)@ == old(out)@ + concat_map(values@, |x: u64| varint(x)),
{
    let mut i: usize = 0;
    while i < values.len()
        invariant
            0 <= i <= values@.len(),
            out@ == old(out)@ + concat_map(values@.take(i as int), |x: u64| varint(x)),
        decreases values@.len() - i,
    {
        push_varint(out, values[i]);
        proof {
            lemma_concat_map_step(values@, i as int, |x: u64| varint(x));
            assert(out@ =~= old(out)@ + concat_map(values@.take(i + 1), |x: u64| varint(x)));
        }
        i = i + 1;
    }
    assert(values@.take(i as int) =~= values@);
}

fn push_version(out: &mut Vec<u8>, v: &VersionData)
    ensures
        final(out)@ == old(out)@ + encode_version(v@),
{
    push_u32(out, v.version);
    push_u64(out, v.services);
    push_u64(out, v.timestamp);
    push_address(out, v.services, &v.addr_recv);
    push_address(out, v.services, &v.addr_from);
    push_u64(out, v.nonce);
    push_varint(out, v.user_agent.len() as u64);
    push_bytes(out, v.user_agent.as_slice());
    push_varint(out, v.streams.len() as u64);
    push_varints(out, &v.streams);
    assert(final(out)@ =~= old(out)@ + encode_version(v@));
}

fn push_object(out: &mut Vec<u8>, o: &ObjectData)
    ensures
        final(out)@ == old(out)@ + encode_object(o@),
{
    push_u64(out, o.nonce);
    push_u64(out, o.expiry);
    push_u32(out, OBJECT_GETPUBKEY);
    push_varint(out, o.version as u64);
    push_varint(out, o.stream as u64);
    match &o.object {
        Object::GetPubKey(GetPubKey::V4 { tag }) => push_bytes(out, tag.as_slice()),
    }
    assert(final(out)@ =~= old(out)@ + encode_object(o@));
}

/// Appends the payload of `message` to `out`.
pub fn write_payload(out: &mut Vec<u8>, message: &Message)
    ensures
        final(out)@ == old(out)@ + encode_payload(message@),
{
    reveal(encode_payload);
    match message {
        Message::Version(v) => push_version(out, v),
        Message::Verack => {
            assert(old(out)@ + encode_payload(message@) =~= old(out)@);
        },
        Message::Addr { addr_list } => {
            push_varint(out, addr_list.len() as u64);
            push_nodes(out, addr_list);
            assert(final(out)@ =~= old(out)@ + encode_payload(message@));
        },
        Message::Inv { inventory } => {
            push_varint(out, inventory.len() as u64);
            push_hashes(out, inventory);
            assert(final(out)@ =~= old(out)@ + encode_payload(message@));
        },
        Message::GetData { inventory } => {
            push_varint(out, inventory.len() as u64);
            push_hashes(out, inventory);
            assert(final(out)@ =~= old(out)@ + encode_payload(message@));
        },
        Message::Object(o) => push_object(out, o),
    }
}

/// The command name of a message kind, in ASCII.
pub fn command_bytes(kind: MessageKind) -> (r: Vec<u8>)
    ensures
        r@ == command_name(kind),
{
    let r = match kind {
        MessageKind::Version => vec![118u8, 101, 114, 115, 105, 111, 110],
        MessageKind::Verack => vec![118u8, 101, 114, 97, 99, 107],
        MessageKind::Addr => vec![97u8, 100, 100, 114],
        MessageKind::Inv => vec![105u8, 110, 118],
        MessageKind::GetData => vec![103u8, 101, 116, 100, 97, 116, 97],
        MessageKind::Object => vec![111u8, 98, 106, 101, 99, 116],
    };
    assert(r@ =~= command_name(kind));
    r
}

fn push_command(out: &mut Vec<u8>, kind: MessageKind)
    ensures
        final(out)@ == old(out)@ + command_field(kind),
{
    let name = command_bytes(kind);
    push_bytes(out, name.as_slice());
    let mut i: usize = name.len();
    while i < 12
        invariant
            name@ == command_name(kind),
            name@.len() <= i <= 12,
            out@ == old(out)@ + name@ + Seq::new((i - name@.len()) as nat, |j: int| 0u8),
        decreases 12 - i,
    {
        out.push(0u8);
        i = i + 1;
        assert(out@ =~= old(out)@ + name@ + Seq::new((i - name@.len()) as nat, |j: int| 0u8));
    }
    assert(final(out)@ =~= old(out)@ + command_field(kind));
}

/// Appends the whole frame of `message` to `out`: magic, command, payload
/// length, checksum and payload.
pub fn write_message(out: &mut Vec<u8>, message: &Message)
    requires
        message_wf(message@),
    ensures
        final(out)@ == old(out)@ + encode_message(message@),
{
    let mut payload: Vec<u8> = Vec::new();
    write_payload(&mut payload, message);
    assert(payload@ =~= encode_payload(message@));
    let checksum = frame_checksum(payload.as_slice());
    push_u32(out, MAGIC);
    push_command(out, message.kind());
    push_u32(out, payload.len() as u32);
    push_bytes(out, &checksum);
    push_bytes(out, payload.as_slice());
    assert(final(out)@ =~= old(out)@ + encode_message(message@));
}

} // verus!
