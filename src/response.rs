use vstd::prelude::*;

use crate::message::{ipv4_mapped, Message, MessageView, SocketAddress, VersionData, VersionView};
use crate::state::MessageKind;
use crate::wire::message_wf;

verus! {

/// The protocol version that this node speaks.
pub const PROTOCOL_VERSION: u32 = 3;

/// The services that this node offers.
pub const NODE_SERVICES: u64 = 1;

/// The port that this node claims to listen on.
pub const LOCAL_PORT: u16 = 8555;

/// The `version` message that opens the handshake.
pub open spec fn version_message_spec(peer: crate::message::AddressView, nonce: u64, timestamp: u64) -> MessageView {
    MessageView::Version(
        VersionView {
            version: PROTOCOL_VERSION,
            services: NODE_SERVICES,
            timestamp,
            addr_recv: peer,
            addr_from: crate::message::AddressView {
                ip: ipv4_mapped(seq![127u8, 0, 0, 1]),
                port: LOCAL_PORT,
            },
            nonce,
            user_agent: seq![82u8, 117, 98, 98, 101, 109],
            streams: seq![1u64],
        },
    )
}

/// The `version` message that this node sends first on a connection to
/// `peer_addr`, claiming the local loopback address as its own.
pub fn create_version_message(peer_addr: SocketAddress, nonce: u64, timestamp: u64) -> (r: Message)
    ensures
        r@ == version_message_spec(peer_addr@, nonce, timestamp),
        peer_addr@.ip.len() == 16 ==> message_wf(r@),
{
    let our_addr = SocketAddress::from_ipv4(127, 0, 0, 1, LOCAL_PORT);
    let user_agent = vec![82u8, 117, 98, 98, 101, 109];
    let streams = vec![1u64];
    assert(user_agent@ =~= seq![82u8, 117, 98, 98, 101, 109]);
    assert(streams@ =~= seq![1u64]);
    let r = Message::Version(
        VersionData {
            version: PROTOCOL_VERSION,
            services: NODE_SERVICES,
            timestamp,
            addr_recv: peer_addr,
            addr_from: our_addr,
            nonce,
            user_agent,
            streams,
        },
    );
    proof {
        reveal(crate::wire::encode_payload);
        let s = seq![1u64];
        assert(s.drop_last() =~= Seq::<u64>::empty());
        assert(s.last() == 1u64);
        assert(crate::wire::concat_map(Seq::<u64>::empty(), |x: u64| crate::wire::varint(x)) == Seq::<u8>::empty());
        assert(crate::wire::varint(1u64) =~= seq![1u8]);
        assert(crate::wire::concat_map(s, |x: u64| crate::wire::varint(x)) =~= seq![1u8]);
    }
    r
}

/// The message, if any, that the response lane sends back for an inbound
/// message of the given kind: a `version` is acknowledged, nothing else is
/// answered.
pub fn response_to(kind: MessageKind) -> (r: Option<Message>)
    ensures
        kind == MessageKind::Version ==> (r matches Some(m) && m@ == MessageView::Verack),
        kind != MessageKind::Version ==> r is None,
{
    match kind {
        MessageKind::Version => Some(Message::Verack),
        _ => None,
    }
}

} // verus!
