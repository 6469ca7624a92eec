use vstd::prelude::*;

use crate::state::MessageKind;

verus! {

/// The first four bytes of every frame.
pub const MAGIC: u32 = 0xe9beb4d9;

/// The largest payload that any frame may carry.
pub const MAX_PAYLOAD_LENGTH: u32 = 1600003;

/// The most entries that an `addr` message may list.
pub const MAX_NODES_COUNT: u64 = 1000;

/// The most entries that a `getdata` message may list.
pub const MAX_GETDATA_COUNT: u64 = 50000;

/// The most entries that an `inv` message may list.
pub const MAX_INV_COUNT: u64 = 50000;

/// The largest payload that an `object` frame may carry.
pub const MAX_PAYLOAD_LENGTH_FOR_OBJECT: u32 = 262144;

/// Why a frame could not be decoded.
#[derive(Debug, Clone, Copy, PartialEq, Eq, Structural)]
pub enum MessageSerialError {
    OutOfData,
    BadAscii,
    MaximumValueExceeded,
    BadMagic,
    PayloadSize,
    ChecksumMismatch,
    NonZeroPadding,
    UnknownCommand,
    UnknownObjectType,
    UnknownObjectVersion,
}

/// A network endpoint as it travels on the wire: a 16-byte IPv6 address
/// (IPv4 addresses in their IPv4-mapped form) and a port.
#[derive(Debug, Clone, PartialEq, Eq)]
pub struct SocketAddress {
    pub ip: Vec<u8>,
    pub port: u16,
}

pub struct AddressView {
    pub ip: Seq<u8>,
    pub port: u16,
}

impl View for SocketAddress {
    type V = AddressView;

    open spec fn view(&self) -> AddressView {
        AddressView { ip: self.ip@, port: self.port }
    }
}

/// The IPv4-mapped IPv6 form of an IPv4 address.
pub open spec fn ipv4_mapped(octets: Seq<u8>) -> Seq<u8> {
    seq![0u8, 0, 0, 0, 0, 0, 0, 0, 0, 0, 0xff, 0xff] + octets
}

impl SocketAddress {
    /// The endpoint of an IPv4 address and a port.
    pub fn from_ipv4(a: u8, b: u8, c: u8, d: u8, port: u16) -> (r: SocketAddress)
        ensures
            r@.ip == ipv4_mapped(seq![a, b, c, d]),
            r@.port == port,
    {
        let ip = vec![0u8, 0, 0, 0, 0, 0, 0, 0, 0, 0, 0xff, 0xff, a, b, c, d];
        assert(ip@ =~= ipv4_mapped(seq![a, b, c, d]));
        SocketAddress { ip, port }
    }
}

/// A peer that another node reports.
#[derive(Debug, Clone, PartialEq, Eq)]
pub struct KnownNode {
    pub last_seen: u64,
    pub stream: u32,
    pub services: u64,
    pub socket_addr: SocketAddress,
}

pub struct NodeView {
    pub last_seen: u64,
    pub stream: u32,
    pub services: u64,
    pub addr: AddressView,
}

impl View for KnownNode {
    type V = NodeView;

    open spec fn view(&self) -> NodeView {
        NodeView {
            last_seen: self.last_seen,
            stream: self.stream,
            services: self.services,
            addr: self.socket_addr@,
        }
    }
}

/// The hash of an object, as advertised or requested.
#[derive(Debug, Clone, PartialEq, Eq)]
pub struct InventoryVector {
    pub hash: Vec<u8>,
}

/// The fields of a `version` message.
#[derive(Debug, Clone, PartialEq, Eq)]
pub struct VersionData {
    pub version: u32,
    pub services: u64,
    pub timestamp: u64,
    pub addr_recv: SocketAddress,
    pub addr_from: SocketAddress,
    pub nonce: u64,
    pub user_agent: Vec<u8>,
    pub streams: Vec<u64>,
}

pub struct VersionView {
    pub version: u32,
    pub services: u64,
    pub timestamp: u64,
    pub addr_recv: AddressView,
    pub addr_from: AddressView,
    pub nonce: u64,
    pub user_agent: Seq<u8>,
    pub streams: Seq<u64>,
}

impl View for VersionData {
    type V = VersionView;

    open spec fn view(&self) -> VersionView {
        VersionView {
            version: self.version,
            services: self.services,
            timestamp: self.timestamp,
            addr_recv: self.addr_recv@,
            addr_from: self.addr_from@,
            nonce: self.nonce,
            user_agent: self.user_agent@,
            streams: self.streams@,
        }
    }
}

/// A request for the public key whose tag is given.
#[derive(Debug, Clone, PartialEq, Eq)]
pub enum GetPubKey {
    V4 { tag: Vec<u8> },
}

/// The object that an `object` message carries, by type and version.
#[derive(Debug, Clone, PartialEq, Eq)]
pub enum Object {
    GetPubKey(GetPubKey),
}

/// The fields of an `object` message.
#[derive(Debug, Clone, PartialEq, Eq)]
pub struct ObjectData {
    pub nonce: u64,
    pub expiry: u64,
    pub version: u32,
    pub stream: u32,
    pub object: Object,
}

pub enum ObjectBodyView {
    GetPubKeyV4 { tag: Seq<u8> },
}

pub struct ObjectView {
    pub nonce: u64,
    pub expiry: u64,
    pub version: u32,
    pub stream: u32,
    pub body: ObjectBodyView,
}

impl View for ObjectData {
    type V = ObjectView;

    open spec fn view(&self) -> ObjectView {
        ObjectView {
            nonce: self.nonce,
            expiry: self.expiry,
            version: self.version,
            stream: self.stream,
            body: match self.object {
                Object::GetPubKey(GetPubKey::V4 { tag }) => ObjectBodyView::GetPubKeyV4 { tag: tag@ },
            },
        }
    }
}

/// A protocol message.
#[derive(Debug, Clone, PartialEq, Eq)]
pub enum Message {
    Version(VersionData),
    Verack,
    Addr { addr_list: Vec<KnownNode> },
    Inv { inventory: Vec<InventoryVector> },
    GetData { inventory: Vec<InventoryVector> },
    Object(ObjectData),
}

pub enum MessageView {
    Version(VersionView),
    Verack,
    Addr(Seq<NodeView>),
    Inv(Seq<Seq<u8>>),
    GetData(Seq<Seq<u8>>),
    Object(ObjectView),
}

pub open spec fn hashes_view(v: Seq<InventoryVector>) -> Seq<Seq<u8>> {
    v.map_values(|i: InventoryVector| i.hash@)
}

pub open spec fn nodes_view(v: Seq<KnownNode>) -> Seq<NodeView> {
    v.map_values(|n: KnownNode| n@)
}

impl View for Message {
    type V = MessageView;

    open spec fn view(&self) -> MessageView {
        match self {
            Message::Version(v) => MessageView::Version(v@),
            Message::Verack => MessageView::Verack,
            Message::Addr { addr_list } => MessageView::Addr(nodes_view(addr_list@)),
            Message::Inv { inventory } => MessageView::Inv(hashes_view(inventory@)),
            Message::GetData { inventory } => MessageView::GetData(hashes_view(inventory@)),
            Message::Object(o) => MessageView::Object(o@),
        }
    }
}

pub open spec fn kind_of(m: MessageView) -> MessageKind {
    match m {
        MessageView::Version(_) => MessageKind::Version,
        MessageView::Verack => MessageKind::Verack,
        MessageView::Addr(_) => MessageKind::Addr,
        MessageView::Inv(_) => MessageKind::Inv,
        MessageView::GetData(_) => MessageKind::GetData,
        MessageView::Object(_) => MessageKind::Object,
    }
}

impl Message {
    /// The kind of this message.
    pub fn kind(&self) -> (r: MessageKind)
        ensures
            r == kind_of(self@),
    {
        match self {
            Message::Version(_) => MessageKind::Version,
            Message::Verack => MessageKind::Verack,
            Message::Addr { .. } => MessageKind::Addr,
            Message::Inv { .. } => MessageKind::Inv,
            Message::GetData { .. } => MessageKind::GetData,
            Message::Object(_) => MessageKind::Object,
        }
    }
}

} // verus!
