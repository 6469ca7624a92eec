use bm_client::message::{
    InventoryVector, KnownNode, Message, MessageSerialError, SocketAddress, VersionData,
};
use bm_client::read::read_message;
use bm_client::write::write_message;

fn frame(message: &Message) -> Vec<u8> {
    let mut out = vec![];
    write_message(&mut out, message);
    out
}

fn verack_frame() -> Vec<u8> {
    frame(&Message::Verack)
}

/// Builds a frame around `payload` with a correct checksum.
fn frame_with(command: &[u8; 12], payload: &[u8]) -> Vec<u8> {
    let mut out = vec![0xe9, 0xbe, 0xb4, 0xd9];
    out.extend_from_slice(command);
    out.extend_from_slice(&(payload.len() as u32).to_be_bytes());
    out.extend_from_slice(&bm_client::checksum::frame_checksum(payload));
    out.extend_from_slice(payload);
    out
}

fn command(name: &str) -> [u8; 12] {
    let mut c = [0u8; 12];
    c[..name.len()].copy_from_slice(name.as_bytes());
    c
}

#[test]
fn verack_frame_is_exact() {
    assert_eq!(
        verack_frame(),
        vec![0xe9, 0xbe, 0xb4, 0xd9, 118, 101, 114, 97, 99, 107, 0, 0, 0, 0, 0, 0, 0, 0, 0, 0, 0xcf, 0x83, 0xe1, 0x35]
    );
    assert_eq!(read_message(&verack_frame()), Ok(Message::Verack));
}

#[test]
fn short_header_is_out_of_data() {
    let f = verack_frame();
    assert_eq!(read_message(&f[..23]), Err(MessageSerialError::OutOfData));
    assert_eq!(read_message(&[]), Err(MessageSerialError::OutOfData));
}

#[test]
fn wrong_magic_is_refused() {
    let mut f = verack_frame();
    f[0] = 0xe8;
    assert_eq!(read_message(&f), Err(MessageSerialError::BadMagic));
}

#[test]
fn extra_payload_byte_is_payload_size() {
    let mut f = verack_frame();
    f.push(0);
    assert_eq!(read_message(&f), Err(MessageSerialError::PayloadSize));
}

#[test]
fn missing_payload_byte_is_payload_size() {
    let mut f = frame(&Message::Inv { inventory: vec![InventoryVector { hash: vec![7; 32] }] });
    f.pop();
    assert_eq!(read_message(&f), Err(MessageSerialError::PayloadSize));
}

#[test]
fn declared_length_over_maximum_is_payload_size() {
    let mut f = verack_frame();
    f[16..20].copy_from_slice(&1600004u32.to_be_bytes());
    assert_eq!(read_message(&f), Err(MessageSerialError::PayloadSize));
}

#[test]
fn object_over_its_maximum_is_payload_size() {
    let payload = vec![0u8; 262145];
    let f = frame_with(&command("object"), &payload);
    assert_eq!(read_message(&f), Err(MessageSerialError::PayloadSize));
}

#[test]
fn altered_checksum_is_refused() {
    let mut f = verack_frame();
    f[23] ^= 1;
    assert_eq!(read_message(&f), Err(MessageSerialError::ChecksumMismatch));
}

#[test]
fn altered_payload_is_refused() {
    let mut f = frame(&Message::Inv { inventory: vec![InventoryVector { hash: vec![7; 32] }] });
    f[30] ^= 0x10;
    assert_eq!(read_message(&f), Err(MessageSerialError::ChecksumMismatch));
}

#[test]
fn unknown_command_is_refused() {
    let f = frame_with(&command("ping"), &[]);
    assert_eq!(read_message(&f), Err(MessageSerialError::UnknownCommand));
}

#[test]
fn non_ascii_command_is_refused() {
    let mut c = command("verack");
    c[2] = 0xc3;
    let f = frame_with(&c, &[]);
    assert_eq!(read_message(&f), Err(MessageSerialError::BadAscii));
}

#[test]
fn bytes_after_command_padding_are_refused() {
    let mut c = command("verack");
    c[9] = b'x';
    let f = frame_with(&c, &[]);
    assert_eq!(read_message(&f), Err(MessageSerialError::NonZeroPadding));
}

#[test]
fn too_many_addresses_is_maximum_value_exceeded() {
    // count 1001 as a variable-length integer
    let f = frame_with(&command("addr"), &[0xfd, 0x03, 0xe9]);
    assert_eq!(read_message(&f), Err(MessageSerialError::MaximumValueExceeded));
}

#[test]
fn too_many_inventory_entries_is_maximum_value_exceeded() {
    // count 50001
    let f = frame_with(&command("getdata"), &[0xfd, 0xc3, 0x51]);
    assert_eq!(read_message(&f), Err(MessageSerialError::MaximumValueExceeded));
    let f = frame_with(&command("inv"), &[0xfd, 0xc3, 0x51]);
    assert_eq!(read_message(&f), Err(MessageSerialError::MaximumValueExceeded));
}

#[test]
fn truncated_payload_is_out_of_data() {
    // one inventory entry announced, 31 bytes given
    let mut payload = vec![1u8];
    payload.extend_from_slice(&[9u8; 31]);
    let f = frame_with(&command("inv"), &payload);
    assert_eq!(read_message(&f), Err(MessageSerialError::OutOfData));
}

#[test]
fn unknown_object_type_is_refused() {
    let mut payload = vec![0u8; 16];
    payload.extend_from_slice(&[0, 0, 0, 9, 4, 1]);
    payload.extend_from_slice(&[0u8; 32]);
    let f = frame_with(&command("object"), &payload);
    assert_eq!(read_message(&f), Err(MessageSerialError::UnknownObjectType));
}

#[test]
fn unknown_object_version_is_refused() {
    let mut payload = vec![0u8; 16];
    payload.extend_from_slice(&[0, 0, 0, 0, 3, 1]);
    payload.extend_from_slice(&[0u8; 20]);
    let f = frame_with(&command("object"), &payload);
    assert_eq!(read_message(&f), Err(MessageSerialError::UnknownObjectVersion));
}

#[test]
fn non_ascii_user_agent_is_refused() {
    let message = Message::Version(VersionData {
        version: 3,
        services: 1,
        timestamp: 7,
        addr_recv: SocketAddress::from_ipv4(1, 2, 3, 4, 5),
        addr_from: SocketAddress::from_ipv4(6, 7, 8, 9, 10),
        nonce: 11,
        user_agent: b"abc".to_vec(),
        streams: vec![1],
    });
    let f = frame(&message);
    let mut payload = f[24..].to_vec();
    // the user agent starts after 4 + 8 + 8 + 26 + 26 + 8 bytes and its length byte
    payload[81] = 0xe9;
    let f = frame_with(&command("version"), &payload);
    assert_eq!(read_message(&f), Err(MessageSerialError::BadAscii));
}

#[test]
fn long_lists_and_wide_integers_round_trip() {
    let nodes: Vec<KnownNode> = (0..300u32)
        .map(|i| KnownNode {
            last_seen: u64::MAX - i as u64,
            stream: i,
            services: 1 << (i % 64),
            socket_addr: SocketAddress::from_ipv4(10, 0, (i >> 8) as u8, i as u8, 8444),
        })
        .collect();
    let message = Message::Addr { addr_list: nodes };
    let f = frame(&message);
    // 300 needs the three-byte form of the count
    assert_eq!(&f[24..27], &[0xfd, 0x01, 0x2c]);
    assert_eq!(read_message(&f), Ok(message));

    let message = Message::Version(VersionData {
        version: u32::MAX,
        services: u64::MAX,
        timestamp: 0,
        addr_recv: SocketAddress { ip: (0..16).collect(), port: 65535 },
        addr_from: SocketAddress::from_ipv4(0, 0, 0, 0, 0),
        nonce: u64::MAX,
        user_agent: vec![],
        streams: vec![0, 0xfc, 0xfd, 0xffff, 0x10000, 0xffff_ffff, 0x1_0000_0000, u64::MAX],
    });
    let f = frame(&message);
    assert_eq!(read_message(&f), Ok(message));
}
