use bm_client::channel::{ByteBoundedQueue, MAX_WRITE_BUFFER};
use bm_client::message::{Message, SocketAddress};
use bm_client::read::read_message;
use bm_client::response::{create_version_message, response_to};
use bm_client::state::{fresh_state, next_tick, ConnectionState, Inbound, MessageKind, Tick, Timestamp};
use bm_client::write::write_message;

const KINDS: [MessageKind; 6] = [
    MessageKind::Version,
    MessageKind::Verack,
    MessageKind::Addr,
    MessageKind::Inv,
    MessageKind::GetData,
    MessageKind::Object,
];

fn at(sec: i64) -> Timestamp {
    Timestamp { sec, nsec: 0 }
}

fn tick(s: ConnectionState, inbound: Inbound, now: Timestamp) -> Tick {
    next_tick(s, inbound, now)
}

#[test]
fn fresh_state_carries_its_time() {
    assert_eq!(fresh_state(at(5)), ConnectionState::Fresh(at(5)));
}

#[test]
fn handshake_version_first() {
    let t = tick(ConnectionState::Fresh(at(0)), Inbound::Received(MessageKind::Version), at(1));
    assert_eq!(t, Tick { state: ConnectionState::GotVersionAwaitingVerack(at(1)), forward: true, stop: false });
    let t = tick(t.state, Inbound::Received(MessageKind::Verack), at(2));
    assert_eq!(t, Tick { state: ConnectionState::Established(at(2)), forward: true, stop: false });
}

#[test]
fn handshake_verack_first() {
    let t = tick(ConnectionState::Fresh(at(0)), Inbound::Received(MessageKind::Verack), at(1));
    assert_eq!(t, Tick { state: ConnectionState::GotVerackAwaitingVersion(at(1)), forward: false, stop: false });
    let t = tick(t.state, Inbound::Received(MessageKind::Version), at(2));
    assert_eq!(t, Tick { state: ConnectionState::Established(at(2)), forward: true, stop: false });
}

#[test]
fn unexpected_messages_are_errors() {
    let error = Tick { state: ConnectionState::Error, forward: false, stop: true };
    for k in [MessageKind::Addr, MessageKind::Inv, MessageKind::GetData, MessageKind::Object] {
        assert_eq!(tick(ConnectionState::Fresh(at(0)), Inbound::Received(k), at(1)), error);
    }
    for k in KINDS.iter().copied().filter(|k| *k != MessageKind::Verack) {
        assert_eq!(tick(ConnectionState::GotVersionAwaitingVerack(at(0)), Inbound::Received(k), at(1)), error);
    }
    for k in KINDS.iter().copied().filter(|k| *k != MessageKind::Version) {
        assert_eq!(tick(ConnectionState::GotVerackAwaitingVersion(at(0)), Inbound::Received(k), at(1)), error);
    }
}

#[test]
fn established_forwards_everything_and_refreshes() {
    for k in KINDS {
        let t = tick(ConnectionState::Established(at(0)), Inbound::Received(k), at(9));
        assert_eq!(t, Tick { state: ConnectionState::Established(at(9)), forward: true, stop: false });
    }
}

#[test]
fn failed_read_is_error_in_every_live_state() {
    for s in [
        ConnectionState::Fresh(at(0)),
        ConnectionState::GotVersionAwaitingVerack(at(0)),
        ConnectionState::GotVerackAwaitingVersion(at(0)),
        ConnectionState::Established(at(0)),
    ] {
        assert_eq!(tick(s, Inbound::Failed, at(1)), Tick { state: ConnectionState::Error, forward: false, stop: true });
    }
}

#[test]
fn nothing_inbound_leaves_state() {
    let s = ConnectionState::GotVerackAwaitingVersion(at(3));
    assert_eq!(tick(s, Inbound::Nothing, at(4)), Tick { state: s, forward: false, stop: false });
}

#[test]
fn terminal_states_stay() {
    for s in [ConnectionState::Stale, ConnectionState::Error] {
        for inbound in [Inbound::Nothing, Inbound::Failed, Inbound::Received(MessageKind::Version)] {
            let t = tick(s, inbound, at(100));
            assert_eq!(t.state, s);
            assert!(!t.forward);
        }
    }
}

#[test]
fn handshake_goes_stale_after_twenty_seconds() {
    let start = Timestamp { sec: 1000, nsec: 500 };
    for s in [
        ConnectionState::Fresh(start),
        ConnectionState::GotVersionAwaitingVerack(start),
        ConnectionState::GotVerackAwaitingVersion(start),
    ] {
        assert_eq!(tick(s, Inbound::Nothing, Timestamp { sec: 1020, nsec: 500 }).state, s);
        assert_eq!(
            tick(s, Inbound::Nothing, Timestamp { sec: 1020, nsec: 501 }).state,
            ConnectionState::Stale
        );
        assert_eq!(tick(s, Inbound::Nothing, Timestamp { sec: 1019, nsec: 999_999_999 }).state, s);
    }
}

#[test]
fn established_goes_stale_after_ten_minutes() {
    let s = ConnectionState::Established(at(1000));
    assert_eq!(tick(s, Inbound::Nothing, at(1600)).state, s);
    assert_eq!(tick(s, Inbound::Nothing, Timestamp { sec: 1600, nsec: 1 }).state, ConnectionState::Stale);
}

#[test]
fn staleness_judges_the_state_the_tick_began_in() {
    let t = tick(ConnectionState::Fresh(at(0)), Inbound::Received(MessageKind::Version), at(21));
    assert_eq!(t, Tick { state: ConnectionState::Stale, forward: true, stop: false });
}

#[test]
fn queue_admits_by_bytes() {
    let mut q: ByteBoundedQueue<u32> = ByteBoundedQueue::new(10);
    assert_eq!(q.try_push(1, 4), Ok(()));
    assert_eq!(q.try_push(2, 6), Ok(()));
    assert_eq!(q.queued(), 10);
    assert_eq!(q.try_push(3, 1), Err(3));
    assert_eq!(q.pop(), Some(1));
    assert_eq!(q.queued(), 6);
    assert_eq!(q.try_push(3, 4), Ok(()));
    assert_eq!(q.len(), 2);
    assert_eq!(q.pop(), Some(2));
    assert_eq!(q.pop(), Some(3));
    assert_eq!(q.pop(), None);
    assert_eq!(q.queued(), 0);
}

#[test]
fn queue_refuses_oversized_item_even_when_empty() {
    let mut q: ByteBoundedQueue<u32> = ByteBoundedQueue::new(MAX_WRITE_BUFFER);
    assert_eq!(q.try_push(1, MAX_WRITE_BUFFER + 1), Err(1));
    assert_eq!(q.try_push(2, MAX_WRITE_BUFFER), Ok(()));
    assert_eq!(q.try_push(3, 0), Ok(()));
    assert_eq!(q.try_push(4, 1), Err(4));
}

#[test]
fn version_is_answered_with_verack_only() {
    assert_eq!(response_to(MessageKind::Version), Some(Message::Verack));
    for k in [MessageKind::Verack, MessageKind::Addr, MessageKind::Inv, MessageKind::GetData, MessageKind::Object] {
        assert_eq!(response_to(k), None);
    }
}

#[test]
fn opening_version_message_is_exact() {
    let peer = SocketAddress::from_ipv4(127, 0, 0, 1, 8444);
    let message = create_version_message(peer, 0x12345678, 0x504030201);
    let mut out = vec![];
    write_message(&mut out, &message);
    assert_eq!(out.len(), 24 + 89);
    assert_eq!(&out[4..11], b"version");
    // the claimed local endpoint is 127.0.0.1:8555
    assert_eq!(&out[24 + 54..24 + 72], &[0, 0, 0, 0, 0, 0, 0, 0, 0, 0, 0xff, 0xff, 127, 0, 0, 1, 33, 107]);
    assert_eq!(&out[24 + 80..], &[6, 82, 117, 98, 98, 101, 109, 1, 1]);
    assert_eq!(read_message(&out), Ok(message));
}

#[test]
fn message_kind_matches_variant() {
    assert_eq!(Message::Verack.kind(), MessageKind::Verack);
    assert_eq!(Message::Inv { inventory: vec![] }.kind(), MessageKind::Inv);
    assert_eq!(Message::GetData { inventory: vec![] }.kind(), MessageKind::GetData);
    assert_eq!(Message::Addr { addr_list: vec![] }.kind(), MessageKind::Addr);
}
