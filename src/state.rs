use vstd::prelude::*;

verus! {

/// Nanoseconds in one second.
pub const NANOS_PER_SEC: i32 = 1_000_000_000;

/// How long a handshake may take, in seconds.
pub const HANDSHAKE_TIMEOUT_SECS: i64 = 20;

/// How long an established connection may stay silent, in seconds.
pub const IDLE_TIMEOUT_SECS: i64 = 600;

/// A point in time: whole seconds since the Unix epoch and the nanoseconds
/// past that second.
#[derive(Debug, Clone, Copy, PartialEq, Eq, Structural)]
pub struct Timestamp {
    pub sec: i64,
    pub nsec: i32,
}

impl Timestamp {
    pub open spec fn wf(self) -> bool {
        0 <= self.nsec < NANOS_PER_SEC
    }

    /// The point in time as a number of nanoseconds since the epoch.
    pub open spec fn nanos(self) -> int {
        self.sec as int * NANOS_PER_SEC as int + self.nsec as int
    }
}

/// The stage that the handshake and the liveness of one connection are at.
#[derive(Debug, Clone, Copy, PartialEq, Eq, Structural)]
pub enum ConnectionState {
    Fresh(Timestamp),
    GotVerackAwaitingVersion(Timestamp),
    GotVersionAwaitingVerack(Timestamp),
    Established(Timestamp),
    Stale,
    Error,
}

/// The kind of a message that the read lane decoded.
#[derive(Debug, Clone, Copy, PartialEq, Eq, Structural)]
pub enum MessageKind {
    Version,
    Verack,
    Addr,
    Inv,
    GetData,
    Object,
}

/// What the state lane found on its inbound channel at one tick.
#[derive(Debug, Clone, Copy, PartialEq, Eq, Structural)]
pub enum Inbound {
    /// No message was waiting.
    Nothing,
    /// The read lane reported a decode error or hung up.
    Failed,
    /// A message of this kind was decoded.
    Received(MessageKind),
}

/// The outcome of one tick of the state lane.
#[derive(Debug, Clone, Copy, PartialEq, Eq, Structural)]
pub struct Tick {
    /// The state once the tick is over.
    pub state: ConnectionState,
    /// Whether the inbound message is handed on to the response lane.
    pub forward: bool,
    /// Whether the state lane stops polling.
    pub stop: bool,
}

pub open spec fn is_terminal(s: ConnectionState) -> bool {
    s is Stale || s is Error
}

/// The transition table: the next state and whether the message is handed on.
pub open spec fn table(s: ConnectionState, inbound: Inbound, now: Timestamp) -> (ConnectionState, bool) {
    match (s, inbound) {
        (ConnectionState::Stale, _) => (s, false),
        (ConnectionState::Error, _) => (s, false),
        (_, Inbound::Nothing) => (s, false),
        (_, Inbound::Failed) => (ConnectionState::Error, false),
        (ConnectionState::Fresh(_), Inbound::Received(MessageKind::Version)) =>
            (ConnectionState::GotVersionAwaitingVerack(now), true),
        (ConnectionState::Fresh(_), Inbound::Received(MessageKind::Verack)) =>
            (ConnectionState::GotVerackAwaitingVersion(now), false),
        (ConnectionState::GotVersionAwaitingVerack(_), Inbound::Received(MessageKind::Verack)) =>
            (ConnectionState::Established(now), true),
        (ConnectionState::GotVerackAwaitingVersion(_), Inbound::Received(MessageKind::Version)) =>
            (ConnectionState::Established(now), true),
        (ConnectionState::Established(_), Inbound::Received(_)) => (ConnectionState::Established(now), true),
        (_, Inbound::Received(_)) => (ConnectionState::Error, false),
    }
}

/// Whether `s`, as it stood when the tick began, has outlived its timeout at `now`.
pub open spec fn expired(s: ConnectionState, now: Timestamp) -> bool {
    match s {
        ConnectionState::Fresh(t) => now.nanos() > t.nanos() + HANDSHAKE_TIMEOUT_SECS * NANOS_PER_SEC,
        ConnectionState::GotVerackAwaitingVersion(t) => now.nanos() > t.nanos() + HANDSHAKE_TIMEOUT_SECS
            * NANOS_PER_SEC,
        ConnectionState::GotVersionAwaitingVerack(t) => now.nanos() > t.nanos() + HANDSHAKE_TIMEOUT_SECS
            * NANOS_PER_SEC,
        ConnectionState::Established(t) => now.nanos() > t.nanos() + IDLE_TIMEOUT_SECS * NANOS_PER_SEC,
        _ => false,
    }
}

/// One tick: the table, then the timeout of the state that the tick began in.
pub open spec fn tick_spec(s: ConnectionState, inbound: Inbound, now: Timestamp) -> Tick {
    let (next, forward) = table(s, inbound, now);
    let stop = next is Error || inbound is Failed;
    if !stop && expired(s, now) {
        Tick { state: ConnectionState::Stale, forward, stop }
    } else {
        Tick { state: next, forward, stop }
    }
}

/// Whether `now` is more than `secs` seconds after `t`.
fn later_than(now: Timestamp, t: Timestamp, secs: i64) -> (r: bool)
    requires
        now.wf(),
        t.wf(),
        0 <= secs <= IDLE_TIMEOUT_SECS,
    ensures
        r == (now.nanos() > t.nanos() + secs * NANOS_PER_SEC),
{
    // Compare (sec, nsec) pairs, with the deadline's seconds widened so that
    // the sum cannot overflow.
    let deadline: i128 = t.sec as i128 + secs as i128;
    let r = now.sec as i128 > deadline || (now.sec as i128 == deadline && now.nsec > t.nsec);
    assert(r == (now.nanos() > t.nanos() + secs * NANOS_PER_SEC)) by (nonlinear_arith)
        requires
            deadline == t.sec + secs,
            r == (now.sec > deadline || (now.sec == deadline && now.nsec > t.nsec)),
            0 <= now.nsec < 1_000_000_000,
            0 <= t.nsec < 1_000_000_000,
            now.nanos() == now.sec * 1_000_000_000 + now.nsec,
            t.nanos() == t.sec * 1_000_000_000 + t.nsec,
            NANOS_PER_SEC == 1_000_000_000,
    ;
    r
}

fn expired_at(s: ConnectionState, now: Timestamp) -> (r: bool)
    requires
        now.wf(),
        state_wf(s),
    ensures
        r == expired(s, now),
{
    match s {
        ConnectionState::Fresh(t) => later_than(now, t, HANDSHAKE_TIMEOUT_SECS),
        ConnectionState::GotVerackAwaitingVersion(t) => later_than(now, t, HANDSHAKE_TIMEOUT_SECS),
        ConnectionState::GotVersionAwaitingVerack(t) => later_than(now, t, HANDSHAKE_TIMEOUT_SECS),
        ConnectionState::Established(t) => later_than(now, t, IDLE_TIMEOUT_SECS),
        _ => false,
    }
}

/// Every timestamp that a state carries is well formed.
pub open spec fn state_wf(s: ConnectionState) -> bool {
    match s {
        ConnectionState::Fresh(t) => t.wf(),
        ConnectionState::GotVerackAwaitingVersion(t) => t.wf(),
        ConnectionState::GotVersionAwaitingVerack(t) => t.wf(),
        ConnectionState::Established(t) => t.wf(),
        _ => true,
    }
}

/// The state that a newly opened connection starts in.
pub fn fresh_state(now: Timestamp) -> (r: ConnectionState)
    ensures
        r == ConnectionState::Fresh(now),
{
    ConnectionState::Fresh(now)
}

/// Decides one tick of the state lane: the new state, whether the inbound
/// message goes on to the response lane, and whether the lane stops.
pub fn next_tick(s: ConnectionState, inbound: Inbound, now: Timestamp) -> (r: Tick)
    requires
        now.wf(),
        state_wf(s),
    ensures
        r == tick_spec(s, inbound, now),
        state_wf(r.state),
{
    let (next, forward) = match (s, inbound) {
        (ConnectionState::Stale, _) => (s, false),
        (ConnectionState::Error, _) => (s, false),
        (_, Inbound::Nothing) => (s, false),
        (_, Inbound::Failed) => (ConnectionState::Error, false),
        (ConnectionState::Fresh(_), Inbound::Received(MessageKind::Version)) =>
            (ConnectionState::GotVersionAwaitingVerack(now), true),
        (ConnectionState::Fresh(_), Inbound::Received(MessageKind::Verack)) =>
            (ConnectionState::GotVerackAwaitingVersion(now), false),
        (ConnectionState::GotVersionAwaitingVerack(_), Inbound::Received(MessageKind::Verack)) =>
            (ConnectionState::Established(now), true),
        (ConnectionState::GotVerackAwaitingVersion(_), Inbound::Received(MessageKind::Version)) =>
            (ConnectionState::Established(now), true),
        (ConnectionState::Established(_), Inbound::Received(_)) => (ConnectionState::Established(now), true),
        (_, Inbound::Received(_)) => (ConnectionState::Error, false),
    };
    let stop = match (next, inbound) {
        (ConnectionState::Error, _) => true,
        (_, Inbound::Failed) => true,
        _ => false,
    };
    if !stop && expired_at(s, now) {
        Tick { state: ConnectionState::Stale, forward, stop }
    } else {
        Tick { state: next, forward, stop }
    }
}

/// Of the messages that a live state accepts, the one that is not handed on
/// to the response lane is a `verack` received while `Fresh`.
pub proof fn lemma_only_fresh_verack_is_kept(s: ConnectionState, k: MessageKind, now: Timestamp)
    requires
        !is_terminal(s),
    ensures
        ({
            let t = tick_spec(s, Inbound::Received(k), now);
            !t.forward && !t.stop
        }) <==> (s is Fresh && k == MessageKind::Verack),
{
}

/// A message that the table does not allow in a handshake state ends the
/// connection in `Error`, and a failed read does so in any live state.
pub proof fn lemma_unexpected_is_error(s: ConnectionState, inbound: Inbound, now: Timestamp)
    requires
        !is_terminal(s),
        inbound is Failed || match (s, inbound) {
            (ConnectionState::Fresh(_), Inbound::Received(k)) => k != MessageKind::Version && k
                != MessageKind::Verack,
            (ConnectionState::GotVersionAwaitingVerack(_), Inbound::Received(k)) => k != MessageKind::Verack,
            (ConnectionState::GotVerackAwaitingVersion(_), Inbound::Received(k)) => k != MessageKind::Version,
            _ => false,
        },
    ensures
        tick_spec(s, inbound, now) == (Tick { state: ConnectionState::Error, forward: false, stop: true }),
{
}

/// `Stale` and `Error` are never left.
pub proof fn lemma_terminal_kept(s: ConnectionState, inbound: Inbound, now: Timestamp)
    requires
        is_terminal(s),
    ensures
        tick_spec(s, inbound, now).state == s,
        !tick_spec(s, inbound, now).forward,
{
}

/// A handshake state turns `Stale` exactly when more than twenty seconds
/// have passed since it was entered.
pub proof fn lemma_handshake_timeout(s: ConnectionState, t: Timestamp, now: Timestamp)
    requires
        s == ConnectionState::Fresh(t) || s == ConnectionState::GotVersionAwaitingVerack(t) || s
            == ConnectionState::GotVerackAwaitingVersion(t),
    ensures
        (tick_spec(s, Inbound::Nothing, now).state == ConnectionState::Stale) <==> now.nanos() > t.nanos()
            + 20 * 1_000_000_000,
{
}

/// An established connection turns `Stale` exactly when it has gone more
/// than ten minutes without a message.
pub proof fn lemma_idle_timeout(t: Timestamp, now: Timestamp)
    ensures
        (tick_spec(ConnectionState::Established(t), Inbound::Nothing, now).state == ConnectionState::Stale)
            <==> now.nanos() > t.nanos() + 10 * 60 * 1_000_000_000,
{
}

} // verus!
