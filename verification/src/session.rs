//! One client connection: the per-session state machine. It routes each
//! discrete inbound transport event to a reaction — forward text to the
//! registry for broadcast, echo binary, answer pings — and runs the
//! heartbeat liveness check that evicts a silent peer.
//!
//! The transport itself stays outside: the caller decodes frames into
//! `InboundEvent` values, hands them in, and performs the returned
//! `Action`s.

use vstd::prelude::*;

verus! {

/// Time units between two heartbeat checks.
pub const HEARTBEAT_INTERVAL: u64 = 5;

/// A session with no liveness signal for more than this many time units is
/// declared unresponsive at the next heartbeat check.
pub const CLIENT_TIMEOUT: u64 = 10;

/// The session lifecycle. `TimedOut` and `Closed` are terminal: a
/// disconnected session is never resurrected, the client must reconnect as
/// a brand-new session.
#[derive(Clone, Copy, PartialEq, Eq, Structural, Debug)]
pub enum SessionState {
    /// Heartbeat within tolerance; events are processed.
    Active,
    /// The heartbeat monitor declared the peer unresponsive.
    TimedOut,
    /// Explicit close, protocol error, or peer-initiated close.
    Closed,
}

/// One discrete inbound event, as the transport delivers it.
pub enum InboundEvent {
    /// A text frame's payload: the chat message itself, no envelope.
    Text(String),
    /// A binary payload.
    Binary(Vec<u8>),
    /// A ping probe from the peer, with its payload.
    Ping(Vec<u8>),
    /// The peer's answer to a ping probe.
    Pong(Vec<u8>),
    /// A close frame from either direction.
    Close,
    /// A malformed frame or transport-layer failure, fatal to this session
    /// only.
    ProtocolError,
    /// A continuation frame; the session does not reassemble fragments and
    /// treats it as fatal to the session.
    Continuation,
    /// An empty event; ignored.
    Nop,
}

/// What the session asks its caller to do in reaction to one inbound event.
pub enum Action {
    /// Hand the payload to the registry for broadcast to every session.
    Forward(String),
    /// Write the payload back to this session's own transport as a binary
    /// message; it is not broadcast.
    EchoBinary(Vec<u8>),
    /// Answer a ping with a pong carrying the same payload.
    ReplyPong(Vec<u8>),
    /// Tear the session down: notify the registry with `disconnect`, then
    /// release the outbound handle.
    Stop,
}

/// What one heartbeat check decided.
#[derive(Clone, Copy, PartialEq, Eq, Structural, Debug)]
pub enum HeartbeatStep {
    /// The peer is within tolerance: probe it with a ping.
    SendPing,
    /// The peer has been silent too long: tear the session down and notify
    /// the registry with `disconnect`.
    TimedOut,
}

/// Relies on `uuid::Uuid::new_v4` and `uuid::Uuid::as_u128`: a freshly drawn
/// random version-4 UUID, as its 128-bit value. The value is random, so
/// nothing is promised of it; callers treat distinctness from every earlier
/// id as guaranteed by construction.
#[verifier::external_body]
fn fresh_session_id() -> u128 {
    uuid::Uuid::new_v4().as_u128()
}

/// The server-side state of one live client connection.
pub struct Session {
    /// Process-unique identifier, drawn at connection start, immutable.
    pub id: u128,
    /// The time unit of the last inbound activity attributable to liveness.
    pub last_activity: u64,
    /// Where the session stands in its lifecycle.
    pub state: SessionState,
}

/// True when a heartbeat check at time `now` must declare a session whose
/// last activity was at `last` unresponsive.
pub open spec fn times_out(last: int, now: int) -> bool {
    now - last > CLIENT_TIMEOUT
}

/// The reaction one inbound event demands: how the session moves from
/// `pre` to `post` at time `now`, and which action (if any) it returns.
pub open spec fn inbound_transition(
    pre: Session,
    event: InboundEvent,
    now: u64,
    post: Session,
    r: Option<Action>,
) -> bool {
    post.id == pre.id && match event {
        InboundEvent::Text(t) => post.state == SessionState::Active && post.last_activity == now
            && (r matches Some(Action::Forward(p)) && p@ == t@),
        InboundEvent::Binary(b) => post.state == SessionState::Active && post.last_activity == now
            && (r matches Some(Action::EchoBinary(p)) && p@ == b@),
        InboundEvent::Ping(m) => post.state == SessionState::Active && post.last_activity == now
            && (r matches Some(Action::ReplyPong(p)) && p@ == m@),
        InboundEvent::Pong(_) => post.state == SessionState::Active && post.last_activity == now
            && r is None,
        InboundEvent::Close => post.state == SessionState::Closed && post.last_activity
            == pre.last_activity && (r matches Some(Action::Stop)),
        InboundEvent::ProtocolError => post.state == SessionState::Closed && post.last_activity
            == pre.last_activity && (r matches Some(Action::Stop)),
        InboundEvent::Continuation => post.state == SessionState::Closed && post.last_activity
            == pre.last_activity && (r matches Some(Action::Stop)),
        InboundEvent::Nop => post == pre && r is None,
    }
}

impl Session {
    /// A fresh session for a connection accepted at time `now`: a newly
    /// drawn id, heartbeat state within tolerance. The caller registers it
    /// with the registry before processing any inbound event.
    pub fn new(now: u64) -> (s: Session)
        ensures
            s.state == SessionState::Active,
            s.last_activity == now,
    {
        Session { id: fresh_session_id(), last_activity: now, state: SessionState::Active }
    }

    /// Routes one inbound transport event, at time `now`.
    ///
    /// Text is forwarded verbatim for broadcast; binary is echoed back to
    /// this session's own transport; a ping is answered with a pong; a pong
    /// only refreshes liveness; close, protocol error and continuation end
    /// the session. Every genuine inbound frame refreshes `last_activity`.
    pub fn handle_inbound(&mut self, event: InboundEvent, now: u64) -> (r: Option<Action>)
        requires
            old(self).state == SessionState::Active,
        ensures
            inbound_transition(*old(self), event, now, *final(self), r),
    {
        match event {
            InboundEvent::Text(t) => {
                self.last_activity = now;
                Some(Action::Forward(t))
            },
            InboundEvent::Binary(b) => {
                self.last_activity = now;
                Some(Action::EchoBinary(b))
            },
            InboundEvent::Ping(m) => {
                self.last_activity = now;
                Some(Action::ReplyPong(m))
            },
            InboundEvent::Pong(_) => {
                self.last_activity = now;
                None
            },
            InboundEvent::Close => {
                self.state = SessionState::Closed;
                Some(Action::Stop)
            },
            InboundEvent::ProtocolError => {
                self.state = SessionState::Closed;
                Some(Action::Stop)
            },
            InboundEvent::Continuation => {
                self.state = SessionState::Closed;
                Some(Action::Stop)
            },
            InboundEvent::Nop => None,
        }
    }

    /// One periodic heartbeat check at time `now`: if the peer has shown no
    /// liveness for more than `CLIENT_TIMEOUT` time units, the session times
    /// out and the caller must disconnect it from the registry; otherwise
    /// the caller probes the peer with a ping.
    pub fn heartbeat_tick(&mut self, now: u64) -> (r: HeartbeatStep)
        requires
            old(self).state == SessionState::Active,
            old(self).last_activity <= now,
        ensures
            final(self).id == old(self).id,
            final(self).last_activity == old(self).last_activity,
            times_out(old(self).last_activity as int, now as int) ==> final(self).state
                == SessionState::TimedOut && r == HeartbeatStep::TimedOut,
            !times_out(old(self).last_activity as int, now as int) ==> final(self).state
                == SessionState::Active && r == HeartbeatStep::SendPing,
    {
        if now - self.last_activity > CLIENT_TIMEOUT {
            self.state = SessionState::TimedOut;
            HeartbeatStep::TimedOut
        } else {
            HeartbeatStep::SendPing
        }
    }
}

/// Heartbeat property: a silent session is caught within one heartbeat
/// interval of the timeout threshold elapsing. If the check at `prev_tick`
/// let the session live, then at the next check, one interval later: the
/// session is declared unresponsive as soon as the threshold has elapsed,
/// and that check comes no later than one interval past the threshold —
/// the worst-case detection latency is `CLIENT_TIMEOUT + HEARTBEAT_INTERVAL`
/// after the last activity.
pub proof fn lemma_timeout_detection(last: int, prev_tick: int, next_tick: int)
    requires
        last <= prev_tick,
        !times_out(last, prev_tick),
        next_tick == prev_tick + HEARTBEAT_INTERVAL,
    ensures
        next_tick > last + CLIENT_TIMEOUT ==> times_out(last, next_tick),
        next_tick <= last + CLIENT_TIMEOUT + HEARTBEAT_INTERVAL,
{
}

/// A session that keeps silent stays past the threshold at every later
/// instant: once the timeout condition holds it keeps holding, so the next
/// heartbeat check cannot miss it.
pub proof fn lemma_times_out_monotone(last: int, now: int, later: int)
    requires
        times_out(last, now),
        now <= later,
    ensures
        times_out(last, later),
{
}

} // verus!
