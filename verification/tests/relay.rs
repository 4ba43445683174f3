use chat_relay::registry::{Delivery, Registry};
use chat_relay::session::{
    Action, HeartbeatStep, InboundEvent, Session, SessionState, CLIENT_TIMEOUT,
    HEARTBEAT_INTERVAL,
};

fn active_session(id: u128, last_activity: u64) -> Session {
    Session { id, last_activity, state: SessionState::Active }
}

fn ids_of(deliveries: &[Delivery]) -> Vec<u128> {
    deliveries.iter().map(|d| d.id).collect()
}

#[test]
fn empty_registry_has_no_members() {
    let mut reg: Registry<&str> = Registry::new();
    assert_eq!(reg.len(), 0);
    assert!(!reg.contains(1));
    assert!(reg.fan_out(&String::from("nobody home")).is_empty());
    reg.disconnect(1);
    assert_eq!(reg.len(), 0);
}

#[test]
fn connect_registers_id() {
    let mut reg: Registry<&str> = Registry::new();
    reg.connect(5, "handle-five");
    assert_eq!(reg.len(), 1);
    assert!(reg.contains(5));
    assert!(!reg.contains(6));
    assert_eq!(reg.handle_for(5), Some(&"handle-five"));
    assert_eq!(reg.handle_for(6), None);
}

#[test]
fn disconnect_removes_only_that_id() {
    let mut reg: Registry<&str> = Registry::new();
    reg.connect(1, "a");
    reg.connect(2, "b");
    reg.connect(3, "c");
    reg.disconnect(2);
    assert_eq!(reg.len(), 2);
    assert!(reg.contains(1));
    assert!(!reg.contains(2));
    assert!(reg.contains(3));
    assert_eq!(reg.handle_for(2), None);
}

#[test]
fn disconnect_is_idempotent() {
    let mut reg: Registry<&str> = Registry::new();
    reg.connect(1, "a");
    reg.disconnect(1);
    assert!(!reg.contains(1));
    assert_eq!(reg.len(), 0);
    reg.disconnect(1);
    assert!(!reg.contains(1));
    assert_eq!(reg.len(), 0);
    reg.disconnect(9);
    assert_eq!(reg.len(), 0);
}

#[test]
fn membership_equals_connects_without_matching_disconnect() {
    let mut reg: Registry<&str> = Registry::new();
    reg.connect(1, "a");
    reg.connect(2, "b");
    reg.disconnect(1);
    reg.connect(3, "c");
    assert!(!reg.contains(1));
    assert!(reg.contains(2));
    assert!(reg.contains(3));
    assert_eq!(reg.len(), 2);
}

#[test]
fn fan_out_reaches_every_member_exactly_once() {
    let mut reg: Registry<&str> = Registry::new();
    reg.connect(1, "a");
    reg.connect(2, "b");
    reg.connect(3, "c");
    let deliveries = reg.fan_out(&String::from("msg"));
    assert_eq!(deliveries.len(), 3);
    for wanted in [1u128, 2, 3] {
        let hits = deliveries.iter().filter(|d| d.id == wanted).count();
        assert_eq!(hits, 1);
    }
    for d in &deliveries {
        assert_eq!(d.payload, "msg");
    }
}

#[test]
fn hello_is_broadcast_to_sender_and_peer() {
    let mut reg: Registry<&str> = Registry::new();
    let mut a = active_session(1, 0);
    let b = active_session(2, 0);
    reg.connect(a.id, "to-a");
    reg.connect(b.id, "to-b");

    let reaction = a.handle_inbound(InboundEvent::Text(String::from("hello")), 1);
    let text = match reaction {
        Some(Action::Forward(t)) => t,
        _ => panic!("a text frame must be forwarded for broadcast"),
    };
    assert_eq!(text, "hello");

    let deliveries = reg.fan_out(&text);
    let ids = ids_of(&deliveries);
    assert!(ids.contains(&a.id), "the sender receives its own message");
    assert!(ids.contains(&b.id));
    for d in &deliveries {
        assert_eq!(d.payload, "hello");
    }
}

#[test]
fn silent_client_times_out_and_is_removed() {
    let mut reg: Registry<&str> = Registry::new();
    let mut a = active_session(1, 0);
    reg.connect(a.id, "to-a");

    let mut now = 0u64;
    loop {
        now += HEARTBEAT_INTERVAL;
        match a.heartbeat_tick(now) {
            HeartbeatStep::SendPing => {
                assert!(now <= CLIENT_TIMEOUT, "a live check past the threshold is a miss");
            }
            HeartbeatStep::TimedOut => break,
        }
    }
    assert!(now > CLIENT_TIMEOUT);
    assert!(now <= CLIENT_TIMEOUT + HEARTBEAT_INTERVAL, "detected within one interval");
    assert_eq!(a.state, SessionState::TimedOut);

    reg.disconnect(a.id);
    assert!(!reg.contains(a.id));
    assert_eq!(reg.len(), 0);
}

#[test]
fn heartbeat_fires_strictly_after_the_threshold() {
    let mut s = active_session(1, 0);
    assert_eq!(s.heartbeat_tick(CLIENT_TIMEOUT), HeartbeatStep::SendPing);
    assert_eq!(s.state, SessionState::Active);
    assert_eq!(s.heartbeat_tick(CLIENT_TIMEOUT + 1), HeartbeatStep::TimedOut);
    assert_eq!(s.state, SessionState::TimedOut);
}

#[test]
fn close_frame_removes_entry_before_next_broadcast() {
    let mut reg: Registry<&str> = Registry::new();
    let mut a = active_session(1, 0);
    let mut b = active_session(2, 0);
    reg.connect(a.id, "to-a");
    reg.connect(b.id, "to-b");

    let reaction = a.handle_inbound(InboundEvent::Close, 3);
    assert!(matches!(reaction, Some(Action::Stop)));
    assert_eq!(a.state, SessionState::Closed);
    reg.disconnect(a.id);
    assert!(!reg.contains(a.id));

    let reaction = b.handle_inbound(InboundEvent::Text(String::from("anyone there?")), 4);
    let text = match reaction {
        Some(Action::Forward(t)) => t,
        _ => panic!("a text frame must be forwarded for broadcast"),
    };
    let deliveries = reg.fan_out(&text);
    let ids = ids_of(&deliveries);
    assert!(!ids.contains(&a.id), "no delivery is attempted to the closed session");
    assert_eq!(ids, vec![b.id]);
}

#[test]
fn concurrent_connects_yield_two_distinct_ids() {
    let a = active_session(1, 0);
    let b = active_session(2, 0);

    let mut first: Registry<&str> = Registry::new();
    first.connect(a.id, "to-a");
    first.connect(b.id, "to-b");
    assert_eq!(first.len(), 2);
    assert!(first.contains(a.id) && first.contains(b.id));

    let mut second: Registry<&str> = Registry::new();
    second.connect(b.id, "to-b");
    second.connect(a.id, "to-a");
    assert_eq!(second.len(), 2);
    assert!(second.contains(a.id) && second.contains(b.id));
}

#[test]
fn read_error_teardown_still_disconnects() {
    let mut reg: Registry<&str> = Registry::new();
    let mut a = active_session(1, 0);
    let mut b = active_session(2, 0);
    reg.connect(a.id, "to-a");
    reg.connect(b.id, "to-b");

    let reaction = a.handle_inbound(InboundEvent::ProtocolError, 7);
    assert!(matches!(reaction, Some(Action::Stop)));
    assert_eq!(a.state, SessionState::Closed);
    reg.disconnect(a.id);

    let reaction = b.handle_inbound(InboundEvent::Text(String::from("still here")), 8);
    let text = match reaction {
        Some(Action::Forward(t)) => t,
        _ => panic!("a text frame must be forwarded for broadcast"),
    };
    let ids = ids_of(&reg.fan_out(&text));
    assert!(!ids.contains(&a.id));
    assert_eq!(ids, vec![b.id]);
}

#[test]
fn text_refreshes_liveness_and_is_forwarded_verbatim() {
    let mut s = active_session(1, 0);
    let reaction = s.handle_inbound(InboundEvent::Text(String::from("payload")), 4);
    match reaction {
        Some(Action::Forward(t)) => assert_eq!(t, "payload"),
        _ => panic!("a text frame must be forwarded for broadcast"),
    }
    assert_eq!(s.last_activity, 4);
    assert_eq!(s.state, SessionState::Active);
}

#[test]
fn binary_is_echoed_back_unmodified() {
    let mut s = active_session(1, 0);
    let reaction = s.handle_inbound(InboundEvent::Binary(vec![0, 159, 146, 150]), 2);
    match reaction {
        Some(Action::EchoBinary(b)) => assert_eq!(b, vec![0, 159, 146, 150]),
        _ => panic!("a binary frame is echoed to the sender only"),
    }
    assert_eq!(s.last_activity, 2);
    assert_eq!(s.state, SessionState::Active);
}

#[test]
fn ping_is_answered_with_matching_pong() {
    let mut s = active_session(1, 0);
    let reaction = s.handle_inbound(InboundEvent::Ping(vec![1, 2, 3]), 6);
    match reaction {
        Some(Action::ReplyPong(p)) => assert_eq!(p, vec![1, 2, 3]),
        _ => panic!("a ping is answered with a pong"),
    }
    assert_eq!(s.last_activity, 6);
}

#[test]
fn pong_refreshes_liveness_only() {
    let mut s = active_session(1, 0);
    let reaction = s.handle_inbound(InboundEvent::Pong(vec![]), 9);
    assert!(reaction.is_none());
    assert_eq!(s.last_activity, 9);
    assert_eq!(s.state, SessionState::Active);
}

#[test]
fn nop_changes_nothing() {
    let mut s = active_session(1, 3);
    let reaction = s.handle_inbound(InboundEvent::Nop, 9);
    assert!(reaction.is_none());
    assert_eq!(s.last_activity, 3);
    assert_eq!(s.state, SessionState::Active);
}

#[test]
fn continuation_ends_the_session() {
    let mut s = active_session(1, 0);
    let reaction = s.handle_inbound(InboundEvent::Continuation, 2);
    assert!(matches!(reaction, Some(Action::Stop)));
    assert_eq!(s.state, SessionState::Closed);
}

#[test]
fn new_sessions_start_active_with_fresh_ids() {
    let a = Session::new(7);
    let b = Session::new(7);
    assert_eq!(a.state, SessionState::Active);
    assert_eq!(a.last_activity, 7);
    assert_ne!(a.id, b.id, "ids are drawn fresh per connection");
}
