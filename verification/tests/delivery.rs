use chat_core::bus::{Bus, RecvOutcome};
use chat_core::event::ChatMessage;
use chat_core::filter::{mask_for_delivery, outbound_step, should_deliver};
use chat_core::pump::handle_chat_message;
use chat_core::store::MessageStore;

fn direct(sender: &str, receiver: &str, body: &str) -> ChatMessage {
    ChatMessage {
        id: 1,
        group_id: None,
        sender_username: sender.to_string(),
        receiver_username: receiver.to_string(),
        message: body.to_string(),
        timestamp: "2024-01-01T00:00:00+00:00".to_string(),
        reactions: Vec::new(),
        reveal_at: None,
    }
}

fn group(group_id: i64, sender: &str, body: &str) -> ChatMessage {
    ChatMessage {
        id: 2,
        group_id: Some(group_id),
        sender_username: sender.to_string(),
        receiver_username: String::new(),
        message: body.to_string(),
        timestamp: "2024-01-01T00:00:00+00:00".to_string(),
        reactions: Vec::new(),
        reveal_at: None,
    }
}

#[test]
fn group_event_delivered_iff_member() {
    let e = group(7, "alice", "hello");
    assert!(should_deliver(&e, "bob", true));
    assert!(!should_deliver(&e, "bob", false));
    // the sender herself is filtered by membership too
    assert!(should_deliver(&e, "alice", true));
    assert!(!should_deliver(&e, "alice", false));
}

#[test]
fn membership_change_takes_effect_between_events() {
    let e1 = group(7, "alice", "first");
    let e2 = group(7, "alice", "second");
    // bob was a member for the first event, then left before the second
    assert!(should_deliver(&e1, "bob", true));
    assert!(!should_deliver(&e2, "bob", false));
}

#[test]
fn two_sessions_same_username_both_receive_direct() {
    let e = direct("alice", "bob", "hi");
    // two simultaneous sessions under "bob": both accept, whatever their
    // membership answers happen to be
    assert!(should_deliver(&e, "bob", false));
    assert!(should_deliver(&e, "bob", true));
    // the receiver matches case-insensitively
    assert!(should_deliver(&e, "BOB", false));
    // the sender's own sessions receive the echo as well
    assert!(should_deliver(&e, "alice", false));
    // an unrelated session does not
    assert!(!should_deliver(&e, "carol", false));
}

#[test]
fn system_events_reach_only_the_addressed_receiver() {
    let e = direct("system", "bob", "{\"type\":\"call_offer\"}");
    assert!(should_deliver(&e, "bob", false));
    assert!(should_deliver(&e, "Bob", false));
    // unlike an ordinary direct message, the reserved sender matches nobody
    assert!(!should_deliver(&e, "system", false));
    assert!(!should_deliver(&e, "carol", false));
}

#[test]
fn ghost_mode_masks_sender_for_every_recipient() {
    let e = group(7, "alice", "secret");
    let masked = mask_for_delivery(&e, true);
    assert_eq!(masked.sender_username, "Anonymous");
    assert_eq!(masked.message, "secret");
    assert_eq!(masked.group_id, Some(7));
    // without ghost mode the sender is shown
    let plain = mask_for_delivery(&e, false);
    assert_eq!(plain.sender_username, "alice");
    // a direct message is never masked
    let d = direct("alice", "bob", "hi");
    let d2 = mask_for_delivery(&d, true);
    assert_eq!(d2.sender_username, "alice");
}

#[test]
fn outbound_step_filters_then_masks() {
    let e = group(7, "alice", "x");
    let delivered = outbound_step(&e, "bob", true, true).expect("member receives");
    assert_eq!(delivered.sender_username, "Anonymous");
    assert!(outbound_step(&e, "bob", false, true).is_none());
}

#[test]
fn chat_message_stored_then_delivered_to_receiver_not_bystander() {
    // A sends {"type":"chat_message","receiver_username":"B","message":"hi"}
    let mut store = MessageStore::new();
    let event = handle_chat_message(&mut store, "A", "B", "hi", "2024-01-01T00:00:00+00:00", None);
    assert_eq!(store.len(), 1);
    let row = store.row_at(0);
    assert_eq!(row.sender, "A");
    assert_eq!(row.receiver, "B");
    assert_eq!(row.body, "hi");
    assert_eq!(event.id, row.id);
    assert_eq!(event.sender_username, "A");
    assert_eq!(event.receiver_username, "B");
    assert_eq!(event.message, "hi");
    // any session for B accepts it; an unrelated session C does not
    assert!(should_deliver(&event, "B", false));
    assert!(should_deliver(&event, "b", false));
    assert!(!should_deliver(&event, "C", false));
}

#[test]
fn bus_preserves_publish_order_per_subscriber() {
    let mut bus = Bus::new(16);
    let mut reader = bus.subscribe();
    bus.publish(direct("alice", "bob", "one"));
    bus.publish(direct("alice", "bob", "two"));
    match reader.recv(&bus) {
        RecvOutcome::Event(e) => assert_eq!(e.message, "one"),
        _ => panic!("expected first event"),
    }
    match reader.recv(&bus) {
        RecvOutcome::Event(e) => assert_eq!(e.message, "two"),
        _ => panic!("expected second event"),
    }
    assert!(matches!(reader.recv(&bus), RecvOutcome::Pending));
}

#[test]
fn late_subscriber_misses_earlier_events() {
    let mut bus = Bus::new(16);
    bus.publish(direct("alice", "bob", "early"));
    let mut reader = bus.subscribe();
    assert!(matches!(reader.recv(&bus), RecvOutcome::Pending));
    bus.publish(direct("alice", "bob", "late"));
    match reader.recv(&bus) {
        RecvOutcome::Event(e) => assert_eq!(e.message, "late"),
        _ => panic!("expected the late event"),
    }
}

#[test]
fn membership_change_mid_stream_end_to_end() {
    // bob's session subscribes, then receives group events through the
    // full outbound path while his membership changes between events
    let mut bus = Bus::new(16);
    let mut reader = bus.subscribe();
    bus.publish(group(7, "alice", "while member"));
    bus.publish(group(7, "alice", "after leaving"));
    let mut membership = [true, false].into_iter();
    let mut delivered = Vec::new();
    loop {
        match reader.recv(&bus) {
            RecvOutcome::Event(e) => {
                let is_member = membership.next().unwrap();
                if let Some(m) = outbound_step(&e, "bob", is_member, false) {
                    delivered.push(m.message);
                }
            },
            RecvOutcome::Lagged => continue,
            RecvOutcome::Pending => break,
        }
    }
    assert_eq!(delivered, vec!["while member".to_string()]);
}

#[test]
fn lagged_subscriber_skips_to_retained_window() {
    let mut bus = Bus::new(2);
    let mut reader = bus.subscribe();
    bus.publish(direct("a", "b", "1"));
    bus.publish(direct("a", "b", "2"));
    bus.publish(direct("a", "b", "3"));
    // capacity 2: event "1" fell off the window before the reader caught up
    assert!(matches!(reader.recv(&bus), RecvOutcome::Lagged));
    match reader.recv(&bus) {
        RecvOutcome::Event(e) => assert_eq!(e.message, "2"),
        _ => panic!("expected the oldest retained event"),
    }
    match reader.recv(&bus) {
        RecvOutcome::Event(e) => assert_eq!(e.message, "3"),
        _ => panic!("expected the newest event"),
    }
}
