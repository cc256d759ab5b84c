use chat_core::filter::should_deliver;
use chat_core::pump::{handle_schedule, ScheduleOutcome};
use chat_core::scheduler::{scheduler_tick, ScheduledStore};
use chat_core::store::MessageStore;

const TS: &str = "2024-01-01T00:00:10+00:00";

#[test]
fn due_row_promoted_within_one_tick_and_not_reselected() {
    let mut sched = ScheduledStore::new();
    let mut direct = MessageStore::new();
    let mut group = MessageStore::new();
    sched.insert("alice", Some("bob"), None, "later", 100);
    // not yet due
    let events = scheduler_tick(&mut sched, &mut direct, &mut group, 99, TS, 20);
    assert!(events.is_empty());
    assert!(!sched.row_at(0).sent);
    // due now: exactly one event, the row marked sent
    let events = scheduler_tick(&mut sched, &mut direct, &mut group, 100, TS, 20);
    assert_eq!(events.len(), 1);
    assert_eq!(events[0].sender_username, "alice");
    assert_eq!(events[0].receiver_username, "bob");
    assert_eq!(events[0].message, "later");
    assert!(sched.row_at(0).sent);
    assert_eq!(direct.len(), 1);
    // a second tick over the same table selects nothing
    let events = scheduler_tick(&mut sched, &mut direct, &mut group, 200, TS, 20);
    assert!(events.is_empty());
    assert_eq!(direct.len(), 1);
}

#[test]
fn group_target_persisted_and_published_as_group_event() {
    let mut sched = ScheduledStore::new();
    let mut direct = MessageStore::new();
    let mut group = MessageStore::new();
    sched.insert("alice", None, Some(7), "reminder", 50);
    let events = scheduler_tick(&mut sched, &mut direct, &mut group, 60, TS, 20);
    assert_eq!(events.len(), 1);
    assert_eq!(events[0].group_id, Some(7));
    assert_eq!(events[0].message, "reminder");
    assert_eq!(group.len(), 1);
    assert_eq!(group.row_at(0).body, "reminder");
    assert_eq!(direct.len(), 0);
}

#[test]
fn batch_bound_leaves_the_backlog_for_the_next_tick() {
    let mut sched = ScheduledStore::new();
    let mut direct = MessageStore::new();
    let mut group = MessageStore::new();
    for i in 0..5 {
        sched.insert("alice", Some("bob"), None, &format!("m{}", i), 10);
    }
    let events = scheduler_tick(&mut sched, &mut direct, &mut group, 10, TS, 3);
    assert_eq!(events.len(), 3);
    assert_eq!(events[0].message, "m0");
    assert_eq!(events[2].message, "m2");
    assert!(sched.row_at(0).sent && sched.row_at(2).sent);
    assert!(!sched.row_at(3).sent && !sched.row_at(4).sent);
    let events = scheduler_tick(&mut sched, &mut direct, &mut group, 10, TS, 3);
    assert_eq!(events.len(), 2);
    assert_eq!(events[0].message, "m3");
    assert_eq!(direct.len(), 5);
}

#[test]
fn row_without_target_is_marked_sent_without_event() {
    let mut sched = ScheduledStore::new();
    let mut direct = MessageStore::new();
    let mut group = MessageStore::new();
    sched.insert("alice", None, Some(0), "nowhere", 1);
    let events = scheduler_tick(&mut sched, &mut direct, &mut group, 5, TS, 20);
    assert!(events.is_empty());
    assert!(sched.row_at(0).sent);
    assert_eq!(direct.len(), 0);
    assert_eq!(group.len(), 0);
}

#[test]
fn schedule_ack_carries_the_resolved_epoch() {
    let mut sched = ScheduledStore::new();
    let now = 1_000;
    match handle_schedule(&mut sched, "A", None, Some(7), "reminder", None, Some(now + 2), now) {
        ScheduleOutcome::Accepted { scheduled_for_epoch, .. } => {
            assert_eq!(scheduled_for_epoch, now + 2);
        },
        ScheduleOutcome::MissingTarget => panic!("target was present"),
    }
    assert_eq!(sched.len(), 1);
    assert_eq!(sched.row_at(0).due_epoch, now + 2);
    assert!(!sched.row_at(0).sent);
}

#[test]
fn schedule_without_target_is_refused() {
    let mut sched = ScheduledStore::new();
    match handle_schedule(&mut sched, "A", None, None, "m", None, Some(5), 0) {
        ScheduleOutcome::MissingTarget => {},
        _ => panic!("a schedule without receiver or group must be refused"),
    }
    assert_eq!(sched.len(), 0);
}

#[test]
fn schedule_timestamp_parsed_when_no_epoch_given() {
    let mut sched = ScheduledStore::new();
    match handle_schedule(
        &mut sched,
        "A",
        Some("bob"),
        None,
        "m",
        Some("1970-01-01T00:02:00+00:00"),
        None,
        0,
    ) {
        ScheduleOutcome::Accepted { scheduled_for_epoch, .. } => {
            assert_eq!(scheduled_for_epoch, 120);
        },
        _ => panic!("expected acceptance"),
    }
}

#[test]
fn malformed_schedule_timestamp_falls_back_to_a_minute_out() {
    let mut sched = ScheduledStore::new();
    match handle_schedule(&mut sched, "A", Some("bob"), None, "m", Some("soonish"), None, 500) {
        ScheduleOutcome::Accepted { scheduled_for_epoch, .. } => {
            assert_eq!(scheduled_for_epoch, 560);
        },
        _ => panic!("expected acceptance"),
    }
}

#[test]
fn scheduled_group_message_reaches_members_after_tick() {
    // A schedules a reminder for group 7 two seconds out; after the due
    // time one tick stores it and publishes a Group event every member's
    // session accepts
    let mut sched = ScheduledStore::new();
    let mut direct = MessageStore::new();
    let mut group = MessageStore::new();
    let now = 1_000;
    match handle_schedule(&mut sched, "A", None, Some(7), "reminder", None, Some(now + 2), now) {
        ScheduleOutcome::Accepted { scheduled_for_epoch, .. } => {
            assert_eq!(scheduled_for_epoch, now + 2)
        },
        _ => panic!("expected acceptance"),
    }
    let events = scheduler_tick(&mut sched, &mut direct, &mut group, now + 3, TS, 20);
    assert_eq!(events.len(), 1);
    let e = &events[0];
    assert_eq!(e.group_id, Some(7));
    assert_eq!(e.message, "reminder");
    // delivered to members of group 7, not to non-members
    assert!(should_deliver(e, "member1", true));
    assert!(should_deliver(e, "member2", true));
    assert!(!should_deliver(e, "outsider", false));
}
