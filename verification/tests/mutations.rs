use chat_core::history::{conversation_history, group_history};
use chat_core::pump::{handle_delete, handle_edit, patch_event, PatchKind};
use chat_core::reaction::{PinStore, ReactionStore};
use chat_core::store::MessageStore;

const TS: &str = "2024-01-01T00:00:00+00:00";

fn stores_with_one_direct_message() -> (MessageStore, MessageStore, i64) {
    let mut direct = MessageStore::new();
    let group = MessageStore::new();
    let id = direct.insert(None, "alice", "bob", "original", TS, None);
    (direct, group, id)
}

#[test]
fn edit_by_sender_rewrites_body_and_reports_patch() {
    let (mut direct, mut group, id) = stores_with_one_direct_message();
    let notice = handle_edit(&mut direct, &mut group, "alice", id, "fixed", "2024-01-02T00:00:00+00:00")
        .expect("owner edit succeeds");
    assert!(matches!(notice.kind, PatchKind::Edited));
    assert_eq!(notice.message_id, id);
    assert!(!notice.group);
    assert_eq!(notice.new_body, "fixed");
    assert_eq!(notice.actor, "alice");
    let row = direct.row_at(0);
    assert_eq!(row.body, "fixed");
    assert_eq!(row.edited_at.as_deref(), Some("2024-01-02T00:00:00+00:00"));
}

#[test]
fn edit_by_non_sender_changes_nothing_and_publishes_nothing() {
    let (mut direct, mut group, id) = stores_with_one_direct_message();
    let notice = handle_edit(&mut direct, &mut group, "mallory", id, "hacked", TS);
    assert!(notice.is_none());
    let row = direct.row_at(0);
    assert_eq!(row.body, "original");
    assert!(row.edited_at.is_none());
}

#[test]
fn delete_keeps_row_and_second_delete_is_noop() {
    let (mut direct, mut group, id) = stores_with_one_direct_message();
    let notice = handle_delete(&mut direct, &mut group, "alice", id, TS).expect("owner delete");
    assert!(matches!(notice.kind, PatchKind::Deleted));
    assert!(!notice.group);
    // the row is retained, marked deleted, its body untouched in storage
    assert_eq!(direct.len(), 1);
    let row = direct.row_at(0);
    assert!(row.deleted);
    assert_eq!(row.body, "original");
    // a second delete finds no editable row and publishes nothing
    let again = handle_delete(&mut direct, &mut group, "alice", id, TS);
    assert!(again.is_none());
}

#[test]
fn delete_by_non_sender_is_refused() {
    let (mut direct, mut group, id) = stores_with_one_direct_message();
    assert!(handle_delete(&mut direct, &mut group, "mallory", id, TS).is_none());
    assert!(!direct.row_at(0).deleted);
}

#[test]
fn history_renders_placeholder_for_deleted_row() {
    let (mut direct, mut group, id) = stores_with_one_direct_message();
    handle_delete(&mut direct, &mut group, "alice", id, TS).expect("owner delete");
    let reactions = ReactionStore::new();
    let history = conversation_history(&direct, &reactions, "alice", "bob", 50);
    assert_eq!(history.len(), 1);
    assert_eq!(history[0].message, "Message recalled by sender");
}

#[test]
fn history_marks_edited_rows() {
    let (mut direct, mut group, id) = stores_with_one_direct_message();
    handle_edit(&mut direct, &mut group, "alice", id, "fixed", TS).expect("owner edit");
    let reactions = ReactionStore::new();
    let history = conversation_history(&direct, &reactions, "bob", "alice", 50);
    assert_eq!(history.len(), 1);
    assert_eq!(history[0].message, "fixed (edited)");
}

#[test]
fn history_matches_participants_case_insensitively_and_truncates() {
    let mut direct = MessageStore::new();
    for i in 0..4 {
        direct.insert(None, "Alice", "BOB", &format!("m{}", i), TS, None);
    }
    direct.insert(None, "alice", "carol", "other", TS, None);
    let reactions = ReactionStore::new();
    let history = conversation_history(&direct, &reactions, "bob", "ALICE", 3);
    // the last three of the four matching rows, oldest first
    assert_eq!(history.len(), 3);
    assert_eq!(history[0].message, "m1");
    assert_eq!(history[2].message, "m3");
}

#[test]
fn history_attaches_recorded_reactions() {
    let mut direct = MessageStore::new();
    let id = direct.insert(None, "alice", "bob", "hello", TS, None);
    let other = direct.insert(None, "alice", "bob", "again", TS, None);
    let mut reactions = ReactionStore::new();
    reactions.add(id, "bob", "+1");
    reactions.add(id, "carol", "eyes");
    reactions.add(other + 100, "dave", "x");
    let history = conversation_history(&direct, &reactions, "alice", "bob", 50);
    assert_eq!(history.len(), 2);
    assert_eq!(
        history[0].reactions,
        vec![("bob".to_string(), "+1".to_string()), ("carol".to_string(), "eyes".to_string())]
    );
    assert!(history[1].reactions.is_empty());
}

#[test]
fn history_with_zero_limit_is_empty() {
    let mut direct = MessageStore::new();
    direct.insert(None, "alice", "bob", "hello", TS, None);
    let reactions = ReactionStore::new();
    assert!(conversation_history(&direct, &reactions, "alice", "bob", 0).is_empty());
    let mut group = MessageStore::new();
    group.insert(Some(7), "alice", "", "x", TS, None);
    assert!(group_history(&group, 7, false, 0).is_empty());
}

#[test]
fn group_edit_found_after_direct_miss() {
    let mut direct = MessageStore::new();
    let mut group = MessageStore::new();
    let gid_row = group.insert(Some(7), "alice", "", "in group", TS, None);
    let notice = handle_edit(&mut direct, &mut group, "alice", gid_row, "edited", TS)
        .expect("group edit succeeds");
    assert!(notice.group);
    assert_eq!(group.row_at(0).body, "edited");
}

#[test]
fn group_history_masks_sender_under_ghost_mode() {
    let mut group = MessageStore::new();
    group.insert(Some(7), "alice", "", "one", TS, None);
    group.insert(Some(8), "dave", "", "elsewhere", TS, None);
    group.insert(Some(7), "bob", "", "two", TS, None);
    let masked = group_history(&group, 7, true, 50);
    assert_eq!(masked.len(), 2);
    assert_eq!(masked[0].sender_username, "Anonymous");
    assert_eq!(masked[1].sender_username, "Anonymous");
    assert_eq!(masked[0].message, "one");
    assert_eq!(masked[1].message, "two");
    let plain = group_history(&group, 7, false, 50);
    assert_eq!(plain[0].sender_username, "alice");
    assert_eq!(plain[1].sender_username, "bob");
}

#[test]
fn patch_event_addressed_back_to_actor() {
    let (mut direct, mut group, id) = stores_with_one_direct_message();
    let notice = handle_edit(&mut direct, &mut group, "alice", id, "fixed", TS).unwrap();
    let event = patch_event(&notice, "{\"type\":\"message_edited\"}".to_string());
    assert_eq!(event.sender_username, "system");
    assert_eq!(event.receiver_username, "alice");
    assert!(event.group_id.is_none());
    // only the actor's own sessions accept it
    assert!(chat_core::filter::should_deliver(&event, "alice", false));
    assert!(!chat_core::filter::should_deliver(&event, "bob", false));
}

#[test]
fn reactions_are_recorded_once_per_user_and_emoji() {
    let mut reactions = ReactionStore::new();
    assert!(reactions.add(1, "alice", "+1"));
    assert!(!reactions.add(1, "alice", "+1"));
    assert!(reactions.add(1, "alice", "eyes"));
    assert!(reactions.add(1, "bob", "+1"));
    let pairs = reactions.reactions_for(1);
    assert_eq!(pairs.len(), 3);
    assert_eq!(pairs[0], ("alice".to_string(), "+1".to_string()));
    assert_eq!(pairs[2], ("bob".to_string(), "+1".to_string()));
    assert!(reactions.remove(1, "alice", "+1"));
    assert!(!reactions.remove(1, "alice", "+1"));
    assert_eq!(reactions.reactions_for(1).len(), 2);
}

#[test]
fn pins_are_unique_per_message_and_listed_newest_first() {
    let mut pins = PinStore::new();
    assert!(pins.pin(1, "alice", "2024-01-01T00:00:00+00:00"));
    assert!(pins.pin(2, "bob", "2024-03-01T00:00:00+00:00"));
    assert!(pins.pin(3, "carol", "2024-02-01T00:00:00+00:00"));
    // a second pin of the same message is ignored
    assert!(!pins.pin(2, "dave", "2024-04-01T00:00:00+00:00"));
    let listed = pins.pins_desc();
    assert_eq!(listed.len(), 3);
    assert_eq!(listed[0].message_id, 2);
    assert_eq!(listed[1].message_id, 3);
    assert_eq!(listed[2].message_id, 1);
    assert!(pins.unpin(2));
    assert!(!pins.unpin(2));
    assert_eq!(pins.len(), 2);
}
