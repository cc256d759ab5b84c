use chat_core::command::{decode, CallKind, Command, GameKind, IncomingFields};

fn frame(message_type: &str) -> IncomingFields {
    IncomingFields {
        message_type: message_type.to_string(),
        receiver_username: None,
        message: None,
        message_id: None,
        emoji: None,
        group_id: None,
        target_username: None,
        sdp: None,
        candidate: None,
        scheduled_at: None,
        scheduled_at_epoch: None,
        reveal_after_secs: None,
        reveal_at: None,
        game_type: None,
        game_id: None,
        game_move: None,
    }
}

#[test]
fn chat_message_decodes_with_its_fields() {
    let mut f = frame("chat_message");
    f.receiver_username = Some("B".to_string());
    f.message = Some("hi".to_string());
    match decode(f) {
        Some(Command::ChatMessage { receiver, body, reveal_after_secs, reveal_at }) => {
            assert_eq!(receiver, "B");
            assert_eq!(body, "hi");
            assert!(reveal_after_secs.is_none());
            assert!(reveal_at.is_none());
        },
        _ => panic!("expected a chat command"),
    }
}

#[test]
fn chat_message_without_receiver_is_ignored() {
    let mut f = frame("chat_message");
    f.message = Some("hi".to_string());
    assert!(decode(f).is_none());
}

#[test]
fn group_message_decodes() {
    let mut f = frame("group_message");
    f.group_id = Some(7);
    f.message = Some("hello".to_string());
    f.reveal_after_secs = Some(30);
    match decode(f) {
        Some(Command::GroupMessage { group_id, body, reveal_after_secs, .. }) => {
            assert_eq!(group_id, 7);
            assert_eq!(body, "hello");
            assert_eq!(reveal_after_secs, Some(30));
        },
        _ => panic!("expected a group command"),
    }
}

#[test]
fn edit_and_delete_decode() {
    let mut f = frame("edit_message");
    f.message_id = Some(4);
    f.message = Some("fixed".to_string());
    match decode(f) {
        Some(Command::EditMessage { message_id, new_body }) => {
            assert_eq!(message_id, 4);
            assert_eq!(new_body, "fixed");
        },
        _ => panic!("expected an edit command"),
    }
    let mut f = frame("delete_message");
    f.message_id = Some(4);
    assert!(matches!(decode(f), Some(Command::DeleteMessage { message_id: 4 })));
    // without an id both are ignored
    assert!(decode(frame("edit_message")).is_none());
    assert!(decode(frame("delete_message")).is_none());
}

#[test]
fn schedule_message_keeps_optional_target_fields() {
    let mut f = frame("schedule_message");
    f.message = Some("reminder".to_string());
    f.group_id = Some(7);
    f.scheduled_at_epoch = Some(123);
    match decode(f) {
        Some(Command::ScheduleMessage { receiver, group_id, body, scheduled_at_epoch, .. }) => {
            assert!(receiver.is_none());
            assert_eq!(group_id, Some(7));
            assert_eq!(body, "reminder");
            assert_eq!(scheduled_at_epoch, Some(123));
        },
        _ => panic!("expected a schedule command"),
    }
    assert!(decode(frame("schedule_message")).is_none());
}

#[test]
fn reactions_and_pins_decode() {
    let mut f = frame("add_reaction");
    f.message_id = Some(9);
    f.emoji = Some("+1".to_string());
    assert!(matches!(decode(f), Some(Command::AddReaction { message_id: 9, .. })));
    let mut f = frame("remove_reaction");
    f.message_id = Some(9);
    f.emoji = Some("+1".to_string());
    assert!(matches!(decode(f), Some(Command::RemoveReaction { .. })));
    let mut f = frame("pin_message");
    f.message_id = Some(9);
    assert!(matches!(decode(f), Some(Command::PinMessage { message_id: 9 })));
    let mut f = frame("unpin_message");
    f.message_id = Some(9);
    assert!(matches!(decode(f), Some(Command::UnpinMessage { message_id: 9 })));
    let mut f = frame("get_reactions");
    f.message_id = Some(9);
    assert!(matches!(decode(f), Some(Command::GetReactions { message_id: 9 })));
    assert!(matches!(decode(frame("get_pinned_messages")), Some(Command::GetPinnedMessages)));
}

#[test]
fn history_fetches_decode() {
    let mut f = frame("get_conversation");
    f.receiver_username = Some("bob".to_string());
    match decode(f) {
        Some(Command::GetConversation { receiver }) => assert_eq!(receiver, "bob"),
        _ => panic!("expected a conversation fetch"),
    }
    let mut f = frame("get_group_conversation");
    f.group_id = Some(7);
    assert!(matches!(decode(f), Some(Command::GetGroupConversation { group_id: 7 })));
}

#[test]
fn call_signaling_decodes_each_kind() {
    for (tag, want_offer) in [("call_offer", true), ("call_end", false)] {
        let mut f = frame(tag);
        f.target_username = Some("bob".to_string());
        f.sdp = Some("v=0".to_string());
        match decode(f) {
            Some(Command::CallSignal { kind, target, sdp, .. }) => {
                assert_eq!(target, "bob");
                assert_eq!(sdp.as_deref(), Some("v=0"));
                if want_offer {
                    assert!(matches!(kind, CallKind::Offer));
                } else {
                    assert!(matches!(kind, CallKind::End));
                }
            },
            _ => panic!("expected a call command"),
        }
    }
    // a signal without a target is dropped
    assert!(decode(frame("call_ice")).is_none());
}

#[test]
fn game_frames_are_delegated_whole() {
    let mut f = frame("create_game");
    f.game_type = Some("chess".to_string());
    f.group_id = Some(7);
    match decode(f) {
        Some(Command::Game { kind, game_type, group_id, .. }) => {
            assert!(matches!(kind, GameKind::Create));
            assert_eq!(game_type.as_deref(), Some("chess"));
            assert_eq!(group_id, Some(7));
        },
        _ => panic!("expected a game command"),
    }
    let mut f = frame("game_move");
    f.game_id = Some(3);
    f.game_move = Some("e2e4".to_string());
    assert!(matches!(decode(f), Some(Command::Game { kind: GameKind::Move, .. })));
    // moves without the move payload are ignored
    let mut f = frame("game_move");
    f.game_id = Some(3);
    assert!(decode(f).is_none());
}

#[test]
fn unknown_frame_types_are_ignored() {
    assert!(decode(frame("make_coffee")).is_none());
    assert!(decode(frame("")).is_none());
}
