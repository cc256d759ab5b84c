//! The closed set of client commands. An inbound frame arrives as a bag
//! of optional fields under a type tag; decoding turns it into exactly
//! one command variant carrying the fields that kind requires, or nothing
//! for an unrecognized or incomplete frame, which the pump silently
//! ignores.

use vstd::prelude::*;
use crate::text::str_eq;

verus! {

/// The fields an inbound frame may carry, already parsed from the wire.
pub struct IncomingFields {
    pub message_type: String,
    pub receiver_username: Option<String>,
    pub message: Option<String>,
    pub message_id: Option<i64>,
    pub emoji: Option<String>,
    pub group_id: Option<i64>,
    pub target_username: Option<String>,
    pub sdp: Option<String>,
    pub candidate: Option<String>,
    pub scheduled_at: Option<String>,
    pub scheduled_at_epoch: Option<i64>,
    pub reveal_after_secs: Option<i64>,
    pub reveal_at: Option<String>,
    pub game_type: Option<String>,
    pub game_id: Option<i64>,
    pub game_move: Option<String>,
}

pub enum CallKind {
    Offer,
    Answer,
    Ice,
    End,
    NeedOffer,
}

pub enum GameKind {
    Create,
    Join,
    Move,
    State,
}

/// One decoded client command.
pub enum Command {
    ChatMessage {
        receiver: String,
        body: String,
        reveal_after_secs: Option<i64>,
        reveal_at: Option<String>,
    },
    GroupMessage {
        group_id: i64,
        body: String,
        reveal_after_secs: Option<i64>,
        reveal_at: Option<String>,
    },
    EditMessage { message_id: i64, new_body: String },
    DeleteMessage { message_id: i64 },
    ScheduleMessage {
        receiver: Option<String>,
        group_id: Option<i64>,
        body: String,
        scheduled_at: Option<String>,
        scheduled_at_epoch: Option<i64>,
    },
    AddReaction { message_id: i64, emoji: String },
    RemoveReaction { message_id: i64, emoji: String },
    PinMessage { message_id: i64 },
    UnpinMessage { message_id: i64 },
    GetReactions { message_id: i64 },
    GetPinnedMessages,
    GetConversation { receiver: String },
    GetGroupConversation { group_id: i64 },
    /// Call signaling, relayed whole to the addressed user.
    CallSignal { kind: CallKind, target: String, sdp: Option<String>, candidate: Option<String> },
    /// Game traffic, delegated whole to the game-engine collaborator.
    Game {
        kind: GameKind,
        game_type: Option<String>,
        game_id: Option<i64>,
        game_move: Option<String>,
        target: Option<String>,
        group_id: Option<i64>,
    },
}

/// What a frame decodes to: one command when the tag is known and the
/// fields that kind requires are present, nothing otherwise.
pub open spec fn spec_decode(f: IncomingFields) -> Option<Command> {
    let t = f.message_type@;
    if t == "chat_message"@ {
        if f.message is Some && f.receiver_username is Some {
            Some(
                Command::ChatMessage {
                    receiver: f.receiver_username->0,
                    body: f.message->0,
                    reveal_after_secs: f.reveal_after_secs,
                    reveal_at: f.reveal_at,
                },
            )
        } else {
            None
        }
    } else if t == "group_message"@ {
        if f.group_id is Some && f.message is Some {
            Some(
                Command::GroupMessage {
                    group_id: f.group_id->0,
                    body: f.message->0,
                    reveal_after_secs: f.reveal_after_secs,
                    reveal_at: f.reveal_at,
                },
            )
        } else {
            None
        }
    } else if t == "edit_message"@ {
        if f.message_id is Some && f.message is Some {
            Some(Command::EditMessage { message_id: f.message_id->0, new_body: f.message->0 })
        } else {
            None
        }
    } else if t == "delete_message"@ {
        if f.message_id is Some {
            Some(Command::DeleteMessage { message_id: f.message_id->0 })
        } else {
            None
        }
    } else if t == "schedule_message"@ {
        if f.message is Some {
            Some(
                Command::ScheduleMessage {
                    receiver: f.receiver_username,
                    group_id: f.group_id,
                    body: f.message->0,
                    scheduled_at: f.scheduled_at,
                    scheduled_at_epoch: f.scheduled_at_epoch,
                },
            )
        } else {
            None
        }
    } else if t == "add_reaction"@ {
        if f.message_id is Some && f.emoji is Some {
            Some(Command::AddReaction { message_id: f.message_id->0, emoji: f.emoji->0 })
        } else {
            None
        }
    } else if t == "remove_reaction"@ {
        if f.message_id is Some && f.emoji is Some {
            Some(Command::RemoveReaction { message_id: f.message_id->0, emoji: f.emoji->0 })
        } else {
            None
        }
    } else if t == "pin_message"@ {
        if f.message_id is Some {
            Some(Command::PinMessage { message_id: f.message_id->0 })
        } else {
            None
        }
    } else if t == "unpin_message"@ {
        if f.message_id is Some {
            Some(Command::UnpinMessage { message_id: f.message_id->0 })
        } else {
            None
        }
    } else if t == "get_reactions"@ {
        if f.message_id is Some {
            Some(Command::GetReactions { message_id: f.message_id->0 })
        } else {
            None
        }
    } else if t == "get_pinned_messages"@ {
        Some(Command::GetPinnedMessages)
    } else if t == "get_conversation"@ {
        if f.receiver_username is Some {
            Some(Command::GetConversation { receiver: f.receiver_username->0 })
        } else {
            None
        }
    } else if t == "get_group_conversation"@ {
        if f.group_id is Some {
            Some(Command::GetGroupConversation { group_id: f.group_id->0 })
        } else {
            None
        }
    } else if t == "call_offer"@ || t == "call_answer"@ || t == "call_ice"@ || t == "call_end"@
        || t == "call_need_offer"@ {
        if f.target_username is Some {
            Some(
                Command::CallSignal {
                    kind: if t == "call_offer"@ {
                        CallKind::Offer
                    } else if t == "call_answer"@ {
                        CallKind::Answer
                    } else if t == "call_ice"@ {
                        CallKind::Ice
                    } else if t == "call_end"@ {
                        CallKind::End
                    } else {
                        CallKind::NeedOffer
                    },
                    target: f.target_username->0,
                    sdp: f.sdp,
                    candidate: f.candidate,
                },
            )
        } else {
            None
        }
    } else if t == "create_game"@ {
        if f.game_type is Some {
            Some(
                Command::Game {
                    kind: GameKind::Create,
                    game_type: f.game_type,
                    game_id: f.game_id,
                    game_move: f.game_move,
                    target: f.target_username,
                    group_id: f.group_id,
                },
            )
        } else {
            None
        }
    } else if t == "join_game"@ {
        if f.game_id is Some {
            Some(
                Command::Game {
                    kind: GameKind::Join,
                    game_type: f.game_type,
                    game_id: f.game_id,
                    game_move: f.game_move,
                    target: f.target_username,
                    group_id: f.group_id,
                },
            )
        } else {
            None
        }
    } else if t == "game_move"@ {
        if f.game_id is Some && f.game_move is Some {
            Some(
                Command::Game {
                    kind: GameKind::Move,
                    game_type: f.game_type,
                    game_id: f.game_id,
                    game_move: f.game_move,
                    target: f.target_username,
                    group_id: f.group_id,
                },
            )
        } else {
            None
        }
    } else if t == "get_game_state"@ {
        if f.game_id is Some {
            Some(
                Command::Game {
                    kind: GameKind::State,
                    game_type: f.game_type,
                    game_id: f.game_id,
                    game_move: f.game_move,
                    target: f.target_username,
                    group_id: f.group_id,
                },
            )
        } else {
            None
        }
    } else {
        None
    }
}

/// Decode one inbound frame into a command, or nothing for a frame the
/// service ignores.
pub fn decode(f: IncomingFields) -> (r: Option<Command>)
    ensures
        r == spec_decode(f),
{
    let t = f.message_type;
    if str_eq(t.as_str(), "chat_message") {
        match (f.message, f.receiver_username) {
            (Some(body), Some(receiver)) => Some(
                Command::ChatMessage {
                    receiver,
                    body,
                    reveal_after_secs: f.reveal_after_secs,
                    reveal_at: f.reveal_at,
                },
            ),
            _ => None,
        }
    } else if str_eq(t.as_str(), "group_message") {
        match (f.group_id, f.message) {
            (Some(group_id), Some(body)) => Some(
                Command::GroupMessage {
                    group_id,
                    body,
                    reveal_after_secs: f.reveal_after_secs,
                    reveal_at: f.reveal_at,
                },
            ),
            _ => None,
        }
    } else if str_eq(t.as_str(), "edit_message") {
        match (f.message_id, f.message) {
            (Some(message_id), Some(new_body)) => Some(
                Command::EditMessage { message_id, new_body },
            ),
            _ => None,
        }
    } else if str_eq(t.as_str(), "delete_message") {
        match f.message_id {
            Some(message_id) => Some(Command::DeleteMessage { message_id }),
            None => None,
        }
    } else if str_eq(t.as_str(), "schedule_message") {
        match f.message {
            Some(body) => Some(
                Command::ScheduleMessage {
                    receiver: f.receiver_username,
                    group_id: f.group_id,
                    body,
                    scheduled_at: f.scheduled_at,
                    scheduled_at_epoch: f.scheduled_at_epoch,
                },
            ),
            None => None,
        }
    } else if str_eq(t.as_str(), "add_reaction") {
        match (f.message_id, f.emoji) {
            (Some(message_id), Some(emoji)) => Some(Command::AddReaction { message_id, emoji }),
            _ => None,
        }
    } else if str_eq(t.as_str(), "remove_reaction") {
        match (f.message_id, f.emoji) {
            (Some(message_id), Some(emoji)) => Some(Command::RemoveReaction { message_id, emoji }),
            _ => None,
        }
    } else if str_eq(t.as_str(), "pin_message") {
        match f.message_id {
            Some(message_id) => Some(Command::PinMessage { message_id }),
            None => None,
        }
    } else if str_eq(t.as_str(), "unpin_message") {
        match f.message_id {
            Some(message_id) => Some(Command::UnpinMessage { message_id }),
            None => None,
        }
    } else if str_eq(t.as_str(), "get_reactions") {
        match f.message_id {
            Some(message_id) => Some(Command::GetReactions { message_id }),
            None => None,
        }
    } else if str_eq(t.as_str(), "get_pinned_messages") {
        Some(Command::GetPinnedMessages)
    } else if str_eq(t.as_str(), "get_conversation") {
        match f.receiver_username {
            Some(receiver) => Some(Command::GetConversation { receiver }),
            None => None,
        }
    } else if str_eq(t.as_str(), "get_group_conversation") {
        match f.group_id {
            Some(group_id) => Some(Command::GetGroupConversation { group_id }),
            None => None,
        }
    } else if str_eq(t.as_str(), "call_offer") || str_eq(t.as_str(), "call_answer") || str_eq(
        t.as_str(),
        "call_ice",
    ) || str_eq(t.as_str(), "call_end") || str_eq(t.as_str(), "call_need_offer") {
        let kind = if str_eq(t.as_str(), "call_offer") {
            CallKind::Offer
        } else if str_eq(t.as_str(), "call_answer") {
            CallKind::Answer
        } else if str_eq(t.as_str(), "call_ice") {
            CallKind::Ice
        } else if str_eq(t.as_str(), "call_end") {
            CallKind::End
        } else {
            CallKind::NeedOffer
        };
        match f.target_username {
            Some(target) => Some(
                Command::CallSignal { kind, target, sdp: f.sdp, candidate: f.candidate },
            ),
            None => None,
        }
    } else if str_eq(t.as_str(), "create_game") {
        if f.game_type.is_some() {
            Some(
                Command::Game {
                    kind: GameKind::Create,
                    game_type: f.game_type,
                    game_id: f.game_id,
                    game_move: f.game_move,
                    target: f.target_username,
                    group_id: f.group_id,
                },
            )
        } else {
            None
        }
    } else if str_eq(t.as_str(), "join_game") {
        if f.game_id.is_some() {
            Some(
                Command::Game {
                    kind: GameKind::Join,
                    game_type: f.game_type,
                    game_id: f.game_id,
                    game_move: f.game_move,
                    target: f.target_username,
                    group_id: f.group_id,
                },
            )
        } else {
            None
        }
    } else if str_eq(t.as_str(), "game_move") {
        if f.game_id.is_some() && f.game_move.is_some() {
            Some(
                Command::Game {
                    kind: GameKind::Move,
                    game_type: f.game_type,
                    game_id: f.game_id,
                    game_move: f.game_move,
                    target: f.target_username,
                    group_id: f.group_id,
                },
            )
        } else {
            None
        }
    } else if str_eq(t.as_str(), "get_game_state") {
        if f.game_id.is_some() {
            Some(
                Command::Game {
                    kind: GameKind::State,
                    game_type: f.game_type,
                    game_id: f.game_id,
                    game_move: f.game_move,
                    target: f.target_username,
                    group_id: f.group_id,
                },
            )
        } else {
            None
        }
    } else {
        None
    }
}

} // verus!
