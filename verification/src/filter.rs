//! The delivery decision and ghost-mode masking applied by every outbound
//! pump to every event taken from the bus.

use vstd::prelude::*;
use crate::event::{ChatMessage, EventView};
use crate::text::{eq_ignore_case, eq_ignore_case_spec, str_eq};

verus! {

/// The reserved sender identity for control notices; never a real username.
pub open spec fn system_sender() -> Seq<char> {
    "system"@
}

/// The fixed label shown in place of the true sender for ghost-mode groups.
pub open spec fn anonymous_label() -> Seq<char> {
    "Anonymous"@
}

/// Whether a session owned by `username` accepts the event, given the
/// membership oracle's answer `is_member` for the event's group (the answer
/// is irrelevant for non-group events):
/// - a group event is accepted exactly when the user is a member at the
///   moment of delivery;
/// - a control notice (reserved system sender) is accepted exactly by the
///   addressed receiver, case-insensitively;
/// - any other event is a direct message, accepted by sender and receiver
///   alike, case-insensitively.
pub open spec fn spec_should_deliver(m: EventView, username: Seq<char>, is_member: bool) -> bool {
    match m.group_id {
        Some(_) => is_member,
        None => {
            if m.sender == system_sender() {
                eq_ignore_case_spec(m.receiver, username)
            } else {
                eq_ignore_case_spec(m.sender, username) || eq_ignore_case_spec(
                    m.receiver,
                    username,
                )
            }
        },
    }
}

pub fn should_deliver(m: &ChatMessage, username: &str, is_member: bool) -> (r: bool)
    ensures
        r == spec_should_deliver(m@, username@, is_member),
{
    match m.group_id {
        Some(_) => is_member,
        None => {
            if str_eq(m.sender_username.as_str(), "system") {
                eq_ignore_case(m.receiver_username.as_str(), username)
            } else {
                eq_ignore_case(m.sender_username.as_str(), username) || eq_ignore_case(
                    m.receiver_username.as_str(),
                    username,
                )
            }
        },
    }
}

/// The event as the recipient sees it: for a group event of a ghost-mode
/// group the sender identity is replaced by the fixed anonymous label;
/// everything else is unchanged. The stored sender is never altered.
pub open spec fn spec_masked(m: EventView, ghost_mode: bool) -> EventView {
    if m.group_id is Some && ghost_mode {
        EventView { sender: anonymous_label(), ..m }
    } else {
        m
    }
}

pub fn mask_for_delivery(m: &ChatMessage, ghost_mode: bool) -> (r: ChatMessage)
    ensures
        r@ == spec_masked(m@, ghost_mode),
{
    let mut r = m.clone();
    if r.group_id.is_some() && ghost_mode {
        r.sender_username = anonymous_string();
    }
    r
}

/// The fixed anonymous sender label as an owned string.
pub fn anonymous_string() -> (r: String)
    ensures
        r@ == anonymous_label(),
{
    let r = String::from_str("Anonymous");
    r
}

/// One step of the outbound pump: given the membership oracle's answer and
/// the group's ghost flag, either the masked copy to write to the client,
/// or nothing.
pub fn outbound_step(m: &ChatMessage, username: &str, is_member: bool, ghost_mode: bool) -> (r:
    Option<ChatMessage>)
    ensures
        r is Some <==> spec_should_deliver(m@, username@, is_member),
        r matches Some(e) ==> e@ == spec_masked(m@, ghost_mode),
{
    if should_deliver(m, username, is_member) {
        Some(mask_for_delivery(m, ghost_mode))
    } else {
        None
    }
}

/// Law: a group event is delivered to a session exactly when its user is a
/// member of the group at the instant of delivery, whoever the user is and
/// whatever the session's other state.
pub proof fn group_delivery_iff_member(m: EventView, username: Seq<char>, is_member: bool)
    requires
        m.group_id is Some,
    ensures
        spec_should_deliver(m, username, is_member) == is_member,
{
}

/// Law: every session whose username matches the addressed receiver of a
/// direct message accepts it; in particular two simultaneous sessions under
/// the same username both receive it.
pub proof fn direct_reaches_all_sessions_of_receiver(
    m: EventView,
    username1: Seq<char>,
    username2: Seq<char>,
    member1: bool,
    member2: bool,
)
    requires
        m.group_id is None,
        eq_ignore_case_spec(m.receiver, username1),
        eq_ignore_case_spec(m.receiver, username2),
    ensures
        spec_should_deliver(m, username1, member1),
        spec_should_deliver(m, username2, member2),
{
}

/// Law: every delivered copy of a group event of a ghost-mode group shows
/// the fixed anonymous label, for every recipient, regardless of the true
/// sender; and the unmasked fields are untouched.
pub proof fn ghost_mode_masks_every_copy(m: EventView)
    requires
        m.group_id is Some,
    ensures
        spec_masked(m, true).sender == anonymous_label(),
        spec_masked(m, true).body == m.body,
        spec_masked(m, true).group_id == m.group_id,
        spec_masked(m, true).receiver == m.receiver,
        spec_masked(m, true).id == m.id,
        spec_masked(m, true).timestamp == m.timestamp,
{
}

} // verus!
