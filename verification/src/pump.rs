//! Inbound command handling: each function turns one decoded client
//! command into storage effects and the events to publish. The half of the
//! pump that reads frames and writes sockets lives outside the library;
//! everything it decides is here.

use vstd::prelude::*;
use vstd::string::*;
use crate::clock::{
    epoch_to_rfc3339_millis, parse_rfc3339_epoch, rfc3339_epoch_of, rfc3339_millis_of_epoch,
    rfc3339_renderable,
};
use crate::event::{ChatMessage, EventView};
use crate::scheduler::{ScheduledStore, ScheduledView};
use crate::store::{MessageStore, RowView, spec_any_owner_match, spec_delete, spec_edit};
use crate::registry::Session;

verus! {

/// What kind of mutation a patch notice reports.
pub enum PatchKind {
    Edited,
    Deleted,
}

/// A lightweight notice describing a mutation of an already-delivered
/// message. It is addressed back to the acting user: only the actor's own
/// sessions receive it under the delivery rules.
pub struct PatchNotice {
    pub kind: PatchKind,
    pub message_id: i64,
    /// Whether the mutated row was found in the group table rather than
    /// the direct table.
    pub group: bool,
    /// The new body, for an edit.
    pub new_body: String,
    /// The acting user, to whom the notice is addressed.
    pub actor: String,
    pub timestamp: String,
}

/// Store a direct message and return the event to publish for it.
pub fn handle_chat_message(
    store: &mut MessageStore,
    sender: &str,
    receiver: &str,
    body: &str,
    timestamp: &str,
    reveal_at: Option<&str>,
) -> (r: ChatMessage)
    requires
        old(store).wf(),
        old(store).spec_next_id() < i64::MAX,
    ensures
        final(store).wf(),
        final(store)@ == old(store)@.push(
            RowView {
                id: old(store).spec_next_id(),
                group_id: None,
                sender: sender@,
                receiver: receiver@,
                body: body@,
                timestamp: timestamp@,
                deleted: false,
                edited_at: None,
                reveal_at: match reveal_at {
                    Some(t) => Some(t@),
                    None => None,
                },
            },
        ),
        r@ == (EventView {
            id: old(store).spec_next_id(),
            group_id: None,
            sender: sender@,
            receiver: receiver@,
            body: body@,
            timestamp: timestamp@,
            reactions: Seq::empty(),
            reveal_at: match reveal_at {
                Some(t) => Some(t@),
                None => None,
            },
        }),
{
    let id = store.insert(None, sender, receiver, body, timestamp, reveal_at);
    let r = ChatMessage {
        id,
        group_id: None,
        sender_username: sender.to_owned(),
        receiver_username: receiver.to_owned(),
        message: body.to_owned(),
        timestamp: timestamp.to_owned(),
        reactions: Vec::new(),
        reveal_at: match reveal_at {
            Some(t) => Some(t.to_owned()),
            None => None,
        },
    };
    proof {
        assert(r@ =~= (EventView {
            id: old(store).spec_next_id(),
            group_id: None,
            sender: sender@,
            receiver: receiver@,
            body: body@,
            timestamp: timestamp@,
            reactions: Seq::empty(),
            reveal_at: match reveal_at {
                Some(t) => Some(t@),
                None => None,
            },
        }));
    }
    r
}

/// Store a group message and return the event to publish for it. The
/// event's receiver is empty: routing is by membership alone.
pub fn handle_group_message(
    store: &mut MessageStore,
    group_id: i64,
    sender: &str,
    body: &str,
    timestamp: &str,
    reveal_at: Option<&str>,
) -> (r: ChatMessage)
    requires
        old(store).wf(),
        old(store).spec_next_id() < i64::MAX,
    ensures
        final(store).wf(),
        final(store)@ == old(store)@.push(
            RowView {
                id: old(store).spec_next_id(),
                group_id: Some(group_id as int),
                sender: sender@,
                receiver: ""@,
                body: body@,
                timestamp: timestamp@,
                deleted: false,
                edited_at: None,
                reveal_at: match reveal_at {
                    Some(t) => Some(t@),
                    None => None,
                },
            },
        ),
        r@ == (EventView {
            id: old(store).spec_next_id(),
            group_id: Some(group_id as int),
            sender: sender@,
            receiver: ""@,
            body: body@,
            timestamp: timestamp@,
            reactions: Seq::empty(),
            reveal_at: match reveal_at {
                Some(t) => Some(t@),
                None => None,
            },
        }),
{
    let empty = String::new();
    proof {
        reveal_strlit("");
        assert(empty@ =~= ""@);
    }
    let id = store.insert(
        Some(group_id),
        sender,
        empty.as_str(),
        body,
        timestamp,
        reveal_at,
    );
    let r = ChatMessage {
        id,
        group_id: Some(group_id),
        sender_username: sender.to_owned(),
        receiver_username: empty,
        message: body.to_owned(),
        timestamp: timestamp.to_owned(),
        reactions: Vec::new(),
        reveal_at: match reveal_at {
            Some(t) => Some(t.to_owned()),
            None => None,
        },
    };
    proof {
        assert(r@ =~= (EventView {
            id: old(store).spec_next_id(),
            group_id: Some(group_id as int),
            sender: sender@,
            receiver: ""@,
            body: body@,
            timestamp: timestamp@,
            reactions: Seq::empty(),
            reveal_at: match reveal_at {
                Some(t) => Some(t@),
                None => None,
            },
        }));
    }
    r
}

/// The edit command: the direct table is tried first; the group table only
/// when no direct row was hit. A patch notice is returned exactly when a
/// row the requester owns was rewritten; otherwise nothing changes and
/// nothing is published.
pub fn handle_edit(
    direct: &mut MessageStore,
    group: &mut MessageStore,
    requester: &str,
    mid: i64,
    new_body: &str,
    now: &str,
) -> (r: Option<PatchNotice>)
    requires
        old(direct).wf(),
        old(group).wf(),
    ensures
        final(direct).wf(),
        final(group).wf(),
        final(direct)@ == spec_edit(old(direct)@, requester@, mid as int, new_body@, now@),
        final(group)@ == if spec_any_owner_match(old(direct)@, requester@, mid as int) {
            old(group)@
        } else {
            spec_edit(old(group)@, requester@, mid as int, new_body@, now@)
        },
        r is Some <==> spec_any_owner_match(old(direct)@, requester@, mid as int)
            || spec_any_owner_match(old(group)@, requester@, mid as int),
        r matches Some(n) ==> {
            &&& n.kind is Edited
            &&& n.message_id == mid
            &&& n.group == !spec_any_owner_match(old(direct)@, requester@, mid as int)
            &&& n.new_body@ == new_body@
            &&& n.actor@ == requester@
            &&& n.timestamp@ == now@
        },
{
    let hit_direct = direct.edit(requester, mid, new_body, now);
    if hit_direct {
        Some(
            PatchNotice {
                kind: PatchKind::Edited,
                message_id: mid,
                group: false,
                new_body: new_body.to_owned(),
                actor: requester.to_owned(),
                timestamp: now.to_owned(),
            },
        )
    } else {
        let hit_group = group.edit(requester, mid, new_body, now);
        if hit_group {
            Some(
                PatchNotice {
                    kind: PatchKind::Edited,
                    message_id: mid,
                    group: true,
                    new_body: new_body.to_owned(),
                    actor: requester.to_owned(),
                    timestamp: now.to_owned(),
                },
            )
        } else {
            None
        }
    }
}

/// The delete command, under the same ownership rule and table order as
/// the edit command; the hit row is retained with the soft-delete marker.
pub fn handle_delete(
    direct: &mut MessageStore,
    group: &mut MessageStore,
    requester: &str,
    mid: i64,
    now: &str,
) -> (r: Option<PatchNotice>)
    requires
        old(direct).wf(),
        old(group).wf(),
    ensures
        final(direct).wf(),
        final(group).wf(),
        final(direct)@ == spec_delete(old(direct)@, requester@, mid as int),
        final(group)@ == if spec_any_owner_match(old(direct)@, requester@, mid as int) {
            old(group)@
        } else {
            spec_delete(old(group)@, requester@, mid as int)
        },
        r is Some <==> spec_any_owner_match(old(direct)@, requester@, mid as int)
            || spec_any_owner_match(old(group)@, requester@, mid as int),
        r matches Some(n) ==> {
            &&& n.kind is Deleted
            &&& n.message_id == mid
            &&& n.group == !spec_any_owner_match(old(direct)@, requester@, mid as int)
            &&& n.actor@ == requester@
            &&& n.timestamp@ == now@
        },
{
    let hit_direct = direct.delete(requester, mid);
    if hit_direct {
        Some(
            PatchNotice {
                kind: PatchKind::Deleted,
                message_id: mid,
                group: false,
                new_body: String::new(),
                actor: requester.to_owned(),
                timestamp: now.to_owned(),
            },
        )
    } else {
        let hit_group = group.delete(requester, mid);
        if hit_group {
            Some(
                PatchNotice {
                    kind: PatchKind::Deleted,
                    message_id: mid,
                    group: true,
                    new_body: String::new(),
                    actor: requester.to_owned(),
                    timestamp: now.to_owned(),
                },
            )
        } else {
            None
        }
    }
}

/// Wrap a patch notice as the bus event that carries it: a control frame
/// from the reserved system sender, addressed back to the acting user. The
/// serialized payload is supplied by the caller and carried opaquely.
pub fn patch_event(notice: &PatchNotice, payload: String) -> (r: ChatMessage)
    ensures
        r@ == (EventView {
            id: 0,
            group_id: None,
            sender: "system"@,
            receiver: notice.actor@,
            body: payload@,
            timestamp: notice.timestamp@,
            reactions: Seq::empty(),
            reveal_at: None,
        }),
{
    let r = ChatMessage {
        id: 0,
        group_id: None,
        sender_username: String::from_str("system"),
        receiver_username: notice.actor.clone(),
        message: payload,
        timestamp: notice.timestamp.clone(),
        reactions: Vec::new(),
        reveal_at: None,
    };
    proof {
        assert(r@ =~= (EventView {
            id: 0,
            group_id: None,
            sender: "system"@,
            receiver: notice.actor@,
            body: payload@,
            timestamp: notice.timestamp@,
            reactions: Seq::empty(),
            reveal_at: None,
        }));
    }
    r
}

/// Wrap a call-signaling frame as a bus event addressed to the target
/// user; only the target's sessions accept it under the delivery rules.
pub fn call_event(target: &str, payload: String, timestamp: &str) -> (r: ChatMessage)
    ensures
        r@ == (EventView {
            id: 0,
            group_id: None,
            sender: "system"@,
            receiver: target@,
            body: payload@,
            timestamp: timestamp@,
            reactions: Seq::empty(),
            reveal_at: None,
        }),
{
    let r = ChatMessage {
        id: 0,
        group_id: None,
        sender_username: String::from_str("system"),
        receiver_username: target.to_owned(),
        message: payload,
        timestamp: timestamp.to_owned(),
        reactions: Vec::new(),
        reveal_at: None,
    };
    proof {
        assert(r@ =~= (EventView {
            id: 0,
            group_id: None,
            sender: "system"@,
            receiver: target@,
            body: payload@,
            timestamp: timestamp@,
            reactions: Seq::empty(),
            reveal_at: None,
        }));
    }
    r
}

/// The reveal time a message-send command resolves to: an explicit delay
/// in seconds wins over an absolute timestamp; a malformed or absent
/// timestamp means no reveal metadata.
pub open spec fn spec_resolved_reveal(
    after_secs: Option<int>,
    at_iso: Option<Seq<char>>,
    now: int,
) -> Option<Seq<char>> {
    match after_secs {
        Some(s) => Some(rfc3339_millis_of_epoch(now + s)),
        None => match at_iso {
            Some(iso) => match rfc3339_epoch_of(iso) {
                Some(e) => Some(rfc3339_millis_of_epoch(e)),
                None => None,
            },
            None => None,
        },
    }
}

/// Resolve the reveal-at metadata of a message-send command. An epoch out
/// of the renderable range yields nothing.
pub fn resolve_reveal(after_secs: Option<i64>, at_iso: Option<&str>, now_epoch: i64) -> (r: Option<
    String,
>)
    requires
        after_secs matches Some(s) ==> i64::MIN <= now_epoch + s <= i64::MAX,
    ensures
        r matches Some(t) ==> spec_resolved_reveal(
            match after_secs {
                Some(s) => Some(s as int),
                None => None,
            },
            match at_iso {
                Some(x) => Some(x@),
                None => None,
            },
            now_epoch as int,
        ) == Some(t@),
        after_secs matches Some(s) ==> (r is Some <==> rfc3339_renderable(now_epoch + s)),
        after_secs is None ==> (at_iso matches Some(x) ==> (rfc3339_epoch_of(x@) matches Some(e)
            ==> (r is Some <==> rfc3339_renderable(e)))),
        after_secs is None && at_iso is None ==> r is None,
        (after_secs is None && (at_iso matches Some(x) && rfc3339_epoch_of(x@) is None)) ==> r
            is None,
{
    match after_secs {
        Some(s) => epoch_to_rfc3339_millis(now_epoch + s),
        None => match at_iso {
            Some(x) => match parse_rfc3339_epoch(x) {
                Some(e) => epoch_to_rfc3339_millis(e),
                None => None,
            },
            None => None,
        },
    }
}

/// The outcome of a `schedule_message` command: an immediate
/// acknowledgement either way.
pub enum ScheduleOutcome {
    Accepted { id: i64, scheduled_for_epoch: i64 },
    MissingTarget,
}

/// The due time a schedule command resolves to: a client-supplied epoch
/// wins; otherwise a well-formed timestamp; otherwise one minute from now.
pub open spec fn spec_resolved_due(
    at_epoch: Option<int>,
    at_iso: Option<Seq<char>>,
    now: int,
) -> int {
    match at_epoch {
        Some(e) => e,
        None => match at_iso {
            Some(iso) => match rfc3339_epoch_of(iso) {
                Some(e) => e,
                None => now + 60,
            },
            None => now + 60,
        },
    }
}

/// The schedule command: record a delayed message for one of a receiver
/// or a group, unsent, and acknowledge at once with the resolved due
/// time; a command naming neither target is refused and nothing is
/// recorded.
pub fn handle_schedule(
    sched: &mut ScheduledStore,
    sender: &str,
    receiver: Option<&str>,
    group_id: Option<i64>,
    body: &str,
    scheduled_at: Option<&str>,
    scheduled_at_epoch: Option<i64>,
    now_epoch: i64,
) -> (r: ScheduleOutcome)
    requires
        old(sched).wf(),
        old(sched).spec_next_id() < i64::MAX,
        now_epoch + 60 <= i64::MAX,
    ensures
        final(sched).wf(),
        receiver is None && group_id is None ==> final(sched)@ == old(sched)@ && r is MissingTarget,
        receiver is Some || group_id is Some ==> {
            let due = spec_resolved_due(
                match scheduled_at_epoch {
                    Some(e) => Some(e as int),
                    None => None,
                },
                match scheduled_at {
                    Some(x) => Some(x@),
                    None => None,
                },
                now_epoch as int,
            );
            &&& r matches ScheduleOutcome::Accepted { id, scheduled_for_epoch } && id == old(
                sched,
            ).spec_next_id() && scheduled_for_epoch == due
            &&& final(sched)@ == old(sched)@.push(
                ScheduledView {
                    id: old(sched).spec_next_id(),
                    sender: sender@,
                    receiver: match receiver {
                        Some(t) => Some(t@),
                        None => None,
                    },
                    group_id: match group_id {
                        Some(g) => Some(g as int),
                        None => None,
                    },
                    body: body@,
                    due_epoch: due,
                    sent: false,
                },
            )
        },
{
    if receiver.is_none() && group_id.is_none() {
        return ScheduleOutcome::MissingTarget;
    }
    let due: i64 = match scheduled_at_epoch {
        Some(e) => e,
        None => match scheduled_at {
            Some(x) => match parse_rfc3339_epoch(x) {
                Some(e) => e,
                None => now_epoch + 60,
            },
            None => now_epoch + 60,
        },
    };
    let id = sched.insert(sender, receiver, group_id, body, due);
    ScheduleOutcome::Accepted { id, scheduled_for_epoch: due }
}

/// One copy of a global notice (reaction, pin) per registered session,
/// each addressed to that session's user so that every session accepts its
/// own copy, regardless of group membership.
pub fn broadcast_copies(sessions: &Vec<Session>, payload: &str, timestamp: &str) -> (r: Vec<
    ChatMessage,
>)
    ensures
        r@.len() == sessions@.len(),
        forall|i: int|
            0 <= i < r@.len() ==> (#[trigger] r@[i])@ == (EventView {
                id: 0,
                group_id: None,
                sender: "system"@,
                receiver: sessions@[i].username@,
                body: payload@,
                timestamp: timestamp@,
                reactions: Seq::empty(),
                reveal_at: None,
            }),
{
    let mut r: Vec<ChatMessage> = Vec::new();
    let mut i: usize = 0;
    let n = sessions.len();
    while i < n
        invariant
            n == sessions@.len(),
            i <= n,
            r@.len() == i,
            forall|j: int|
                0 <= j < i ==> (#[trigger] r@[j])@ == (EventView {
                    id: 0,
                    group_id: None,
                    sender: "system"@,
                    receiver: sessions@[j].username@,
                    body: payload@,
                    timestamp: timestamp@,
                    reactions: Seq::empty(),
                    reveal_at: None,
                }),
        decreases n - i,
    {
        let copy = ChatMessage {
            id: 0,
            group_id: None,
            sender_username: String::from_str("system"),
            receiver_username: sessions[i].username.clone(),
            message: payload.to_owned(),
            timestamp: timestamp.to_owned(),
            reactions: Vec::new(),
            reveal_at: None,
        };
        proof {
            assert(copy@ =~= (EventView {
                id: 0,
                group_id: None,
                sender: "system"@,
                receiver: sessions@[i as int].username@,
                body: payload@,
                timestamp: timestamp@,
                reactions: Seq::empty(),
                reveal_at: None,
            }));
        }
        r.push(copy);
        i += 1;
    }
    r
}

} // verus!
