//! History queries over the message tables: the conversation between two
//! users and the recent messages of a group, rendered the way the service
//! replies to a history-fetch command (soft-deleted rows show a fixed
//! placeholder, edited rows an edited mark, ghost-mode groups the
//! anonymous sender label).

use vstd::prelude::*;
use vstd::string::*;
use crate::event::{ChatMessage, EventView};
use crate::filter::{anonymous_label, anonymous_string};
use crate::reaction::{ReactionStore, ReactionView, spec_reactions_for};
use crate::store::{MessageRow, MessageStore, RowView};
use crate::text::{eq_ignore_case, eq_ignore_case_spec};

verus! {

/// A row belongs to the conversation between `u1` and `u2` when its sender
/// and receiver are those two users in either order, compared
/// case-insensitively.
pub open spec fn involves(r: RowView, u1: Seq<char>, u2: Seq<char>) -> bool {
    (eq_ignore_case_spec(r.sender, u1) && eq_ignore_case_spec(r.receiver, u2))
        || (eq_ignore_case_spec(r.sender, u2) && eq_ignore_case_spec(r.receiver, u1))
}

/// The fixed text shown in place of a soft-deleted message's body.
pub open spec fn placeholder_body() -> Seq<char> {
    "Message recalled by sender"@
}

/// The body a history reply shows for a row: the placeholder for a deleted
/// row, an edited mark appended for an edited row, the stored body
/// otherwise.
pub open spec fn spec_rendered_body(r: RowView) -> Seq<char> {
    if r.deleted {
        placeholder_body()
    } else if r.edited_at matches Some(t) && t.len() > 0 {
        r.body + " (edited)"@
    } else {
        r.body
    }
}

pub open spec fn spec_conversation_event(
    r: RowView,
    reactions: Seq<(Seq<char>, Seq<char>)>,
) -> EventView {
    EventView {
        id: r.id,
        group_id: r.group_id,
        sender: r.sender,
        receiver: r.receiver,
        body: spec_rendered_body(r),
        timestamp: r.timestamp,
        reactions,
        reveal_at: r.reveal_at,
    }
}

/// The last `limit` entries of a reply.
pub open spec fn last_n(s: Seq<EventView>, limit: int) -> Seq<EventView> {
    if s.len() <= limit {
        s
    } else {
        s.skip(s.len() - limit)
    }
}

/// The conversation between `u1` and `u2`: every involved row in id order,
/// rendered, with its recorded reactions attached, truncated to the most
/// recent `limit` entries.
pub open spec fn spec_conversation(
    rows: Seq<RowView>,
    reactions: Seq<ReactionView>,
    u1: Seq<char>,
    u2: Seq<char>,
    limit: int,
) -> Seq<EventView> {
    last_n(
        rows.filter(|r: RowView| involves(r, u1, u2)).map_values(
            |r: RowView| spec_conversation_event(r, spec_reactions_for(reactions, r.id)),
        ),
        limit,
    )
}

fn render_body(row: &MessageRow) -> (b: String)
    ensures
        b@ == spec_rendered_body(row@),
{
    if row.deleted {
        String::from_str("Message recalled by sender")
    } else {
        match row.edited_at {
            Some(ref t) => {
                if t.as_str().is_empty() {
                    row.body.clone()
                } else {
                    let mut b = row.body.clone();
                    b.append(" (edited)");
                    b
                }
            },
            None => row.body.clone(),
        }
    }
}

/// Keep only the last `limit` entries of a reply list.
fn truncate_to_last(v: Vec<ChatMessage>, limit: usize) -> (r: Vec<ChatMessage>)
    ensures
        r@.map_values(|m: ChatMessage| m@) == last_n(
            v@.map_values(|m: ChatMessage| m@),
            limit as int,
        ),
{
    if v.len() <= limit {
        return v;
    }
    let start = v.len() - limit;
    let mut out: Vec<ChatMessage> = Vec::new();
    let mut i: usize = start;
    while i < v.len()
        invariant
            start <= i <= v@.len(),
            start == v@.len() - limit,
            out@.len() == i - start,
            forall|j: int| 0 <= j < out@.len() ==> (#[trigger] out@[j])@ == v@[start + j]@,
        decreases v@.len() - i,
    {
        out.push(v[i].clone());
        i += 1;
    }
    proof {
        assert(out@.map_values(|m: ChatMessage| m@) =~= last_n(
            v@.map_values(|m: ChatMessage| m@),
            limit as int,
        ));
    }
    out
}

/// Reply to a `get_conversation` command: the rendered conversation between
/// the requesting user and the named peer.
pub fn conversation_history(
    store: &MessageStore,
    reactions: &ReactionStore,
    user1: &str,
    user2: &str,
    limit: usize,
) -> (r: Vec<ChatMessage>)
    ensures
        r@.map_values(|m: ChatMessage| m@) == spec_conversation(
            store@,
            reactions@,
            user1@,
            user2@,
            limit as int,
        ),
{
    let ghost orig = store@;
    let mut all: Vec<ChatMessage> = Vec::new();
    let mut i: usize = 0;
    let n = store.len();
    proof {
        assert(orig.subrange(0, 0).filter(|r: RowView| involves(r, user1@, user2@)) =~= Seq::<
            RowView,
        >::empty());
        assert(all@.map_values(|m: ChatMessage| m@) =~= orig.subrange(0, 0).filter(
            |r: RowView| involves(r, user1@, user2@),
        ).map_values(|r: RowView| spec_conversation_event(r, spec_reactions_for(reactions@, r.id))));
    }
    while i < n
        invariant
            n == orig.len(),
            store@ == orig,
            i <= n,
            all@.map_values(|m: ChatMessage| m@) == orig.subrange(0, i as int).filter(
                |r: RowView| involves(r, user1@, user2@),
            ).map_values(
                |r: RowView| spec_conversation_event(r, spec_reactions_for(reactions@, r.id)),
            ),
        decreases n - i,
    {
        proof {
            assert(orig.subrange(0, i + 1) =~= orig.subrange(0, i as int).push(orig[i as int]));
            orig.subrange(0, i as int).lemma_filter_push(
                orig[i as int],
                |r: RowView| involves(r, user1@, user2@),
            );
        }
        let row = store.row_at(i);
        let involved = (eq_ignore_case(row.sender.as_str(), user1) && eq_ignore_case(
            row.receiver.as_str(),
            user2,
        )) || (eq_ignore_case(row.sender.as_str(), user2) && eq_ignore_case(
            row.receiver.as_str(),
            user1,
        ));
        if involved {
            let body = render_body(row);
            let rx = reactions.reactions_for(row.id);
            let ghost prev = all@;
            all.push(
                ChatMessage {
                    id: row.id,
                    group_id: row.group_id,
                    sender_username: row.sender.clone(),
                    receiver_username: row.receiver.clone(),
                    message: body,
                    timestamp: row.timestamp.clone(),
                    reactions: rx,
                    reveal_at: match row.reveal_at {
                        Some(ref t) => Some(t.clone()),
                        None => None,
                    },
                },
            );
            proof {
                assert(all@.map_values(|m: ChatMessage| m@) =~= prev.map_values(
                    |m: ChatMessage| m@,
                ).push(
                    spec_conversation_event(
                        orig[i as int],
                        spec_reactions_for(reactions@, orig[i as int].id),
                    ),
                ));
                assert(orig.subrange(0, i + 1).filter(
                    |r: RowView| involves(r, user1@, user2@),
                ).map_values(
                    |r: RowView| spec_conversation_event(r, spec_reactions_for(reactions@, r.id)),
                ) =~= orig.subrange(0, i as int).filter(
                    |r: RowView| involves(r, user1@, user2@),
                ).map_values(
                    |r: RowView| spec_conversation_event(r, spec_reactions_for(reactions@, r.id)),
                ).push(
                    spec_conversation_event(
                        orig[i as int],
                        spec_reactions_for(reactions@, orig[i as int].id),
                    ),
                ));
            }
        } else {
            proof {
                assert(all@.map_values(|m: ChatMessage| m@) =~= orig.subrange(0, i + 1).filter(
                    |r: RowView| involves(r, user1@, user2@),
                ).map_values(
                    |r: RowView| spec_conversation_event(r, spec_reactions_for(reactions@, r.id)),
                ));
            }
        }
        i += 1;
    }
    proof {
        assert(orig.subrange(0, n as int) =~= orig);
    }
    truncate_to_last(all, limit)
}

/// What a group history entry shows: the stored body under the stored or
/// masked sender, with an empty receiver, no reactions attached.
pub open spec fn spec_group_entry(r: RowView, ghost_mode: bool) -> EventView {
    EventView {
        id: r.id,
        group_id: r.group_id,
        sender: if ghost_mode {
            anonymous_label()
        } else {
            r.sender
        },
        receiver: ""@,
        body: r.body,
        timestamp: r.timestamp,
        reactions: Seq::empty(),
        reveal_at: r.reveal_at,
    }
}

/// The recent messages of one group, sender masked when the group is in
/// ghost mode, truncated to the most recent `limit` entries.
pub open spec fn spec_group_history(
    rows: Seq<RowView>,
    gid: int,
    ghost_mode: bool,
    limit: int,
) -> Seq<EventView> {
    last_n(
        rows.filter(|r: RowView| r.group_id == Some(gid)).map_values(
            |r: RowView| spec_group_entry(r, ghost_mode),
        ),
        limit,
    )
}

/// Reply to a `get_group_conversation` command.
pub fn group_history(store: &MessageStore, gid: i64, ghost_mode: bool, limit: usize) -> (r: Vec<
    ChatMessage,
>)
    ensures
        r@.map_values(|m: ChatMessage| m@) == spec_group_history(
            store@,
            gid as int,
            ghost_mode,
            limit as int,
        ),
{
    let ghost orig = store@;
    let mut all: Vec<ChatMessage> = Vec::new();
    let mut i: usize = 0;
    let n = store.len();
    proof {
        assert(orig.subrange(0, 0).filter(|r: RowView| r.group_id == Some(gid as int)) =~= Seq::<
            RowView,
        >::empty());
        assert(all@.map_values(|m: ChatMessage| m@) =~= orig.subrange(0, 0).filter(
            |r: RowView| r.group_id == Some(gid as int),
        ).map_values(|r: RowView| spec_group_entry(r, ghost_mode)));
    }
    while i < n
        invariant
            n == orig.len(),
            store@ == orig,
            i <= n,
            all@.map_values(|m: ChatMessage| m@) == orig.subrange(0, i as int).filter(
                |r: RowView| r.group_id == Some(gid as int),
            ).map_values(|r: RowView| spec_group_entry(r, ghost_mode)),
        decreases n - i,
    {
        proof {
            assert(orig.subrange(0, i + 1) =~= orig.subrange(0, i as int).push(orig[i as int]));
            orig.subrange(0, i as int).lemma_filter_push(
                orig[i as int],
                |r: RowView| r.group_id == Some(gid as int),
            );
        }
        let row = store.row_at(i);
        let in_group = match row.group_id {
            Some(g) => g == gid,
            None => false,
        };
        if in_group {
            let ghost prev = all@;
            let sender = if ghost_mode {
                anonymous_string()
            } else {
                row.sender.clone()
            };
            let entry = ChatMessage {
                id: row.id,
                group_id: row.group_id,
                sender_username: sender,
                receiver_username: String::new(),
                message: row.body.clone(),
                timestamp: row.timestamp.clone(),
                reactions: Vec::new(),
                reveal_at: match row.reveal_at {
                    Some(ref t) => Some(t.clone()),
                    None => None,
                },
            };
            proof {
                reveal_strlit("");
                assert(entry@ =~= spec_group_entry(orig[i as int], ghost_mode));
            }
            all.push(entry);
            proof {
                assert(all@.map_values(|m: ChatMessage| m@) =~= prev.map_values(
                    |m: ChatMessage| m@,
                ).push(spec_group_entry(orig[i as int], ghost_mode)));
                assert(orig.subrange(0, i + 1).filter(
                    |r: RowView| r.group_id == Some(gid as int),
                ).map_values(|r: RowView| spec_group_entry(r, ghost_mode)) =~= orig.subrange(
                    0,
                    i as int,
                ).filter(|r: RowView| r.group_id == Some(gid as int)).map_values(
                    |r: RowView| spec_group_entry(r, ghost_mode),
                ).push(spec_group_entry(orig[i as int], ghost_mode)));
            }
        } else {
            proof {
                assert(all@.map_values(|m: ChatMessage| m@) =~= orig.subrange(0, i + 1).filter(
                    |r: RowView| r.group_id == Some(gid as int),
                ).map_values(|r: RowView| spec_group_entry(r, ghost_mode)));
            }
        }
        i += 1;
    }
    proof {
        assert(orig.subrange(0, n as int) =~= orig);
    }
    truncate_to_last(all, limit)
}

/// Law: a soft-deleted row renders as the fixed placeholder in a
/// conversation reply, never its stored body.
pub proof fn deleted_row_renders_placeholder(r: RowView)
    requires
        r.deleted,
    ensures
        spec_rendered_body(r) == placeholder_body(),
{
}

/// Law: after a delete command hits a row, the row is still in the table
/// with its stored body, and a history fetch renders it as the fixed
/// placeholder.
pub proof fn deleted_message_shows_placeholder_in_history(
    rows: Seq<RowView>,
    requester: Seq<char>,
    mid: int,
    i: int,
)
    requires
        0 <= i < rows.len(),
        crate::store::owner_match(rows[i], requester, mid),
    ensures
        crate::store::spec_delete(rows, requester, mid).len() == rows.len(),
        crate::store::spec_delete(rows, requester, mid)[i].body == rows[i].body,
        spec_rendered_body(crate::store::spec_delete(rows, requester, mid)[i])
            == placeholder_body(),
{
}

} // verus!
