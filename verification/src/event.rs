//! The event record carried on the bus: one shape for direct messages,
//! group messages, and system-addressed control notices (patches,
//! reactions, pins, call signaling).

use vstd::prelude::*;

verus! {

/// Mathematical shape of an event: every text field as a character
/// sequence.
#[verifier::ext_equal]
pub struct EventView {
    pub id: int,
    pub group_id: Option<int>,
    pub sender: Seq<char>,
    pub receiver: Seq<char>,
    pub body: Seq<char>,
    pub timestamp: Seq<char>,
    pub reactions: Seq<(Seq<char>, Seq<char>)>,
    pub reveal_at: Option<Seq<char>>,
}

/// A live event as published on the bus and written to clients.
///
/// `group_id` set means a group message, delivered by membership; an unset
/// `group_id` with the reserved system sender means a control notice
/// delivered only to the addressed receiver; anything else is a direct
/// message delivered to sender and receiver alike.
pub struct ChatMessage {
    pub id: i64,
    pub group_id: Option<i64>,
    pub sender_username: String,
    pub receiver_username: String,
    pub message: String,
    pub timestamp: String,
    pub reactions: Vec<(String, String)>,
    pub reveal_at: Option<String>,
}

impl View for ChatMessage {
    type V = EventView;

    open spec fn view(&self) -> EventView {
        EventView {
            id: self.id as int,
            group_id: match self.group_id {
                Some(g) => Some(g as int),
                None => None,
            },
            sender: self.sender_username@,
            receiver: self.receiver_username@,
            body: self.message@,
            timestamp: self.timestamp@,
            reactions: self.reactions@.map_values(|p: (String, String)| (p.0@, p.1@)),
            reveal_at: match self.reveal_at {
                Some(ref s) => Some(s@),
                None => None,
            },
        }
    }
}

impl Clone for ChatMessage {
    fn clone(&self) -> (r: Self)
        ensures
            r@ == self@,
    {
        let mut reactions: Vec<(String, String)> = Vec::new();
        let mut i: usize = 0;
        while i < self.reactions.len()
            invariant
                i <= self.reactions.len(),
                reactions@.len() == i,
                forall|j: int|
                    0 <= j < i ==> (#[trigger] reactions@[j].0)@ == self.reactions@[j].0@
                        && reactions@[j].1@ == self.reactions@[j].1@,
            decreases self.reactions.len() - i,
        {
            let (u, e) = (&self.reactions[i].0, &self.reactions[i].1);
            reactions.push((u.clone(), e.clone()));
            i += 1;
        }
        let r = ChatMessage {
            id: self.id,
            group_id: self.group_id,
            sender_username: self.sender_username.clone(),
            receiver_username: self.receiver_username.clone(),
            message: self.message.clone(),
            timestamp: self.timestamp.clone(),
            reactions,
            reveal_at: match self.reveal_at {
                Some(ref s) => Some(s.clone()),
                None => None,
            },
        };
        proof {
            assert(r@.reactions =~= self@.reactions);
            assert(r@ == self@);
        }
        r
    }
}

} // verus!
