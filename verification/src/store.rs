//! In-memory model of a message table. Two instances stand for the two
//! tables of the service: direct messages (receiver set, no group) and
//! group messages (group set, empty receiver). Rows are only ever appended
//! or mutated in place; a deleted row is retained with a marker, never
//! removed.

use vstd::prelude::*;
use crate::text::str_eq;

verus! {

/// Mathematical shape of a stored message row.
#[verifier::ext_equal]
pub struct RowView {
    pub id: int,
    pub group_id: Option<int>,
    pub sender: Seq<char>,
    pub receiver: Seq<char>,
    pub body: Seq<char>,
    pub timestamp: Seq<char>,
    pub deleted: bool,
    pub edited_at: Option<Seq<char>>,
    pub reveal_at: Option<Seq<char>>,
}

/// A stored message row.
pub struct MessageRow {
    pub id: i64,
    pub group_id: Option<i64>,
    pub sender: String,
    pub receiver: String,
    pub body: String,
    pub timestamp: String,
    pub deleted: bool,
    pub edited_at: Option<String>,
    pub reveal_at: Option<String>,
}

impl View for MessageRow {
    type V = RowView;

    open spec fn view(&self) -> RowView {
        RowView {
            id: self.id as int,
            group_id: match self.group_id {
                Some(g) => Some(g as int),
                None => None,
            },
            sender: self.sender@,
            receiver: self.receiver@,
            body: self.body@,
            timestamp: self.timestamp@,
            deleted: self.deleted,
            edited_at: match self.edited_at {
                Some(ref t) => Some(t@),
                None => None,
            },
            reveal_at: match self.reveal_at {
                Some(ref t) => Some(t@),
                None => None,
            },
        }
    }
}

impl Clone for MessageRow {
    fn clone(&self) -> (r: Self)
        ensures
            r@ == self@,
    {
        MessageRow {
            id: self.id,
            group_id: self.group_id,
            sender: self.sender.clone(),
            receiver: self.receiver.clone(),
            body: self.body.clone(),
            timestamp: self.timestamp.clone(),
            deleted: self.deleted,
            edited_at: match self.edited_at {
                Some(ref t) => Some(t.clone()),
                None => None,
            },
            reveal_at: match self.reveal_at {
                Some(ref t) => Some(t.clone()),
                None => None,
            },
        }
    }
}

/// A mutation command touches a row exactly when the row has the given id,
/// its stored sender is the requester (exact, case-sensitive), and the row
/// is not already deleted.
pub open spec fn owner_match(r: RowView, requester: Seq<char>, mid: int) -> bool {
    r.id == mid && r.sender == requester && !r.deleted
}

pub open spec fn spec_any_owner_match(rows: Seq<RowView>, requester: Seq<char>, mid: int) -> bool {
    exists|i: int| 0 <= i < rows.len() && owner_match(#[trigger] rows[i], requester, mid)
}

/// Effect of an edit on one row: new body and an edited marker; identity,
/// addressing and the deletion state are untouched.
pub open spec fn spec_edit_row(r: RowView, new_body: Seq<char>, now: Seq<char>) -> RowView {
    RowView { body: new_body, edited_at: Some(now), ..r }
}

/// Effect of an edit command on the whole table: every row the requester
/// owns under that id is rewritten, every other row is untouched.
pub open spec fn spec_edit(
    rows: Seq<RowView>,
    requester: Seq<char>,
    mid: int,
    new_body: Seq<char>,
    now: Seq<char>,
) -> Seq<RowView> {
    rows.map_values(
        |r: RowView|
            if owner_match(r, requester, mid) {
                spec_edit_row(r, new_body, now)
            } else {
                r
            },
    )
}

/// Effect of a delete on one row: only the soft-delete marker is set; the
/// stored body, sender and timestamps remain.
pub open spec fn spec_delete_row(r: RowView) -> RowView {
    RowView { deleted: true, ..r }
}

pub open spec fn spec_delete(rows: Seq<RowView>, requester: Seq<char>, mid: int) -> Seq<RowView> {
    rows.map_values(
        |r: RowView|
            if owner_match(r, requester, mid) {
                spec_delete_row(r)
            } else {
                r
            },
    )
}

/// One message table: rows in insertion order with strictly increasing ids
/// assigned from a private counter, as a store with an auto-increment key
/// would.
pub struct MessageStore {
    rows: Vec<MessageRow>,
    next_id: i64,
}

impl MessageStore {
    pub closed spec fn view(&self) -> Seq<RowView> {
        self.rows@.map_values(|r: MessageRow| r@)
    }

    pub closed spec fn spec_next_id(&self) -> int {
        self.next_id as int
    }

    /// Ids are positive, strictly increasing, and below the counter.
    pub open spec fn wf(&self) -> bool {
        &&& 1 <= self.spec_next_id()
        &&& forall|i: int|
            0 <= i < self@.len() ==> 1 <= (#[trigger] self@[i]).id < self.spec_next_id()
        &&& forall|i: int, j: int| 0 <= i < j < self@.len() ==> self@[i].id < self@[j].id
    }

    pub fn new() -> (r: Self)
        ensures
            r@ == Seq::<RowView>::empty(),
            r.wf(),
            r.spec_next_id() == 1,
    {
        let r = MessageStore { rows: Vec::new(), next_id: 1 };
        proof {
            assert(r@ =~= Seq::<RowView>::empty());
        }
        r
    }

    pub fn len(&self) -> (r: usize)
        ensures
            r == self@.len(),
    {
        self.rows.len()
    }

    /// The id the next insert will assign.
    pub fn next_id(&self) -> (r: i64)
        ensures
            r == self.spec_next_id(),
    {
        self.next_id
    }

    pub fn row_at(&self, i: usize) -> (r: &MessageRow)
        requires
            i < self@.len(),
        ensures
            r@ == self@[i as int],
    {
        &self.rows[i]
    }

    /// Append a new row under a fresh id and return that id.
    pub fn insert(
        &mut self,
        group_id: Option<i64>,
        sender: &str,
        receiver: &str,
        body: &str,
        timestamp: &str,
        reveal_at: Option<&str>,
    ) -> (id: i64)
        requires
            old(self).wf(),
            old(self).spec_next_id() < i64::MAX,
        ensures
            final(self).wf(),
            id == old(self).spec_next_id(),
            final(self).spec_next_id() == old(self).spec_next_id() + 1,
            final(self)@ == old(self)@.push(
                RowView {
                    id: id as int,
                    group_id: match group_id {
                        Some(g) => Some(g as int),
                        None => None,
                    },
                    sender: sender@,
                    receiver: receiver@,
                    body: body@,
                    timestamp: timestamp@,
                    deleted: false,
                    edited_at: None,
                    reveal_at: match reveal_at {
                        Some(t) => Some(t@),
                        None => None,
                    },
                },
            ),
    {
        let id = self.next_id;
        let row = MessageRow {
            id,
            group_id,
            sender: sender.to_owned(),
            receiver: receiver.to_owned(),
            body: body.to_owned(),
            timestamp: timestamp.to_owned(),
            deleted: false,
            edited_at: None,
            reveal_at: match reveal_at {
                Some(t) => Some(t.to_owned()),
                None => None,
            },
        };
        self.rows.push(row);
        self.next_id = id + 1;
        proof {
            assert(final(self)@ =~= old(self)@.push(final(self)@[old(self)@.len() as int]));
        }
        id
    }

    /// The edit command: rewrite the body and set the edited marker on the
    /// rows the requester owns under `mid`; report whether any row was hit.
    pub fn edit(&mut self, requester: &str, mid: i64, new_body: &str, now: &str) -> (r: bool)
        requires
            old(self).wf(),
        ensures
            final(self).wf(),
            final(self).spec_next_id() == old(self).spec_next_id(),
            final(self)@ == spec_edit(old(self)@, requester@, mid as int, new_body@, now@),
            r == spec_any_owner_match(old(self)@, requester@, mid as int),
    {
        let ghost orig = self@;
        let mut hit = false;
        let mut i: usize = 0;
        let n = self.rows.len();
        while i < n
            invariant
                n == self.rows@.len(),
                n == orig.len(),
                i <= n,
                self.next_id == old(self).next_id,
                forall|j: int|
                    0 <= j < i ==> (#[trigger] self.rows@[j])@ == spec_edit(
                        orig,
                        requester@,
                        mid as int,
                        new_body@,
                        now@,
                    )[j],
                forall|j: int| i <= j < n ==> (#[trigger] self.rows@[j])@ == orig[j],
                hit == exists|j: int|
                    0 <= j < i && owner_match(#[trigger] orig[j], requester@, mid as int),
            decreases n - i,
        {
            let matches = self.rows[i].id == mid && str_eq(self.rows[i].sender.as_str(), requester)
                && !self.rows[i].deleted;
            if matches {
                self.rows[i].body = new_body.to_owned();
                self.rows[i].edited_at = Some(now.to_owned());
                hit = true;
            }
            i += 1;
        }
        proof {
            assert(final(self)@ =~= spec_edit(orig, requester@, mid as int, new_body@, now@));
        }
        hit
    }

    /// The delete command: set the soft-delete marker on the rows the
    /// requester owns under `mid`; report whether any row was hit. Rows are
    /// never removed.
    pub fn delete(&mut self, requester: &str, mid: i64) -> (r: bool)
        requires
            old(self).wf(),
        ensures
            final(self).wf(),
            final(self).spec_next_id() == old(self).spec_next_id(),
            final(self)@ == spec_delete(old(self)@, requester@, mid as int),
            r == spec_any_owner_match(old(self)@, requester@, mid as int),
    {
        let ghost orig = self@;
        let mut hit = false;
        let mut i: usize = 0;
        let n = self.rows.len();
        while i < n
            invariant
                n == self.rows@.len(),
                n == orig.len(),
                i <= n,
                self.next_id == old(self).next_id,
                forall|j: int|
                    0 <= j < i ==> (#[trigger] self.rows@[j])@ == spec_delete(
                        orig,
                        requester@,
                        mid as int,
                    )[j],
                forall|j: int| i <= j < n ==> (#[trigger] self.rows@[j])@ == orig[j],
                hit == exists|j: int|
                    0 <= j < i && owner_match(#[trigger] orig[j], requester@, mid as int),
            decreases n - i,
        {
            let matches = self.rows[i].id == mid && str_eq(self.rows[i].sender.as_str(), requester)
                && !self.rows[i].deleted;
            if matches {
                self.rows[i].deleted = true;
                hit = true;
            }
            i += 1;
        }
        proof {
            assert(final(self)@ =~= spec_delete(orig, requester@, mid as int));
        }
        hit
    }
}

/// Law: an edit issued by someone other than a row's original sender leaves
/// the whole table unchanged, and no row is reported hit (so no patch event
/// is published for it).
pub proof fn edit_by_non_sender_is_noop(
    rows: Seq<RowView>,
    requester: Seq<char>,
    mid: int,
    new_body: Seq<char>,
    now: Seq<char>,
)
    requires
        forall|i: int| 0 <= i < rows.len() && (#[trigger] rows[i]).id == mid ==> rows[i].sender != requester,
    ensures
        spec_edit(rows, requester, mid, new_body, now) == rows,
        !spec_any_owner_match(rows, requester, mid),
{
    assert(spec_edit(rows, requester, mid, new_body, now) =~= rows);
}

/// Law: a delete keeps the row present with its body, sender and timestamp,
/// only marking it deleted.
pub proof fn delete_retains_rows(rows: Seq<RowView>, requester: Seq<char>, mid: int)
    ensures
        spec_delete(rows, requester, mid).len() == rows.len(),
        forall|i: int|
            0 <= i < rows.len() ==> {
                let d = #[trigger] spec_delete(rows, requester, mid)[i];
                d.id == rows[i].id && d.sender == rows[i].sender && d.body == rows[i].body
                    && d.timestamp == rows[i].timestamp && d.receiver == rows[i].receiver
                    && d.group_id == rows[i].group_id
            },
        forall|i: int|
            0 <= i < rows.len() && owner_match(#[trigger] rows[i], requester, mid) ==> spec_delete(
                rows,
                requester,
                mid,
            )[i].deleted,
{
}

/// Law: a second delete of the same id is a no-op — after a delete, no row
/// under that id still satisfies the ownership precondition, whoever asks.
pub proof fn second_delete_is_noop(
    rows: Seq<RowView>,
    requester: Seq<char>,
    requester2: Seq<char>,
    mid: int,
)
    requires
        forall|i: int| 0 <= i < rows.len() && (#[trigger] rows[i]).id == mid ==> rows[i].sender == requester,
    ensures
        !spec_any_owner_match(spec_delete(rows, requester, mid), requester2, mid),
        spec_delete(spec_delete(rows, requester, mid), requester2, mid) == spec_delete(
            rows,
            requester,
            mid,
        ),
{
    let once = spec_delete(rows, requester, mid);
    assert forall|i: int| 0 <= i < once.len() implies !owner_match(
        #[trigger] once[i],
        requester2,
        mid,
    ) by {
        if once[i].id == mid {
            assert(rows[i].id == mid);
        }
    }
    assert(spec_delete(once, requester2, mid) =~= once);
}

} // verus!
