//! The scheduler: promotes due, unsent scheduled messages into persisted
//! messages and live events, a bounded batch per tick, and marks each
//! promoted row sent so that no later tick selects it again.

use vstd::prelude::*;
use crate::event::{ChatMessage, EventView};
use crate::store::{MessageStore, RowView};

verus! {

/// Mathematical shape of a scheduled-message row.
#[verifier::ext_equal]
pub struct ScheduledView {
    pub id: int,
    pub sender: Seq<char>,
    pub receiver: Option<Seq<char>>,
    pub group_id: Option<int>,
    pub body: Seq<char>,
    pub due_epoch: int,
    pub sent: bool,
}

/// A delayed message: exactly one of `receiver` and `group_id` is set by
/// the command that creates it; the scheduler reads whichever is there.
pub struct ScheduledRow {
    pub id: i64,
    pub sender: String,
    pub receiver: Option<String>,
    pub group_id: Option<i64>,
    pub body: String,
    pub due_epoch: i64,
    pub sent: bool,
}

impl View for ScheduledRow {
    type V = ScheduledView;

    open spec fn view(&self) -> ScheduledView {
        ScheduledView {
            id: self.id as int,
            sender: self.sender@,
            receiver: match self.receiver {
                Some(ref r) => Some(r@),
                None => None,
            },
            group_id: match self.group_id {
                Some(g) => Some(g as int),
                None => None,
            },
            body: self.body@,
            due_epoch: self.due_epoch as int,
            sent: self.sent,
        }
    }
}

impl Clone for ScheduledRow {
    fn clone(&self) -> (r: Self)
        ensures
            r@ == self@,
    {
        ScheduledRow {
            id: self.id,
            sender: self.sender.clone(),
            receiver: match self.receiver {
                Some(ref t) => Some(t.clone()),
                None => None,
            },
            group_id: self.group_id,
            body: self.body.clone(),
            due_epoch: self.due_epoch,
            sent: self.sent,
        }
    }
}

/// A row is due when its time has come and it has not been sent.
pub open spec fn is_due(r: ScheduledView, now: int) -> bool {
    !r.sent && r.due_epoch <= now
}

/// How many rows of the table are due.
pub open spec fn due_count(rows: Seq<ScheduledView>, now: int) -> int
    decreases rows.len(),
{
    if rows.len() == 0 {
        0
    } else {
        due_count(rows.drop_last(), now) + if is_due(rows.last(), now) {
            1int
        } else {
            0int
        }
    }
}

/// Row `i` is promoted by a tick exactly when it is due and fewer than
/// `batch` due rows precede it (the bounded batch, in id order).
pub open spec fn picked(rows: Seq<ScheduledView>, now: int, batch: int, i: int) -> bool {
    is_due(rows[i], now) && due_count(rows.take(i), now) < batch
}

pub open spec fn spec_sent_row(r: ScheduledView) -> ScheduledView {
    ScheduledView { sent: true, ..r }
}

/// A scheduled row addressed to a group (a positive group id wins over any
/// receiver, as the dispatch branch does).
pub open spec fn group_target(r: ScheduledView) -> bool {
    r.group_id matches Some(g) && g > 0
}

pub open spec fn direct_target(r: ScheduledView) -> bool {
    !group_target(r) && r.receiver is Some
}

/// The message row a promoted scheduled row is persisted as.
pub open spec fn spec_promoted_row(r: ScheduledView, id: int, stamp: Seq<char>) -> RowView {
    RowView {
        id,
        group_id: if group_target(r) {
            r.group_id
        } else {
            None
        },
        sender: r.sender,
        receiver: if group_target(r) {
            ""@
        } else {
            r.receiver->0
        },
        body: r.body,
        timestamp: stamp,
        deleted: false,
        edited_at: None,
        reveal_at: None,
    }
}

/// The live event a promoted scheduled row is published as.
pub open spec fn spec_promoted_event(r: ScheduledView, stamp: Seq<char>) -> EventView {
    EventView {
        id: 0,
        group_id: if group_target(r) {
            r.group_id
        } else {
            None
        },
        sender: r.sender,
        receiver: if group_target(r) {
            ""@
        } else {
            r.receiver->0
        },
        body: r.body,
        timestamp: stamp,
        reactions: Seq::empty(),
        reveal_at: None,
    }
}

/// Everything one tick does, as a function of the table and the clock:
/// the table afterwards, the rows appended to the two message tables
/// (ids assigned from `did0` and `gid0` on), and the events published, in
/// table order.
#[verifier::ext_equal]
pub struct TickEffect {
    pub sched: Seq<ScheduledView>,
    pub direct_rows: Seq<RowView>,
    pub group_rows: Seq<RowView>,
    pub events: Seq<EventView>,
}

pub open spec fn spec_tick(
    rows: Seq<ScheduledView>,
    now: int,
    batch: int,
    stamp: Seq<char>,
    did0: int,
    gid0: int,
) -> TickEffect
    decreases rows.len(),
{
    if rows.len() == 0 {
        TickEffect {
            sched: Seq::empty(),
            direct_rows: Seq::empty(),
            group_rows: Seq::empty(),
            events: Seq::empty(),
        }
    } else {
        let prev = spec_tick(rows.drop_last(), now, batch, stamp, did0, gid0);
        let r = rows.last();
        if is_due(r, now) && due_count(rows.drop_last(), now) < batch {
            if group_target(r) {
                TickEffect {
                    sched: prev.sched.push(spec_sent_row(r)),
                    direct_rows: prev.direct_rows,
                    group_rows: prev.group_rows.push(
                        spec_promoted_row(r, gid0 + prev.group_rows.len(), stamp),
                    ),
                    events: prev.events.push(spec_promoted_event(r, stamp)),
                }
            } else if r.receiver is Some {
                TickEffect {
                    sched: prev.sched.push(spec_sent_row(r)),
                    direct_rows: prev.direct_rows.push(
                        spec_promoted_row(r, did0 + prev.direct_rows.len(), stamp),
                    ),
                    group_rows: prev.group_rows,
                    events: prev.events.push(spec_promoted_event(r, stamp)),
                }
            } else {
                TickEffect { sched: prev.sched.push(spec_sent_row(r)), ..prev }
            }
        } else {
            TickEffect { sched: prev.sched.push(r), ..prev }
        }
    }
}

/// The table after a tick is the same table row for row, with exactly the
/// promoted rows marked sent.
pub proof fn lemma_tick_sched_pointwise(
    rows: Seq<ScheduledView>,
    now: int,
    batch: int,
    stamp: Seq<char>,
    did0: int,
    gid0: int,
)
    ensures
        spec_tick(rows, now, batch, stamp, did0, gid0).sched.len() == rows.len(),
        forall|i: int|
            0 <= i < rows.len() ==> #[trigger] spec_tick(rows, now, batch, stamp, did0, gid0).sched[i]
                == if picked(rows, now, batch, i) {
                spec_sent_row(rows[i])
            } else {
                rows[i]
            },
    decreases rows.len(),
{
    if rows.len() > 0 {
        let prev = rows.drop_last();
        lemma_tick_sched_pointwise(prev, now, batch, stamp, did0, gid0);
        assert(rows.take(rows.len() - 1) =~= prev);
        assert forall|i: int| 0 <= i < rows.len() - 1 implies rows.take(i) =~= prev.take(i) by {
            assert(rows.take(i) =~= prev.take(i));
        }
    }
}

/// The number of due rows in a prefix never exceeds the number in the
/// whole table.
pub proof fn lemma_due_count_prefix(rows: Seq<ScheduledView>, now: int, i: int)
    requires
        0 <= i <= rows.len(),
    ensures
        due_count(rows.take(i), now) <= due_count(rows, now),
        due_count(rows.take(i), now) + if i < rows.len() && is_due(rows[i], now) {
            1int
        } else {
            0int
        } <= due_count(rows, now),
    decreases rows.len() - i,
{
    if i < rows.len() {
        lemma_due_count_prefix(rows, now, i + 1);
        assert(rows.take(i + 1).drop_last() =~= rows.take(i));
        assert(rows.take(i + 1).last() == rows[i]);
    } else {
        assert(rows.take(i) =~= rows);
    }
}

/// Law: when the backlog fits in one batch, every due row is marked sent
/// by the tick; rows already sent, and rows not yet due, are untouched.
pub proof fn tick_sends_every_due_row(
    rows: Seq<ScheduledView>,
    now: int,
    batch: int,
    stamp: Seq<char>,
    did0: int,
    gid0: int,
)
    requires
        due_count(rows, now) <= batch,
    ensures
        forall|i: int|
            0 <= i < rows.len() && is_due(#[trigger] rows[i], now) ==> spec_tick(
                rows,
                now,
                batch,
                stamp,
                did0,
                gid0,
            ).sched[i] == spec_sent_row(rows[i]),
        forall|i: int|
            0 <= i < rows.len() && !is_due(#[trigger] rows[i], now) ==> spec_tick(
                rows,
                now,
                batch,
                stamp,
                did0,
                gid0,
            ).sched[i] == rows[i],
{
    lemma_tick_sched_pointwise(rows, now, batch, stamp, did0, gid0);
    assert forall|i: int| 0 <= i < rows.len() && is_due(#[trigger] rows[i], now) implies picked(
        rows,
        now,
        batch,
        i,
    ) by {
        lemma_due_count_prefix(rows, now, i);
    }
}

/// Law: a promoted row is never selected again — after the tick it is no
/// longer due at any later time, so a second tick over the same table
/// picks none of the rows the first one promoted.
pub proof fn tick_never_reselects(
    rows: Seq<ScheduledView>,
    now: int,
    batch: int,
    stamp: Seq<char>,
    did0: int,
    gid0: int,
    now2: int,
    batch2: int,
    i: int,
)
    requires
        0 <= i < rows.len(),
        picked(rows, now, batch, i),
    ensures
        !is_due(spec_tick(rows, now, batch, stamp, did0, gid0).sched[i], now2),
        !picked(spec_tick(rows, now, batch, stamp, did0, gid0).sched, now2, batch2, i),
{
    lemma_tick_sched_pointwise(rows, now, batch, stamp, did0, gid0);
}

/// Law: when the backlog fits in one batch, every due row addressed to a
/// group or a receiver is published as its live event by this very tick.
pub proof fn tick_emits_event_for_due_row(
    rows: Seq<ScheduledView>,
    now: int,
    batch: int,
    stamp: Seq<char>,
    did0: int,
    gid0: int,
    i: int,
)
    requires
        due_count(rows, now) <= batch,
        0 <= i < rows.len(),
        is_due(rows[i], now),
        group_target(rows[i]) || direct_target(rows[i]),
    ensures
        spec_tick(rows, now, batch, stamp, did0, gid0).events.contains(
            spec_promoted_event(rows[i], stamp),
        ),
    decreases rows.len(),
{
    let eff = spec_tick(rows, now, batch, stamp, did0, gid0);
    let prev = rows.drop_last();
    if i == rows.len() - 1 {
        lemma_due_count_prefix(rows, now, i);
        assert(rows.take(i) =~= prev);
        assert(eff.events.last() == spec_promoted_event(rows[i], stamp));
    } else {
        assert(due_count(prev, now) <= due_count(rows, now)) by {
            lemma_due_count_prefix(rows, now, rows.len() - 1);
            assert(rows.take(rows.len() - 1) =~= prev);
        }
        tick_emits_event_for_due_row(prev, now, batch, stamp, did0, gid0, i);
        let ev = spec_promoted_event(rows[i], stamp);
        let prev_events = spec_tick(prev, now, batch, stamp, did0, gid0).events;
        let k = choose|k: int| 0 <= k < prev_events.len() && prev_events[k] == ev;
        assert(eff.events[k] == ev);
    }
}

/// The scheduled-message table: rows in insertion order under strictly
/// increasing ids.
pub struct ScheduledStore {
    rows: Vec<ScheduledRow>,
    next_id: i64,
}

impl ScheduledStore {
    pub closed spec fn view(&self) -> Seq<ScheduledView> {
        self.rows@.map_values(|r: ScheduledRow| r@)
    }

    pub closed spec fn spec_next_id(&self) -> int {
        self.next_id as int
    }

    pub open spec fn wf(&self) -> bool {
        &&& 1 <= self.spec_next_id()
        &&& forall|i: int|
            0 <= i < self@.len() ==> 1 <= (#[trigger] self@[i]).id < self.spec_next_id()
        &&& forall|i: int, j: int| 0 <= i < j < self@.len() ==> self@[i].id < self@[j].id
    }

    pub fn new() -> (r: Self)
        ensures
            r@ == Seq::<ScheduledView>::empty(),
            r.wf(),
            r.spec_next_id() == 1,
    {
        let r = ScheduledStore { rows: Vec::new(), next_id: 1 };
        proof {
            assert(r@ =~= Seq::<ScheduledView>::empty());
        }
        r
    }

    pub fn len(&self) -> (r: usize)
        ensures
            r == self@.len(),
    {
        self.rows.len()
    }

    /// The id the next insert will assign.
    pub fn next_id(&self) -> (r: i64)
        ensures
            r == self.spec_next_id(),
    {
        self.next_id
    }

    pub fn row_at(&self, i: usize) -> (r: &ScheduledRow)
        requires
            i < self@.len(),
        ensures
            r@ == self@[i as int],
    {
        &self.rows[i]
    }

    /// Record a delayed message, unsent, under a fresh id.
    pub fn insert(
        &mut self,
        sender: &str,
        receiver: Option<&str>,
        group_id: Option<i64>,
        body: &str,
        due_epoch: i64,
    ) -> (id: i64)
        requires
            old(self).wf(),
            old(self).spec_next_id() < i64::MAX,
        ensures
            final(self).wf(),
            id == old(self).spec_next_id(),
            final(self).spec_next_id() == old(self).spec_next_id() + 1,
            final(self)@ == old(self)@.push(
                ScheduledView {
                    id: id as int,
                    sender: sender@,
                    receiver: match receiver {
                        Some(t) => Some(t@),
                        None => None,
                    },
                    group_id: match group_id {
                        Some(g) => Some(g as int),
                        None => None,
                    },
                    body: body@,
                    due_epoch: due_epoch as int,
                    sent: false,
                },
            ),
    {
        let id = self.next_id;
        let row = ScheduledRow {
            id,
            sender: sender.to_owned(),
            receiver: match receiver {
                Some(t) => Some(t.to_owned()),
                None => None,
            },
            group_id,
            body: body.to_owned(),
            due_epoch,
            sent: false,
        };
        self.rows.push(row);
        self.next_id = id + 1;
        proof {
            assert(final(self)@ =~= old(self)@.push(final(self)@[old(self)@.len() as int]));
        }
        id
    }
}

/// One pass of the scheduler: promote up to `batch` due rows, in table
/// order — persist each as an ordinary message, collect its live event,
/// and mark the row sent. Returns the events to publish, in order.
pub fn scheduler_tick(
    sched: &mut ScheduledStore,
    direct: &mut MessageStore,
    group: &mut MessageStore,
    now_epoch: i64,
    stamp: &str,
    batch: usize,
) -> (events: Vec<ChatMessage>)
    requires
        old(sched).wf(),
        old(direct).wf(),
        old(group).wf(),
        old(direct).spec_next_id() + old(sched)@.len() < i64::MAX,
        old(group).spec_next_id() + old(sched)@.len() < i64::MAX,
    ensures
        final(sched).wf(),
        final(direct).wf(),
        final(group).wf(),
        final(sched).spec_next_id() == old(sched).spec_next_id(),
        final(sched)@ == spec_tick(
            old(sched)@,
            now_epoch as int,
            batch as int,
            stamp@,
            old(direct).spec_next_id(),
            old(group).spec_next_id(),
        ).sched,
        final(direct)@ == old(direct)@ + spec_tick(
            old(sched)@,
            now_epoch as int,
            batch as int,
            stamp@,
            old(direct).spec_next_id(),
            old(group).spec_next_id(),
        ).direct_rows,
        final(group)@ == old(group)@ + spec_tick(
            old(sched)@,
            now_epoch as int,
            batch as int,
            stamp@,
            old(direct).spec_next_id(),
            old(group).spec_next_id(),
        ).group_rows,
        events@.map_values(|m: ChatMessage| m@) == spec_tick(
            old(sched)@,
            now_epoch as int,
            batch as int,
            stamp@,
            old(direct).spec_next_id(),
            old(group).spec_next_id(),
        ).events,
{
    let ghost orig = sched@;
    let ghost did0 = old(direct).spec_next_id();
    let ghost gid0 = old(group).spec_next_id();
    let mut events: Vec<ChatMessage> = Vec::new();
    let mut count: usize = 0;
    let mut i: usize = 0;
    let n = sched.rows.len();
    proof {
        assert(orig.take(0) =~= Seq::<ScheduledView>::empty());
        assert(sched@ =~= spec_tick(orig.take(0), now_epoch as int, batch as int, stamp@, did0, gid0).sched
            + orig.skip(0));
        assert(direct@ =~= old(direct)@ + spec_tick(
            orig.take(0),
            now_epoch as int,
            batch as int,
            stamp@,
            did0,
            gid0,
        ).direct_rows);
        assert(group@ =~= old(group)@ + spec_tick(
            orig.take(0),
            now_epoch as int,
            batch as int,
            stamp@,
            did0,
            gid0,
        ).group_rows);
        assert(events@.map_values(|m: ChatMessage| m@) =~= spec_tick(
            orig.take(0),
            now_epoch as int,
            batch as int,
            stamp@,
            did0,
            gid0,
        ).events);
    }
    while i < n
        invariant
            n == sched.rows@.len(),
            n == orig.len(),
            i <= n,
            sched.next_id == old(sched).next_id,
            old(sched).wf(),
            direct.wf(),
            group.wf(),
            did0 == old(direct).spec_next_id(),
            gid0 == old(group).spec_next_id(),
            did0 + orig.len() < i64::MAX,
            gid0 + orig.len() < i64::MAX,
            ({
                let eff = spec_tick(orig.take(i as int), now_epoch as int, batch as int, stamp@, did0, gid0);
                &&& sched@ == eff.sched + orig.skip(i as int)
                &&& direct@ == old(direct)@ + eff.direct_rows
                &&& group@ == old(group)@ + eff.group_rows
                &&& events@.map_values(|m: ChatMessage| m@) == eff.events
                &&& direct.spec_next_id() == did0 + eff.direct_rows.len()
                &&& group.spec_next_id() == gid0 + eff.group_rows.len()
                &&& eff.direct_rows.len() <= i
                &&& eff.group_rows.len() <= i
                &&& count == due_count(orig.take(i as int), now_epoch as int)
                &&& count <= i
            }),
        decreases n - i,
    {
        let ghost eff_i = spec_tick(orig.take(i as int), now_epoch as int, batch as int, stamp@, did0, gid0);
        proof {
            lemma_tick_sched_pointwise(
                orig.take(i as int),
                now_epoch as int,
                batch as int,
                stamp@,
                did0,
                gid0,
            );
            assert(orig.take(i + 1).drop_last() =~= orig.take(i as int));
            assert(orig.take(i + 1).last() == orig[i as int]);
            assert(eff_i.sched.len() == i);
            assert(orig.skip(i as int)[0] == orig[i as int]);
            assert(sched@[i as int] == orig[i as int]);
        }
        let due_now = !sched.rows[i].sent && sched.rows[i].due_epoch <= now_epoch;
        if due_now && count < batch {
            let sender = sched.rows[i].sender.clone();
            let body = sched.rows[i].body.clone();
            let receiver = match sched.rows[i].receiver {
                Some(ref t) => Some(t.clone()),
                None => None,
            };
            let gid = sched.rows[i].group_id;
            let ghost prev_rows = sched.rows@;
            let ghost prev_view = sched@;
            sched.rows[i].sent = true;
            proof {
                assert(sched.rows@[i as int]@ =~= spec_sent_row(orig[i as int]));
                assert(sched@[i as int] == spec_sent_row(orig[i as int]));
                assert forall|k: int| 0 <= k < n && k != i implies sched@[k] == prev_view[k] by {
                    assert(sched.rows@[k] == prev_rows[k]);
                }
                let rhs = eff_i.sched.push(spec_sent_row(orig[i as int])) + orig.skip(i + 1);
                assert(sched@.len() == n);
                assert(rhs.len() == n);
                assert forall|k: int| 0 <= k < n implies sched@[k] == rhs[k] by {
                    if k < i {
                        assert(prev_view[k] == eff_i.sched[k]);
                        assert(rhs[k] == eff_i.sched[k]);
                    } else if k == i {
                        assert(rhs[k] == spec_sent_row(orig[i as int]));
                    } else {
                        assert(prev_view[k] == orig.skip(i as int)[k - i]);
                        assert(orig.skip(i as int)[k - i] == orig[k]);
                        assert(rhs[k] == orig.skip(i + 1)[k - (i + 1)]);
                        assert(orig.skip(i + 1)[k - (i + 1)] == orig[k]);
                    }
                }
                assert(sched@ =~= rhs);
            }
            let is_group = match gid {
                Some(g) => g > 0,
                None => false,
            };
            if is_group {
                let g = match gid {
                    Some(g) => g,
                    None => 0,
                };
                group.insert(Some(g), sender.as_str(), "", body.as_str(), stamp, None);
                let ev = ChatMessage {
                    id: 0,
                    group_id: Some(g),
                    sender_username: sender,
                    receiver_username: String::new(),
                    message: body,
                    timestamp: stamp.to_owned(),
                    reactions: Vec::new(),
                    reveal_at: None,
                };
                proof {
                    reveal_strlit("");
                    assert(ev@ =~= spec_promoted_event(orig[i as int], stamp@));
                }
                let ghost prev_events = events@;
                events.push(ev);
                proof {
                    let eff_n = spec_tick(
                        orig.take(i + 1),
                        now_epoch as int,
                        batch as int,
                        stamp@,
                        did0,
                        gid0,
                    );
                    assert(group@ =~= old(group)@ + eff_i.group_rows.push(
                        spec_promoted_row(orig[i as int], gid0 + eff_i.group_rows.len(), stamp@),
                    ));
                    assert(eff_n.group_rows =~= eff_i.group_rows.push(
                        spec_promoted_row(orig[i as int], gid0 + eff_i.group_rows.len(), stamp@),
                    ));
                    assert(events@.map_values(|m: ChatMessage| m@) =~= prev_events.map_values(
                        |m: ChatMessage| m@,
                    ).push(spec_promoted_event(orig[i as int], stamp@)));
                    assert(events@.map_values(|m: ChatMessage| m@) =~= eff_n.events);
                }
            } else {
                match receiver {
                    Some(rcv) => {
                        direct.insert(
                            None,
                            sender.as_str(),
                            rcv.as_str(),
                            body.as_str(),
                            stamp,
                            None,
                        );
                        let ev = ChatMessage {
                            id: 0,
                            group_id: None,
                            sender_username: sender,
                            receiver_username: rcv,
                            message: body,
                            timestamp: stamp.to_owned(),
                            reactions: Vec::new(),
                            reveal_at: None,
                        };
                        proof {
                            assert(ev@ =~= spec_promoted_event(orig[i as int], stamp@));
                        }
                        let ghost prev_events = events@;
                        events.push(ev);
                        proof {
                            let eff_n = spec_tick(
                                orig.take(i + 1),
                                now_epoch as int,
                                batch as int,
                                stamp@,
                                did0,
                                gid0,
                            );
                            assert(direct@ =~= old(direct)@ + eff_i.direct_rows.push(
                                spec_promoted_row(
                                    orig[i as int],
                                    did0 + eff_i.direct_rows.len(),
                                    stamp@,
                                ),
                            ));
                            assert(eff_n.direct_rows =~= eff_i.direct_rows.push(
                                spec_promoted_row(
                                    orig[i as int],
                                    did0 + eff_i.direct_rows.len(),
                                    stamp@,
                                ),
                            ));
                            assert(events@.map_values(|m: ChatMessage| m@) =~= prev_events.map_values(
                                |m: ChatMessage| m@,
                            ).push(spec_promoted_event(orig[i as int], stamp@)));
                            assert(events@.map_values(|m: ChatMessage| m@) =~= eff_n.events);
                        }
                    },
                    None => {
                        proof {
                            let eff_n = spec_tick(
                                orig.take(i + 1),
                                now_epoch as int,
                                batch as int,
                                stamp@,
                                did0,
                                gid0,
                            );
                            assert(eff_n.direct_rows == eff_i.direct_rows);
                            assert(eff_n.group_rows == eff_i.group_rows);
                            assert(eff_n.events == eff_i.events);
                        }
                    },
                }
            }
            count += 1;
        } else {
            proof {
                let eff_n = spec_tick(
                    orig.take(i + 1),
                    now_epoch as int,
                    batch as int,
                    stamp@,
                    did0,
                    gid0,
                );
                assert(eff_n.sched =~= eff_i.sched.push(orig[i as int]));
                assert(sched@ =~= eff_n.sched + orig.skip(i + 1));
            }
            if due_now {
                count += 1;
            }
        }
        i += 1;
    }
    proof {
        assert(orig.take(n as int) =~= orig);
        assert(orig.skip(n as int) =~= Seq::<ScheduledView>::empty());
        let eff = spec_tick(orig, now_epoch as int, batch as int, stamp@, did0, gid0);
        assert(sched@ =~= eff.sched + orig.skip(n as int));
        assert(sched@ =~= eff.sched);
        lemma_tick_sched_pointwise(orig, now_epoch as int, batch as int, stamp@, did0, gid0);
    }
    events
}

} // verus!
