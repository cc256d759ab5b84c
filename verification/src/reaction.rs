//! In-memory models of the reaction table (one row per message, user and
//! emoji, duplicates ignored) and the pin table (at most one row per
//! message).

use vstd::prelude::*;
use crate::text::{lex_le, str_eq, str_le};

verus! {

pub struct ReactionView {
    pub message_id: int,
    pub username: Seq<char>,
    pub emoji: Seq<char>,
}

pub struct ReactionRow {
    pub message_id: i64,
    pub username: String,
    pub emoji: String,
}

impl View for ReactionRow {
    type V = ReactionView;

    open spec fn view(&self) -> ReactionView {
        ReactionView { message_id: self.message_id as int, username: self.username@, emoji: self.emoji@ }
    }
}

impl Clone for ReactionRow {
    fn clone(&self) -> (r: Self)
        ensures
            r@ == self@,
    {
        ReactionRow {
            message_id: self.message_id,
            username: self.username.clone(),
            emoji: self.emoji.clone(),
        }
    }
}

pub open spec fn reaction_eq(r: ReactionView, mid: int, username: Seq<char>, emoji: Seq<char>) -> bool {
    r.message_id == mid && r.username == username && r.emoji == emoji
}

pub open spec fn spec_has_reaction(
    rows: Seq<ReactionView>,
    mid: int,
    username: Seq<char>,
    emoji: Seq<char>,
) -> bool {
    exists|i: int| 0 <= i < rows.len() && reaction_eq(#[trigger] rows[i], mid, username, emoji)
}

/// The (username, emoji) pairs recorded for one message, in insertion order.
pub open spec fn spec_reactions_for(rows: Seq<ReactionView>, mid: int) -> Seq<
    (Seq<char>, Seq<char>),
> {
    rows.filter(|r: ReactionView| r.message_id == mid).map_values(
        |r: ReactionView| (r.username, r.emoji),
    )
}

pub struct ReactionStore {
    rows: Vec<ReactionRow>,
}

impl ReactionStore {
    pub closed spec fn view(&self) -> Seq<ReactionView> {
        self.rows@.map_values(|r: ReactionRow| r@)
    }

    pub fn new() -> (r: Self)
        ensures
            r@ == Seq::<ReactionView>::empty(),
    {
        let r = ReactionStore { rows: Vec::new() };
        proof {
            assert(r@ =~= Seq::<ReactionView>::empty());
        }
        r
    }

    pub fn contains(&self, mid: i64, username: &str, emoji: &str) -> (r: bool)
        ensures
            r == spec_has_reaction(self@, mid as int, username@, emoji@),
    {
        let mut i: usize = 0;
        let n = self.rows.len();
        while i < n
            invariant
                n == self.rows@.len(),
                n == self@.len(),
                i <= n,
                forall|j: int|
                    0 <= j < i ==> !reaction_eq(#[trigger] self@[j], mid as int, username@, emoji@),
            decreases n - i,
        {
            if self.rows[i].message_id == mid && str_eq(self.rows[i].username.as_str(), username)
                && str_eq(self.rows[i].emoji.as_str(), emoji) {
                proof {
                    assert(reaction_eq(self@[i as int], mid as int, username@, emoji@));
                }
                return true;
            }
            proof {
                assert(!reaction_eq(self@[i as int], mid as int, username@, emoji@));
            }
            i += 1;
        }
        false
    }

    /// Record a reaction; an exact duplicate is ignored, as an insert under
    /// a unique key with the ignore policy would. Reports whether a row was
    /// added.
    pub fn add(&mut self, mid: i64, username: &str, emoji: &str) -> (r: bool)
        ensures
            r == !spec_has_reaction(old(self)@, mid as int, username@, emoji@),
            r ==> final(self)@ == old(self)@.push(
                ReactionView { message_id: mid as int, username: username@, emoji: emoji@ },
            ),
            !r ==> final(self)@ == old(self)@,
    {
        if self.contains(mid, username, emoji) {
            false
        } else {
            self.rows.push(
                ReactionRow {
                    message_id: mid,
                    username: username.to_owned(),
                    emoji: emoji.to_owned(),
                },
            );
            proof {
                assert(final(self)@ =~= old(self)@.push(
                    ReactionView { message_id: mid as int, username: username@, emoji: emoji@ },
                ));
            }
            true
        }
    }

    /// Remove a reaction row; reports whether one was present.
    pub fn remove(&mut self, mid: i64, username: &str, emoji: &str) -> (r: bool)
        ensures
            final(self)@ == old(self)@.filter(
                |x: ReactionView| !reaction_eq(x, mid as int, username@, emoji@),
            ),
            r == spec_has_reaction(old(self)@, mid as int, username@, emoji@),
    {
        let ghost orig = self@;
        let mut kept: Vec<ReactionRow> = Vec::new();
        let mut removed = false;
        let mut i: usize = 0;
        let n = self.rows.len();
        proof {
            assert(orig.subrange(0, 0).filter(
                |x: ReactionView| !reaction_eq(x, mid as int, username@, emoji@),
            ) =~= Seq::<ReactionView>::empty());
            assert(kept@.map_values(|r: ReactionRow| r@) =~= Seq::<ReactionView>::empty());
        }
        while i < n
            invariant
                n == self.rows@.len(),
                self@ == orig,
                orig.len() == n,
                i <= n,
                kept@.map_values(|r: ReactionRow| r@) == orig.subrange(0, i as int).filter(
                    |x: ReactionView| !reaction_eq(x, mid as int, username@, emoji@),
                ),
                removed == exists|j: int|
                    0 <= j < i && reaction_eq(#[trigger] orig[j], mid as int, username@, emoji@),
            decreases n - i,
        {
            let hit = self.rows[i].message_id == mid && str_eq(
                self.rows[i].username.as_str(),
                username,
            ) && str_eq(self.rows[i].emoji.as_str(), emoji);
            proof {
                assert(orig[i as int] == self.rows@[i as int]@);
                assert(reaction_eq(orig[i as int], mid as int, username@, emoji@) == hit);
                assert(orig.subrange(0, i + 1) =~= orig.subrange(0, i as int).push(orig[i as int]));
                orig.subrange(0, i as int).lemma_filter_push(
                    orig[i as int],
                    |x: ReactionView| !reaction_eq(x, mid as int, username@, emoji@),
                );
            }
            if hit {
                removed = true;
            } else {
                kept.push(self.rows[i].clone());
                proof {
                    assert(kept@.map_values(|r: ReactionRow| r@) =~= orig.subrange(
                        0,
                        i + 1,
                    ).filter(|x: ReactionView| !reaction_eq(x, mid as int, username@, emoji@)));
                }
            }
            i += 1;
        }
        proof {
            assert(orig.subrange(0, n as int) =~= orig);
        }
        self.rows = kept;
        removed
    }

    /// How many reaction rows are recorded.
    pub fn len(&self) -> (r: usize)
        ensures
            r == self@.len(),
    {
        self.rows.len()
    }

    /// The (username, emoji) pairs for one message, in insertion order.
    pub fn reactions_for(&self, mid: i64) -> (r: Vec<(String, String)>)
        ensures
            r@.map_values(|p: (String, String)| (p.0@, p.1@)) == spec_reactions_for(
                self@,
                mid as int,
            ),
    {
        let ghost orig = self@;
        let mut out: Vec<(String, String)> = Vec::new();
        let mut i: usize = 0;
        let n = self.rows.len();
        proof {
            assert(orig.subrange(0, 0).filter(|x: ReactionView| x.message_id == mid as int)
                =~= Seq::<ReactionView>::empty());
            assert(out@.map_values(|p: (String, String)| (p.0@, p.1@)) =~= orig.subrange(
                0,
                0,
            ).filter(|x: ReactionView| x.message_id == mid as int).map_values(
                |r: ReactionView| (r.username, r.emoji),
            ));
        }
        while i < n
            invariant
                n == self.rows@.len(),
                self@ == orig,
                orig.len() == n,
                i <= n,
                out@.map_values(|p: (String, String)| (p.0@, p.1@)) == orig.subrange(
                    0,
                    i as int,
                ).filter(|x: ReactionView| x.message_id == mid as int).map_values(
                    |r: ReactionView| (r.username, r.emoji),
                ),
            decreases n - i,
        {
            proof {
                assert(orig[i as int] == self.rows@[i as int]@);
                assert(orig.subrange(0, i + 1) =~= orig.subrange(0, i as int).push(orig[i as int]));
                orig.subrange(0, i as int).lemma_filter_push(
                    orig[i as int],
                    |x: ReactionView| x.message_id == mid as int,
                );
            }
            if self.rows[i].message_id == mid {
                let ghost prev = out@;
                out.push((self.rows[i].username.clone(), self.rows[i].emoji.clone()));
                proof {
                    assert(out@.map_values(|p: (String, String)| (p.0@, p.1@)) =~= prev.map_values(
                        |p: (String, String)| (p.0@, p.1@),
                    ).push((orig[i as int].username, orig[i as int].emoji)));
                    assert(orig.subrange(0, i + 1).filter(
                        |x: ReactionView| x.message_id == mid as int,
                    ).map_values(|r: ReactionView| (r.username, r.emoji)) =~= orig.subrange(
                        0,
                        i as int,
                    ).filter(|x: ReactionView| x.message_id == mid as int).map_values(
                        |r: ReactionView| (r.username, r.emoji),
                    ).push((orig[i as int].username, orig[i as int].emoji)));
                }
            } else {
                proof {
                    assert(out@.map_values(|p: (String, String)| (p.0@, p.1@)) =~= orig.subrange(
                        0,
                        i + 1,
                    ).filter(|x: ReactionView| x.message_id == mid as int).map_values(
                        |r: ReactionView| (r.username, r.emoji),
                    ));
                }
            }
            i += 1;
        }
        proof {
            assert(orig.subrange(0, n as int) =~= orig);
        }
        out
    }
}

pub struct PinView {
    pub message_id: int,
    pub pinned_by: Seq<char>,
    pub pinned_at: Seq<char>,
}

/// A pinned message: at most one pin row per message, whoever pinned it.
pub struct PinRow {
    pub message_id: i64,
    pub pinned_by: String,
    pub pinned_at: String,
}

impl View for PinRow {
    type V = PinView;

    open spec fn view(&self) -> PinView {
        PinView {
            message_id: self.message_id as int,
            pinned_by: self.pinned_by@,
            pinned_at: self.pinned_at@,
        }
    }
}

impl Clone for PinRow {
    fn clone(&self) -> (r: Self)
        ensures
            r@ == self@,
    {
        PinRow {
            message_id: self.message_id,
            pinned_by: self.pinned_by.clone(),
            pinned_at: self.pinned_at.clone(),
        }
    }
}

pub open spec fn spec_has_pin(rows: Seq<PinView>, mid: int) -> bool {
    exists|i: int| 0 <= i < rows.len() && (#[trigger] rows[i]).message_id == mid
}

/// Insert a pin into a list ordered by pin time, newest first, after
/// every entry pinned at the same or a later time.
pub open spec fn spec_pin_insert(p: PinView, rest: Seq<PinView>) -> Seq<PinView>
    decreases rest.len(),
{
    if rest.len() == 0 {
        seq![p]
    } else if !lex_le(p.pinned_at, rest[0].pinned_at) {
        seq![p] + rest
    } else {
        seq![rest[0]] + spec_pin_insert(p, rest.skip(1))
    }
}

/// The pin rows ordered by pin time, newest first, input order among
/// equal times.
pub open spec fn spec_pin_sort(ps: Seq<PinView>) -> Seq<PinView>
    decreases ps.len(),
{
    if ps.len() == 0 {
        Seq::empty()
    } else {
        spec_pin_insert(ps.last(), spec_pin_sort(ps.drop_last()))
    }
}

/// The pinned-message table.
pub struct PinStore {
    rows: Vec<PinRow>,
}

impl PinStore {
    pub closed spec fn view(&self) -> Seq<PinView> {
        self.rows@.map_values(|r: PinRow| r@)
    }

    pub fn new() -> (r: Self)
        ensures
            r@ == Seq::<PinView>::empty(),
    {
        let r = PinStore { rows: Vec::new() };
        proof {
            assert(r@ =~= Seq::<PinView>::empty());
        }
        r
    }

    pub fn len(&self) -> (r: usize)
        ensures
            r == self@.len(),
    {
        self.rows.len()
    }

    /// Pin a message; a message already pinned stays pinned by whoever
    /// pinned it first, as an insert under a unique key with the ignore
    /// policy would. Reports whether a row was added.
    pub fn pin(&mut self, mid: i64, pinned_by: &str, pinned_at: &str) -> (r: bool)
        ensures
            r == !spec_has_pin(old(self)@, mid as int),
            r ==> final(self)@ == old(self)@.push(
                PinView { message_id: mid as int, pinned_by: pinned_by@, pinned_at: pinned_at@ },
            ),
            !r ==> final(self)@ == old(self)@,
    {
        let mut i: usize = 0;
        let n = self.rows.len();
        while i < n
            invariant
                *self == *old(self),
                n == self@.len(),
                n == self.rows@.len(),
                i <= n,
                forall|j: int| 0 <= j < i ==> (#[trigger] self@[j]).message_id != mid as int,
            decreases n - i,
        {
            if self.rows[i].message_id == mid {
                proof {
                    assert(self@[i as int].message_id == mid as int);
                }
                return false;
            }
            i += 1;
        }
        self.rows.push(
            PinRow { message_id: mid, pinned_by: pinned_by.to_owned(), pinned_at: pinned_at.to_owned() },
        );
        proof {
            assert(final(self)@ =~= old(self)@.push(
                PinView { message_id: mid as int, pinned_by: pinned_by@, pinned_at: pinned_at@ },
            ));
        }
        true
    }

    /// Unpin a message: the pin rows under that id are removed. Reports
    /// whether one was present.
    pub fn unpin(&mut self, mid: i64) -> (r: bool)
        ensures
            final(self)@ == old(self)@.filter(|p: PinView| p.message_id != mid as int),
            r == spec_has_pin(old(self)@, mid as int),
    {
        let ghost orig = self@;
        let mut kept: Vec<PinRow> = Vec::new();
        let mut removed = false;
        let mut i: usize = 0;
        let n = self.rows.len();
        proof {
            assert(orig.subrange(0, 0).filter(|p: PinView| p.message_id != mid as int) =~= Seq::<
                PinView,
            >::empty());
            assert(kept@.map_values(|r: PinRow| r@) =~= Seq::<PinView>::empty());
        }
        while i < n
            invariant
                n == self.rows@.len(),
                self@ == orig,
                orig.len() == n,
                i <= n,
                kept@.map_values(|r: PinRow| r@) == orig.subrange(0, i as int).filter(
                    |p: PinView| p.message_id != mid as int,
                ),
                removed == exists|j: int| 0 <= j < i && (#[trigger] orig[j]).message_id == mid as int,
            decreases n - i,
        {
            let hit = self.rows[i].message_id == mid;
            proof {
                assert(orig[i as int] == self.rows@[i as int]@);
                assert(orig.subrange(0, i + 1) =~= orig.subrange(0, i as int).push(orig[i as int]));
                orig.subrange(0, i as int).lemma_filter_push(
                    orig[i as int],
                    |p: PinView| p.message_id != mid as int,
                );
            }
            if hit {
                removed = true;
            } else {
                kept.push(self.rows[i].clone());
                proof {
                    assert(kept@.map_values(|r: PinRow| r@) =~= orig.subrange(0, i + 1).filter(
                        |p: PinView| p.message_id != mid as int,
                    ));
                }
            }
            i += 1;
        }
        proof {
            assert(orig.subrange(0, n as int) =~= orig);
        }
        self.rows = kept;
        removed
    }

    /// Reply to a `get_pinned_messages` command: every pin row, ordered
    /// by pin time, newest first.
    pub fn pins_desc(&self) -> (r: Vec<PinRow>)
        ensures
            r@.map_values(|p: PinRow| p@) == spec_pin_sort(self@),
    {
        let mut work: Vec<PinRow> = Vec::new();
        let mut i: usize = 0;
        let n = self.rows.len();
        while i < n
            invariant
                n == self.rows@.len(),
                i <= n,
                work@.len() == i,
                forall|j: int| 0 <= j < i ==> (#[trigger] work@[j])@ == self@[j],
            decreases n - i,
        {
            work.push(self.rows[i].clone());
            i += 1;
        }
        proof {
            assert(work@.map_values(|p: PinRow| p@) =~= self@);
        }
        pin_sort(work)
    }
}

fn pin_insert(p: PinRow, rest: Vec<PinRow>) -> (r: Vec<PinRow>)
    ensures
        r@.map_values(|q: PinRow| q@) == spec_pin_insert(p@, rest@.map_values(|q: PinRow| q@)),
    decreases rest@.len(),
{
    let ghost restv = rest@.map_values(|q: PinRow| q@);
    if rest.len() == 0 {
        let mut out: Vec<PinRow> = Vec::new();
        out.push(p);
        proof {
            assert(out@.map_values(|q: PinRow| q@) =~= seq![p@]);
        }
        out
    } else if !str_le(p.pinned_at.as_str(), rest[0].pinned_at.as_str()) {
        let mut out: Vec<PinRow> = Vec::new();
        out.push(p);
        let mut rest = rest;
        out.append(&mut rest);
        proof {
            assert(out@.map_values(|q: PinRow| q@) =~= seq![p@] + restv);
        }
        out
    } else {
        let mut rest = rest;
        let first = rest.remove(0);
        proof {
            assert(rest@.map_values(|q: PinRow| q@) =~= restv.skip(1));
            assert(first@ == restv[0]);
        }
        let mut out = pin_insert(p, rest);
        let ghost sub = out@.map_values(|q: PinRow| q@);
        out.insert(0, first);
        proof {
            assert(sub == spec_pin_insert(p@, restv.skip(1)));
            assert(out@.map_values(|q: PinRow| q@) =~= seq![restv[0]] + sub);
        }
        out
    }
}

fn pin_sort(ps: Vec<PinRow>) -> (r: Vec<PinRow>)
    ensures
        r@.map_values(|q: PinRow| q@) == spec_pin_sort(ps@.map_values(|q: PinRow| q@)),
    decreases ps@.len(),
{
    let ghost psv = ps@.map_values(|q: PinRow| q@);
    if ps.len() == 0 {
        proof {
            assert(ps@.map_values(|q: PinRow| q@) =~= Seq::<PinView>::empty());
        }
        ps
    } else {
        let mut ps = ps;
        let last = match ps.pop() {
            Some(p) => p,
            None => {
                return ps;
            },
        };
        proof {
            assert(ps@.map_values(|q: PinRow| q@) =~= psv.drop_last());
            assert(last@ == psv.last());
        }
        let sorted = pin_sort(ps);
        pin_insert(last, sorted)
    }
}

} // verus!
