//! The session registry: the one mutable structure shared by every
//! connection. It maps each live connection to its user and supports a
//! point-in-time snapshot, so that global fan-outs iterate a copy and
//! never hold the registry across socket writes.

use vstd::prelude::*;

verus! {

/// Mathematical shape of a registry entry.
pub struct SessionView {
    pub connection_id: u64,
    pub username: Seq<char>,
}

/// One live connection: its unique id and the authenticated user behind
/// it. Several sessions may share a username (multi-device).
pub struct Session {
    pub connection_id: u64,
    pub username: String,
}

impl View for Session {
    type V = SessionView;

    open spec fn view(&self) -> SessionView {
        SessionView { connection_id: self.connection_id, username: self.username@ }
    }
}

impl Clone for Session {
    fn clone(&self) -> (r: Self)
        ensures
            r@ == self@,
    {
        Session { connection_id: self.connection_id, username: self.username.clone() }
    }
}

pub open spec fn spec_has_id(s: Seq<SessionView>, cid: u64) -> bool {
    exists|i: int| 0 <= i < s.len() && (#[trigger] s[i]).connection_id == cid
}

/// Registry entries in registration order, connection ids unique.
pub struct Registry {
    sessions: Vec<Session>,
}

impl Registry {
    pub closed spec fn view(&self) -> Seq<SessionView> {
        self.sessions@.map_values(|s: Session| s@)
    }

    /// Entries are one-to-one with connections: no id occurs twice.
    pub open spec fn wf(&self) -> bool {
        forall|i: int, j: int|
            0 <= i < j < self@.len() ==> self@[i].connection_id != self@[j].connection_id
    }

    pub fn new() -> (r: Self)
        ensures
            r@ == Seq::<SessionView>::empty(),
            r.wf(),
    {
        let r = Registry { sessions: Vec::new() };
        proof {
            assert(r@ =~= Seq::<SessionView>::empty());
        }
        r
    }

    pub fn len(&self) -> (r: usize)
        ensures
            r == self@.len(),
    {
        self.sessions.len()
    }

    /// Add a session under a fresh connection id; an id already present is
    /// refused and nothing changes.
    pub fn register(&mut self, session: Session) -> (r: bool)
        requires
            old(self).wf(),
        ensures
            final(self).wf(),
            r == !spec_has_id(old(self)@, session.connection_id),
            r ==> final(self)@ == old(self)@.push(session@),
            !r ==> final(self)@ == old(self)@,
    {
        let mut i: usize = 0;
        let n = self.sessions.len();
        while i < n
            invariant
                *self == *old(self),
                old(self).wf(),
                n == self@.len(),
                n == self.sessions@.len(),
                i <= n,
                forall|j: int| 0 <= j < i ==> (#[trigger] self@[j]).connection_id != session.connection_id,
            decreases n - i,
        {
            if self.sessions[i].connection_id == session.connection_id {
                proof {
                    assert(self@[i as int].connection_id == session.connection_id);
                }
                return false;
            }
            i += 1;
        }
        self.sessions.push(session);
        proof {
            assert(final(self)@ =~= old(self)@.push(session@));
        }
        true
    }

    /// Remove the session of a closed connection; reports whether it was
    /// present. Removing the entry at its index shifts later entries
    /// forward, keeping registration order.
    pub fn unregister(&mut self, connection_id: u64) -> (r: bool)
        requires
            old(self).wf(),
        ensures
            final(self).wf(),
            r == spec_has_id(old(self)@, connection_id),
            !r ==> final(self)@ == old(self)@,
            r ==> exists|i: int|
                0 <= i < old(self)@.len() && (#[trigger] old(self)@[i]).connection_id
                    == connection_id && final(self)@ == old(self)@.remove(i),
            !spec_has_id(final(self)@, connection_id),
    {
        let mut i: usize = 0;
        let n = self.sessions.len();
        while i < n
            invariant
                *self == *old(self),
                old(self).wf(),
                n == self@.len(),
                n == self.sessions@.len(),
                i <= n,
                forall|j: int| 0 <= j < i ==> (#[trigger] self@[j]).connection_id != connection_id,
            decreases n - i,
        {
            if self.sessions[i].connection_id == connection_id {
                proof {
                    assert(self@[i as int].connection_id == connection_id);
                }
                self.sessions.remove(i);
                proof {
                    assert(self@ =~= old(self)@.remove(i as int));
                    assert forall|k: int| 0 <= k < self@.len() implies (#[trigger] self@[k]).connection_id
                        != connection_id by {
                        if k < i {
                            assert(self@[k] == old(self)@[k]);
                        } else {
                            assert(self@[k] == old(self)@[k + 1]);
                        }
                    }
                }
                return true;
            }
            i += 1;
        }
        false
    }

    /// A point-in-time copy of every registered session, safe to iterate
    /// after the registry is released.
    pub fn snapshot(&self) -> (r: Vec<Session>)
        ensures
            r@.map_values(|s: Session| s@) == self@,
    {
        let mut r: Vec<Session> = Vec::new();
        let mut i: usize = 0;
        let n = self.sessions.len();
        while i < n
            invariant
                n == self.sessions@.len(),
                i <= n,
                r@.len() == i,
                forall|j: int| 0 <= j < i ==> (#[trigger] r@[j])@ == self@[j],
            decreases n - i,
        {
            r.push(self.sessions[i].clone());
            i += 1;
        }
        proof {
            assert(r@.map_values(|s: Session| s@) =~= self@);
        }
        r
    }

    /// The usernames currently registered whose session accepts a direct
    /// event is decided per event by the delivery filter; the registry
    /// itself only answers who is connected.
    pub fn usernames(&self) -> (r: Vec<String>)
        ensures
            r@.len() == self@.len(),
            forall|i: int| 0 <= i < r@.len() ==> (#[trigger] r@[i])@ == self@[i].username,
    {
        let mut r: Vec<String> = Vec::new();
        let mut i: usize = 0;
        let n = self.sessions.len();
        while i < n
            invariant
                n == self.sessions@.len(),
                i <= n,
                r@.len() == i,
                forall|j: int| 0 <= j < i ==> (#[trigger] r@[j])@ == self@[j].username,
            decreases n - i,
        {
            r.push(self.sessions[i].username.clone());
            i += 1;
        }
        r
    }
}

} // verus!
