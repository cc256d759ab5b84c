//! The request and response shapes of the group-administration endpoints,
//! and the small decisions those handlers make. The HTTP plumbing and the
//! storage round-trips live outside the library.

use vstd::prelude::*;
use crate::text::str_eq;

verus! {

pub struct CreateGroupRequest {
    pub name: String,
    pub description: Option<String>,
    pub members: Vec<String>,
    pub ghost_mode: Option<bool>,
}

pub struct UpdateGroupRequest {
    pub group_id: i64,
    pub name: Option<String>,
    pub description: Option<String>,
    pub ghost_mode: Option<bool>,
}

pub struct JoinLeaveGroupRequest {
    pub group_id: i64,
    pub username: String,
}

pub struct GroupResponse {
    pub id: i64,
    pub name: String,
    pub description: Option<String>,
    pub members: Vec<String>,
    pub is_member: bool,
    pub ghost_mode: bool,
}

pub struct GroupsListResponse {
    pub member_groups: Vec<GroupResponse>,
    pub available_groups: Vec<GroupResponse>,
}

impl CreateGroupRequest {
    /// Ghost mode is off unless the request asks for it.
    pub fn ghost_mode_or_default(&self) -> (r: bool)
        ensures
            r == match self.ghost_mode {
                Some(g) => g,
                None => false,
            },
    {
        match self.ghost_mode {
            Some(g) => g,
            None => false,
        }
    }

    /// The member list of the new group: the requested members, with the
    /// creator appended when not already among them.
    pub fn members_with_creator(&self, creator: &str) -> (r: Vec<String>)
        ensures
            self.members@.map_values(|m: String| m@).contains(creator@) ==> r@.map_values(
                |m: String| m@,
            ) == self.members@.map_values(|m: String| m@),
            !self.members@.map_values(|m: String| m@).contains(creator@) ==> r@.map_values(
                |m: String| m@,
            ) == self.members@.map_values(|m: String| m@).push(creator@),
    {
        let mut r: Vec<String> = Vec::new();
        let n = self.members.len();
        let mut i: usize = 0;
        let mut found = false;
        while i < n
            invariant
                n == self.members@.len(),
                i <= n,
                r@.len() == i,
                forall|j: int| 0 <= j < i ==> (#[trigger] r@[j])@ == self.members@[j]@,
                found == exists|j: int| 0 <= j < i && (#[trigger] self.members@[j])@ == creator@,
            decreases n - i,
        {
            if str_eq(self.members[i].as_str(), creator) {
                found = true;
            }
            r.push(self.members[i].clone());
            i += 1;
        }
        let ghost mv = self.members@.map_values(|m: String| m@);
        proof {
            if found {
                let j = choose|j: int| 0 <= j < n && (#[trigger] self.members@[j])@ == creator@;
                assert(mv[j] == creator@);
            } else {
                if mv.contains(creator@) {
                    let j = choose|j: int| 0 <= j < mv.len() && mv[j] == creator@;
                    assert(self.members@[j]@ == creator@);
                    assert(false);
                }
            }
        }
        if !found {
            r.push(creator.to_owned());
            proof {
                assert(r@.map_values(|m: String| m@) =~= mv.push(creator@));
            }
        } else {
            proof {
                assert(r@.map_values(|m: String| m@) =~= mv);
            }
        }
        r
    }
}

impl JoinLeaveGroupRequest {
    /// A user may join or leave only on their own behalf: the
    /// authenticated identity must be the named user, compared exactly.
    pub fn authorized_for(&self, auth_username: &str) -> (r: bool)
        ensures
            r == (self.username@ == auth_username@),
    {
        str_eq(self.username.as_str(), auth_username)
    }
}

} // verus!
