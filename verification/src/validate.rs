//! Checking rows that come from outside against the tracker's invariant.

use vstd::prelude::*;
use crate::models::{Action, CLOSED_TAG_ID, GLOBAL_ISSUE_ID, ROOT_USER_ID};
use crate::table::{ascending, find, is_ascending};
use crate::tracker::{action_ok, link_ok, pairs_unique, Tracker};

verus! {

impl Tracker {
    /// Whether the entry has one populated field and refers to rows that
    /// exist.
    pub fn action_valid(&self, a: &Action) -> (ok: bool)
        requires
            ascending(self.users@),
            ascending(self.issues@),
            ascending(self.tags@),
        ensures
            ok == action_ok(*a, self.users@, self.issues@, self.tags@),
    {
        let mut n: u8 = 0;
        if a.comment.is_some() {
            n = n + 1;
        }
        if a.add_tag.is_some() {
            n = n + 1;
        }
        if a.remove_tag.is_some() {
            n = n + 1;
        }
        if a.create_issue.is_some() {
            n = n + 1;
        }
        if a.create_user.is_some() {
            n = n + 1;
        }
        if n != 1 {
            return false;
        }
        if find(&self.users, a.user_id).is_none() || find(&self.issues, a.issue_id).is_none() {
            return false;
        }
        if a.comment.is_some() {
            true
        } else if let Some(t) = a.add_tag {
            find(&self.tags, t).is_some()
        } else if a.remove_tag.is_some() {
            true
        } else if let Some(i) = a.create_issue {
            find(&self.issues, i).is_some()
        } else if let Some(u) = a.create_user {
            find(&self.users, u).is_some()
        } else {
            false
        }
    }

    /// Whether every entry of the audit log is valid.
    pub fn actions_valid(&self) -> (ok: bool)
        requires
            ascending(self.users@),
            ascending(self.issues@),
            ascending(self.tags@),
        ensures
            ok == forall|k: int|
                0 <= k < self.actions@.len() ==> action_ok(
                    #[trigger] self.actions@[k],
                    self.users@,
                    self.issues@,
                    self.tags@,
                ),
    {
        let mut n: usize = 0;
        while n < self.actions.len()
            invariant
                n <= self.actions@.len(),
                ascending(self.users@),
                ascending(self.issues@),
                ascending(self.tags@),
                forall|k: int|
                    0 <= k < n ==> action_ok(
                        #[trigger] self.actions@[k],
                        self.users@,
                        self.issues@,
                        self.tags@,
                    ),
            decreases self.actions@.len() - n,
        {
            if !self.action_valid(&self.actions[n]) {
                assert(!action_ok(self.actions@[n as int], self.users@, self.issues@, self.tags@));
                return false;
            }
            n = n + 1;
        }
        true
    }

    /// Whether every row of the join table names an issue and a tag that
    /// exist.
    pub fn links_valid(&self) -> (ok: bool)
        requires
            ascending(self.issues@),
            ascending(self.tags@),
        ensures
            ok == forall|k: int|
                0 <= k < self.issue_tags@.len() ==> link_ok(
                    #[trigger] self.issue_tags@[k],
                    self.issues@,
                    self.tags@,
                ),
    {
        let mut n: usize = 0;
        while n < self.issue_tags.len()
            invariant
                n <= self.issue_tags@.len(),
                ascending(self.issues@),
                ascending(self.tags@),
                forall|k: int|
                    0 <= k < n ==> link_ok(
                        #[trigger] self.issue_tags@[k],
                        self.issues@,
                        self.tags@,
                    ),
            decreases self.issue_tags@.len() - n,
        {
            if find(&self.issues, self.issue_tags[n].issue_id).is_none() || find(
                &self.tags,
                self.issue_tags[n].tag_id,
            ).is_none() {
                assert(!link_ok(self.issue_tags@[n as int], self.issues@, self.tags@));
                return false;
            }
            n = n + 1;
        }
        true
    }

    /// Whether no issue has the same tag twice.
    pub fn pairs_distinct(&self) -> (ok: bool)
        ensures
            ok == pairs_unique(self.issue_tags@),
    {
        let mut j: usize = 0;
        while j < self.issue_tags.len()
            invariant
                j <= self.issue_tags@.len(),
                forall|a: int, b: int|
                    0 <= a < b < j ==> !((#[trigger] self.issue_tags@[a]).issue_id == (
                    #[trigger] self.issue_tags@[b]).issue_id && self.issue_tags@[a].tag_id
                        == self.issue_tags@[b].tag_id),
            decreases self.issue_tags@.len() - j,
        {
            let mut i: usize = 0;
            while i < j
                invariant
                    i <= j < self.issue_tags@.len(),
                    forall|a: int|
                        0 <= a < i ==> !((#[trigger] self.issue_tags@[a]).issue_id
                            == self.issue_tags@[j as int].issue_id && self.issue_tags@[a].tag_id
                            == self.issue_tags@[j as int].tag_id),
                decreases j - i,
            {
                if self.issue_tags[i].issue_id == self.issue_tags[j].issue_id
                    && self.issue_tags[i].tag_id == self.issue_tags[j].tag_id {
                    assert(self.issue_tags@[i as int].issue_id == self.issue_tags@[j as int].issue_id
                        && self.issue_tags@[i as int].tag_id == self.issue_tags@[j as int].tag_id);
                    return false;
                }
                i = i + 1;
            }
            j = j + 1;
        }
        true
    }

    /// Whether the five tables meet the invariant. Rows that were not made
    /// by the handlers are checked with this before a handler is called.
    pub fn check(&self) -> (ok: bool)
        ensures
            ok == self.wf(),
    {
        if !is_ascending(&self.users) || !is_ascending(&self.issues) || !is_ascending(&self.tags)
            || !is_ascending(&self.issue_tags) || !is_ascending(&self.actions) {
            return false;
        }
        if find(&self.users, ROOT_USER_ID).is_none() || find(&self.issues, GLOBAL_ISSUE_ID).is_none()
            || find(&self.tags, CLOSED_TAG_ID).is_none() {
            return false;
        }
        self.pairs_distinct() && self.links_valid() && self.actions_valid()
    }
}

} // verus!
