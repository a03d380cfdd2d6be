//! What a change has to write: the rows by which the tables after a
//! handler differ from the tables before it.

use vstd::prelude::*;
use crate::models::{Action, Issue, IssueTag, NewIssue, NewTag, NewUser, Row, Tag, User};
use crate::table::{has_key, index_of, lemma_key_position};
use crate::tracker::Tracker;

verus! {

/// Rows to insert, in table order, and the key of the one join row to
/// delete, if any.
#[derive(Debug, Clone, PartialEq)]
pub struct Delta {
    pub users: Vec<User>,
    pub issues: Vec<Issue>,
    pub tags: Vec<Tag>,
    pub removed_issue_tag: Option<i32>,
    pub issue_tags: Vec<IssueTag>,
    pub actions: Vec<Action>,
}

/// `after` is `before` with rows appended.
pub open spec fn extends<T>(before: Seq<T>, after: Seq<T>) -> bool {
    before.len() <= after.len() && after.take(before.len() as int) == before
}

/// The join table is as it was, or has one more row at its end, or has lost
/// one row.
pub open spec fn links_step(before: Seq<IssueTag>, after: Seq<IssueTag>) -> bool {
    ||| after == before
    ||| after.len() == before.len() + 1 && after.drop_last() == before
    ||| exists|k: int| 0 <= k < before.len() && after == #[trigger] before.remove(k)
}

impl Tracker {
    /// `after` comes from `self` by appending rows and by one step of the
    /// join table: what the handlers do.
    pub open spec fn grows_to(&self, after: &Tracker) -> bool {
        &&& extends(self.users@, after.users@)
        &&& extends(self.issues@, after.issues@)
        &&& extends(self.tags@, after.tags@)
        &&& extends(self.actions@, after.actions@)
        &&& links_step(self.issue_tags@, after.issue_tags@)
    }
}

impl Delta {
    /// The join table after the deletion and the insertions.
    pub open spec fn links_after(&self, before: Seq<IssueTag>) -> Seq<IssueTag> {
        (match self.removed_issue_tag {
            Some(id) => before.remove(index_of(before, id)),
            None => before,
        }) + self.issue_tags@
    }

    /// Deleting and inserting what the delta names turns `before` into
    /// `after`.
    pub open spec fn applies(&self, before: &Tracker, after: &Tracker) -> bool {
        &&& after.users@ == before.users@ + self.users@
        &&& after.issues@ == before.issues@ + self.issues@
        &&& after.tags@ == before.tags@ + self.tags@
        &&& after.actions@ == before.actions@ + self.actions@
        &&& after.issue_tags@ == self.links_after(before.issue_tags@)
        &&& self.removed_issue_tag matches Some(id) ==> has_key(before.issue_tags@, id)
    }
}

/// Copies of the rows from position `n` on.
pub fn tail<T: Row>(rows: &Vec<T>, n: usize) -> (r: Vec<T>)
    requires
        n <= rows@.len(),
    ensures
        r@ == rows@.skip(n as int),
{
    let mut r: Vec<T> = Vec::new();
    let mut i: usize = n;
    while i < rows.len()
        invariant
            n <= i <= rows@.len(),
            r@ == rows@.subrange(n as int, i as int),
        decreases rows@.len() - i,
    {
        r.push(rows[i].duplicate());
        assert(rows@.subrange(n as int, i + 1) =~= rows@.subrange(n as int, i as int).push(
            rows@[i as int],
        ));
        i = i + 1;
    }
    assert(rows@.subrange(n as int, i as int) =~= rows@.skip(n as int));
    r
}

/// Position of the one row of `before` that `after` lacks: the first
/// position at which the keys differ.
fn lost_row(before: &Vec<IssueTag>, after: &Vec<IssueTag>) -> (k: usize)
    requires
        before@.len() == after@.len() + 1,
    ensures
        k < before@.len(),
        forall|j: int| 0 <= j < k ==> (#[trigger] before@[j]).id == after@[j].id,
        k < after@.len() ==> before@[k as int].id != after@[k as int].id,
{
    let mut k: usize = 0;
    while k < after.len() && before[k].id == after[k].id
        invariant
            k <= after@.len(),
            before@.len() == after@.len() + 1,
            forall|j: int| 0 <= j < k ==> (#[trigger] before@[j]).id == after@[j].id,
        decreases after@.len() - k,
    {
        k = k + 1;
    }
    k
}

/// The rows by which `after` differs from `before`. Where `after` comes
/// from `before` as the handlers change it, there is a delta and it turns
/// `before` into `after`; tables that shrank or a join table that moved by
/// more than one row give none.
pub fn delta(before: &Tracker, after: &Tracker) -> (d: Option<Delta>)
    requires
        before.wf(),
        after.wf(),
    ensures
        before.grows_to(after) ==> (d matches Some(x) && x.applies(before, after)),
        d matches Some(x) ==> {
            &&& x.users@ == after.users@.skip(before.users@.len() as int)
            &&& x.issues@ == after.issues@.skip(before.issues@.len() as int)
            &&& x.tags@ == after.tags@.skip(before.tags@.len() as int)
            &&& x.actions@ == after.actions@.skip(before.actions@.len() as int)
            &&& x.issue_tags@.len() <= 1
        },
        d is None ==> !before.grows_to(after),
{
    if after.users.len() < before.users.len() || after.issues.len() < before.issues.len()
        || after.tags.len() < before.tags.len() || after.actions.len() < before.actions.len() {
        return None;
    }
    let b: usize = before.issue_tags.len();
    let a: usize = after.issue_tags.len();
    let mut removed_issue_tag: Option<i32> = None;
    let mut issue_tags: Vec<IssueTag> = Vec::new();
    let ghost mut lost: int = 0;
    if a > b && a - b == 1 {
        issue_tags.push(after.issue_tags[a - 1]);
    } else if b > a && b - a == 1 {
        let k = lost_row(&before.issue_tags, &after.issue_tags);
        removed_issue_tag = Some(before.issue_tags[k].id);
        proof {
            lost = k as int;
        }
    } else if a != b {
        return None;
    }
    let d = Delta {
        users: tail(&after.users, before.users.len()),
        issues: tail(&after.issues, before.issues.len()),
        tags: tail(&after.tags, before.tags.len()),
        removed_issue_tag,
        issue_tags,
        actions: tail(&after.actions, before.actions.len()),
    };
    proof {
        if before.grows_to(after) {
            let old_links = before.issue_tags@;
            let new_links = after.issue_tags@;
            assert(after.users@ =~= before.users@ + d.users@);
            assert(after.issues@ =~= before.issues@ + d.issues@);
            assert(after.tags@ =~= before.tags@ + d.tags@);
            assert(after.actions@ =~= before.actions@ + d.actions@);
            if a == b + 1 {
                assert(new_links =~= old_links + d.issue_tags@);
            } else if b == a + 1 {
                let k0 = choose|k: int| 0 <= k < old_links.len() && new_links == #[trigger] old_links.remove(k);
                let found = lost;
                if found < k0 {
                    assert(new_links[found] == old_links[found]);
                } else if found > k0 {
                    assert(new_links[k0] == old_links[k0 + 1]);
                    assert(old_links[k0].id < old_links[k0 + 1].id);
                    assert(old_links[k0].id == new_links[k0].id);
                }
                lemma_key_position(old_links, found);
                assert(d.links_after(old_links) =~= new_links);
            } else {
                assert(d.links_after(old_links) =~= new_links);
            }
        }
    }
    Some(d)
}

/// Each of the six changes is a growth of the tables, so it has a delta.
pub proof fn lemma_changes_grow(
    before: Tracker,
    after: Tracker,
    user_id: i32,
    issue_id: i32,
    tag_id: i32,
    comment: String,
    issue: NewIssue,
    tag: NewTag,
    user: NewUser,
)
    ensures
        before.issue_created(&after, user_id, issue) ==> before.grows_to(&after),
        before.commented(&after, user_id, issue_id, comment) ==> before.grows_to(&after),
        before.tag_created(&after, user_id, tag) ==> before.grows_to(&after),
        before.user_created(&after, user_id, user) ==> before.grows_to(&after),
        before.tag_attached(&after, user_id, issue_id, tag_id) ==> before.grows_to(&after),
        before.tag_detached(&after, user_id, issue_id, tag_id) ==> before.grows_to(&after),
{
    let n = before.actions@.len() as int;
    if after.actions@.len() == n + 1 && after.actions@.drop_last() == before.actions@ {
        assert(after.actions@.take(n) =~= after.actions@.drop_last());
    }
    assert(before.users@.take(before.users@.len() as int) =~= before.users@);
    assert(before.issues@.take(before.issues@.len() as int) =~= before.issues@);
    assert(before.tags@.take(before.tags@.len() as int) =~= before.tags@);
    if before.issue_created(&after, user_id, issue) {
        assert(after.issues@.take(before.issues@.len() as int) =~= before.issues@);
    }
    if before.tag_created(&after, user_id, tag) {
        assert(after.tags@.take(before.tags@.len() as int) =~= before.tags@);
    }
    if before.user_created(&after, user_id, user) {
        assert(after.users@.take(before.users@.len() as int) =~= before.users@);
    }
    if before.tag_attached(&after, user_id, issue_id, tag_id) {
        assert(after.issue_tags@ == before.issue_tags@ || after.issue_tags@.drop_last()
            =~= before.issue_tags@);
    }
}

} // verus!
