//! The tracker's state and the handlers that change it. Every change that
//! succeeds appends one entry to the audit log; a request that is rejected
//! changes nothing.

use vstd::prelude::*;
use crate::models::{
    Action, ActionKind, Issue, IssueTag, NewAction, NewIssue, NewTag, NewUser, Tag, User,
    CLOSED_TAG_ID, GLOBAL_ISSUE_ID, ROOT_USER_ID,
};
use crate::session::{cookie_user, session_user_id};
use crate::table::{ascending, find, has_key, lemma_append, next_id, next_key};

verus! {

/// Why a request was turned down.
#[derive(Debug, Clone, Copy, PartialEq, Eq)]
pub enum Rejection {
    /// The request carries no session of an existing user.
    Forbidden,
    /// A row that the request names does not exist.
    NotFound,
    /// A table has no key left for a new row.
    Exhausted,
}

/// Where a handler sends the client next.
#[derive(Debug, Clone, Copy, PartialEq, Eq)]
pub enum Redirect {
    Home,
    Login,
    Issue(i32),
    Tags,
    Users,
}

/// The five tables. Rows stand in insertion order.
#[derive(Debug, Clone, PartialEq)]
pub struct Tracker {
    pub users: Vec<User>,
    pub issues: Vec<Issue>,
    pub tags: Vec<Tag>,
    pub issue_tags: Vec<IssueTag>,
    pub actions: Vec<Action>,
}

/// The value of the session cookie of a request, as a sequence of characters.
pub open spec fn cookie_view(cookie: Option<&str>) -> Option<Seq<char>> {
    match cookie {
        Some(value) => Some(value@),
        None => None,
    }
}

/// The issue `issue_id` has the tag `tag_id`.
pub open spec fn has_pair(links: Seq<IssueTag>, issue_id: i32, tag_id: i32) -> bool {
    exists|k: int|
        0 <= k < links.len() && (#[trigger] links[k]).issue_id == issue_id && links[k].tag_id
            == tag_id
}

/// Position of the row that gives the issue `issue_id` the tag `tag_id`.
pub open spec fn pair_index(links: Seq<IssueTag>, issue_id: i32, tag_id: i32) -> int {
    choose|k: int|
        0 <= k < links.len() && (#[trigger] links[k]).issue_id == issue_id && links[k].tag_id
            == tag_id
}

/// An issue is closed if and only if it has the closed tag.
pub open spec fn is_closed(links: Seq<IssueTag>, issue_id: i32) -> bool {
    has_pair(links, issue_id, CLOSED_TAG_ID)
}

/// No issue has the same tag twice.
pub open spec fn pairs_unique(links: Seq<IssueTag>) -> bool {
    forall|i: int, j: int|
        0 <= i < j < links.len() ==> !((#[trigger] links[i]).issue_id == (
        #[trigger] links[j]).issue_id && links[i].tag_id == links[j].tag_id)
}

/// The row joins an existing issue to an existing tag.
pub open spec fn link_ok(link: IssueTag, issues: Seq<Issue>, tags: Seq<Tag>) -> bool {
    has_key(issues, link.issue_id) && has_key(tags, link.tag_id)
}

/// What an audit entry of this kind refers to exists. A removal may name
/// any tag id: taking off a tag that is not there is recorded all the same.
pub open spec fn kind_ok(kind: ActionKind, users: Seq<User>, issues: Seq<Issue>, tags: Seq<Tag>)
    -> bool {
    match kind {
        ActionKind::Comment(_) => true,
        ActionKind::AddTag(t) => has_key(tags, t),
        ActionKind::RemoveTag(_) => true,
        ActionKind::CreateIssue(i) => has_key(issues, i),
        ActionKind::CreateUser(u) => has_key(users, u),
    }
}

/// The entry has exactly one of its five fields populated, and its user, its
/// issue and what it records exist.
pub open spec fn action_ok(a: Action, users: Seq<User>, issues: Seq<Issue>, tags: Seq<Tag>)
    -> bool {
    a.single() && has_key(users, a.user_id) && has_key(issues, a.issue_id) && kind_ok(
        a.kind(),
        users,
        issues,
        tags,
    )
}

impl Tracker {
    /// The invariant of the five tables.
    pub open spec fn wf(&self) -> bool {
        &&& ascending(self.users@)
        &&& ascending(self.issues@)
        &&& ascending(self.tags@)
        &&& ascending(self.issue_tags@)
        &&& ascending(self.actions@)
        &&& has_key(self.users@, ROOT_USER_ID)
        &&& has_key(self.issues@, GLOBAL_ISSUE_ID)
        &&& has_key(self.tags@, CLOSED_TAG_ID)
        &&& pairs_unique(self.issue_tags@)
        &&& forall|k: int|
            0 <= k < self.issue_tags@.len() ==> link_ok(
                #[trigger] self.issue_tags@[k],
                self.issues@,
                self.tags@,
            )
        &&& forall|k: int|
            0 <= k < self.actions@.len() ==> action_ok(
                #[trigger] self.actions@[k],
                self.users@,
                self.issues@,
                self.tags@,
            )
    }

    /// The user whose session the cookie carries: the cookie reads as the id
    /// of an existing user.
    pub open spec fn session(&self, cookie: Option<Seq<char>>) -> Option<i32> {
        match cookie_user(cookie) {
            Some(id) => if has_key(self.users@, id) {
                Some(id)
            } else {
                None
            },
            None => None,
        }
    }

    /// `after` is `self` with one more audit entry, which says that `user_id`
    /// did `kind` on `issue_id`.
    pub open spec fn logged(
        &self,
        after: &Tracker,
        user_id: i32,
        issue_id: i32,
        kind: ActionKind,
    ) -> bool {
        &&& after.actions@.len() == self.actions@.len() + 1
        &&& after.actions@.drop_last() == self.actions@
        &&& after.actions@.last() == Action::stored(
            next_key(self.actions@) as i32,
            NewAction::recording(user_id, issue_id, after.actions@.last().time, kind),
        )
    }

    /// A tracker with the three reserved rows and nothing else.
    pub fn seeded(root: NewUser, global: NewIssue, closed: NewTag) -> (t: Tracker)
        ensures
            t.wf(),
            t.users@ == seq![
                User {
                    id: ROOT_USER_ID,
                    name: root.name,
                    email: root.email,
                    password: root.password,
                },
            ],
            t.issues@ == seq![
                Issue { id: GLOBAL_ISSUE_ID, title: global.title, description: global.description },
            ],
            t.tags@ == seq![Tag { id: CLOSED_TAG_ID, name: closed.name }],
            t.issue_tags@.len() == 0,
            t.actions@.len() == 0,
    {
        let user = User {
            id: ROOT_USER_ID,
            name: root.name,
            email: root.email,
            password: root.password,
        };
        let issue = Issue {
            id: GLOBAL_ISSUE_ID,
            title: global.title,
            description: global.description,
        };
        let tag = Tag { id: CLOSED_TAG_ID, name: closed.name };
        let t = Tracker {
            users: vec![user],
            issues: vec![issue],
            tags: vec![tag],
            issue_tags: Vec::new(),
            actions: Vec::new(),
        };
        proof {
            assert(t.users@[0].id == ROOT_USER_ID);
            assert(t.issues@[0].id == GLOBAL_ISSUE_ID);
            assert(t.tags@[0].id == CLOSED_TAG_ID);
            assert(t.users@ =~= seq![user]);
            assert(t.issues@ =~= seq![issue]);
            assert(t.tags@ =~= seq![tag]);
        }
        t
    }

    /// Resolves the session cookie of a request to the id of an existing
    /// user.
    pub fn session_id(&self, cookie: Option<&str>) -> (id: Option<i32>)
        requires
            self.wf(),
        ensures
            id == self.session(cookie_view(cookie)),
    {
        match session_user_id(cookie) {
            Some(id) => match find(&self.users, id) {
                Some(_) => Some(id),
                None => None,
            },
            None => None,
        }
    }

    /// Appends the audit entry under the key `id`, stamped with the local
    /// time of the call.
    fn log(&mut self, id: i32, user_id: i32, issue_id: i32, kind: ActionKind)
        requires
            old(self).wf(),
            id == next_key(old(self).actions@),
            has_key(old(self).users@, user_id),
            has_key(old(self).issues@, issue_id),
            kind_ok(kind, old(self).users@, old(self).issues@, old(self).tags@),
        ensures
            final(self).wf(),
            old(self).logged(final(self), user_id, issue_id, kind),
            final(self).users == old(self).users,
            final(self).issues == old(self).issues,
            final(self).tags == old(self).tags,
            final(self).issue_tags == old(self).issue_tags,
    {
        let entry = Action::insert(id, NewAction::now(user_id, issue_id, kind));
        proof {
            lemma_append(self.actions@, entry);
            assert(entry.kind() == kind);
            assert(self.actions@.push(entry).drop_last() =~= self.actions@);
        }
        self.actions.push(entry);
    }

    /// `after` is `self` with the new issue appended under the next key, and
    /// with the audit entry of its creation.
    pub open spec fn issue_created(&self, after: &Tracker, user_id: i32, form: NewIssue) -> bool {
        let id = next_key(self.issues@) as i32;
        &&& after.issues@ == self.issues@.push(
            Issue { id, title: form.title, description: form.description },
        )
        &&& after.users == self.users
        &&& after.tags == self.tags
        &&& after.issue_tags == self.issue_tags
        &&& self.logged(after, user_id, id, ActionKind::CreateIssue(id))
    }

    /// Creates an issue and records it. Sends the client home.
    pub fn new_issue_submit(&mut self, cookie: Option<&str>, form: NewIssue) -> (res: Result<
        Redirect,
        Rejection,
    >)
        requires
            old(self).wf(),
        ensures
            final(self).wf(),
            res is Err ==> *final(self) == *old(self),
            match old(self).session(cookie_view(cookie)) {
                None => res == Err::<Redirect, Rejection>(Rejection::Forbidden),
                Some(user_id) => if next_key(old(self).issues@) > i32::MAX || next_key(
                    old(self).actions@,
                ) > i32::MAX {
                    res == Err::<Redirect, Rejection>(Rejection::Exhausted)
                } else {
                    res == Ok::<Redirect, Rejection>(Redirect::Home) && old(self).issue_created(
                        final(self),
                        user_id,
                        form,
                    )
                },
            },
    {
        let user_id = match self.session_id(cookie) {
            Some(id) => id,
            None => {
                return Err(Rejection::Forbidden);
            },
        };
        let (id, entry_id) = match (next_id(&self.issues), next_id(&self.actions)) {
            (Some(id), Some(entry_id)) => (id, entry_id),
            _ => {
                return Err(Rejection::Exhausted);
            },
        };
        let issue = Issue { id, title: form.title, description: form.description };
        proof {
            lemma_append(self.issues@, issue);
        }
        self.issues.push(issue);
        self.log(entry_id, user_id, id, ActionKind::CreateIssue(id));
        Ok(Redirect::Home)
    }
}

/// Removing the one row of a pair leaves the table in order, without the
/// pair, and with every other pair as it was.
pub proof fn lemma_remove_pair(links: Seq<IssueTag>, k: int)
    requires
        ascending(links),
        pairs_unique(links),
        0 <= k < links.len(),
    ensures
        ascending(links.remove(k)),
        pairs_unique(links.remove(k)),
        !has_pair(links.remove(k), links[k].issue_id, links[k].tag_id),
        pair_index(links, links[k].issue_id, links[k].tag_id) == k,
        forall|j: int|
            0 <= j < links.remove(k).len() ==> (#[trigger] links.remove(k)[j]) == links[if j
                < k {
                j
            } else {
                j + 1
            }],
        forall|i: i32, t: i32|
            !(i == links[k].issue_id && t == links[k].tag_id) ==> (#[trigger] has_pair(
                links.remove(k),
                i,
                t,
            ) <==> has_pair(links, i, t)),
{
    let rest = links.remove(k);
    assert forall|j: int| 0 <= j < rest.len() implies (#[trigger] rest[j]) == links[if j < k {
        j
    } else {
        j + 1
    }] by {}
    assert forall|a: int, b: int| 0 <= a < b < rest.len() implies (#[trigger] rest[a]).id < (
    #[trigger] rest[b]).id by {
        let a2 = if a < k { a } else { a + 1 };
        let b2 = if b < k { b } else { b + 1 };
        assert(links[a2].id < links[b2].id);
    }
    assert forall|a: int, b: int| 0 <= a < b < rest.len() implies !((#[trigger] rest[a]).issue_id
        == (#[trigger] rest[b]).issue_id && rest[a].tag_id == rest[b].tag_id) by {
        let a2 = if a < k { a } else { a + 1 };
        let b2 = if b < k { b } else { b + 1 };
        assert(!(links[a2].issue_id == links[b2].issue_id && links[a2].tag_id
            == links[b2].tag_id));
    }
    let p = pair_index(links, links[k].issue_id, links[k].tag_id);
    assert(0 <= p < links.len() && links[p].issue_id == links[k].issue_id && links[p].tag_id
        == links[k].tag_id);
    if p < k {
        assert(!(links[p].issue_id == links[k].issue_id && links[p].tag_id == links[k].tag_id));
    } else if k < p {
        assert(!(links[k].issue_id == links[p].issue_id && links[k].tag_id == links[p].tag_id));
    }
    if has_pair(rest, links[k].issue_id, links[k].tag_id) {
        let j = pair_index(rest, links[k].issue_id, links[k].tag_id);
        let j2 = if j < k { j } else { j + 1 };
        assert(rest[j] == links[j2]);
        if j2 < k {
            assert(!(links[j2].issue_id == links[k].issue_id && links[j2].tag_id
                == links[k].tag_id));
        } else {
            assert(!(links[k].issue_id == links[j2].issue_id && links[k].tag_id
                == links[j2].tag_id));
        }
    }
    assert forall|i: i32, t: i32| !(i == links[k].issue_id && t == links[k].tag_id) implies (
    #[trigger] has_pair(rest, i, t) <==> has_pair(links, i, t)) by {
        if has_pair(rest, i, t) {
            let j = pair_index(rest, i, t);
            let j2 = if j < k { j } else { j + 1 };
            assert(links[j2].issue_id == i && links[j2].tag_id == t);
        }
        if has_pair(links, i, t) {
            let j = pair_index(links, i, t);
            let j2 = if j < k { j } else { j - 1 };
            assert(rest[j2] == links[j]);
            assert(rest[j2].issue_id == i && rest[j2].tag_id == t);
        }
    }
}

impl Tracker {
    /// What a request to comment on the issue `id` is answered with.
    pub open spec fn comment_result(&self, cookie: Option<Seq<char>>, id: i32) -> Result<
        Redirect,
        Rejection,
    > {
        if self.session(cookie) is None {
            Err(Rejection::Forbidden)
        } else if !has_key(self.issues@, id) {
            Err(Rejection::NotFound)
        } else if next_key(self.actions@) > i32::MAX {
            Err(Rejection::Exhausted)
        } else {
            Ok(Redirect::Issue(id))
        }
    }

    /// What a request to give the issue the tag is answered with.
    pub open spec fn attach_result(&self, cookie: Option<Seq<char>>, issue_id: i32, tag_id: i32)
        -> Result<Redirect, Rejection> {
        if self.session(cookie) is None {
            Err(Rejection::Forbidden)
        } else if !has_key(self.issues@, issue_id) || !has_key(self.tags@, tag_id) {
            Err(Rejection::NotFound)
        } else if next_key(self.actions@) > i32::MAX || (!has_pair(
            self.issue_tags@,
            issue_id,
            tag_id,
        ) && next_key(self.issue_tags@) > i32::MAX) {
            Err(Rejection::Exhausted)
        } else {
            Ok(Redirect::Issue(issue_id))
        }
    }

    /// What a request to take the tag off the issue is answered with. The
    /// tag id need not be that of a tag.
    pub open spec fn detach_result(&self, cookie: Option<Seq<char>>, issue_id: i32, tag_id: i32)
        -> Result<Redirect, Rejection> {
        if self.session(cookie) is None {
            Err(Rejection::Forbidden)
        } else if !has_key(self.issues@, issue_id) {
            Err(Rejection::NotFound)
        } else if next_key(self.actions@) > i32::MAX {
            Err(Rejection::Exhausted)
        } else {
            Ok(Redirect::Issue(issue_id))
        }
    }

    /// `after` is `self` with one more audit entry, a comment on the issue.
    pub open spec fn commented(&self, after: &Tracker, user_id: i32, id: i32, comment: String)
        -> bool {
        &&& after.users == self.users
        &&& after.issues == self.issues
        &&& after.tags == self.tags
        &&& after.issue_tags == self.issue_tags
        &&& self.logged(after, user_id, id, ActionKind::Comment(comment))
    }

    /// Records a comment on an issue. Sends the client to that issue.
    pub fn issue_new_comment_submit(&mut self, cookie: Option<&str>, id: i32, comment: String) -> (res:
        Result<Redirect, Rejection>)
        requires
            old(self).wf(),
        ensures
            final(self).wf(),
            res is Err ==> *final(self) == *old(self),
            res == old(self).comment_result(cookie_view(cookie), id),
            match old(self).session(cookie_view(cookie)) {
                None => res == Err::<Redirect, Rejection>(Rejection::Forbidden),
                Some(user_id) => if !has_key(old(self).issues@, id) {
                    res == Err::<Redirect, Rejection>(Rejection::NotFound)
                } else if next_key(old(self).actions@) > i32::MAX {
                    res == Err::<Redirect, Rejection>(Rejection::Exhausted)
                } else {
                    res == Ok::<Redirect, Rejection>(Redirect::Issue(id)) && old(self).commented(
                        final(self),
                        user_id,
                        id,
                        comment,
                    )
                },
            },
    {
        let user_id: i32 = match self.session_id(cookie) {
            Some(id) => id,
            None => {
                return Err(Rejection::Forbidden);
            },
        };
        if find(&self.issues, id).is_none() {
            return Err(Rejection::NotFound);
        }
        let entry_id: i32 = match next_id(&self.actions) {
            Some(entry_id) => entry_id,
            None => {
                return Err(Rejection::Exhausted);
            },
        };
        self.log(entry_id, user_id, id, ActionKind::Comment(comment));
        Ok(Redirect::Issue(id))
    }

    /// `after` is `self` with the new tag appended under the next key, and
    /// with the audit entry of its creation on the global issue.
    pub open spec fn tag_created(&self, after: &Tracker, user_id: i32, form: NewTag) -> bool {
        let id = next_key(self.tags@) as i32;
        &&& after.tags@ == self.tags@.push(Tag { id, name: form.name })
        &&& after.users == self.users
        &&& after.issues == self.issues
        &&& after.issue_tags == self.issue_tags
        &&& self.logged(after, user_id, GLOBAL_ISSUE_ID, ActionKind::AddTag(id))
    }

    /// Creates a tag and records it. Sends the client to the tag list.
    pub fn new_tag_submit(&mut self, cookie: Option<&str>, form: NewTag) -> (res: Result<
        Redirect,
        Rejection,
    >)
        requires
            old(self).wf(),
        ensures
            final(self).wf(),
            res is Err ==> *final(self) == *old(self),
            match old(self).session(cookie_view(cookie)) {
                None => res == Err::<Redirect, Rejection>(Rejection::Forbidden),
                Some(user_id) => if next_key(old(self).tags@) > i32::MAX || next_key(
                    old(self).actions@,
                ) > i32::MAX {
                    res == Err::<Redirect, Rejection>(Rejection::Exhausted)
                } else {
                    res == Ok::<Redirect, Rejection>(Redirect::Tags) && old(self).tag_created(
                        final(self),
                        user_id,
                        form,
                    )
                },
            },
    {
        let user_id: i32 = match self.session_id(cookie) {
            Some(id) => id,
            None => {
                return Err(Rejection::Forbidden);
            },
        };
        let (id, entry_id) = match (next_id(&self.tags), next_id(&self.actions)) {
            (Some(id), Some(entry_id)) => (id, entry_id),
            _ => {
                return Err(Rejection::Exhausted);
            },
        };
        let tag = Tag { id, name: form.name };
        proof {
            lemma_append(self.tags@, tag);
        }
        self.tags.push(tag);
        self.log(entry_id, user_id, GLOBAL_ISSUE_ID, ActionKind::AddTag(id));
        Ok(Redirect::Tags)
    }

    /// `after` is `self` with the new user appended under the next key, and
    /// with the audit entry of its creation on the global issue.
    pub open spec fn user_created(&self, after: &Tracker, user_id: i32, form: NewUser) -> bool {
        let id = next_key(self.users@) as i32;
        &&& after.users@ == self.users@.push(
            User { id, name: form.name, email: form.email, password: form.password },
        )
        &&& after.issues == self.issues
        &&& after.tags == self.tags
        &&& after.issue_tags == self.issue_tags
        &&& self.logged(after, user_id, GLOBAL_ISSUE_ID, ActionKind::CreateUser(id))
    }

    /// Creates a user and records it. Sends the client to the user list.
    pub fn new_user_submit(&mut self, cookie: Option<&str>, form: NewUser) -> (res: Result<
        Redirect,
        Rejection,
    >)
        requires
            old(self).wf(),
        ensures
            final(self).wf(),
            res is Err ==> *final(self) == *old(self),
            match old(self).session(cookie_view(cookie)) {
                None => res == Err::<Redirect, Rejection>(Rejection::Forbidden),
                Some(user_id) => if next_key(old(self).users@) > i32::MAX || next_key(
                    old(self).actions@,
                ) > i32::MAX {
                    res == Err::<Redirect, Rejection>(Rejection::Exhausted)
                } else {
                    res == Ok::<Redirect, Rejection>(Redirect::Users) && old(self).user_created(
                        final(self),
                        user_id,
                        form,
                    )
                },
            },
    {
        let user_id: i32 = match self.session_id(cookie) {
            Some(id) => id,
            None => {
                return Err(Rejection::Forbidden);
            },
        };
        let (id, entry_id) = match (next_id(&self.users), next_id(&self.actions)) {
            (Some(id), Some(entry_id)) => (id, entry_id),
            _ => {
                return Err(Rejection::Exhausted);
            },
        };
        let user = User { id, name: form.name, email: form.email, password: form.password };
        proof {
            lemma_append(self.users@, user);
        }
        self.users.push(user);
        self.log(entry_id, user_id, GLOBAL_ISSUE_ID, ActionKind::CreateUser(id));
        Ok(Redirect::Users)
    }

    /// Looks up the row that gives the issue `issue_id` the tag `tag_id`.
    pub fn find_pair(&self, issue_id: i32, tag_id: i32) -> (r: Option<usize>)
        requires
            self.wf(),
        ensures
            r is Some <==> has_pair(self.issue_tags@, issue_id, tag_id),
            r matches Some(k) ==> k == pair_index(self.issue_tags@, issue_id, tag_id) && k
                < self.issue_tags@.len(),
    {
        let mut k: usize = 0;
        while k < self.issue_tags.len()
            invariant
                k <= self.issue_tags@.len(),
                self.wf(),
                forall|j: int|
                    0 <= j < k ==> !((#[trigger] self.issue_tags@[j]).issue_id == issue_id
                        && self.issue_tags@[j].tag_id == tag_id),
            decreases self.issue_tags@.len() - k,
        {
            if self.issue_tags[k].issue_id == issue_id && self.issue_tags[k].tag_id == tag_id {
                proof {
                    lemma_remove_pair(self.issue_tags@, k as int);
                }
                return Some(k);
            }
            k = k + 1;
        }
        None
    }

    /// Whether the issue has the closed tag. Computed from the join table on
    /// every call.
    pub fn closed(&self, issue_id: i32) -> (c: bool)
        requires
            self.wf(),
        ensures
            c == is_closed(self.issue_tags@, issue_id),
            c == exists|k: int|
                0 <= k < self.issue_tags@.len() && (#[trigger] self.issue_tags@[k]).issue_id
                    == issue_id && self.issue_tags@[k].tag_id == CLOSED_TAG_ID,
    {
        self.find_pair(issue_id, CLOSED_TAG_ID).is_some()
    }

    /// `after` is `self` where the issue has the tag, by a new row under the
    /// next key if it did not have it before, and with one more audit entry.
    pub open spec fn tag_attached(&self, after: &Tracker, user_id: i32, issue_id: i32, tag_id: i32)
        -> bool {
        &&& after.users == self.users
        &&& after.issues == self.issues
        &&& after.tags == self.tags
        &&& after.issue_tags@ == if has_pair(self.issue_tags@, issue_id, tag_id) {
            self.issue_tags@
        } else {
            self.issue_tags@.push(
                IssueTag { id: next_key(self.issue_tags@) as i32, issue_id, tag_id },
            )
        }
        &&& self.logged(after, user_id, issue_id, ActionKind::AddTag(tag_id))
    }

    /// Gives the issue the tag, if it does not have it yet, and records the
    /// request either way. Sends the client to the issue.
    pub fn issue_add_tag(&mut self, cookie: Option<&str>, issue_id: i32, tag_id: i32) -> (res: Result<
        Redirect,
        Rejection,
    >)
        requires
            old(self).wf(),
        ensures
            final(self).wf(),
            res is Err ==> *final(self) == *old(self),
            res == old(self).attach_result(cookie_view(cookie), issue_id, tag_id),
            match old(self).session(cookie_view(cookie)) {
                None => res == Err::<Redirect, Rejection>(Rejection::Forbidden),
                Some(user_id) => if !has_key(old(self).issues@, issue_id) || !has_key(
                    old(self).tags@,
                    tag_id,
                ) {
                    res == Err::<Redirect, Rejection>(Rejection::NotFound)
                } else if next_key(old(self).actions@) > i32::MAX || (!has_pair(
                    old(self).issue_tags@,
                    issue_id,
                    tag_id,
                ) && next_key(old(self).issue_tags@) > i32::MAX) {
                    res == Err::<Redirect, Rejection>(Rejection::Exhausted)
                } else {
                    res == Ok::<Redirect, Rejection>(Redirect::Issue(issue_id))
                        && old(self).tag_attached(final(self), user_id, issue_id, tag_id)
                },
            },
    {
        let user_id: i32 = match self.session_id(cookie) {
            Some(id) => id,
            None => {
                return Err(Rejection::Forbidden);
            },
        };
        if find(&self.issues, issue_id).is_none() || find(&self.tags, tag_id).is_none() {
            return Err(Rejection::NotFound);
        }
        let entry_id: i32 = match next_id(&self.actions) {
            Some(entry_id) => entry_id,
            None => {
                return Err(Rejection::Exhausted);
            },
        };
        if self.find_pair(issue_id, tag_id).is_none() {
            let id: i32 = match next_id(&self.issue_tags) {
                Some(id) => id,
                None => {
                    return Err(Rejection::Exhausted);
                },
            };
            let link = IssueTag { id, issue_id, tag_id };
            proof {
                lemma_append(self.issue_tags@, link);
                let grown = self.issue_tags@.push(link);
                assert forall|i: int, j: int| 0 <= i < j < grown.len() implies !((
                #[trigger] grown[i]).issue_id == (#[trigger] grown[j]).issue_id && grown[i].tag_id
                    == grown[j].tag_id) by {
                    if j == self.issue_tags@.len() {
                        assert(grown[i] == self.issue_tags@[i]);
                    }
                }
            }
            self.issue_tags.push(link);
        }
        self.log(entry_id, user_id, issue_id, ActionKind::AddTag(tag_id));
        Ok(Redirect::Issue(issue_id))
    }

    /// `after` is `self` where the issue does not have the tag, by the
    /// removal of the one row that gave it, and with one more audit entry.
    pub open spec fn tag_detached(&self, after: &Tracker, user_id: i32, issue_id: i32, tag_id: i32)
        -> bool {
        &&& after.users == self.users
        &&& after.issues == self.issues
        &&& after.tags == self.tags
        &&& after.issue_tags@ == if has_pair(self.issue_tags@, issue_id, tag_id) {
            self.issue_tags@.remove(pair_index(self.issue_tags@, issue_id, tag_id))
        } else {
            self.issue_tags@
        }
        &&& !has_pair(after.issue_tags@, issue_id, tag_id)
        &&& self.logged(after, user_id, issue_id, ActionKind::RemoveTag(tag_id))
    }

    /// Takes the tag off the issue, if it has it, and records the request
    /// either way, also where no tag has that id. Sends the client to the
    /// issue.
    pub fn issue_remove_tag(&mut self, cookie: Option<&str>, issue_id: i32, tag_id: i32) -> (res:
        Result<Redirect, Rejection>)
        requires
            old(self).wf(),
        ensures
            final(self).wf(),
            res is Err ==> *final(self) == *old(self),
            res == old(self).detach_result(cookie_view(cookie), issue_id, tag_id),
            match old(self).session(cookie_view(cookie)) {
                None => res == Err::<Redirect, Rejection>(Rejection::Forbidden),
                Some(user_id) => if !has_key(old(self).issues@, issue_id) {
                    res == Err::<Redirect, Rejection>(Rejection::NotFound)
                } else if next_key(old(self).actions@) > i32::MAX {
                    res == Err::<Redirect, Rejection>(Rejection::Exhausted)
                } else {
                    res == Ok::<Redirect, Rejection>(Redirect::Issue(issue_id))
                        && old(self).tag_detached(final(self), user_id, issue_id, tag_id)
                },
            },
    {
        let user_id: i32 = match self.session_id(cookie) {
            Some(id) => id,
            None => {
                return Err(Rejection::Forbidden);
            },
        };
        if find(&self.issues, issue_id).is_none() {
            return Err(Rejection::NotFound);
        }
        let entry_id: i32 = match next_id(&self.actions) {
            Some(entry_id) => entry_id,
            None => {
                return Err(Rejection::Exhausted);
            },
        };
        match self.find_pair(issue_id, tag_id) {
            Some(k) => {
                proof {
                    lemma_remove_pair(self.issue_tags@, k as int);
                }
                let _ = self.issue_tags.remove(k);
            },
            None => {},
        }
        self.log(entry_id, user_id, issue_id, ActionKind::RemoveTag(tag_id));
        Ok(Redirect::Issue(issue_id))
    }
}

/// The issue has the tag by exactly one row of the join table.
pub open spec fn has_pair_once(links: Seq<IssueTag>, issue_id: i32, tag_id: i32) -> bool {
    &&& has_pair(links, issue_id, tag_id)
    &&& forall|i: int, j: int|
        0 <= i < links.len() && 0 <= j < links.len() && (#[trigger] links[i]).issue_id == issue_id
            && links[i].tag_id == tag_id && (#[trigger] links[j]).issue_id == issue_id
            && links[j].tag_id == tag_id ==> i == j
}

/// In a well-formed tracker a pair that is there is there once.
pub proof fn lemma_pair_once(t: Tracker, issue_id: i32, tag_id: i32)
    requires
        t.wf(),
        has_pair(t.issue_tags@, issue_id, tag_id),
    ensures
        has_pair_once(t.issue_tags@, issue_id, tag_id),
{
    let links = t.issue_tags@;
    assert forall|i: int, j: int|
        0 <= i < links.len() && 0 <= j < links.len() && (#[trigger] links[i]).issue_id == issue_id
            && links[i].tag_id == tag_id && (#[trigger] links[j]).issue_id == issue_id
            && links[j].tag_id == tag_id implies i == j by {
        if i < j {
            assert(!(links[i].issue_id == links[j].issue_id && links[i].tag_id
                == links[j].tag_id));
        } else if j < i {
            assert(!(links[j].issue_id == links[i].issue_id && links[j].tag_id
                == links[i].tag_id));
        }
    }
}

/// Attaching the same tag to the same issue twice leaves exactly one row
/// for the pair, the one that the first request left, and two more audit
/// entries, each of which records the request.
pub proof fn lemma_attach_twice(
    start: Tracker,
    once: Tracker,
    twice: Tracker,
    first_user: i32,
    second_user: i32,
    issue_id: i32,
    tag_id: i32,
)
    requires
        start.wf(),
        once.wf(),
        twice.wf(),
        start.tag_attached(&once, first_user, issue_id, tag_id),
        once.tag_attached(&twice, second_user, issue_id, tag_id),
    ensures
        has_pair_once(twice.issue_tags@, issue_id, tag_id),
        twice.issue_tags@ == once.issue_tags@,
        twice.actions@.len() == start.actions@.len() + 2,
        twice.actions@[start.actions@.len() as int].kind() == ActionKind::AddTag(tag_id),
        twice.actions@[start.actions@.len() as int + 1].kind() == ActionKind::AddTag(tag_id),
        twice.actions@.take(start.actions@.len() as int) == start.actions@,
{
    if !has_pair(start.issue_tags@, issue_id, tag_id) {
        let n = start.issue_tags@.len() as int;
        assert(once.issue_tags@[n].issue_id == issue_id && once.issue_tags@[n].tag_id == tag_id);
    } else {
        let k = pair_index(start.issue_tags@, issue_id, tag_id);
        assert(once.issue_tags@[k].issue_id == issue_id && once.issue_tags@[k].tag_id == tag_id);
    }
    lemma_pair_once(twice, issue_id, tag_id);
    let n = start.actions@.len() as int;
    assert(twice.actions@.drop_last()[n] == once.actions@.last());
    assert(twice.actions@.take(n) =~= twice.actions@.drop_last().drop_last());
}

/// Detaching a tag that the issue does not have leaves the join table as it
/// was and adds exactly one audit entry, which records the request.
pub proof fn lemma_detach_absent(
    before: Tracker,
    after: Tracker,
    user_id: i32,
    issue_id: i32,
    tag_id: i32,
)
    requires
        before.wf(),
        !has_pair(before.issue_tags@, issue_id, tag_id),
        before.tag_detached(&after, user_id, issue_id, tag_id),
    ensures
        after.issue_tags@ == before.issue_tags@,
        after.actions@.len() == before.actions@.len() + 1,
        after.actions@.last().kind() == ActionKind::RemoveTag(tag_id),
        after.actions@.drop_last() == before.actions@,
{
}

/// One more audit entry means: every earlier entry is as it was, and the
/// new one has exactly one field populated, the one of its kind.
pub proof fn lemma_logged_once(
    before: Tracker,
    after: Tracker,
    user_id: i32,
    issue_id: i32,
    kind: ActionKind,
)
    requires
        before.logged(&after, user_id, issue_id, kind),
    ensures
        after.actions@.len() == before.actions@.len() + 1,
        forall|k: int|
            0 <= k < before.actions@.len() ==> (#[trigger] after.actions@[k])
                == before.actions@[k],
        after.actions@.last().single(),
        after.actions@.last().kind() == kind,
        after.actions@.last().user_id == user_id,
        after.actions@.last().issue_id == issue_id,
        after.actions@.last().comment is Some <==> kind is Comment,
        after.actions@.last().add_tag is Some <==> kind is AddTag,
        after.actions@.last().remove_tag is Some <==> kind is RemoveTag,
        after.actions@.last().create_issue is Some <==> kind is CreateIssue,
        after.actions@.last().create_user is Some <==> kind is CreateUser,
{
    assert forall|k: int| 0 <= k < before.actions@.len() implies (#[trigger] after.actions@[k])
        == before.actions@[k] by {
        assert(after.actions@.drop_last()[k] == after.actions@[k]);
    }
}

/// Each of the six changes is one more audit entry of its own kind.
pub proof fn lemma_changes_are_logged(
    before: Tracker,
    after: Tracker,
    user_id: i32,
    issue_id: i32,
    tag_id: i32,
    comment: String,
    issue: NewIssue,
    tag: NewTag,
    user: NewUser,
)
    ensures
        before.issue_created(&after, user_id, issue) ==> before.logged(
            &after,
            user_id,
            next_key(before.issues@) as i32,
            ActionKind::CreateIssue(next_key(before.issues@) as i32),
        ),
        before.commented(&after, user_id, issue_id, comment) ==> before.logged(
            &after,
            user_id,
            issue_id,
            ActionKind::Comment(comment),
        ),
        before.tag_created(&after, user_id, tag) ==> before.logged(
            &after,
            user_id,
            GLOBAL_ISSUE_ID,
            ActionKind::AddTag(next_key(before.tags@) as i32),
        ),
        before.user_created(&after, user_id, user) ==> before.logged(
            &after,
            user_id,
            GLOBAL_ISSUE_ID,
            ActionKind::CreateUser(next_key(before.users@) as i32),
        ),
        before.tag_attached(&after, user_id, issue_id, tag_id) ==> before.logged(
            &after,
            user_id,
            issue_id,
            ActionKind::AddTag(tag_id),
        ),
        before.tag_detached(&after, user_id, issue_id, tag_id) ==> before.logged(
            &after,
            user_id,
            issue_id,
            ActionKind::RemoveTag(tag_id),
        ),
{
}

/// While the audit log has a key left, a comment on an existing issue by a
/// user with a session succeeds and appends exactly one entry: the comment
/// as it was given, and no other field populated.
pub proof fn lemma_comment_succeeds(
    before: Tracker,
    after: Tracker,
    cookie: Option<Seq<char>>,
    user_id: i32,
    id: i32,
    comment: String,
)
    requires
        before.wf(),
        before.session(cookie) == Some(user_id),
        has_key(before.issues@, id),
        next_key(before.actions@) <= i32::MAX,
        before.commented(&after, user_id, id, comment),
    ensures
        before.comment_result(cookie, id) == Ok::<Redirect, Rejection>(Redirect::Issue(id)),
        after.actions@ == before.actions@.push(after.actions@.last()),
        after.actions@.last().comment == Some(comment),
        after.actions@.last().add_tag is None,
        after.actions@.last().remove_tag is None,
        after.actions@.last().create_issue is None,
        after.actions@.last().create_user is None,
        after.actions@.last().user_id == user_id,
        after.actions@.last().issue_id == id,
        after.users == before.users,
        after.issues == before.issues,
        after.tags == before.tags,
        after.issue_tags == before.issue_tags,
{
    assert(after.actions@ =~= after.actions@.drop_last().push(after.actions@.last()));
}

/// While the audit log has a key left, attaching a tag that the issue
/// already has succeeds, leaves the join table as it was, with exactly one
/// row for the pair, and appends one entry.
pub proof fn lemma_attach_present_succeeds(
    before: Tracker,
    after: Tracker,
    cookie: Option<Seq<char>>,
    user_id: i32,
    issue_id: i32,
    tag_id: i32,
)
    requires
        before.wf(),
        before.session(cookie) == Some(user_id),
        has_pair(before.issue_tags@, issue_id, tag_id),
        next_key(before.actions@) <= i32::MAX,
        before.tag_attached(&after, user_id, issue_id, tag_id),
    ensures
        before.attach_result(cookie, issue_id, tag_id) == Ok::<Redirect, Rejection>(
            Redirect::Issue(issue_id),
        ),
        after.issue_tags@ == before.issue_tags@,
        has_pair_once(after.issue_tags@, issue_id, tag_id),
        after.actions@.len() == before.actions@.len() + 1,
        after.actions@.last().add_tag == Some(tag_id),
{
    let k = pair_index(before.issue_tags@, issue_id, tag_id);
    assert(link_ok(before.issue_tags@[k], before.issues@, before.tags@));
    lemma_pair_once(before, issue_id, tag_id);
}

/// While the audit log has a key left, detaching a tag that an existing
/// issue does not have succeeds, whatever the tag id, leaves the join table
/// as it was and appends exactly one entry, which records the removal.
pub proof fn lemma_detach_absent_succeeds(
    before: Tracker,
    after: Tracker,
    cookie: Option<Seq<char>>,
    user_id: i32,
    issue_id: i32,
    tag_id: i32,
)
    requires
        before.wf(),
        before.session(cookie) == Some(user_id),
        has_key(before.issues@, issue_id),
        !has_pair(before.issue_tags@, issue_id, tag_id),
        next_key(before.actions@) <= i32::MAX,
        before.tag_detached(&after, user_id, issue_id, tag_id),
    ensures
        before.detach_result(cookie, issue_id, tag_id) == Ok::<Redirect, Rejection>(
            Redirect::Issue(issue_id),
        ),
        after.issue_tags@ == before.issue_tags@,
        after.actions@ == before.actions@.push(after.actions@.last()),
        after.actions@.last().remove_tag == Some(tag_id),
        after.actions@.last().issue_id == issue_id,
        after.actions@.last().user_id == user_id,
        after.actions@.last().single(),
{
    assert(after.actions@ =~= after.actions@.drop_last().push(after.actions@.last()));
}

} // verus!
