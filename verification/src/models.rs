//! Rows of the five tables, and the payloads from which new rows are made.

use vstd::prelude::*;

verus! {

/// `chrono::NaiveDateTime`, the time of an audit entry. It is carried
/// through; nothing is read from it.
#[verifier::external_type_specification]
#[verifier::external_body]
pub struct ExNaiveDateTime(chrono::NaiveDateTime);

/// `Clone::clone` of `chrono::NaiveDateTime`, a `Copy` type whose derived
/// clone hands back the same date and time.
pub assume_specification[ <chrono::NaiveDateTime as Clone>::clone ](
    t: &chrono::NaiveDateTime,
) -> (res: chrono::NaiveDateTime)
    ensures
        res == *t,
;

/// Id of the root user, which user listings leave out.
pub const ROOT_USER_ID: i32 = 0;

/// Id of the issue that stands for "no particular issue" in the audit log.
pub const GLOBAL_ISSUE_ID: i32 = 0;

/// Id of the tag that marks an issue as closed.
pub const CLOSED_TAG_ID: i32 = 0;

#[derive(Debug, Clone, PartialEq)]
pub struct User {
    pub id: i32,
    pub name: String,
    pub email: String,
    pub password: String,
}

#[derive(Debug, Clone, PartialEq)]
pub struct NewUser {
    pub name: String,
    pub email: String,
    pub password: String,
}

#[derive(Debug, Clone, PartialEq)]
pub struct Issue {
    pub id: i32,
    pub title: String,
    pub description: String,
}

#[derive(Debug, Clone, PartialEq)]
pub struct NewIssue {
    pub title: String,
    pub description: String,
}

#[derive(Debug, Clone, PartialEq)]
pub struct Tag {
    pub id: i32,
    pub name: String,
}

#[derive(Debug, Clone, PartialEq)]
pub struct NewTag {
    pub name: String,
}

#[derive(Debug, Clone, Copy, PartialEq)]
pub struct IssueTag {
    pub id: i32,
    pub issue_id: i32,
    pub tag_id: i32,
}

#[derive(Debug, Clone, Copy, PartialEq)]
pub struct NewIssueTag {
    pub issue_id: i32,
    pub tag_id: i32,
}

/// One entry of the audit log. Exactly one of the five optional fields of a
/// well-formed entry is populated; it says what was done.
#[derive(Debug, Clone, PartialEq)]
pub struct Action {
    pub id: i32,
    pub user_id: i32,
    pub issue_id: i32,
    pub time: chrono::NaiveDateTime,
    pub comment: Option<String>,
    pub add_tag: Option<i32>,
    pub remove_tag: Option<i32>,
    pub create_issue: Option<i32>,
    pub create_user: Option<i32>,
}

#[derive(Debug, Clone, PartialEq)]
pub struct NewAction {
    pub user_id: i32,
    pub issue_id: i32,
    pub time: chrono::NaiveDateTime,
    pub comment: Option<String>,
    pub add_tag: Option<i32>,
    pub remove_tag: Option<i32>,
    pub create_issue: Option<i32>,
    pub create_user: Option<i32>,
}

/// What an audit entry records, as a sum type.
#[derive(Debug, Clone, PartialEq)]
pub enum ActionKind {
    Comment(String),
    AddTag(i32),
    RemoveTag(i32),
    CreateIssue(i32),
    CreateUser(i32),
}

/// A row with an integer primary key.
pub trait Row: Sized {
    spec fn key(&self) -> i32;

    fn id(&self) -> (id: i32)
        ensures
            id == self.key(),
    ;

    /// A copy of the row, field for field.
    fn duplicate(&self) -> (r: Self)
        ensures
            r == *self,
    ;
}

impl Row for User {
    open spec fn key(&self) -> i32 {
        self.id
    }

    fn id(&self) -> (id: i32) {
        self.id
    }

    fn duplicate(&self) -> (r: Self) {
        User {
            id: self.id,
            name: self.name.clone(),
            email: self.email.clone(),
            password: self.password.clone(),
        }
    }
}

impl Row for Issue {
    open spec fn key(&self) -> i32 {
        self.id
    }

    fn id(&self) -> (id: i32) {
        self.id
    }

    fn duplicate(&self) -> (r: Self) {
        Issue { id: self.id, title: self.title.clone(), description: self.description.clone() }
    }
}

impl Row for Tag {
    open spec fn key(&self) -> i32 {
        self.id
    }

    fn id(&self) -> (id: i32) {
        self.id
    }

    fn duplicate(&self) -> (r: Self) {
        Tag { id: self.id, name: self.name.clone() }
    }
}

impl Row for IssueTag {
    open spec fn key(&self) -> i32 {
        self.id
    }

    fn id(&self) -> (id: i32) {
        self.id
    }

    fn duplicate(&self) -> (r: Self) {
        IssueTag { id: self.id, issue_id: self.issue_id, tag_id: self.tag_id }
    }
}

impl Row for Action {
    open spec fn key(&self) -> i32 {
        self.id
    }

    fn id(&self) -> (id: i32) {
        self.id
    }

    fn duplicate(&self) -> (r: Self) {
        Action {
            id: self.id,
            user_id: self.user_id,
            issue_id: self.issue_id,
            time: self.time.clone(),
            comment: match &self.comment {
                Some(c) => Some(c.clone()),
                None => None,
            },
            add_tag: self.add_tag,
            remove_tag: self.remove_tag,
            create_issue: self.create_issue,
            create_user: self.create_user,
        }
    }
}

/// How many of the five optional fields are populated.
pub open spec fn populated(
    comment: Option<String>,
    add_tag: Option<i32>,
    remove_tag: Option<i32>,
    create_issue: Option<i32>,
    create_user: Option<i32>,
) -> int {
    (if comment is Some { 1int } else { 0 }) + (if add_tag is Some { 1int } else { 0 }) + (
    if remove_tag is Some { 1int } else { 0 }) + (if create_issue is Some { 1int } else { 0 }) + (
    if create_user is Some { 1int } else { 0 })
}

impl NewAction {
    /// The entry that records `kind`, done by `user_id` on `issue_id` at `time`.
    pub open spec fn recording(
        user_id: i32,
        issue_id: i32,
        time: chrono::NaiveDateTime,
        kind: ActionKind,
    ) -> NewAction {
        NewAction {
            user_id,
            issue_id,
            time,
            comment: if let ActionKind::Comment(c) = kind { Some(c) } else { None },
            add_tag: if let ActionKind::AddTag(t) = kind { Some(t) } else { None },
            remove_tag: if let ActionKind::RemoveTag(t) = kind { Some(t) } else { None },
            create_issue: if let ActionKind::CreateIssue(i) = kind { Some(i) } else { None },
            create_user: if let ActionKind::CreateUser(u) = kind { Some(u) } else { None },
        }
    }

    /// Builds the entry that records `kind`.
    pub fn new(user_id: i32, issue_id: i32, time: chrono::NaiveDateTime, kind: ActionKind) -> (a:
        NewAction)
        ensures
            a == NewAction::recording(user_id, issue_id, time, kind),
            populated(a.comment, a.add_tag, a.remove_tag, a.create_issue, a.create_user) == 1,
    {
        let mut a = NewAction {
            user_id,
            issue_id,
            time,
            comment: None,
            add_tag: None,
            remove_tag: None,
            create_issue: None,
            create_user: None,
        };
        match kind {
            ActionKind::Comment(c) => {
                a.comment = Some(c);
            },
            ActionKind::AddTag(t) => {
                a.add_tag = Some(t);
            },
            ActionKind::RemoveTag(t) => {
                a.remove_tag = Some(t);
            },
            ActionKind::CreateIssue(i) => {
                a.create_issue = Some(i);
            },
            ActionKind::CreateUser(u) => {
                a.create_user = Some(u);
            },
        }
        a
    }

    /// Builds the entry that records `kind`, stamped with the local time of
    /// the call.
    pub fn now(user_id: i32, issue_id: i32, kind: ActionKind) -> (a: NewAction)
        ensures
            a == NewAction::recording(user_id, issue_id, a.time, kind),
    {
        NewAction::new(user_id, issue_id, local_now(), kind)
    }
}

impl Action {
    /// What the entry records, where exactly one field is populated.
    pub open spec fn kind(self) -> ActionKind {
        if let Some(c) = self.comment {
            ActionKind::Comment(c)
        } else if let Some(t) = self.add_tag {
            ActionKind::AddTag(t)
        } else if let Some(t) = self.remove_tag {
            ActionKind::RemoveTag(t)
        } else if let Some(i) = self.create_issue {
            ActionKind::CreateIssue(i)
        } else {
            ActionKind::CreateUser(self.create_user.unwrap_or(0))
        }
    }

    /// Exactly one of the five optional fields is populated.
    pub open spec fn single(self) -> bool {
        populated(self.comment, self.add_tag, self.remove_tag, self.create_issue, self.create_user)
            == 1
    }

    /// The row that `new` becomes under the key `id`.
    pub open spec fn stored(id: i32, new: NewAction) -> Action {
        Action {
            id,
            user_id: new.user_id,
            issue_id: new.issue_id,
            time: new.time,
            comment: new.comment,
            add_tag: new.add_tag,
            remove_tag: new.remove_tag,
            create_issue: new.create_issue,
            create_user: new.create_user,
        }
    }

    /// Stores `new` under the key `id`.
    pub fn insert(id: i32, new: NewAction) -> (a: Action)
        ensures
            a == Action::stored(id, new),
    {
        Action {
            id,
            user_id: new.user_id,
            issue_id: new.issue_id,
            time: new.time,
            comment: new.comment,
            add_tag: new.add_tag,
            remove_tag: new.remove_tag,
            create_issue: new.create_issue,
            create_user: new.create_user,
        }
    }
}

/// `chrono::Local::now` followed by `DateTime::naive_local`: the wall-clock
/// time of this machine in its own time zone. Nothing is claimed of the value.
#[verifier::external_body]
pub(crate) fn local_now() -> (t: chrono::NaiveDateTime) {
    chrono::Local::now().naive_local()
}

} // verus!
