//! The handlers that read: sessions, login, listings and the issue page.

use vstd::prelude::*;
use vstd::string::*;
use crate::models::{
    Action, Issue, IssueTag, Tag, User, CLOSED_TAG_ID, GLOBAL_ISSUE_ID, ROOT_USER_ID,
};
use crate::session::{decimal, decimal_string, session_cookie};
use crate::table::{
    find, has_key, lemma_filter_ends, lemma_filter_step, lemma_key_position, row_of,
};
use crate::text::{shorten_string, shortened};
use crate::tracker::{action_ok, cookie_view, is_closed, link_ok, Redirect, Rejection, Tracker};

verus! {

/// What a failed login leaves for the next rendering of the login page.
pub const LOGIN_FAILED: &'static str = "login_failed";

/// A request with a session of an existing user.
#[derive(Debug, Clone, PartialEq)]
pub struct Auth {
    pub user: User,
}

/// A request without one.
#[derive(Debug, Clone, Copy, PartialEq, Eq)]
pub struct NoAuth;

#[derive(Debug, Clone, PartialEq)]
pub struct IndexContext {
    pub user: User,
    pub issues: Vec<Issue>,
}

#[derive(Debug, Clone, Copy, PartialEq, Eq)]
pub struct LoginContext {
    pub failed_attempt: bool,
}

#[derive(Debug, Clone, PartialEq)]
pub struct IssuesContext {
    pub user: User,
    pub issues: Vec<IssuesIssueContext>,
}

#[derive(Debug, Clone, PartialEq)]
pub struct IssuesIssueContext {
    pub id: i32,
    pub title: String,
    pub description: String,
    pub closed: bool,
    pub tags_str: String,
}

#[derive(Debug, Clone, PartialEq)]
pub struct IssueContext {
    pub user: User,
    pub issue: Issue,
    pub tags: Vec<Tag>,
    pub history: Vec<IssueHistoryContext>,
}

#[derive(Debug, Clone, PartialEq)]
pub struct IssueHistoryContext {
    pub user: String,
    pub data: String,
}

#[derive(Debug, Clone, PartialEq)]
pub struct TagsContext {
    pub user: User,
    pub tags: Vec<Tag>,
}

#[derive(Debug, Clone, PartialEq)]
pub struct UsersContext {
    pub user: User,
    pub users: Vec<User>,
}

/// The parts with `sep` between each two neighbours.
pub open spec fn joined(parts: Seq<Seq<char>>, sep: Seq<char>) -> Seq<char>
    decreases parts.len(),
{
    if parts.len() == 0 {
        Seq::empty()
    } else if parts.len() == 1 {
        parts[0]
    } else {
        joined(parts.drop_last(), sep) + sep + parts.last()
    }
}

/// `needle` occurs in `hay` as a run of neighbouring characters.
pub open spec fn occurs_in(needle: Seq<char>, hay: Seq<char>) -> bool {
    exists|i: int|
        0 <= i && i + needle.len() <= hay.len() && #[trigger] hay.subrange(
            i,
            i + needle.len(),
        ) == needle
}

/// `itertools::Itertools::intersperse` over the parts, collected into one
/// `String`: the adaptor yields `sep` between each two neighbouring parts
/// and nothing before the first or after the last.
#[verifier::external_body]
fn intersperse_concat(parts: &Vec<String>, sep: &str) -> (s: String)
    ensures
        s@ == joined(parts@.map_values(|p: String| p@), sep@),
{
    itertools::Itertools::intersperse(parts.iter().map(|p| p.as_str()), sep).collect::<String>()
}

/// `str::contains` with a string pattern: whether the pattern occurs in the
/// text.
#[verifier::external_body]
fn str_contains(hay: &str, needle: &str) -> (found: bool)
    ensures
        found == occurs_in(needle@, hay@),
{
    hay.contains(needle)
}

/// A copy of the row, field for field.
pub fn copy_user(u: &User) -> (r: User)
    ensures
        r == *u,
{
    User {
        id: u.id,
        name: u.name.clone(),
        email: u.email.clone(),
        password: u.password.clone(),
    }
}

/// A copy of the row, field for field.
pub fn copy_issue(i: &Issue) -> (r: Issue)
    ensures
        r == *i,
{
    Issue { id: i.id, title: i.title.clone(), description: i.description.clone() }
}

/// A copy of the row, field for field.
pub fn copy_tag(t: &Tag) -> (r: Tag)
    ensures
        r == *t,
{
    Tag { id: t.id, name: t.name.clone() }
}

/// `row` shows `issue` with its description shortened.
pub open spec fn shows_issue(issue: Issue, row: Issue) -> bool {
    row.id == issue.id && row.title == issue.title && row.description@ == shortened(
        issue.description@,
    )
}

impl Redirect {
    /// The path that the redirect names.
    pub open spec fn path_view(self) -> Seq<char> {
        match self {
            Redirect::Home => "/"@,
            Redirect::Login => "/login"@,
            Redirect::Issue(id) => "/issues/"@ + decimal(id as int),
            Redirect::Tags => "/tags"@,
            Redirect::Users => "/users"@,
        }
    }

    /// The path that the redirect names, as a string.
    pub fn path(&self) -> (p: String)
        ensures
            p@ == self.path_view(),
    {
        match self {
            Redirect::Home => String::from_str("/"),
            Redirect::Login => String::from_str("/login"),
            Redirect::Issue(id) => {
                let mut p = String::from_str("/issues/");
                let n = decimal_string(*id);
                p.append(n.as_str());
                p
            },
            Redirect::Tags => String::from_str("/tags"),
            Redirect::Users => String::from_str("/users"),
        }
    }
}

/// The login page: a client that already has a session cookie is sent home;
/// otherwise the page says whether the flash message reports a failed
/// attempt.
pub fn login(flash: Option<&str>, has_cookie: bool) -> (res: Result<LoginContext, Redirect>)
    ensures
        has_cookie ==> res == Err::<LoginContext, Redirect>(Redirect::Home),
        !has_cookie ==> res == Ok::<LoginContext, Redirect>(
            (LoginContext {
                failed_attempt: match flash {
                    Some(msg) => occurs_in(LOGIN_FAILED@, msg@),
                    None => false,
                },
            }),
        ),
{
    if has_cookie {
        return Err(Redirect::Home);
    }
    let failed_attempt = match flash {
        Some(msg) => str_contains(msg, LOGIN_FAILED),
        None => false,
    };
    Ok(LoginContext { failed_attempt })
}

/// Logging out always sends the client home; the caller clears the cookie.
pub fn logout() -> (to: Redirect)
    ensures
        to == Redirect::Home,
{
    Redirect::Home
}

impl Tracker {
    /// Resolves the session cookie of a request to its user, or to no
    /// authentication at all: absent, unreadable and unknown ids all fail.
    pub fn authenticate(&self, cookie: Option<&str>) -> (res: Result<Auth, NoAuth>)
        requires
            self.wf(),
        ensures
            match self.session(cookie_view(cookie)) {
                Some(id) => res matches Ok(auth) && auth.user == row_of(self.users@, id)
                    && auth.user.id == id,
                None => res is Err,
            },
    {
        match self.session_id(cookie) {
            Some(id) => match find(&self.users, id) {
                Some(k) => Ok(Auth { user: copy_user(&self.users[k]) }),
                None => Err(NoAuth),
            },
            None => Err(NoAuth),
        }
    }

    /// The email and the password are those of the user, character for
    /// character.
    pub open spec fn credentials_match(u: User, email: Seq<char>, password: Seq<char>) -> bool {
        u.email@ == email && u.password@ == password
    }

    /// Checks the credentials. On success the result is the value for the
    /// session cookie of the first user that has them; otherwise the client
    /// goes back to the login page.
    pub fn login_submit(&self, email: &str, password: &str) -> (res: Result<String, Redirect>)
        requires
            self.wf(),
        ensures
            match res {
                Ok(cookie) => exists|k: int|
                    0 <= k < self.users@.len() && Self::credentials_match(
                        #[trigger] self.users@[k],
                        email@,
                        password@,
                    ) && (forall|j: int|
                        0 <= j < k ==> !Self::credentials_match(
                            #[trigger] self.users@[j],
                            email@,
                            password@,
                        )) && cookie@ == decimal(self.users@[k].id as int) && self.session(
                        Some(cookie@),
                    ) == Some(self.users@[k].id),
                Err(to) => to == Redirect::Login && forall|k: int|
                    0 <= k < self.users@.len() ==> !Self::credentials_match(
                        #[trigger] self.users@[k],
                        email@,
                        password@,
                    ),
            },
    {
        let given_email = String::from_str(email);
        let given_password = String::from_str(password);
        let mut k: usize = 0;
        while k < self.users.len()
            invariant
                k <= self.users@.len(),
                self.wf(),
                given_email@ == email@,
                given_password@ == password@,
                forall|j: int|
                    0 <= j < k ==> !Self::credentials_match(
                        #[trigger] self.users@[j],
                        email@,
                        password@,
                    ),
            decreases self.users@.len() - k,
        {
            if self.users[k].email == given_email && self.users[k].password == given_password {
                let cookie = session_cookie(self.users[k].id);
                proof {
                    lemma_key_position(self.users@, k as int);
                    assert(Self::credentials_match(self.users@[k as int], email@, password@));
                }
                return Ok(cookie);
            }
            k = k + 1;
        }
        Err(Redirect::Login)
    }

    /// The issues of the home page: all but the global issue and the closed
    /// ones.
    pub open spec fn on_home(&self) -> spec_fn(Issue) -> bool {
        |i: Issue| i.id != GLOBAL_ISSUE_ID && !is_closed(self.issue_tags@, i.id)
    }

    /// The issues of the issue list: all but the global issue.
    pub open spec fn listed() -> spec_fn(Issue) -> bool {
        |i: Issue| i.id != GLOBAL_ISSUE_ID
    }

    /// The home page: the open issues in table order, descriptions
    /// shortened. A client without a session is sent to the login page.
    pub fn index(&self, cookie: Option<&str>) -> (res: Result<IndexContext, Redirect>)
        requires
            self.wf(),
        ensures
            match self.session(cookie_view(cookie)) {
                None => res == Err::<IndexContext, Redirect>(Redirect::Login),
                Some(id) => res matches Ok(ctx) && ctx.user == row_of(self.users@, id) && {
                    let open = self.issues@.filter(self.on_home());
                    &&& ctx.issues@.len() == open.len()
                    &&& forall|k: int|
                        0 <= k < open.len() ==> shows_issue(open[k], #[trigger] ctx.issues@[k])
                    &&& forall|k: int|
                        0 <= k < ctx.issues@.len() ==> !is_closed(
                            self.issue_tags@,
                            (#[trigger] ctx.issues@[k]).id,
                        )
                },
            },
    {
        let user = match self.authenticate(cookie) {
            Ok(auth) => auth.user,
            Err(_) => {
                return Err(Redirect::Login);
            },
        };
        let mut issues: Vec<Issue> = Vec::new();
        let mut n: usize = 0;
        while n < self.issues.len()
            invariant
                n <= self.issues@.len(),
                self.wf(),
                issues@.len() == self.issues@.take(n as int).filter(self.on_home()).len(),
                forall|k: int|
                    0 <= k < issues@.len() ==> shows_issue(
                        self.issues@.take(n as int).filter(self.on_home())[k],
                        #[trigger] issues@[k],
                    ),
                forall|k: int|
                    0 <= k < issues@.len() ==> !is_closed(
                        self.issue_tags@,
                        (#[trigger] issues@[k]).id,
                    ),
            decreases self.issues@.len() - n,
        {
            proof {
                lemma_filter_step(self.issues@, n as int, self.on_home());
            }
            let id: i32 = self.issues[n].id;
            if id != GLOBAL_ISSUE_ID && !self.closed(id) {
                let mut row = copy_issue(&self.issues[n]);
                shorten_string(&mut row.description);
                issues.push(row);
            }
            n = n + 1;
        }
        proof {
            lemma_filter_ends(self.issues@, self.on_home());
        }
        Ok(IndexContext { user, issues })
    }
}

impl Tracker {
    /// The rows of the join table that belong to the issue.
    pub open spec fn of_issue(issue_id: i32) -> spec_fn(IssueTag) -> bool {
        |l: IssueTag| l.issue_id == issue_id
    }

    /// The tag that a row of the join table names.
    pub open spec fn tag_of(&self) -> spec_fn(IssueTag) -> Tag {
        |l: IssueTag| row_of(self.tags@, l.tag_id)
    }

    /// The tags of the issue, in the order in which they were attached.
    pub open spec fn tags_for(&self, issue_id: i32) -> Seq<Tag> {
        self.issue_tags@.filter(Self::of_issue(issue_id)).map_values(self.tag_of())
    }

    /// The names of the tags of the issue, joined by a comma and a space.
    pub open spec fn tag_names(&self, issue_id: i32) -> Seq<char> {
        joined(self.tags_for(issue_id).map_values(|t: Tag| t.name@), ", "@)
    }

    /// The tags of the issue, in the order in which they were attached.
    pub fn tags_of(&self, issue_id: i32) -> (tags: Vec<Tag>)
        requires
            self.wf(),
        ensures
            tags@ == self.tags_for(issue_id),
    {
        let mut tags: Vec<Tag> = Vec::new();
        let mut n: usize = 0;
        proof {
            lemma_filter_ends(self.issue_tags@, Self::of_issue(issue_id));
            assert(tags@ =~= self.issue_tags@.take(0).filter(Self::of_issue(issue_id)).map_values(
                self.tag_of(),
            ));
        }
        while n < self.issue_tags.len()
            invariant
                n <= self.issue_tags@.len(),
                self.wf(),
                tags@ == self.issue_tags@.take(n as int).filter(
                    Self::of_issue(issue_id),
                ).map_values(self.tag_of()),
            decreases self.issue_tags@.len() - n,
        {
            proof {
                lemma_filter_step(self.issue_tags@, n as int, Self::of_issue(issue_id));
            }
            let link: IssueTag = self.issue_tags[n];
            if link.issue_id == issue_id {
                assert(link_ok(self.issue_tags@[n as int], self.issues@, self.tags@));
                match find(&self.tags, link.tag_id) {
                    Some(k) => {
                        let ghost before = self.issue_tags@.take(n as int).filter(
                            Self::of_issue(issue_id),
                        );
                        tags.push(copy_tag(&self.tags[k]));
                        assert(tags@ =~= before.push(link).map_values(self.tag_of()));
                    },
                    None => {},
                }
            }
            n = n + 1;
        }
        tags
    }

    /// `row` shows `issue` on the issue list: description and tag names
    /// shortened, and whether it is closed.
    pub open spec fn lists_issue(&self, issue: Issue, row: IssuesIssueContext) -> bool {
        &&& row.id == issue.id
        &&& row.title == issue.title
        &&& row.description@ == shortened(issue.description@)
        &&& row.closed == is_closed(self.issue_tags@, issue.id)
        &&& row.tags_str@ == shortened(self.tag_names(issue.id))
    }

    /// The row of the issue list for `issue`.
    pub fn list_row(&self, issue: &Issue) -> (row: IssuesIssueContext)
        requires
            self.wf(),
        ensures
            self.lists_issue(*issue, row),
    {
        let tags = self.tags_of(issue.id);
        let mut names: Vec<String> = Vec::new();
        let mut m: usize = 0;
        while m < tags.len()
            invariant
                m <= tags@.len(),
                names@.len() == m,
                forall|k: int| 0 <= k < m ==> (#[trigger] names@[k]) == tags@[k].name,
            decreases tags@.len() - m,
        {
            names.push(tags[m].name.clone());
            m = m + 1;
        }
        assert(names@.map_values(|p: String| p@) =~= tags@.map_values(|t: Tag| t.name@));
        let mut row = IssuesIssueContext {
            id: issue.id,
            title: issue.title.clone(),
            description: issue.description.clone(),
            closed: self.closed(issue.id),
            tags_str: intersperse_concat(&names, ", "),
        };
        shorten_string(&mut row.description);
        shorten_string(&mut row.tags_str);
        row
    }

    /// The issue list: every issue but the global one, open or closed, in
    /// table order.
    pub fn issues(&self, cookie: Option<&str>) -> (res: Result<IssuesContext, Rejection>)
        requires
            self.wf(),
        ensures
            match self.session(cookie_view(cookie)) {
                None => res == Err::<IssuesContext, Rejection>(Rejection::Forbidden),
                Some(id) => res matches Ok(ctx) && ctx.user == row_of(self.users@, id) && {
                    let all = self.issues@.filter(Self::listed());
                    &&& ctx.issues@.len() == all.len()
                    &&& forall|k: int|
                        0 <= k < all.len() ==> self.lists_issue(all[k], #[trigger] ctx.issues@[k])
                },
            },
    {
        let user = match self.authenticate(cookie) {
            Ok(auth) => auth.user,
            Err(_) => {
                return Err(Rejection::Forbidden);
            },
        };
        let mut issues: Vec<IssuesIssueContext> = Vec::new();
        let mut n: usize = 0;
        while n < self.issues.len()
            invariant
                n <= self.issues@.len(),
                self.wf(),
                issues@.len() == self.issues@.take(n as int).filter(Self::listed()).len(),
                forall|k: int|
                    0 <= k < issues@.len() ==> self.lists_issue(
                        self.issues@.take(n as int).filter(Self::listed())[k],
                        #[trigger] issues@[k],
                    ),
            decreases self.issues@.len() - n,
        {
            proof {
                lemma_filter_step(self.issues@, n as int, Self::listed());
            }
            if self.issues[n].id != GLOBAL_ISSUE_ID {
                let row = self.list_row(&self.issues[n]);
                issues.push(row);
            }
            n = n + 1;
        }
        proof {
            lemma_filter_ends(self.issues@, Self::listed());
        }
        Ok(IssuesContext { user, issues })
    }

    /// The audit entries about the issue.
    pub open spec fn about(issue_id: i32) -> spec_fn(Action) -> bool {
        |a: Action| a.issue_id == issue_id
    }

    /// The line that tells what an audit entry records: the comment as it
    /// is, or a phrase that names the tag, the issue or the user. A removal
    /// of a tag id that no tag has shows the id.
    pub open spec fn rendered(&self, a: Action) -> Seq<char> {
        if let Some(c) = a.comment {
            c@
        } else if let Some(t) = a.add_tag {
            "added tag "@ + row_of(self.tags@, t).name@
        } else if let Some(t) = a.remove_tag {
            if has_key(self.tags@, t) {
                "removed tag "@ + row_of(self.tags@, t).name@
            } else {
                "removed tag #"@ + decimal(t as int)
            }
        } else if let Some(i) = a.create_issue {
            "added issue #"@ + decimal(i as int)
        } else if let Some(u) = a.create_user {
            "added user "@ + row_of(self.users@, u).name@
        } else {
            Seq::empty()
        }
    }

    /// `line` tells the entry: the name of its user, and what it records.
    pub open spec fn tells(&self, a: Action, line: IssueHistoryContext) -> bool {
        line.user == row_of(self.users@, a.user_id).name && line.data@ == self.rendered(a)
    }

    /// `lead` followed by the name of the tag.
    fn tag_phrase(&self, lead: &str, tag_id: i32) -> (s: String)
        requires
            self.wf(),
            has_key(self.tags@, tag_id),
        ensures
            s@ == lead@ + row_of(self.tags@, tag_id).name@,
    {
        let mut s = String::from_str(lead);
        match find(&self.tags, tag_id) {
            Some(k) => {
                s.append(self.tags[k].name.as_str());
            },
            None => {},
        }
        s
    }

    /// The history line of one audit entry.
    pub fn history_line(&self, a: &Action) -> (line: IssueHistoryContext)
        requires
            self.wf(),
            action_ok(*a, self.users@, self.issues@, self.tags@),
        ensures
            self.tells(*a, line),
    {
        let user = match find(&self.users, a.user_id) {
            Some(k) => self.users[k].name.clone(),
            None => String::new(),
        };
        let data = if let Some(c) = &a.comment {
            c.clone()
        } else if let Some(t) = a.add_tag {
            self.tag_phrase("added tag ", t)
        } else if let Some(t) = a.remove_tag {
            match find(&self.tags, t) {
                Some(_) => self.tag_phrase("removed tag ", t),
                None => {
                    let mut s = String::from_str("removed tag #");
                    let n = decimal_string(t);
                    s.append(n.as_str());
                    s
                },
            }
        } else if let Some(i) = a.create_issue {
            let mut s = String::from_str("added issue #");
            let n = decimal_string(i);
            s.append(n.as_str());
            s
        } else if let Some(u) = a.create_user {
            let mut s = String::from_str("added user ");
            match find(&self.users, u) {
                Some(k) => {
                    s.append(self.users[k].name.as_str());
                },
                None => {},
            }
            s
        } else {
            String::new()
        };
        IssueHistoryContext { user, data }
    }

    /// The page of one issue: the issue, its tags, and the audit entries
    /// about it in the order in which they were made.
    pub fn issue(&self, cookie: Option<&str>, id: i32) -> (res: Result<IssueContext, Rejection>)
        requires
            self.wf(),
        ensures
            match self.session(cookie_view(cookie)) {
                None => res == Err::<IssueContext, Rejection>(Rejection::Forbidden),
                Some(user_id) => if !has_key(self.issues@, id) {
                    res == Err::<IssueContext, Rejection>(Rejection::NotFound)
                } else {
                    res matches Ok(ctx) && ctx.user == row_of(self.users@, user_id) && ctx.issue
                        == row_of(self.issues@, id) && ctx.tags@ == self.tags_for(id) && {
                        let entries = self.actions@.filter(Self::about(id));
                        &&& ctx.history@.len() == entries.len()
                        &&& forall|k: int|
                            0 <= k < entries.len() ==> self.tells(
                                entries[k],
                                #[trigger] ctx.history@[k],
                            )
                    }
                },
            },
    {
        let user = match self.authenticate(cookie) {
            Ok(auth) => auth.user,
            Err(_) => {
                return Err(Rejection::Forbidden);
            },
        };
        let issue = match find(&self.issues, id) {
            Some(k) => copy_issue(&self.issues[k]),
            None => {
                return Err(Rejection::NotFound);
            },
        };
        let tags = self.tags_of(id);
        let mut history: Vec<IssueHistoryContext> = Vec::new();
        let mut n: usize = 0;
        while n < self.actions.len()
            invariant
                n <= self.actions@.len(),
                self.wf(),
                history@.len() == self.actions@.take(n as int).filter(Self::about(id)).len(),
                forall|k: int|
                    0 <= k < history@.len() ==> self.tells(
                        self.actions@.take(n as int).filter(Self::about(id))[k],
                        #[trigger] history@[k],
                    ),
            decreases self.actions@.len() - n,
        {
            proof {
                lemma_filter_step(self.actions@, n as int, Self::about(id));
            }
            if self.actions[n].issue_id == id {
                assert(action_ok(self.actions@[n as int], self.users@, self.issues@, self.tags@));
                let line = self.history_line(&self.actions[n]);
                history.push(line);
            }
            n = n + 1;
        }
        proof {
            lemma_filter_ends(self.actions@, Self::about(id));
        }
        Ok(IssueContext { user, issue, tags, history })
    }

    /// The whole tag table for programs, the closed tag too, in table
    /// order: nothing is left out.
    pub fn json_tags(&self, cookie: Option<&str>) -> (res: Result<Vec<Tag>, Rejection>)
        requires
            self.wf(),
        ensures
            match self.session(cookie_view(cookie)) {
                None => res == Err::<Vec<Tag>, Rejection>(Rejection::Forbidden),
                Some(_) => res matches Ok(tags) && tags@ == self.tags@,
            },
    {
        if self.session_id(cookie).is_none() {
            return Err(Rejection::Forbidden);
        }
        let mut tags: Vec<Tag> = Vec::new();
        let mut n: usize = 0;
        while n < self.tags.len()
            invariant
                n <= self.tags@.len(),
                tags@ == self.tags@.take(n as int),
            decreases self.tags@.len() - n,
        {
            tags.push(copy_tag(&self.tags[n]));
            assert(self.tags@.take(n + 1) =~= self.tags@.take(n as int).push(self.tags@[n as int]));
            n = n + 1;
        }
        assert(self.tags@.take(n as int) =~= self.tags@);
        Ok(tags)
    }

    /// The tags of the tag page: all but the closed tag.
    pub open spec fn not_closed_tag() -> spec_fn(Tag) -> bool {
        |t: Tag| t.id != CLOSED_TAG_ID
    }

    /// The tag page: every tag but the reserved closed tag, in table order.
    pub fn tags(&self, cookie: Option<&str>) -> (res: Result<TagsContext, Rejection>)
        requires
            self.wf(),
        ensures
            match self.session(cookie_view(cookie)) {
                None => res == Err::<TagsContext, Rejection>(Rejection::Forbidden),
                Some(id) => res matches Ok(ctx) && ctx.user == row_of(self.users@, id) && ctx.tags@
                    == self.tags@.filter(Self::not_closed_tag()) && forall|k: int|
                    0 <= k < ctx.tags@.len() ==> (#[trigger] ctx.tags@[k]).id != CLOSED_TAG_ID,
            },
    {
        let user = match self.authenticate(cookie) {
            Ok(auth) => auth.user,
            Err(_) => {
                return Err(Rejection::Forbidden);
            },
        };
        let mut tags: Vec<Tag> = Vec::new();
        let mut n: usize = 0;
        proof {
            lemma_filter_ends(self.tags@, Self::not_closed_tag());
        }
        while n < self.tags.len()
            invariant
                n <= self.tags@.len(),
                self.wf(),
                tags@ == self.tags@.take(n as int).filter(Self::not_closed_tag()),
                forall|k: int| 0 <= k < tags@.len() ==> (#[trigger] tags@[k]).id != CLOSED_TAG_ID,
            decreases self.tags@.len() - n,
        {
            proof {
                lemma_filter_step(self.tags@, n as int, Self::not_closed_tag());
            }
            if self.tags[n].id != CLOSED_TAG_ID {
                tags.push(copy_tag(&self.tags[n]));
            }
            n = n + 1;
        }
        Ok(TagsContext { user, tags })
    }

    /// The users of the user list: all but the root user.
    pub open spec fn not_root() -> spec_fn(User) -> bool {
        |u: User| u.id != ROOT_USER_ID
    }

    /// The user page: every user but the root user, in table order.
    pub fn users(&self, cookie: Option<&str>) -> (res: Result<UsersContext, Rejection>)
        requires
            self.wf(),
        ensures
            match self.session(cookie_view(cookie)) {
                None => res == Err::<UsersContext, Rejection>(Rejection::Forbidden),
                Some(id) => res matches Ok(ctx) && ctx.user == row_of(self.users@, id)
                    && ctx.users@ == self.users@.filter(Self::not_root()) && forall|k: int|
                    0 <= k < ctx.users@.len() ==> (#[trigger] ctx.users@[k]).id != ROOT_USER_ID,
            },
    {
        let user = match self.authenticate(cookie) {
            Ok(auth) => auth.user,
            Err(_) => {
                return Err(Rejection::Forbidden);
            },
        };
        let mut users: Vec<User> = Vec::new();
        let mut n: usize = 0;
        proof {
            lemma_filter_ends(self.users@, Self::not_root());
        }
        while n < self.users.len()
            invariant
                n <= self.users@.len(),
                self.wf(),
                users@ == self.users@.take(n as int).filter(Self::not_root()),
                forall|k: int| 0 <= k < users@.len() ==> (#[trigger] users@[k]).id != ROOT_USER_ID,
            decreases self.users@.len() - n,
        {
            proof {
                lemma_filter_step(self.users@, n as int, Self::not_root());
            }
            if self.users[n].id != ROOT_USER_ID {
                users.push(copy_user(&self.users[n]));
            }
            n = n + 1;
        }
        Ok(UsersContext { user, users })
    }
}

} // verus!
