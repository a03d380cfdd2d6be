use issue_tracker::models::{
    Action, ActionKind, Issue, NewAction, NewIssue, NewTag, NewUser, Tag, User, CLOSED_TAG_ID,
    GLOBAL_ISSUE_ID, ROOT_USER_ID,
};
use issue_tracker::pages::{login, logout, IssueHistoryContext, LoginContext, LOGIN_FAILED};
use issue_tracker::session::COOKIE_USER_KEY;
use issue_tracker::table::{find, next_id};
use issue_tracker::tracker::{Redirect, Rejection, Tracker};

fn seeded() -> Tracker {
    Tracker::seeded(
        NewUser {
            name: String::from("root"),
            email: String::from("root@example.org"),
            password: String::from("toor"),
        },
        NewIssue { title: String::from("global"), description: String::new() },
        NewTag { name: String::from("closed") },
    )
}

fn issue_form(title: &str, description: &str) -> NewIssue {
    NewIssue { title: String::from(title), description: String::from(description) }
}

fn populated(a: &Action) -> usize {
    let mut n = 0;
    if a.comment.is_some() {
        n += 1;
    }
    if a.add_tag.is_some() {
        n += 1;
    }
    if a.remove_tag.is_some() {
        n += 1;
    }
    if a.create_issue.is_some() {
        n += 1;
    }
    if a.create_user.is_some() {
        n += 1;
    }
    n
}

#[test]
fn seeded_tracker_holds_the_reserved_rows() {
    let t = seeded();
    assert_eq!(t.users.len(), 1);
    assert_eq!(t.users[0].id, ROOT_USER_ID);
    assert_eq!(t.users[0].name, "root");
    assert_eq!(t.issues.len(), 1);
    assert_eq!(t.issues[0].id, GLOBAL_ISSUE_ID);
    assert_eq!(t.tags, vec![Tag { id: CLOSED_TAG_ID, name: String::from("closed") }]);
    assert!(t.issue_tags.is_empty());
    assert!(t.actions.is_empty());
    assert_eq!(COOKIE_USER_KEY, "user");
}

#[test]
fn login_with_right_credentials_gives_the_cookie_of_the_user() {
    let mut t = seeded();
    let form = NewUser {
        name: String::from("ann"),
        email: String::from("ann@example.org"),
        password: String::from("secret"),
    };
    assert_eq!(t.new_user_submit(Some("0"), form), Ok(Redirect::Users));
    let cookie = t.login_submit("ann@example.org", "secret").unwrap();
    assert_eq!(cookie, "1");
    assert_eq!(t.session_id(Some(cookie.as_str())), Some(1));
    let auth = t.authenticate(Some(cookie.as_str())).unwrap();
    assert_eq!(auth.user.id, 1);
    assert_eq!(auth.user.name, "ann");
    assert_eq!(t.login_submit("root@example.org", "toor"), Ok(String::from("0")));
}

#[test]
fn login_with_wrong_credentials_goes_back_to_login() {
    let t = seeded();
    assert_eq!(t.login_submit("root@example.org", "wrong"), Err(Redirect::Login));
    assert_eq!(t.login_submit("ROOT@example.org", "toor"), Err(Redirect::Login));
    assert_eq!(t.login_submit("root@example.org", "toor "), Err(Redirect::Login));
    assert_eq!(t.login_submit("", ""), Err(Redirect::Login));
}

#[test]
fn login_page_shows_a_failed_attempt_only_with_the_flash() {
    assert_eq!(login(Some(LOGIN_FAILED), false), Ok(LoginContext { failed_attempt: true }));
    assert_eq!(login(Some("error: login_failed!"), false), Ok(LoginContext { failed_attempt: true }));
    assert_eq!(login(Some("welcome"), false), Ok(LoginContext { failed_attempt: false }));
    assert_eq!(login(None, false), Ok(LoginContext { failed_attempt: false }));
    assert_eq!(login(None, true), Err(Redirect::Home));
    assert_eq!(login(Some(LOGIN_FAILED), true), Err(Redirect::Home));
    assert_eq!(logout(), Redirect::Home);
}

#[test]
fn session_fails_closed() {
    let t = seeded();
    assert_eq!(t.session_id(None), None);
    assert_eq!(t.session_id(Some("x")), None);
    assert_eq!(t.session_id(Some("7")), None);
    assert_eq!(t.session_id(Some("0")), Some(0));
    assert!(t.authenticate(None).is_err());
    assert!(t.authenticate(Some("7")).is_err());
    assert!(t.authenticate(Some("")).is_err());
}

#[test]
fn requests_without_a_session_are_rejected_and_change_nothing() {
    let mut t = seeded();
    let before = t.clone();
    for cookie in [None, Some("nobody"), Some("99")] {
        assert_eq!(t.new_issue_submit(cookie, issue_form("a", "b")), Err(Rejection::Forbidden));
        assert_eq!(
            t.issue_new_comment_submit(cookie, 0, String::from("hi")),
            Err(Rejection::Forbidden)
        );
        assert_eq!(
            t.new_tag_submit(cookie, NewTag { name: String::from("bug") }),
            Err(Rejection::Forbidden)
        );
        assert_eq!(t.issue_add_tag(cookie, 0, 0), Err(Rejection::Forbidden));
        assert_eq!(t.issue_remove_tag(cookie, 0, 0), Err(Rejection::Forbidden));
        assert_eq!(
            t.new_user_submit(
                cookie,
                NewUser { name: String::new(), email: String::new(), password: String::new() }
            ),
            Err(Rejection::Forbidden)
        );
        assert_eq!(t.issues(cookie), Err(Rejection::Forbidden));
        assert_eq!(t.issue(cookie, 0), Err(Rejection::Forbidden));
        assert_eq!(t.tags(cookie), Err(Rejection::Forbidden));
        assert_eq!(t.json_tags(cookie), Err(Rejection::Forbidden));
        assert_eq!(t.users(cookie), Err(Rejection::Forbidden));
        assert_eq!(t.index(cookie), Err(Redirect::Login));
    }
    assert_eq!(t, before);
}

#[test]
fn new_issue_appends_the_issue_and_one_entry() {
    let mut t = seeded();
    assert_eq!(t.new_issue_submit(Some("0"), issue_form("crash", "it crashes")), Ok(Redirect::Home));
    assert_eq!(t.issues.len(), 2);
    assert_eq!(
        t.issues[1],
        Issue { id: 1, title: String::from("crash"), description: String::from("it crashes") }
    );
    assert_eq!(t.actions.len(), 1);
    let a = &t.actions[0];
    assert_eq!(a.id, 1);
    assert_eq!(a.user_id, 0);
    assert_eq!(a.issue_id, 1);
    assert_eq!(a.create_issue, Some(1));
    assert_eq!(populated(a), 1);
    assert_eq!(t.new_issue_submit(Some("0"), issue_form("second", "")), Ok(Redirect::Home));
    assert_eq!(t.issues[2].id, 2);
    assert_eq!(t.actions[1].id, 2);
    assert_eq!(t.actions[1].create_issue, Some(2));
}

#[test]
fn every_change_appends_exactly_one_entry_of_its_kind() {
    let mut t = seeded();
    t.new_issue_submit(Some("0"), issue_form("crash", "")).unwrap();
    assert_eq!(t.actions.len(), 1);
    assert_eq!(t.issue_new_comment_submit(Some("0"), 1, String::from("me too")), Ok(Redirect::Issue(1)));
    assert_eq!(t.actions.len(), 2);
    assert_eq!(t.actions[1].comment, Some(String::from("me too")));
    assert_eq!(t.actions[1].issue_id, 1);
    assert_eq!(t.new_tag_submit(Some("0"), NewTag { name: String::from("bug") }), Ok(Redirect::Tags));
    assert_eq!(t.actions.len(), 3);
    assert_eq!(t.tags[1], Tag { id: 1, name: String::from("bug") });
    assert_eq!(t.actions[2].add_tag, Some(1));
    assert_eq!(t.actions[2].issue_id, GLOBAL_ISSUE_ID);
    assert_eq!(t.issue_add_tag(Some("0"), 1, 1), Ok(Redirect::Issue(1)));
    assert_eq!(t.actions.len(), 4);
    assert_eq!(t.actions[3].add_tag, Some(1));
    assert_eq!(t.actions[3].issue_id, 1);
    assert_eq!(t.issue_remove_tag(Some("0"), 1, 1), Ok(Redirect::Issue(1)));
    assert_eq!(t.actions.len(), 5);
    assert_eq!(t.actions[4].remove_tag, Some(1));
    let form = NewUser {
        name: String::from("ann"),
        email: String::from("ann@example.org"),
        password: String::from("secret"),
    };
    assert_eq!(t.new_user_submit(Some("0"), form), Ok(Redirect::Users));
    assert_eq!(t.actions.len(), 6);
    assert_eq!(t.actions[5].create_user, Some(1));
    assert_eq!(t.actions[5].issue_id, GLOBAL_ISSUE_ID);
    assert_eq!(
        t.users[1],
        User {
            id: 1,
            name: String::from("ann"),
            email: String::from("ann@example.org"),
            password: String::from("secret"),
        }
    );
    for (k, a) in t.actions.iter().enumerate() {
        assert_eq!(populated(a), 1);
        assert_eq!(a.id, k as i32 + 1);
        assert_eq!(a.user_id, 0);
    }
}

#[test]
fn attaching_twice_leaves_one_row_and_two_entries() {
    let mut t = seeded();
    t.new_issue_submit(Some("0"), issue_form("crash", "")).unwrap();
    let entries = t.actions.len();
    assert_eq!(t.issue_add_tag(Some("0"), 1, 0), Ok(Redirect::Issue(1)));
    assert_eq!(t.issue_add_tag(Some("0"), 1, 0), Ok(Redirect::Issue(1)));
    let rows: Vec<_> =
        t.issue_tags.iter().filter(|l| l.issue_id == 1 && l.tag_id == 0).collect();
    assert_eq!(rows.len(), 1);
    assert_eq!(rows[0].id, 1);
    assert_eq!(t.actions.len(), entries + 2);
    assert_eq!(t.actions[entries].add_tag, Some(0));
    assert_eq!(t.actions[entries + 1].add_tag, Some(0));
    assert_eq!(t.find_pair(1, 0), Some(0));
}

#[test]
fn detaching_an_absent_pair_succeeds_and_adds_one_entry() {
    let mut t = seeded();
    t.new_issue_submit(Some("0"), issue_form("crash", "")).unwrap();
    let entries = t.actions.len();
    assert_eq!(t.issue_remove_tag(Some("0"), 1, 0), Ok(Redirect::Issue(1)));
    assert!(t.issue_tags.is_empty());
    assert_eq!(t.actions.len(), entries + 1);
    assert_eq!(t.actions[entries].remove_tag, Some(0));
    assert_eq!(populated(&t.actions[entries]), 1);
}

#[test]
fn detaching_removes_only_the_pair() {
    let mut t = seeded();
    t.new_issue_submit(Some("0"), issue_form("one", "")).unwrap();
    t.new_issue_submit(Some("0"), issue_form("two", "")).unwrap();
    t.new_tag_submit(Some("0"), NewTag { name: String::from("bug") }).unwrap();
    t.issue_add_tag(Some("0"), 1, 0).unwrap();
    t.issue_add_tag(Some("0"), 1, 1).unwrap();
    t.issue_add_tag(Some("0"), 2, 1).unwrap();
    t.issue_remove_tag(Some("0"), 1, 1).unwrap();
    let pairs: Vec<(i32, i32, i32)> =
        t.issue_tags.iter().map(|l| (l.id, l.issue_id, l.tag_id)).collect();
    assert_eq!(pairs, vec![(1, 1, 0), (3, 2, 1)]);
    t.issue_add_tag(Some("0"), 1, 1).unwrap();
    assert_eq!(t.issue_tags[2].id, 4);
}

#[test]
fn closed_is_read_from_the_join_table() {
    let mut t = seeded();
    t.new_issue_submit(Some("0"), issue_form("crash", "")).unwrap();
    t.new_tag_submit(Some("0"), NewTag { name: String::from("bug") }).unwrap();
    assert!(!t.closed(1));
    t.issue_add_tag(Some("0"), 1, 1).unwrap();
    assert!(!t.closed(1));
    t.issue_add_tag(Some("0"), 1, CLOSED_TAG_ID).unwrap();
    assert!(t.closed(1));
    assert!(!t.closed(0));
    t.issue_remove_tag(Some("0"), 1, CLOSED_TAG_ID).unwrap();
    assert!(!t.closed(1));
}

#[test]
fn home_lists_open_issues_and_the_list_shows_all() {
    let mut t = seeded();
    t.new_issue_submit(Some("0"), issue_form("open one", &"d".repeat(200))).unwrap();
    t.new_issue_submit(Some("0"), issue_form("closed one", "short")).unwrap();
    t.new_tag_submit(Some("0"), NewTag { name: String::from("bug") }).unwrap();
    t.issue_add_tag(Some("0"), 2, 1).unwrap();
    t.issue_add_tag(Some("0"), 2, 0).unwrap();
    t.issue_add_tag(Some("0"), 1, 1).unwrap();

    let home = t.index(Some("0")).unwrap();
    assert_eq!(home.user.id, 0);
    assert_eq!(home.issues.len(), 1);
    assert_eq!(home.issues[0].id, 1);
    assert_eq!(home.issues[0].title, "open one");
    assert_eq!(home.issues[0].description, format!("{}...", "d".repeat(80)));

    let all = t.issues(Some("0")).unwrap();
    assert_eq!(all.user.name, "root");
    assert_eq!(all.issues.len(), 2);
    assert_eq!(all.issues[0].id, 1);
    assert!(!all.issues[0].closed);
    assert_eq!(all.issues[0].tags_str, "bug");
    assert_eq!(all.issues[0].description, format!("{}...", "d".repeat(80)));
    assert_eq!(all.issues[1].id, 2);
    assert!(all.issues[1].closed);
    assert_eq!(all.issues[1].tags_str, "bug, closed");
    assert_eq!(all.issues[1].description, "short");
    assert_eq!(t.issues[1].description, "d".repeat(200));
}

#[test]
fn tag_names_are_joined_and_shortened() {
    let mut t = seeded();
    t.new_issue_submit(Some("0"), issue_form("bare", "")).unwrap();
    t.new_issue_submit(Some("0"), issue_form("many", "")).unwrap();
    for k in 0..12 {
        let name = format!("label-{:02}", k);
        t.new_tag_submit(Some("0"), NewTag { name }).unwrap();
        t.issue_add_tag(Some("0"), 2, k + 1).unwrap();
    }
    let all = t.issues(Some("0")).unwrap();
    assert_eq!(all.issues[0].tags_str, "");
    let whole: String =
        (0..12).map(|k| format!("label-{:02}", k)).collect::<Vec<String>>().join(", ");
    assert_eq!(all.issues[1].tags_str, format!("{}...", &whole[..80]));
    let tags = t.tags_of(2);
    assert_eq!(tags.len(), 12);
    assert_eq!(tags[3].name, "label-03");
}

#[test]
fn issue_page_tells_the_history_in_order() {
    let mut t = seeded();
    let ann = NewUser {
        name: String::from("ann"),
        email: String::from("ann@example.org"),
        password: String::from("secret"),
    };
    t.new_user_submit(Some("0"), ann).unwrap();
    t.new_issue_submit(Some("1"), issue_form("crash", "it crashes")).unwrap();
    t.new_tag_submit(Some("0"), NewTag { name: String::from("bug") }).unwrap();
    t.issue_new_comment_submit(Some("0"), 1, String::from("me too")).unwrap();
    t.issue_add_tag(Some("1"), 1, 1).unwrap();
    t.issue_add_tag(Some("1"), 1, 0).unwrap();
    t.issue_remove_tag(Some("0"), 1, 1).unwrap();

    let page = t.issue(Some("1"), 1).unwrap();
    assert_eq!(page.user.name, "ann");
    assert_eq!(page.issue, t.issues[1]);
    assert_eq!(page.tags, vec![Tag { id: 0, name: String::from("closed") }]);
    let line = |user: &str, data: &str| IssueHistoryContext {
        user: String::from(user),
        data: String::from(data),
    };
    assert_eq!(
        page.history,
        vec![
            line("ann", "added issue #1"),
            line("root", "me too"),
            line("ann", "added tag bug"),
            line("ann", "added tag closed"),
            line("root", "removed tag bug"),
        ]
    );
    let global = t.issue(Some("0"), GLOBAL_ISSUE_ID).unwrap();
    assert_eq!(global.history, vec![line("root", "added user ann"), line("root", "added tag bug")]);
    assert!(global.tags.is_empty());
}

#[test]
fn missing_rows_are_not_found_and_change_nothing() {
    let mut t = seeded();
    let before = t.clone();
    assert_eq!(t.issue(Some("0"), 5), Err(Rejection::NotFound));
    assert_eq!(t.issue_new_comment_submit(Some("0"), 5, String::from("x")), Err(Rejection::NotFound));
    assert_eq!(t.issue_add_tag(Some("0"), 5, 0), Err(Rejection::NotFound));
    assert_eq!(t.issue_add_tag(Some("0"), 0, 5), Err(Rejection::NotFound));
    assert_eq!(t.issue_remove_tag(Some("0"), 5, 0), Err(Rejection::NotFound));
    assert_eq!(t, before);
}

#[test]
fn detaching_a_tag_that_does_not_exist_succeeds_and_is_recorded() {
    let mut t = seeded();
    assert_eq!(t.issue_remove_tag(Some("0"), 0, 5), Ok(Redirect::Issue(0)));
    assert!(t.issue_tags.is_empty());
    assert_eq!(t.actions.len(), 1);
    assert_eq!(t.actions[0].remove_tag, Some(5));
    assert_eq!(t.actions[0].issue_id, 0);
    assert_eq!(t.actions[0].user_id, 0);
    assert_eq!(populated(&t.actions[0]), 1);
    assert!(t.check());
    let page = t.issue(Some("0"), 0).unwrap();
    assert_eq!(
        page.history,
        vec![IssueHistoryContext {
            user: String::from("root"),
            data: String::from("removed tag #5"),
        }]
    );
    t.new_tag_submit(Some("0"), NewTag { name: String::from("bug") }).unwrap();
    assert_eq!(t.issue_remove_tag(Some("0"), 0, 1), Ok(Redirect::Issue(0)));
    let page = t.issue(Some("0"), 0).unwrap();
    assert_eq!(page.history[2].data, "removed tag bug");
}

#[test]
fn a_full_table_is_reported_and_nothing_changes() {
    let mut t = seeded();
    t.issues.push(Issue { id: i32::MAX, title: String::from("last"), description: String::new() });
    t.tags.push(Tag { id: i32::MAX, name: String::from("last") });
    t.users.push(User {
        id: i32::MAX,
        name: String::from("last"),
        email: String::new(),
        password: String::new(),
    });
    let before = t.clone();
    assert_eq!(next_id(&t.issues), None);
    assert_eq!(t.new_issue_submit(Some("0"), issue_form("a", "b")), Err(Rejection::Exhausted));
    assert_eq!(
        t.new_tag_submit(Some("0"), NewTag { name: String::from("bug") }),
        Err(Rejection::Exhausted)
    );
    assert_eq!(
        t.new_user_submit(
            Some("2147483647"),
            NewUser { name: String::new(), email: String::new(), password: String::new() }
        ),
        Err(Rejection::Exhausted)
    );
    assert_eq!(t, before);
    assert_eq!(t.issue_add_tag(Some("0"), i32::MAX, i32::MAX), Ok(Redirect::Issue(i32::MAX)));
}

#[test]
fn lists_of_tags_and_users() {
    let mut t = seeded();
    t.new_tag_submit(Some("0"), NewTag { name: String::from("bug") }).unwrap();
    let ann = NewUser {
        name: String::from("ann"),
        email: String::from("ann@example.org"),
        password: String::from("secret"),
    };
    t.new_user_submit(Some("0"), ann).unwrap();
    assert_eq!(t.json_tags(Some("1")), Ok(t.tags.clone()));
    assert_eq!(t.json_tags(Some("1")).unwrap()[0].id, CLOSED_TAG_ID);
    let page = t.tags(Some("1")).unwrap();
    assert_eq!(page.user.name, "ann");
    assert_eq!(page.tags, vec![Tag { id: 1, name: String::from("bug") }]);
    assert!(page.tags.iter().all(|tag| tag.id != CLOSED_TAG_ID));
    let bare = seeded();
    assert!(bare.tags(Some("0")).unwrap().tags.is_empty());
    assert_eq!(bare.json_tags(Some("0")).unwrap().len(), 1);
    let users = t.users(Some("0")).unwrap();
    assert_eq!(users.user.id, ROOT_USER_ID);
    assert_eq!(users.users, vec![t.users[1].clone()]);
}

#[test]
fn redirect_paths() {
    assert_eq!(Redirect::Home.path(), "/");
    assert_eq!(Redirect::Login.path(), "/login");
    assert_eq!(Redirect::Issue(5).path(), "/issues/5");
    assert_eq!(Redirect::Issue(120).path(), "/issues/120");
    assert_eq!(Redirect::Tags.path(), "/tags");
    assert_eq!(Redirect::Users.path(), "/users");
}

#[test]
fn entries_have_one_field_for_their_kind() {
    let time = NewAction::now(0, 0, ActionKind::AddTag(0)).time;
    let kinds = vec![
        ActionKind::Comment(String::from("c")),
        ActionKind::AddTag(3),
        ActionKind::RemoveTag(4),
        ActionKind::CreateIssue(5),
        ActionKind::CreateUser(6),
    ];
    for kind in kinds {
        let new = NewAction::new(7, 8, time, kind.clone());
        assert_eq!(new.user_id, 7);
        assert_eq!(new.issue_id, 8);
        assert_eq!(new.time, time);
        let a = Action::insert(9, new);
        assert_eq!(a.id, 9);
        assert_eq!(populated(&a), 1);
        match kind {
            ActionKind::Comment(c) => assert_eq!(a.comment, Some(c)),
            ActionKind::AddTag(t) => assert_eq!(a.add_tag, Some(t)),
            ActionKind::RemoveTag(t) => assert_eq!(a.remove_tag, Some(t)),
            ActionKind::CreateIssue(i) => assert_eq!(a.create_issue, Some(i)),
            ActionKind::CreateUser(u) => assert_eq!(a.create_user, Some(u)),
        }
    }
}

#[test]
fn rows_are_found_by_key() {
    let mut t = seeded();
    t.new_issue_submit(Some("0"), issue_form("a", "")).unwrap();
    t.new_issue_submit(Some("0"), issue_form("b", "")).unwrap();
    assert_eq!(find(&t.issues, 0), Some(0));
    assert_eq!(find(&t.issues, 2), Some(2));
    assert_eq!(find(&t.issues, 3), None);
    assert_eq!(next_id(&t.issues), Some(3));
    assert_eq!(next_id(&t.issue_tags), Some(1));
}

#[test]
fn rows_from_outside_are_checked() {
    let mut t = seeded();
    assert!(t.check());
    t.new_issue_submit(Some("0"), issue_form("a", "")).unwrap();
    t.issue_add_tag(Some("0"), 1, 0).unwrap();
    assert!(t.check());

    let mut twice = t.clone();
    let mut link = twice.issue_tags[0];
    link.id = 2;
    twice.issue_tags.push(link);
    assert!(!twice.pairs_distinct());
    assert!(!twice.check());

    let mut dangling = t.clone();
    dangling.issue_tags[0].tag_id = 9;
    assert!(!dangling.links_valid());
    assert!(!dangling.check());

    let mut unordered = t.clone();
    unordered.issues.swap(0, 1);
    assert!(!unordered.check());

    let mut no_root = t.clone();
    no_root.actions.clear();
    no_root.users[0].id = 3;
    assert!(!no_root.check());

    let mut two_fields = t.clone();
    two_fields.actions[0].comment = Some(String::from("x"));
    assert!(!two_fields.action_valid(&two_fields.actions[0]));
    assert!(!two_fields.check());

    let mut no_field = t.clone();
    no_field.actions[0].create_issue = None;
    assert!(!no_field.actions_valid());
    assert!(!no_field.check());

    let mut stranger = t.clone();
    stranger.actions[0].user_id = 5;
    assert!(!stranger.check());
}
