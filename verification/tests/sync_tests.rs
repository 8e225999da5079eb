use riirview::gh::{
    self, check_update_and_limit, detail_urls, list_url, thread_url, Issue, PullRequest, Release,
    Repository, Subject, User,
};
use riirview::score::Scorer;
use riirview::service::{self, SyncError};
use riirview::store::Store;
use riirview::time::{parse_ts, Timestamp};

fn ts(day: u32, hour: u32) -> Timestamp {
    Timestamp { year: 2025, month: 1, day, hour, minute: 0, second: 0 }
}

fn remote(id: u32, kind: gh::NotificationType, url: &str) -> gh::Notification {
    gh::Notification {
        id: format!("{id}"),
        unread: true,
        reason: "participating".to_string(),
        updated_at: ts(1 + id % 28, id % 24),
        subject: Subject {
            title: format!("  subject {id}  "),
            url: Some(url.to_string()),
            type_: kind,
        },
        repository: Repository { full_name: format!("org{}/repo{}", id % 5, id) },
    }
}

fn pr(url: &str, state: &str, merged: bool, draft: bool) -> PullRequest {
    PullRequest {
        url: url.to_string(),
        html_url: format!("{url}/html"),
        state: state.to_string(),
        number: 1,
        draft,
        merged,
        user: User { login: "prauthor".to_string() },
    }
}

fn release(url: &str) -> Release {
    Release {
        url: url.to_string(),
        html_url: format!("{url}/html"),
        author: User { login: "relauthor".to_string() },
    }
}

fn issue(url: &str, state: &str) -> Issue {
    Issue {
        url: url.to_string(),
        html_url: format!("{url}/html"),
        user: User { login: "isauthor".to_string() },
        state: state.to_string(),
    }
}

/// A fixed fifty-notification fixture with matching detail records.
fn fixture() -> (Vec<gh::Notification>, Vec<PullRequest>, Vec<Release>, Vec<Issue>) {
    let mut ns = Vec::new();
    let mut prs = Vec::new();
    let mut rels = Vec::new();
    let mut iss = Vec::new();
    for i in 0..50u32 {
        let url = format!("https://api.github.com/repos/org{}/repo{}/thing/{}", i % 5, i, i);
        match i % 3 {
            0 => {
                ns.push(remote(i, gh::NotificationType::PullRequest, &url));
                prs.push(pr(&url, if i % 2 == 0 { "open" } else { "closed" }, i % 4 == 1, false));
            }
            1 => {
                ns.push(remote(i, gh::NotificationType::Release, &url));
                rels.push(release(&url));
            }
            _ => {
                ns.push(remote(i, gh::NotificationType::Issue, &url));
                iss.push(issue(&url, if i % 2 == 0 { "open" } else { "closed" }));
            }
        }
    }
    (ns, prs, rels, iss)
}

#[test]
fn test_e2e() {
    let (ns, prs, rels, iss) = fixture();
    let scorer = Scorer::new(None).unwrap();
    let mut store = Store::new();

    service::sync(&mut store, &ns, &prs, &rels, &iss, &scorer).unwrap();
    let notifications = service::get_notifications(&store, "");
    assert_eq!(notifications.len(), 50);

    // Add a manual boost to the top row.
    let notification = &notifications[0];
    let first_id = notification.id.clone();
    assert!(service::update_score(&mut store, &first_id, 10));

    let notifications = service::get_notifications(&store, "");
    let notification = &notifications[0];
    assert_eq!(notification.id, first_id);
    assert_eq!(notification.score_boost, 10);

    // Resync with identical remote data: the boost survives and the
    // row count is unchanged.
    service::sync(&mut store, &ns, &prs, &rels, &iss, &scorer).unwrap();

    let notifications = service::get_notifications(&store, "");
    assert_eq!(notifications.len(), 50);
    let notification = &notifications[0];
    assert_eq!(notification.id, first_id);
    assert_eq!(notification.score_boost, 10);
}

#[test]
fn test_sync_idempotent() {
    let (ns, prs, rels, iss) = fixture();
    let scorer = Scorer::new(None).unwrap();

    let mut once = Store::new();
    service::sync(&mut once, &ns, &prs, &rels, &iss, &scorer).unwrap();
    let mut twice = Store::new();
    service::sync(&mut twice, &ns, &prs, &rels, &iss, &scorer).unwrap();
    service::sync(&mut twice, &ns, &prs, &rels, &iss, &scorer).unwrap();

    let a = service::get_notifications(&once, "");
    let b = service::get_notifications(&twice, "");
    assert_eq!(a.len(), b.len());
    for (x, y) in a.iter().zip(b.iter()) {
        assert_eq!(x.id, y.id);
        assert_eq!(x.score, y.score);
        assert_eq!(x.score_boost, y.score_boost);
        assert_eq!(x.done, y.done);
    }
}

#[test]
fn test_resync_resets_done_and_keeps_boost() {
    let (ns, prs, rels, iss) = fixture();
    let scorer = Scorer::new(None).unwrap();
    let mut store = Store::new();
    service::sync(&mut store, &ns, &prs, &rels, &iss, &scorer).unwrap();

    let id = "7".to_string();
    assert!(service::update_score(&mut store, &id, 3));
    assert!(service::mark_notification_as_done(&mut store, &id));
    // Done rows are hidden from the default view.
    assert_eq!(service::get_notifications(&store, "").len(), 49);

    service::sync(&mut store, &ns, &prs, &rels, &iss, &scorer).unwrap();
    let rows = service::get_notifications(&store, "");
    assert_eq!(rows.len(), 50);
    let row = rows.iter().find(|n| n.id == id).unwrap();
    assert_eq!(row.score_boost, 3);
    assert!(!row.done);
}

#[test]
fn test_sync_missing_detail_aborts_without_writes() {
    let (ns, mut prs, rels, iss) = fixture();
    prs.remove(0);
    let scorer = Scorer::new(None).unwrap();
    let mut store = Store::new();
    let err = service::sync(&mut store, &ns, &prs, &rels, &iss, &scorer).unwrap_err();
    assert_eq!(err, SyncError::MissingPullRequest);
    assert_eq!(store.len(), 0);
}

#[test]
fn test_state_derivation() {
    let make = |kind, url: &str| gh::Notification {
        subject: Subject {
            title: "t".to_string(),
            url: Some(url.to_string()),
            type_: kind,
        },
        ..remote(0, kind, url)
    };
    let scorer = Scorer::new(None).unwrap();

    let cases = vec![
        (pr("u", "closed", true, false), riirview::models::NotificationState::Resolved),
        (pr("u", "closed", false, false), riirview::models::NotificationState::Canceled),
        (pr("u", "open", false, true), riirview::models::NotificationState::Draft),
        (pr("u", "open", false, false), riirview::models::NotificationState::Open),
    ];
    for (p, want) in cases {
        let mut store = Store::new();
        let ns = vec![make(gh::NotificationType::PullRequest, "u")];
        service::sync(&mut store, &ns, &vec![p], &Vec::new(), &Vec::new(), &scorer).unwrap();
        let rows = service::get_notifications(&store, "");
        assert_eq!(rows[0].state, want);
        assert_eq!(rows[0].author, "prauthor");
        assert_eq!(rows[0].url, "u/html");
        // Same inputs always derive the same state.
        let mut store2 = Store::new();
        let p2 = rows[0].clone();
        let ns = vec![make(gh::NotificationType::PullRequest, "u")];
        let again = pr("u", if want == riirview::models::NotificationState::Resolved
            || want == riirview::models::NotificationState::Canceled
        {
            "closed"
        } else {
            "open"
        }, want == riirview::models::NotificationState::Resolved,
            want == riirview::models::NotificationState::Draft);
        service::sync(&mut store2, &ns, &vec![again], &Vec::new(), &Vec::new(), &scorer)
            .unwrap();
        assert_eq!(service::get_notifications(&store2, "")[0].state, p2.state);
    }

    let mut store = Store::new();
    let ns = vec![make(gh::NotificationType::Issue, "u")];
    service::sync(&mut store, &ns, &Vec::new(), &Vec::new(), &vec![issue("u", "open")], &scorer)
        .unwrap();
    assert_eq!(
        service::get_notifications(&store, "")[0].state,
        riirview::models::NotificationState::Open
    );

    let mut store = Store::new();
    let ns = vec![make(gh::NotificationType::Issue, "u")];
    service::sync(
        &mut store,
        &ns,
        &Vec::new(),
        &Vec::new(),
        &vec![issue("u", "closed")],
        &scorer,
    )
    .unwrap();
    assert_eq!(
        service::get_notifications(&store, "")[0].state,
        riirview::models::NotificationState::Resolved
    );

    let mut store = Store::new();
    let ns = vec![make(gh::NotificationType::Release, "u")];
    service::sync(&mut store, &ns, &Vec::new(), &vec![release("u")], &Vec::new(), &scorer)
        .unwrap();
    let rows = service::get_notifications(&store, "");
    assert_eq!(rows[0].state, riirview::models::NotificationState::Open);
    assert_eq!(rows[0].author, "relauthor");

    // Unknown kinds fall back to a canceled pull request with empty
    // author and link.
    let mut store = Store::new();
    let ns = vec![make(gh::NotificationType::Unknown, "u")];
    service::sync(&mut store, &ns, &Vec::new(), &Vec::new(), &Vec::new(), &scorer).unwrap();
    let rows = service::get_notifications(&store, "");
    assert_eq!(rows[0].state, riirview::models::NotificationState::Canceled);
    assert_eq!(rows[0].author, "");
    assert_eq!(rows[0].url, "");
}

#[test]
fn test_sync_trims_titles_and_scores() {
    let ns = vec![remote(3, gh::NotificationType::Release, "u")];
    let rels = vec![release("u")];
    let scorer = Scorer::new(Some(
        "[authors]\nrule = \"author\"\nparam = \"relauthor\"\nscore = 40\n",
    ))
    .unwrap();
    let mut store = Store::new();
    service::sync(&mut store, &ns, &Vec::new(), &rels, &Vec::new(), &scorer).unwrap();
    let rows = service::get_notifications(&store, "");
    assert_eq!(rows[0].title, "subject 3");
    assert_eq!(rows[0].score, 40);
}

#[test]
fn test_get_notifications_order_and_filter() {
    let scorer = Scorer::new(None).unwrap();
    let mut store = Store::new();
    let mk = |id: &str, day: u32| gh::Notification {
        id: id.to_string(),
        unread: false,
        reason: "assign".to_string(),
        updated_at: ts(day, 0),
        subject: Subject {
            title: format!("Rust work {id}"),
            url: Some(format!("u{id}")),
            type_: gh::NotificationType::Release,
        },
        repository: Repository { full_name: "org/name".to_string() },
    };
    let ns = vec![mk("a", 1), mk("b", 5), mk("c", 3)];
    let rels = vec![release("ua"), release("ub"), release("uc")];
    service::sync(&mut store, &ns, &Vec::new(), &rels, &Vec::new(), &scorer).unwrap();

    // Same rank everywhere: recency decides.
    let rows = service::get_notifications(&store, "");
    let ids: Vec<&str> = rows.iter().map(|n| n.id.as_str()).collect();
    assert_eq!(ids, vec!["b", "c", "a"]);

    // A boost dominates recency.
    assert!(service::update_score(&mut store, "a", 50));
    let rows = service::get_notifications(&store, "");
    assert_eq!(rows[0].id, "a");

    // Free text matches across the title, case-insensitively.
    let rows = service::get_notifications(&store, "RUST WORK C");
    assert_eq!(rows.len(), 1);
    assert_eq!(rows[0].id, "c");

    // A structured author filter.
    let rows = service::get_notifications(&store, "author:relauthor");
    assert_eq!(rows.len(), 3);
    let rows = service::get_notifications(&store, "author:nobody");
    assert_eq!(rows.len(), 0);
}

#[test]
fn test_mark_read_and_done_bulk() {
    let (ns, prs, rels, iss) = fixture();
    let scorer = Scorer::new(None).unwrap();
    let mut store = Store::new();
    service::sync(&mut store, &ns, &prs, &rels, &iss, &scorer).unwrap();

    assert!(service::mark_notification_as_read(&mut store, "4"));
    let rows = service::get_notifications(&store, "");
    assert!(!rows.iter().find(|n| n.id == "4").unwrap().unread);

    let ids: Vec<String> = vec!["1".into(), "2".into(), "3".into()];
    service::mark_notifications_as_done(&mut store, &ids);
    assert_eq!(service::get_notifications(&store, "").len(), 47);
}

#[test]
fn test_timestamp_parse_and_format() {
    let t = parse_ts(&"2025-01-19T08:43:54Z".chars().collect::<Vec<char>>()).unwrap();
    assert_eq!(
        t,
        Timestamp { year: 2025, month: 1, day: 19, hour: 8, minute: 43, second: 54 }
    );
    let back: String = riirview::time::fmt_ts(&t).into_iter().collect();
    assert_eq!(back, "2025-01-19T08:43:54Z");

    assert!(parse_ts(&"2025-13-19T08:43:54Z".chars().collect::<Vec<char>>()).is_none());
    assert!(parse_ts(&"2025-02-30T08:43:54Z".chars().collect::<Vec<char>>()).is_none());
    assert!(parse_ts(&"2024-02-29T00:00:00Z".chars().collect::<Vec<char>>()).is_some());
    assert!(parse_ts(&"2025-01-19 08:43:54Z".chars().collect::<Vec<char>>()).is_none());
}

#[test]
fn test_gateway_urls() {
    assert_eq!(
        list_url("https://api.github.com", None),
        "https://api.github.com/notifications"
    );
    let t = ts(19, 8);
    assert_eq!(
        list_url("https://api.github.com", Some(&t)),
        "https://api.github.com/notifications?all=true&since=2025-01-19T08:00:00Z"
    );
    assert_eq!(
        thread_url("https://api.github.com", "123"),
        "https://api.github.com/notifications/threads/123"
    );
}

#[test]
fn test_detail_urls_pick_kind() {
    let ns = vec![
        remote(1, gh::NotificationType::PullRequest, "pu"),
        remote(2, gh::NotificationType::Issue, "iu"),
        gh::Notification {
            subject: Subject {
                title: "no url".to_string(),
                url: None,
                type_: gh::NotificationType::PullRequest,
            },
            ..remote(3, gh::NotificationType::PullRequest, "ignored")
        },
        remote(4, gh::NotificationType::PullRequest, "pv"),
    ];
    assert_eq!(detail_urls(&ns, gh::NotificationType::PullRequest), vec!["pu", "pv"]);
    assert_eq!(detail_urls(&ns, gh::NotificationType::Issue), vec!["iu"]);
    assert!(detail_urls(&ns, gh::NotificationType::Release).is_empty());
}

#[test]
fn test_check_update_and_limit() {
    let t = ts(1, 0);
    let us = check_update_and_limit(200, Some("60"), Some("4999"), Some("1"), t).unwrap();
    assert!(us.need_update);
    assert_eq!(us.poll_interval, 60);
    assert_eq!(us.ratelimit_remaining, 4999);
    assert_eq!(us.ratelimit_used, 1);
    assert_eq!(us.last_update, t);

    let us = check_update_and_limit(304, Some("60"), Some("4999"), Some("1"), t).unwrap();
    assert!(!us.need_update);

    assert!(check_update_and_limit(200, None, Some("4999"), Some("1"), t).is_none());
    assert!(check_update_and_limit(200, Some("abc"), Some("4999"), Some("1"), t).is_none());
}

#[test]
fn test_org_split() {
    let n = riirview::models::Notification {
        id: "1".into(),
        title: "t".into(),
        repo: "torvalds/linux".into(),
        url: String::new(),
        type_: riirview::models::NotificationType::PullRequest,
        unread: false,
        updated_at: ts(1, 0),
        done: false,
        score: 0,
        score_boost: 0,
        state: riirview::models::NotificationState::Open,
        author: "a".into(),
        reason: "r".into(),
    };
    assert_eq!(n.org(), "torvalds");
    let mut n2 = n.clone();
    n2.repo = "noslash".to_string();
    assert_eq!(n2.org(), "noslash");
}

#[test]
fn test_boost_saturates() {
    let scorer = Scorer::new(None).unwrap();
    let mut store = Store::new();
    let ns = vec![remote(1, gh::NotificationType::Release, "u")];
    service::sync(&mut store, &ns, &Vec::new(), &vec![release("u")], &Vec::new(), &scorer)
        .unwrap();
    assert!(service::update_score(&mut store, "1", i64::MAX));
    assert!(service::update_score(&mut store, "1", i64::MAX));
    let rows = service::get_notifications(&store, "");
    assert_eq!(rows[0].score_boost, i64::MAX);
    assert!(!service::update_score(&mut store, "nonexistent", 1));
}
