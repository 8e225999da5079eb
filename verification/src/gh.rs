//! The remote API gateway's data model and its pure mechanics.
//!
//! The HTTP transport lives outside the library; everything the
//! gateway decides or computes — request URLs, which subjects to
//! enrich, and what the probe's response headers mean — is here.

use vstd::prelude::*;
use crate::text::chars_of;
use crate::text::parse_u64;
use crate::text::spec_parse_u64;
use crate::text::string_from_chars;
use crate::time::Timestamp;
use crate::time::ts_fmt;

verus! {

/// The kind of a notification subject, as the remote API reports it.
/// Anything unrecognized is `Unknown`.
#[derive(Debug, Clone, Copy, PartialEq, Eq, Structural)]
pub enum NotificationType {
    PullRequest,
    Release,
    Issue,
    Unknown,
}

/// The subject of a remote notification.
#[derive(Debug, Clone)]
pub struct Subject {
    pub title: String,
    pub url: Option<String>,
    pub type_: NotificationType,
}

/// The repository a remote notification belongs to.
#[derive(Debug, Clone)]
pub struct Repository {
    pub full_name: String,
}

/// One notification as fetched from the remote feed.
#[derive(Debug, Clone)]
pub struct Notification {
    pub id: String,
    pub unread: bool,
    pub reason: String,
    pub updated_at: Timestamp,
    pub subject: Subject,
    pub repository: Repository,
}

/// The actor behind a pull request, issue or release.
#[derive(Debug, Clone)]
pub struct User {
    pub login: String,
}

/// The authoritative pull-request record.
#[derive(Debug, Clone)]
pub struct PullRequest {
    pub url: String,
    pub html_url: String,
    pub state: String,
    pub number: i32,
    pub draft: bool,
    pub merged: bool,
    pub user: User,
}

/// The authoritative release record.
#[derive(Debug, Clone)]
pub struct Release {
    pub url: String,
    pub html_url: String,
    pub author: User,
}

/// The authoritative issue record.
#[derive(Debug, Clone)]
pub struct Issue {
    pub url: String,
    pub html_url: String,
    pub user: User,
    pub state: String,
}

/// What the conditional probe learned.
#[derive(Debug, Clone, Copy, PartialEq, Eq, Structural)]
pub struct UpdateStatus {
    pub need_update: bool,
    pub last_update: Timestamp,
    pub poll_interval: u64,
    pub ratelimit_remaining: u64,
    pub ratelimit_used: u64,
}

/// Gateway failures that are named, not transported.
#[derive(Debug, Clone, Copy, PartialEq, Eq, Structural)]
pub enum Error {
    /// No credential was supplied; the gateway fails fast.
    MissingToken,
}

/// The URL of the notification list: when a watermark is present the
/// feed is filtered server-side with `all=true&since=`.
pub open spec fn list_url_spec(base: Seq<char>, since: Option<Timestamp>) -> Seq<char> {
    match since {
        None => base + "/notifications"@,
        Some(t) => base + "/notifications?all=true&since="@ + ts_fmt(t),
    }
}

/// Builds the notification-list URL.
pub fn list_url(base: &str, since: Option<&Timestamp>) -> (r: String)
    requires
        match since {
            Some(t) => t.wf(),
            None => true,
        },
    ensures
        r@ == list_url_spec(base@, match since {
            Some(t) => Some(*t),
            None => None,
        }),
{
    let mut v = chars_of(base);
    match since {
        None => {
            let mut tail = chars_of("/notifications");
            v.append(&mut tail);
        },
        Some(t) => {
            let mut tail = chars_of("/notifications?all=true&since=");
            v.append(&mut tail);
            let mut ts = crate::time::fmt_ts(t);
            v.append(&mut ts);
        },
    }
    string_from_chars(&v)
}

/// The URL of one notification thread, for the mark-done and
/// mark-read mutations.
pub open spec fn thread_url_spec(base: Seq<char>, id: Seq<char>) -> Seq<char> {
    base + "/notifications/threads/"@ + id
}

/// Builds a thread URL.
pub fn thread_url(base: &str, id: &str) -> (r: String)
    ensures
        r@ == thread_url_spec(base@, id@),
{
    let mut v = chars_of(base);
    let mut mid = chars_of("/notifications/threads/");
    v.append(&mut mid);
    let mut idv = chars_of(id);
    v.append(&mut idv);
    string_from_chars(&v)
}

/// The detail URLs of the notifications of one kind, in feed order:
/// a subject with no URL is skipped.
pub open spec fn detail_urls_spec(ns: Seq<Notification>, kind: NotificationType) -> Seq<
    Seq<char>,
>
    decreases ns.len(),
{
    if ns.len() == 0 {
        Seq::empty()
    } else {
        let head: Seq<Seq<char>> = if ns[0].subject.type_ == kind && ns[0].subject.url is Some {
            seq![ns[0].subject.url->Some_0@]
        } else {
            Seq::empty()
        };
        head + detail_urls_spec(ns.drop_first(), kind)
    }
}

/// Collects the detail URLs to fetch for one enrichable kind.
pub fn detail_urls(ns: &Vec<Notification>, kind: NotificationType) -> (r: Vec<String>)
    ensures
        r.deep_view() == detail_urls_spec(ns@, kind),
{
    let n = ns.len();
    let mut out: Vec<String> = Vec::new();
    let mut i: usize = 0;
    proof {
        assert(ns@.skip(0) =~= ns@);
    }
    while i < n
        invariant
            n == ns@.len(),
            i <= n,
            out.deep_view() + detail_urls_spec(ns@.skip(i as int), kind) == detail_urls_spec(
                ns@,
                kind,
            ),
        decreases n - i,
    {
        proof {
            let tail = ns@.skip(i as int);
            assert(tail.drop_first() =~= ns@.skip(i as int + 1));
            assert(tail[0] == ns@[i as int]);
        }
        let keep: bool = ns[i].subject.type_ == kind;
        if keep {
            match &ns[i].subject.url {
                Some(u) => {
                    out.push(u.clone());
                    proof {
                        assert(out.deep_view() =~~= out.deep_view().drop_last().push(
                            ns@[i as int].subject.url->Some_0@,
                        ));
                        assert(out.deep_view().drop_last().push(ns@[i as int].subject.url->Some_0@)
                            + detail_urls_spec(ns@.skip(i as int + 1), kind)
                            =~~= out.deep_view().drop_last() + (seq![ns@[i as int].subject.url->Some_0@]
                            + detail_urls_spec(ns@.skip(i as int + 1), kind)));
                    }
                },
                None => {},
            }
        }
        i = i + 1;
    }
    proof {
        assert(ns@.skip(n as int) =~= Seq::<Notification>::empty());
    }
    out
}

/// The probe outcome that a response means.  `status` is the HTTP
/// status code: anything but 304 (not modified) signals an update.
/// The three header values must be present and numeric.
pub open spec fn update_status_spec(
    status: u16,
    poll: Option<Seq<char>>,
    remaining: Option<Seq<char>>,
    used: Option<Seq<char>>,
    last_update: Timestamp,
) -> Option<UpdateStatus> {
    match (poll, remaining, used) {
        (Some(p), Some(rm), Some(us)) => match (
            spec_parse_u64(p),
            spec_parse_u64(rm),
            spec_parse_u64(us),
        ) {
            (Some(pv), Some(rv), Some(uv)) => Some(
                UpdateStatus {
                    need_update: status != 304,
                    last_update,
                    poll_interval: pv,
                    ratelimit_remaining: rv,
                    ratelimit_used: uv,
                },
            ),
            _ => None,
        },
        _ => None,
    }
}

/// Interprets the probe response: status code plus the
/// `x-poll-interval`, `x-ratelimit-remaining` and `x-ratelimit-used`
/// headers.  A missing or non-numeric header is an error.
pub fn check_update_and_limit(
    status: u16,
    poll: Option<&str>,
    remaining: Option<&str>,
    used: Option<&str>,
    last_update: Timestamp,
) -> (r: Option<UpdateStatus>)
    ensures
        r == update_status_spec(
            status,
            match poll {
                Some(p) => Some(p@),
                None => None,
            },
            match remaining {
                Some(p) => Some(p@),
                None => None,
            },
            match used {
                Some(p) => Some(p@),
                None => None,
            },
            last_update,
        ),
{
    let p = match poll {
        None => {
            return None;
        },
        Some(s) => s,
    };
    let rm = match remaining {
        None => {
            return None;
        },
        Some(s) => s,
    };
    let us = match used {
        None => {
            return None;
        },
        Some(s) => s,
    };
    let pv = match parse_u64(chars_of(p).as_slice()) {
        None => {
            return None;
        },
        Some(v) => v,
    };
    let rv = match parse_u64(chars_of(rm).as_slice()) {
        None => {
            return None;
        },
        Some(v) => v,
    };
    let uv = match parse_u64(chars_of(us).as_slice()) {
        None => {
            return None;
        },
        Some(v) => v,
    };
    Some(
        UpdateStatus {
            need_update: status != 304,
            last_update,
            poll_interval: pv,
            ratelimit_remaining: rv,
            ratelimit_used: uv,
        },
    )
}

} // verus!
