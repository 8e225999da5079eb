//! The stored notification record and its closed sum types.

use vstd::prelude::*;
use crate::text::clamp;
use crate::text::find_char_from;
use crate::text::find_from;
use crate::text::copy_range;
use crate::text::lemma_find_from;
use crate::text::string_from_chars;
use crate::text::chars_of;
use crate::time::Timestamp;

verus! {

/// The kind of the subject behind a stored notification.
#[derive(Debug, Clone, Copy, PartialEq, Eq, Structural)]
pub enum NotificationType {
    PullRequest,
    Issue,
    Release,
}

/// The derived state of a notification's subject.
#[derive(Debug, Clone, Copy, PartialEq, Eq, Structural)]
pub enum NotificationState {
    Open,
    Draft,
    /// Merged pull request, closed issue.
    Resolved,
    /// Closed, unmerged pull request.
    Canceled,
}

pub open spec fn state_name(s: NotificationState) -> Seq<char> {
    match s {
        NotificationState::Open => "Open"@,
        NotificationState::Draft => "Draft"@,
        NotificationState::Resolved => "Resolved"@,
        NotificationState::Canceled => "Canceled"@,
    }
}

impl NotificationState {
    /// The display name of the state.
    pub fn name(&self) -> (r: String)
        ensures
            r@ == state_name(*self),
    {
        match self {
            NotificationState::Open => {
                let v = chars_of("Open");
                string_from_chars(&v)
            },
            NotificationState::Draft => {
                let v = chars_of("Draft");
                string_from_chars(&v)
            },
            NotificationState::Resolved => {
                let v = chars_of("Resolved");
                string_from_chars(&v)
            },
            NotificationState::Canceled => {
                let v = chars_of("Canceled");
                string_from_chars(&v)
            },
        }
    }
}

/// One stored notification.
///
/// `score` is recomputed on every sync; `score_boost` is the user's
/// manual adjustment and survives re-syncs; `done` hides the row from
/// the default view until fresh remote activity resets it.
#[derive(Debug, Clone)]
pub struct Notification {
    pub id: String,
    pub title: String,
    pub repo: String,
    pub url: String,
    pub type_: NotificationType,
    pub unread: bool,
    pub updated_at: Timestamp,
    pub done: bool,
    pub score: i64,
    pub score_boost: i64,
    pub state: NotificationState,
    pub author: String,
    pub reason: String,
}

/// What a stored notification means, independent of which
/// allocations hold its strings.
pub struct NotificationModel {
    pub id: Seq<char>,
    pub title: Seq<char>,
    pub repo: Seq<char>,
    pub url: Seq<char>,
    pub type_: NotificationType,
    pub unread: bool,
    pub updated_at: Timestamp,
    pub done: bool,
    pub score: int,
    pub score_boost: int,
    pub state: NotificationState,
    pub author: Seq<char>,
    pub reason: Seq<char>,
}

pub open spec fn model_of(n: Notification) -> NotificationModel {
    NotificationModel {
        id: n.id@,
        title: n.title@,
        repo: n.repo@,
        url: n.url@,
        type_: n.type_,
        unread: n.unread,
        updated_at: n.updated_at,
        done: n.done,
        score: n.score as int,
        score_boost: n.score_boost as int,
        state: n.state,
        author: n.author@,
        reason: n.reason@,
    }
}

/// The organization of `repo`: the text before the first `/`, or all
/// of it when there is none.
pub open spec fn org_of(repo: Seq<char>) -> Seq<char> {
    match find_from(repo, seq!['/'], 0) {
        Some(k) => repo.subrange(0, clamp(0, k, repo.len() as int)),
        None => repo,
    }
}

/// The effective rank of a notification: score plus manual boost.
pub open spec fn rank(n: Notification) -> int {
    n.score + n.score_boost
}

impl Notification {
    /// The organization part of the repository name.
    pub fn org(&self) -> (r: String)
        ensures
            r@ == org_of(self.repo@),
    {
        let chars = chars_of(self.repo.as_str());
        let n = chars.len();
        match find_char_from(chars.as_slice(), '/', 0) {
            Some(k) => {
                proof {
                    lemma_find_from(self.repo@, seq!['/'], 0);
                }
                let v = copy_range(chars.as_slice(), 0, k);
                string_from_chars(&v)
            },
            None => {
                let v = copy_range(chars.as_slice(), 0, n);
                proof {
                    assert(v@ =~= self.repo@);
                }
                string_from_chars(&v)
            },
        }
    }

    /// An equal copy of the record.
    pub fn duplicate(&self) -> (r: Notification)
        ensures
            r == *self,
    {
        Notification {
            id: self.id.clone(),
            title: self.title.clone(),
            repo: self.repo.clone(),
            url: self.url.clone(),
            type_: self.type_,
            unread: self.unread,
            updated_at: self.updated_at,
            done: self.done,
            score: self.score,
            score_boost: self.score_boost,
            state: self.state,
            author: self.author.clone(),
            reason: self.reason.clone(),
        }
    }

    /// The effective rank, computed without overflow.
    pub fn rank_val(&self) -> (r: i128)
        ensures
            r as int == rank(*self),
    {
        self.score as i128 + self.score_boost as i128
    }
}

} // verus!
