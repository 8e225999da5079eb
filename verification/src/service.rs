//! The sync orchestrator.
//!
//! One sync cycle fetches the notification list and the authoritative
//! pull-request / issue / release records (outside the library), then
//! derives each stored record, scores it and upserts it.  Derivation
//! is all-or-nothing: if any notification's detail object is missing
//! the whole cycle fails and nothing is written.

use vstd::prelude::*;
use crate::gh;
use crate::gh::Issue;
use crate::gh::PullRequest;
use crate::gh::Release;
use crate::models::model_of;
use crate::models::Notification;
use crate::models::NotificationModel;
use crate::models::NotificationState;
use crate::models::NotificationType;
use crate::score::total_score_on;
use crate::score::Rule;
use crate::score::Scorer;
use crate::store::merged;
use crate::store::Store;
use crate::text::chars_eq;
use crate::text::chars_of;
use crate::text::string_from_chars;
use crate::text::trim_range;
use crate::text::trim_spec;

verus! {

/// Why a sync cycle failed before any write.
#[derive(Debug, Clone, PartialEq, Eq)]
pub enum SyncError {
    /// The rule file could not be interpreted.
    Scorer(crate::score::Error),
    /// A pull-request notification has no matching detail record.
    MissingPullRequest,
    /// A release notification has no matching detail record.
    MissingRelease,
    /// An issue notification has no matching detail record.
    MissingIssue,
}

/// The first pull request at or after `i` whose API URL is `url`.
pub open spec fn find_pr_at(prs: Seq<PullRequest>, url: Seq<char>, i: int) -> Option<int>
    decreases prs.len() - i,
{
    if !(0 <= i < prs.len()) {
        None
    } else if prs[i].url@ == url {
        Some(i)
    } else {
        find_pr_at(prs, url, i + 1)
    }
}

/// The first release at or after `i` whose API URL is `url`.
pub open spec fn find_release_at(rs: Seq<Release>, url: Seq<char>, i: int) -> Option<int>
    decreases rs.len() - i,
{
    if !(0 <= i < rs.len()) {
        None
    } else if rs[i].url@ == url {
        Some(i)
    } else {
        find_release_at(rs, url, i + 1)
    }
}

/// The first issue at or after `i` whose API URL is `url`.
pub open spec fn find_issue_at(is: Seq<Issue>, url: Seq<char>, i: int) -> Option<int>
    decreases is.len() - i,
{
    if !(0 <= i < is.len()) {
        None
    } else if is[i].url@ == url {
        Some(i)
    } else {
        find_issue_at(is, url, i + 1)
    }
}

/// The state a pull request derives: closed and merged is resolved,
/// closed without merge is canceled, a draft is a draft, anything
/// else is open.
pub open spec fn pr_state(pr: PullRequest) -> NotificationState {
    if pr.state@ == "closed"@ {
        if pr.merged {
            NotificationState::Resolved
        } else {
            NotificationState::Canceled
        }
    } else if pr.draft {
        NotificationState::Draft
    } else {
        NotificationState::Open
    }
}

/// The state an issue derives: remote "open" is open, anything else
/// is resolved.
pub open spec fn issue_state(is: Issue) -> NotificationState {
    if is.state@ == "open"@ {
        NotificationState::Open
    } else {
        NotificationState::Resolved
    }
}

/// State derivation is a pure function of the remote fields: two
/// records that agree on the fields the derivation reads always
/// derive the same state.
pub proof fn lemma_state_derivation_pure(a: PullRequest, b: PullRequest, x: Issue, y: Issue)
    ensures
        a.state@ == b.state@ && a.merged == b.merged && a.draft == b.draft ==> pr_state(a)
            == pr_state(b),
        x.state@ == y.state@ ==> issue_state(x) == issue_state(y),
{
}

/// The subject's detail URL, or empty when it has none.
pub open spec fn subject_url(n: gh::Notification) -> Seq<char> {
    match n.subject.url {
        Some(u) => u@,
        None => Seq::empty(),
    }
}

/// The link, kind, author and state derived for one notification
/// from the detail records, or the error that aborts the cycle.
pub open spec fn derive_one(
    n: gh::Notification,
    prs: Seq<PullRequest>,
    releases: Seq<Release>,
    issues: Seq<Issue>,
) -> Result<(NotificationType, Seq<char>, Seq<char>, NotificationState), SyncError> {
    match n.subject.type_ {
        gh::NotificationType::PullRequest => match find_pr_at(prs, subject_url(n), 0) {
            None => Err(SyncError::MissingPullRequest),
            Some(j) => Ok(
                (
                    NotificationType::PullRequest,
                    prs[j].html_url@,
                    prs[j].user.login@,
                    pr_state(prs[j]),
                ),
            ),
        },
        gh::NotificationType::Release => match find_release_at(releases, subject_url(n), 0) {
            None => Err(SyncError::MissingRelease),
            Some(j) => Ok(
                (
                    NotificationType::Release,
                    releases[j].html_url@,
                    releases[j].author.login@,
                    NotificationState::Open,
                ),
            ),
        },
        gh::NotificationType::Issue => match find_issue_at(issues, subject_url(n), 0) {
            None => Err(SyncError::MissingIssue),
            Some(j) => Ok(
                (
                    NotificationType::Issue,
                    issues[j].html_url@,
                    issues[j].user.login@,
                    issue_state(issues[j]),
                ),
            ),
        },
        gh::NotificationType::Unknown => Ok(
            (
                NotificationType::PullRequest,
                Seq::empty(),
                Seq::empty(),
                NotificationState::Canceled,
            ),
        ),
    }
}

/// The stored record a notification derives: remote fields carried
/// over, the title trimmed, `done` reset, no boost, and the score
/// computed from the rules on the derived fields.
pub open spec fn record_model(
    n: gh::Notification,
    parts: (NotificationType, Seq<char>, Seq<char>, NotificationState),
    rules: Seq<Rule>,
) -> NotificationModel {
    let title = trim_spec(n.subject.title@);
    NotificationModel {
        id: n.id@,
        title,
        repo: n.repository.full_name@,
        url: parts.1,
        type_: parts.0,
        unread: n.unread,
        updated_at: n.updated_at,
        done: false,
        score: total_score_on(rules, parts.2, n.repository.full_name@, title, n.reason@),
        score_boost: 0,
        state: parts.3,
        author: parts.2,
        reason: n.reason@,
    }
}

/// Finds the pull request matching a subject URL.
fn find_pr(prs: &Vec<PullRequest>, url: &str) -> (r: Option<usize>)
    ensures
        r matches Some(j) ==> find_pr_at(prs@, url@, 0) == Some(j as int),
        (r is None) == (find_pr_at(prs@, url@, 0) is None),
{
    let uc = chars_of(url);
    let n = prs.len();
    let mut i: usize = 0;
    while i < n
        invariant
            n == prs@.len(),
            i <= n,
            uc@ == url@,
            find_pr_at(prs@, url@, 0) == find_pr_at(prs@, url@, i as int),
        decreases n - i,
    {
        let pc = chars_of(prs[i].url.as_str());
        if chars_eq(pc.as_slice(), uc.as_slice()) {
            return Some(i);
        }
        i = i + 1;
    }
    None
}

/// Finds the release matching a subject URL.
fn find_release(rs: &Vec<Release>, url: &str) -> (r: Option<usize>)
    ensures
        r matches Some(j) ==> find_release_at(rs@, url@, 0) == Some(j as int),
        (r is None) == (find_release_at(rs@, url@, 0) is None),
{
    let uc = chars_of(url);
    let n = rs.len();
    let mut i: usize = 0;
    while i < n
        invariant
            n == rs@.len(),
            i <= n,
            uc@ == url@,
            find_release_at(rs@, url@, 0) == find_release_at(rs@, url@, i as int),
        decreases n - i,
    {
        let pc = chars_of(rs[i].url.as_str());
        if chars_eq(pc.as_slice(), uc.as_slice()) {
            return Some(i);
        }
        i = i + 1;
    }
    None
}

/// Finds the issue matching a subject URL.
fn find_issue(is: &Vec<Issue>, url: &str) -> (r: Option<usize>)
    ensures
        r matches Some(j) ==> find_issue_at(is@, url@, 0) == Some(j as int),
        (r is None) == (find_issue_at(is@, url@, 0) is None),
{
    let uc = chars_of(url);
    let n = is.len();
    let mut i: usize = 0;
    while i < n
        invariant
            n == is@.len(),
            i <= n,
            uc@ == url@,
            find_issue_at(is@, url@, 0) == find_issue_at(is@, url@, i as int),
        decreases n - i,
    {
        let pc = chars_of(is[i].url.as_str());
        if chars_eq(pc.as_slice(), uc.as_slice()) {
            return Some(i);
        }
        i = i + 1;
    }
    None
}

/// Derives and scores the stored record of every fetched
/// notification, in feed order, or fails on the first notification
/// whose detail record is missing — in that case nothing else
/// happens.
pub fn build_records(
    ns: &Vec<gh::Notification>,
    prs: &Vec<PullRequest>,
    releases: &Vec<Release>,
    issues: &Vec<Issue>,
    scorer: &Scorer,
) -> (r: Result<Vec<Notification>, SyncError>)
    requires
        scorer.wf(),
    ensures
        r matches Ok(recs) ==> {
            &&& recs@.len() == ns@.len()
            &&& forall|j: int|
                0 <= j < ns@.len() ==> derive_one(
                    #[trigger] ns@[j],
                    prs@,
                    releases@,
                    issues@,
                ) is Ok
            &&& forall|j: int|
                0 <= j < ns@.len() ==> model_of(#[trigger] recs@[j]) == record_model(
                    ns@[j],
                    derive_one(ns@[j], prs@, releases@, issues@)->Ok_0,
                    scorer.rules@,
                )
        },
        r matches Err(e) ==> exists|j: int|
            0 <= j < ns@.len() && derive_one(#[trigger] ns@[j], prs@, releases@, issues@) == Err::<
                (NotificationType, Seq<char>, Seq<char>, NotificationState),
                SyncError,
            >(e) && (forall|k: int|
                0 <= k < j ==> derive_one(#[trigger] ns@[k], prs@, releases@, issues@) is Ok),
{
    let n = ns.len();
    let mut out: Vec<Notification> = Vec::new();
    let mut i: usize = 0;
    while i < n
        invariant
            n == ns@.len(),
            i <= n,
            scorer.wf(),
            out@.len() == i,
            forall|k: int|
                0 <= k < i ==> derive_one(#[trigger] ns@[k], prs@, releases@, issues@) is Ok,
            forall|k: int|
                0 <= k < i ==> model_of(#[trigger] out@[k]) == record_model(
                    ns@[k],
                    derive_one(ns@[k], prs@, releases@, issues@)->Ok_0,
                    scorer.rules@,
                ),
        decreases n - i,
    {
        let nref = &ns[i];
        let sub_url: &str = match &nref.subject.url {
            Some(u) => u.as_str(),
            None => "",
        };
        proof {
            reveal_strlit("");
            assert(""@ =~= Seq::<char>::empty());
            assert(sub_url@ == subject_url(ns@[i as int]));
        }
        let kind: NotificationType;
        let url: String;
        let author: String;
        let state: NotificationState;
        match nref.subject.type_ {
            gh::NotificationType::PullRequest => {
                let j = match find_pr(prs, sub_url) {
                    None => {
                        return Err(SyncError::MissingPullRequest);
                    },
                    Some(j) => j,
                };
                proof {
                    assert(0 <= j < prs@.len()) by {
                        lemma_find_pr_bounds(prs@, sub_url@, 0);
                    }
                }
                let pr = &prs[j];
                kind = NotificationType::PullRequest;
                url = pr.html_url.clone();
                author = pr.user.login.clone();
                let closed = chars_eq(
                    chars_of(pr.state.as_str()).as_slice(),
                    chars_of("closed").as_slice(),
                );
                state = if closed {
                    if pr.merged {
                        NotificationState::Resolved
                    } else {
                        NotificationState::Canceled
                    }
                } else if pr.draft {
                    NotificationState::Draft
                } else {
                    NotificationState::Open
                };
            },
            gh::NotificationType::Release => {
                let j = match find_release(releases, sub_url) {
                    None => {
                        return Err(SyncError::MissingRelease);
                    },
                    Some(j) => j,
                };
                proof {
                    assert(0 <= j < releases@.len()) by {
                        lemma_find_release_bounds(releases@, sub_url@, 0);
                    }
                }
                let rl = &releases[j];
                kind = NotificationType::Release;
                url = rl.html_url.clone();
                author = rl.author.login.clone();
                state = NotificationState::Open;
            },
            gh::NotificationType::Issue => {
                let j = match find_issue(issues, sub_url) {
                    None => {
                        return Err(SyncError::MissingIssue);
                    },
                    Some(j) => j,
                };
                proof {
                    assert(0 <= j < issues@.len()) by {
                        lemma_find_issue_bounds(issues@, sub_url@, 0);
                    }
                }
                let isr = &issues[j];
                kind = NotificationType::Issue;
                url = isr.html_url.clone();
                author = isr.user.login.clone();
                let is_open = chars_eq(
                    chars_of(isr.state.as_str()).as_slice(),
                    chars_of("open").as_slice(),
                );
                state = if is_open {
                    NotificationState::Open
                } else {
                    NotificationState::Resolved
                };
            },
            gh::NotificationType::Unknown => {
                kind = NotificationType::PullRequest;
                url = String::new();
                author = String::new();
                state = NotificationState::Canceled;
            },
        }
        let title_c = chars_of(nref.subject.title.as_str());
        let tlen = title_c.len();
        let title_v = trim_range(title_c.as_slice(), 0, tlen);
        proof {
            assert(title_c@.subrange(0, tlen as int) =~= nref.subject.title@);
        }
        let title = string_from_chars(&title_v);
        let mut rec = Notification {
            id: nref.id.clone(),
            title,
            repo: nref.repository.full_name.clone(),
            url,
            type_: kind,
            unread: nref.unread,
            updated_at: nref.updated_at,
            done: false,
            score: 0,
            score_boost: 0,
            state,
            author,
            reason: nref.reason.clone(),
        };
        let computed = scorer.score(&rec);
        rec.score = computed;
        proof {
            let parts = derive_one(ns@[i as int], prs@, releases@, issues@)->Ok_0;
            assert(model_of(rec) == record_model(ns@[i as int], parts, scorer.rules@));
        }
        out.push(rec);
        i = i + 1;
    }
    Ok(out)
}

/// Upserts a batch of records into the store, in order.
pub fn apply_records(store: &mut Store, recs: Vec<Notification>)
    requires
        old(store).wf(),
        forall|i: int| 0 <= i < recs@.len() ==> (#[trigger] recs@[i]).updated_at.wf(),
    ensures
        final(store).wf(),
        final(store).rows@ == crate::store::upsert_all(old(store).rows@, recs@),
{
    let n = recs.len();
    let mut i: usize = 0;
    proof {
        assert(recs@.subrange(0, 0) =~= Seq::<Notification>::empty());
    }
    while i < n
        invariant
            n == recs@.len(),
            i <= n,
            store.wf(),
            forall|k: int| 0 <= k < recs@.len() ==> (#[trigger] recs@[k]).updated_at.wf(),
            store.rows@ == crate::store::upsert_all(
                old(store).rows@,
                recs@.subrange(0, i as int),
            ),
        decreases n - i,
    {
        let rec = recs[i].duplicate();
        store.upsert(rec);
        proof {
            crate::store::lemma_upsert_all_snoc(
                old(store).rows@,
                recs@.subrange(0, i as int),
                recs@[i as int],
            );
            assert(recs@.subrange(0, i as int).push(recs@[i as int]) =~= recs@.subrange(
                0,
                i as int + 1,
            ));
        }
        i = i + 1;
    }
    proof {
        assert(recs@.subrange(0, n as int) =~= recs@);
    }
}

/// Loads the scorer from the rule file's text, mapping its errors to
/// the sync cycle's.
pub fn load_scorer(rules_text: Option<&str>) -> (r: Result<Scorer, SyncError>)
    ensures
        r matches Ok(sc) ==> sc.wf(),
        rules_text is None ==> (r matches Ok(sc) && sc.rules@.len() == 0),
        rules_text matches Some(t) ==> match r {
            Ok(sc) => crate::score::loads_to(t@, sc),
            Err(e) => e matches SyncError::Scorer(se) && crate::score::load_fails_with(t@, se),
        },
{
    match Scorer::new(rules_text) {
        Ok(sc) => Ok(sc),
        Err(e) => Err(SyncError::Scorer(e)),
    }
}

/// One sync cycle's local half: derives, scores and upserts every
/// fetched notification.  The derivation phase is all-or-nothing —
/// on any error the store is left exactly as it was.
pub fn sync(
    store: &mut Store,
    ns: &Vec<gh::Notification>,
    prs: &Vec<PullRequest>,
    releases: &Vec<Release>,
    issues: &Vec<Issue>,
    scorer: &Scorer,
) -> (r: Result<(), SyncError>)
    requires
        old(store).wf(),
        scorer.wf(),
        forall|i: int| 0 <= i < ns@.len() ==> (#[trigger] ns@[i]).updated_at.wf(),
    ensures
        final(store).wf(),
        r matches Err(e) ==> *final(store) == *old(store) && (exists|j: int|
            0 <= j < ns@.len() && derive_one(#[trigger] ns@[j], prs@, releases@, issues@) == Err::<
                (NotificationType, Seq<char>, Seq<char>, NotificationState),
                SyncError,
            >(e) && (forall|k: int|
                0 <= k < j ==> derive_one(#[trigger] ns@[k], prs@, releases@, issues@) is Ok)),
        r matches Ok(_) ==> exists|recs: Seq<Notification>|
            {
                &&& final(store).rows@ == crate::store::upsert_all(old(store).rows@, recs)
                &&& recs.len() == ns@.len()
                &&& forall|j: int|
                    0 <= j < ns@.len() ==> derive_one(
                        #[trigger] ns@[j],
                        prs@,
                        releases@,
                        issues@,
                    ) is Ok
                &&& forall|j: int|
                    0 <= j < recs.len() ==> model_of(#[trigger] recs[j]) == record_model(
                        ns@[j],
                        derive_one(ns@[j], prs@, releases@, issues@)->Ok_0,
                        scorer.rules@,
                    )
            },
{
    let recs = match build_records(ns, prs, releases, issues, scorer) {
        Err(e) => {
            return Err(e);
        },
        Ok(recs) => recs,
    };
    proof {
        assert forall|i: int| 0 <= i < recs@.len() implies (#[trigger] recs@[i]).updated_at.wf()
        by {
            assert(model_of(recs@[i]).updated_at == recs@[i].updated_at);
            assert(ns@[i].updated_at.wf());
        }
    }
    let ghost recs_view = recs@;
    apply_records(store, recs);
    proof {
        assert(store.rows@ == crate::store::upsert_all(old(store).rows@, recs_view));
    }
    Ok(())
}

/// Whether a row passes the search filter: not done, each of the
/// title, author and repo filters occurs in its field regardless of
/// case, and the state filter (when set) names the row's state.
pub open spec fn keeps(
    n: Notification,
    ft: Seq<char>,
    fa: Seq<char>,
    fr: Seq<char>,
    fs: Seq<char>,
) -> bool {
    &&& !n.done
    &&& crate::text::contains_seq_ci(n.title@, ft)
    &&& crate::text::contains_seq_ci(n.author@, fa)
    &&& crate::text::contains_seq_ci(n.repo@, fr)
    &&& (fs.len() == 0 || crate::models::state_name(n.state) == fs)
}

/// The rows that pass the filter, in table order.
pub open spec fn kept_rows(
    rows: Seq<Notification>,
    ft: Seq<char>,
    fa: Seq<char>,
    fr: Seq<char>,
    fs: Seq<char>,
) -> Seq<Notification>
    decreases rows.len(),
{
    if rows.len() == 0 {
        Seq::empty()
    } else {
        let rest = kept_rows(rows.drop_first(), ft, fa, fr, fs);
        if keeps(rows[0], ft, fa, fr, fs) {
            seq![rows[0]] + rest
        } else {
            rest
        }
    }
}

/// Display order: higher effective rank first, then more recent
/// first.
pub open spec fn row_ge(a: Notification, b: Notification) -> bool {
    ||| crate::models::rank(a) > crate::models::rank(b)
    ||| (crate::models::rank(a) == crate::models::rank(b) && a.updated_at.key()
        >= b.updated_at.key())
}

pub open spec fn sorted_rows(s: Seq<Notification>) -> bool {
    forall|i: int, j: int| 0 <= i < j < s.len() ==> row_ge(#[trigger] s[i], #[trigger] s[j])
}

/// Compares two rows for display order.
fn row_ge_exec(a: &Notification, b: &Notification) -> (r: bool)
    requires
        a.updated_at.wf(),
        b.updated_at.wf(),
    ensures
        r == row_ge(*a, *b),
{
    let ra = a.rank_val();
    let rb = b.rank_val();
    if ra > rb {
        true
    } else if ra == rb {
        a.updated_at.key_val() >= b.updated_at.key_val()
    } else {
        false
    }
}

/// Whether a row passes the parsed filter.
fn keeps_exec(n: &Notification, f: &crate::filter::Filter) -> (r: bool)
    ensures
        r == keeps(*n, f.title@, f.author@, f.repo@, f.state@),
{
    if n.done {
        return false;
    }
    let ft = chars_of(f.title.as_str());
    let fa = chars_of(f.author.as_str());
    let fr = chars_of(f.repo.as_str());
    let fs = chars_of(f.state.as_str());
    if !crate::text::contains_ci(chars_of(n.title.as_str()).as_slice(), ft.as_slice()) {
        return false;
    }
    if !crate::text::contains_ci(chars_of(n.author.as_str()).as_slice(), fa.as_slice()) {
        return false;
    }
    if !crate::text::contains_ci(chars_of(n.repo.as_str()).as_slice(), fr.as_slice()) {
        return false;
    }
    if fs.len() > 0 {
        let sn = n.state.name();
        if !chars_eq(chars_of(sn.as_str()).as_slice(), fs.as_slice()) {
            return false;
        }
    }
    true
}

/// Sorts rows into display order.
fn sort_rows(v: Vec<Notification>) -> (r: Vec<Notification>)
    requires
        forall|i: int| 0 <= i < v@.len() ==> (#[trigger] v@[i]).updated_at.wf(),
    ensures
        sorted_rows(r@),
        r@.to_multiset() == v@.to_multiset(),
        forall|i: int| 0 <= i < r@.len() ==> (#[trigger] r@[i]).updated_at.wf(),
{
    broadcast use vstd::seq_lib::group_to_multiset_ensures;
    broadcast use vstd::multiset::group_multiset_axioms;

    let n = v.len();
    let mut out: Vec<Notification> = Vec::new();
    let mut i: usize = 0;
    proof {
        assert(v@.subrange(0, 0) =~= Seq::<Notification>::empty());
        assert(Seq::<Notification>::empty().to_multiset() =~= out@.to_multiset());
    }
    while i < n
        invariant
            n == v@.len(),
            i <= n,
            forall|k: int| 0 <= k < v@.len() ==> (#[trigger] v@[k]).updated_at.wf(),
            forall|k: int| 0 <= k < out@.len() ==> (#[trigger] out@[k]).updated_at.wf(),
            sorted_rows(out@),
            out@.to_multiset() == v@.subrange(0, i as int).to_multiset(),
        decreases n - i,
    {
        let x = v[i].duplicate();
        let m = out.len();
        let mut p: usize = 0;
        while p < m && row_ge_exec(&out[p], &x)
            invariant
                m == out@.len(),
                p <= m,
                x.updated_at.wf(),
                forall|k: int| 0 <= k < out@.len() ==> (#[trigger] out@[k]).updated_at.wf(),
                forall|k: int| 0 <= k < p ==> row_ge(#[trigger] out@[k], x),
            decreases m - p,
        {
            p = p + 1;
        }
        let ghost out_old = out@;
        out.insert(p, x);
        proof {
            broadcast use vstd::seq_lib::group_to_multiset_ensures;
            broadcast use vstd::multiset::group_multiset_axioms;

            assert(out@ =~= out_old.insert(p as int, x));
            assert(out_old.insert(p as int, x).to_multiset() == out_old.to_multiset().insert(x));
            assert(v@.subrange(0, i as int).push(v@[i as int]) =~= v@.subrange(0, i as int + 1));
            assert(v@.subrange(0, i as int).push(v@[i as int]).to_multiset() == v@.subrange(
                0,
                i as int,
            ).to_multiset().insert(v@[i as int]));
            assert(out@.to_multiset() =~= v@.subrange(0, i as int + 1).to_multiset());
            assert forall|a1: int, b1: int| 0 <= a1 < b1 < out@.len() implies row_ge(
                #[trigger] out@[a1],
                #[trigger] out@[b1],
            ) by {
                if a1 == p && b1 > p {
                    assert(out@[b1] == out_old[b1 - 1]);
                    if p < out_old.len() {
                        assert(!row_ge(out_old[p as int], x));
                        assert(row_ge(x, out_old[p as int]));
                        if b1 - 1 > p {
                            assert(row_ge(out_old[p as int], out_old[b1 - 1]));
                        }
                    }
                } else if a1 < p && b1 == p {
                    assert(out@[a1] == out_old[a1]);
                    assert(row_ge(out_old[a1], x));
                } else if b1 < p {
                    assert(out@[a1] == out_old[a1] && out@[b1] == out_old[b1]);
                } else if a1 > p {
                    assert(out@[a1] == out_old[a1 - 1] && out@[b1] == out_old[b1 - 1]);
                } else {
                    assert(a1 < p && b1 > p);
                    assert(out@[a1] == out_old[a1] && out@[b1] == out_old[b1 - 1]);
                }
            }
        }
        i = i + 1;
    }
    proof {
        assert(v@.subrange(0, n as int) =~= v@);
    }
    out
}

/// The not-done notifications that match the query, ordered by
/// effective rank descending, then by recency descending.
pub fn get_notifications(store: &Store, query: &str) -> (r: Vec<Notification>)
    requires
        store.wf(),
    ensures
        sorted_rows(r@),
        r@.to_multiset() == kept_rows(
            store.rows@,
            crate::filter::spec_title(query@),
            crate::filter::spec_author(query@),
            crate::filter::spec_repo(query@),
            crate::filter::spec_state(query@),
        ).to_multiset(),
{
    broadcast use vstd::seq_lib::group_to_multiset_ensures;

    let f = match crate::filter::Filter::parse(query) {
        Ok(f) => f,
        Err(_) => {
            proof {
                assert(false);
            }
            return Vec::new();
        },
    };
    let ghost ft = crate::filter::spec_title(query@);
    let ghost fa = crate::filter::spec_author(query@);
    let ghost fr = crate::filter::spec_repo(query@);
    let ghost fs = crate::filter::spec_state(query@);
    let n = store.rows.len();
    let mut picked: Vec<Notification> = Vec::new();
    let mut i: usize = 0;
    proof {
        assert(store.rows@.skip(0) =~= store.rows@);
    }
    while i < n
        invariant
            n == store.rows@.len(),
            i <= n,
            store.wf(),
            f.title@ == ft && f.author@ == fa && f.repo@ == fr && f.state@ == fs,
            forall|k: int| 0 <= k < picked@.len() ==> (#[trigger] picked@[k]).updated_at.wf(),
            picked@ + kept_rows(store.rows@.skip(i as int), ft, fa, fr, fs) == kept_rows(
                store.rows@,
                ft,
                fa,
                fr,
                fs,
            ),
        decreases n - i,
    {
        proof {
            let tail = store.rows@.skip(i as int);
            assert(tail.drop_first() =~= store.rows@.skip(i as int + 1));
            assert(tail[0] == store.rows@[i as int]);
        }
        if keeps_exec(&store.rows[i], &f) {
            picked.push(store.rows[i].duplicate());
            proof {
                let tail = store.rows@.skip(i as int);
                assert(picked@ =~= picked@.drop_last() + seq![store.rows@[i as int]]);
                assert(picked@.drop_last() + (seq![store.rows@[i as int]] + kept_rows(
                    tail.drop_first(),
                    ft,
                    fa,
                    fr,
                    fs,
                )) =~= picked@ + kept_rows(tail.drop_first(), ft, fa, fr, fs));
            }
        }
        i = i + 1;
    }
    proof {
        assert(store.rows@.skip(n as int) =~= Seq::<Notification>::empty());
        assert(picked@ + Seq::<Notification>::empty() =~= picked@);
    }
    sort_rows(picked)
}

/// Flips the local `done` flag of one notification after the remote
/// mutation succeeded.
pub fn mark_notification_as_done(store: &mut Store, id: &str) -> (found: bool)
    requires
        old(store).wf(),
    ensures
        final(store).wf(),
        found == old(store).has_id(id@),
        final(store).rows@.len() == old(store).rows@.len(),
        forall|i: int|
            0 <= i < old(store).rows@.len() && (#[trigger] old(store).rows@[i]).id@ != id@
                ==> final(store).rows@[i] == old(store).rows@[i],
        forall|i: int|
            0 <= i < old(store).rows@.len() && (#[trigger] old(store).rows@[i]).id@ == id@
                ==> final(store).rows@[i] == crate::store::with_done(old(store).rows@[i], true),
{
    store.set_done(id, true)
}

/// Flips the local `done` flag of a batch of notifications.
pub fn mark_notifications_as_done(store: &mut Store, ids: &Vec<String>)
    requires
        old(store).wf(),
    ensures
        final(store).wf(),
        final(store).rows@.len() == old(store).rows@.len(),
        forall|i: int|
            #![trigger old(store).rows@[i]]
            0 <= i < old(store).rows@.len() && !(exists|k: int|
                0 <= k < ids@.len() && (#[trigger] ids@[k])@ == old(store).rows@[i].id@) ==> final(store).rows@[i] == old(store).rows@[i],
        forall|i: int|
            #![trigger old(store).rows@[i]]
            0 <= i < old(store).rows@.len() && (exists|k: int|
                0 <= k < ids@.len() && (#[trigger] ids@[k])@ == old(store).rows@[i].id@) ==> final(store).rows@[i] == crate::store::with_done(old(store).rows@[i], true),
{
    let n = ids.len();
    let mut k: usize = 0;
    while k < n
        invariant
            n == ids@.len(),
            k <= n,
            store.wf(),
            store.rows@.len() == old(store).rows@.len(),
            forall|i: int|
                0 <= i < old(store).rows@.len() ==> (#[trigger] store.rows@[i]).id@ == old(
                    store,
                ).rows@[i].id@,
            forall|i: int|
                #![trigger old(store).rows@[i]]
                0 <= i < old(store).rows@.len() && !(exists|k2: int|
                    0 <= k2 < k && (#[trigger] ids@[k2])@ == old(store).rows@[i].id@)
                    ==> store.rows@[i] == old(store).rows@[i],
            forall|i: int|
                #![trigger old(store).rows@[i]]
                0 <= i < old(store).rows@.len() && (exists|k2: int|
                    0 <= k2 < k && (#[trigger] ids@[k2])@ == old(store).rows@[i].id@)
                    ==> store.rows@[i] == crate::store::with_done(old(store).rows@[i], true),
        decreases n - k,
    {
        let ghost pre = store.rows@;
        store.set_done(ids[k].as_str(), true);
        proof {
            assert forall|i: int|
                0 <= i < old(store).rows@.len() implies (#[trigger] store.rows@[i]).id@ == old(
                store,
            ).rows@[i].id@ by {
                assert(pre[i].id@ == old(store).rows@[i].id@);
            }
        }
        k = k + 1;
    }
}

/// Clears the local `unread` flag of one notification after the
/// remote mutation succeeded.
pub fn mark_notification_as_read(store: &mut Store, id: &str) -> (found: bool)
    requires
        old(store).wf(),
    ensures
        final(store).wf(),
        found == old(store).has_id(id@),
        final(store).rows@.len() == old(store).rows@.len(),
        forall|i: int|
            0 <= i < old(store).rows@.len() && (#[trigger] old(store).rows@[i]).id@ != id@
                ==> final(store).rows@[i] == old(store).rows@[i],
        forall|i: int|
            0 <= i < old(store).rows@.len() && (#[trigger] old(store).rows@[i]).id@ == id@
                ==> final(store).rows@[i] == crate::store::with_unread(
                old(store).rows@[i],
                false,
            ),
{
    store.set_unread(id, false)
}

/// Adds `modifier` to the manual boost of one notification.
pub fn update_score(store: &mut Store, id: &str, modifier: i64) -> (found: bool)
    requires
        old(store).wf(),
    ensures
        final(store).wf(),
        found == old(store).has_id(id@),
        final(store).rows@.len() == old(store).rows@.len(),
        forall|i: int|
            0 <= i < old(store).rows@.len() && (#[trigger] old(store).rows@[i]).id@ != id@
                ==> final(store).rows@[i] == old(store).rows@[i],
        forall|i: int|
            0 <= i < old(store).rows@.len() && (#[trigger] old(store).rows@[i]).id@ == id@
                ==> final(store).rows@[i] == crate::store::with_boost(
                old(store).rows@[i],
                modifier as int,
            ),
{
    store.add_boost(id, modifier)
}

/// The rules that contribute to this notification's score, from a
/// freshly loaded scorer.
pub fn explain(scorer: &Scorer, notification: &Notification) -> (r: Vec<Rule>)
    ensures
        crate::score::models_of(r@) == crate::score::matched_models(scorer.rules@, *notification),
{
    scorer.explain(notification)
}

proof fn lemma_find_pr_bounds(prs: Seq<PullRequest>, url: Seq<char>, i: int)
    ensures
        find_pr_at(prs, url, i) matches Some(j) ==> i <= j < prs.len() && prs[j].url@ == url,
    decreases prs.len() - i,
{
    if 0 <= i < prs.len() && prs[i].url@ != url {
        lemma_find_pr_bounds(prs, url, i + 1);
    }
}

proof fn lemma_find_release_bounds(rs: Seq<Release>, url: Seq<char>, i: int)
    ensures
        find_release_at(rs, url, i) matches Some(j) ==> i <= j < rs.len() && rs[j].url@ == url,
    decreases rs.len() - i,
{
    if 0 <= i < rs.len() && rs[i].url@ != url {
        lemma_find_release_bounds(rs, url, i + 1);
    }
}

proof fn lemma_find_issue_bounds(is: Seq<Issue>, url: Seq<char>, i: int)
    ensures
        find_issue_at(is, url, i) matches Some(j) ==> i <= j < is.len() && is[j].url@ == url,
    decreases is.len() - i,
{
    if 0 <= i < is.len() && is[i].url@ != url {
        lemma_find_issue_bounds(is, url, i + 1);
    }
}

} // verus!
