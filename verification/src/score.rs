//! The scoring rule engine.
//!
//! Rules come from a declarative TOML table keyed by rule name; each
//! entry names a rule kind, a comma-separated parameter list and a
//! signed score.  A notification's score is the sum of the scores of
//! every rule whose predicate matches it.

use vstd::prelude::*;
use crate::models::Notification;
use crate::models::org_of;
use crate::text::chars_eq;
use crate::text::chars_of;
use crate::text::contains_seq;
use crate::text::copy_range;
use crate::text::find_from;
use crate::text::find_sub;
use crate::text::lemma_find_from;
use crate::text::string_from_chars;
use crate::text::trim_range;
use crate::text::trim_spec;

verus! {

/// The closed set of rule kinds.
#[derive(Debug, Clone, Copy, PartialEq, Eq, Structural)]
pub enum RuleType {
    Author,
    Repo,
    Title,
    Org,
    Reason,
}

/// One loaded scoring rule.
#[derive(Debug, Clone)]
pub struct Rule {
    pub rule: RuleType,
    pub name: String,
    pub params: Vec<String>,
    pub score: i32,
}

/// A top-level rule-file entry, before interpretation: the entry
/// name, the rule-kind text, the raw parameter list and the score.
#[derive(Debug, Clone)]
pub struct RuleEntry {
    pub name: String,
    pub rule: String,
    pub param: String,
    pub score: i64,
}

/// How loading a rule set can fail.
#[derive(Debug, Clone, PartialEq, Eq)]
pub enum Error {
    /// The rule file could not be read.
    RuleFileNotFound,
    /// The text is not a TOML table of well-shaped entries.
    InvalidToml,
    /// An entry names a rule kind that does not exist; carries the
    /// offending text.
    InvalidRule(String),
}

/// The rule kind named by `s`, if any.
pub open spec fn rule_type_of(s: Seq<char>) -> Option<RuleType> {
    if s == "author"@ {
        Some(RuleType::Author)
    } else if s == "repo"@ {
        Some(RuleType::Repo)
    } else if s == "title"@ {
        Some(RuleType::Title)
    } else if s == "org"@ {
        Some(RuleType::Org)
    } else if s == "reason"@ {
        Some(RuleType::Reason)
    } else {
        None
    }
}

/// Reads a rule kind from its file spelling.
pub fn rule_from_str(rule_name: &str) -> (r: Result<RuleType, String>)
    ensures
        r matches Ok(t) ==> rule_type_of(rule_name@) == Some(t),
        r matches Err(e) ==> rule_type_of(rule_name@) is None && e@ == rule_name@,
{
    let c = chars_of(rule_name);
    let s = c.as_slice();
    if chars_eq(s, chars_of("author").as_slice()) {
        Ok(RuleType::Author)
    } else if chars_eq(s, chars_of("repo").as_slice()) {
        Ok(RuleType::Repo)
    } else if chars_eq(s, chars_of("title").as_slice()) {
        Ok(RuleType::Title)
    } else if chars_eq(s, chars_of("org").as_slice()) {
        Ok(RuleType::Org)
    } else if chars_eq(s, chars_of("reason").as_slice()) {
        Ok(RuleType::Reason)
    } else {
        Err(string_from_chars(&c))
    }
}

/// `v` is one of the parameters.
pub open spec fn in_params(params: Seq<Seq<char>>, v: Seq<char>) -> bool {
    exists|i: int| 0 <= i < params.len() && params[i] == v
}

/// Some parameter occurs in `hay` as a substring.
pub open spec fn any_substring(params: Seq<Seq<char>>, hay: Seq<char>) -> bool {
    exists|i: int| 0 <= i < params.len() && contains_seq(hay, params[i])
}

/// An org parameter matches: a leading `!` negates the comparison.
pub open spec fn org_param_matches(org: Seq<char>, p: Seq<char>) -> bool {
    if p.len() > 0 && p[0] == '!' {
        org != p.drop_first()
    } else {
        org == p
    }
}

/// Some org parameter matches the notification's organization.
pub open spec fn any_org_match(params: Seq<Seq<char>>, org: Seq<char>) -> bool {
    exists|i: int| 0 <= i < params.len() && org_param_matches(org, params[i])
}

/// The predicate of rule `r` on the fields a rule can read.
pub open spec fn rule_matches_on(
    r: Rule,
    author: Seq<char>,
    repo: Seq<char>,
    title: Seq<char>,
    reason: Seq<char>,
) -> bool {
    match r.rule {
        RuleType::Author => in_params(r.params.deep_view(), author),
        RuleType::Repo => in_params(r.params.deep_view(), repo),
        RuleType::Title => any_substring(r.params.deep_view(), title),
        RuleType::Org => any_org_match(r.params.deep_view(), org_of(repo)),
        RuleType::Reason => any_substring(r.params.deep_view(), reason),
    }
}

/// The predicate of rule `r` on notification `n`.
pub open spec fn rule_matches(r: Rule, n: Notification) -> bool {
    rule_matches_on(r, n.author@, n.repo@, n.title@, n.reason@)
}

/// What rule `r` contributes on the given fields.
pub open spec fn rule_contrib_on(
    r: Rule,
    author: Seq<char>,
    repo: Seq<char>,
    title: Seq<char>,
    reason: Seq<char>,
) -> int {
    if rule_matches_on(r, author, repo, title, reason) {
        r.score as int
    } else {
        0
    }
}

/// What rule `r` contributes to the score of `n`.
pub open spec fn rule_contrib(r: Rule, n: Notification) -> int {
    rule_contrib_on(r, n.author@, n.repo@, n.title@, n.reason@)
}

/// The sum of every rule's contribution on the given fields.
pub open spec fn total_score_on(
    rules: Seq<Rule>,
    author: Seq<char>,
    repo: Seq<char>,
    title: Seq<char>,
    reason: Seq<char>,
) -> int
    decreases rules.len(),
{
    if rules.len() == 0 {
        0
    } else {
        rule_contrib_on(rules[0], author, repo, title, reason) + total_score_on(
            rules.drop_first(),
            author,
            repo,
            title,
            reason,
        )
    }
}

/// The sum of every rule's contribution.
pub open spec fn total_score(rules: Seq<Rule>, n: Notification) -> int {
    total_score_on(rules, n.author@, n.repo@, n.title@, n.reason@)
}

/// What a rule means, independent of which allocation holds it: the
/// kind, the display name, the parameters and the score.
pub open spec fn rule_model(r: Rule) -> (RuleType, Seq<char>, Seq<Seq<char>>, int) {
    (r.rule, r.name@, r.params.deep_view(), r.score as int)
}

pub open spec fn models_of(rs: Seq<Rule>) -> Seq<(RuleType, Seq<char>, Seq<Seq<char>>, int)> {
    rs.map_values(|r: Rule| rule_model(r))
}

/// The models of the rules whose contribution is non-zero, in order.
pub open spec fn matched_models(rules: Seq<Rule>, n: Notification) -> Seq<
    (RuleType, Seq<char>, Seq<Seq<char>>, int),
>
    decreases rules.len(),
{
    if rules.len() == 0 {
        Seq::empty()
    } else {
        let rest = matched_models(rules.drop_first(), n);
        if rule_contrib(rules[0], n) != 0 {
            seq![rule_model(rules[0])] + rest
        } else {
            rest
        }
    }
}

/// Whether `v` equals one of the strings of `params`.
fn params_contain(params: &Vec<String>, v: &str) -> (r: bool)
    ensures
        r == in_params(params.deep_view(), v@),
{
    let vc = chars_of(v);
    let n = params.len();
    let mut i: usize = 0;
    while i < n
        invariant
            n == params@.len(),
            i <= n,
            vc@ == v@,
            forall|j: int| 0 <= j < i ==> params.deep_view()[j] != v@,
        decreases n - i,
    {
        let pc = chars_of(params[i].as_str());
        if chars_eq(pc.as_slice(), vc.as_slice()) {
            proof {
                assert(params.deep_view()[i as int] == v@);
            }
            return true;
        }
        i = i + 1;
    }
    false
}

/// Whether one of the strings of `params` occurs in `hay`.
fn params_substring(params: &Vec<String>, hay: &str) -> (r: bool)
    ensures
        r == any_substring(params.deep_view(), hay@),
{
    let hc = chars_of(hay);
    let n = params.len();
    let mut i: usize = 0;
    while i < n
        invariant
            n == params@.len(),
            i <= n,
            hc@ == hay@,
            forall|j: int| 0 <= j < i ==> !contains_seq(hay@, params.deep_view()[j]),
        decreases n - i,
    {
        let pc = chars_of(params[i].as_str());
        match find_sub(hc.as_slice(), pc.as_slice()) {
            Some(_) => {
                proof {
                    assert(contains_seq(hay@, params.deep_view()[i as int]));
                }
                return true;
            },
            None => {},
        }
        i = i + 1;
    }
    false
}

/// Whether one of the org parameters matches `org`.
fn params_org_match(params: &Vec<String>, org: &str) -> (r: bool)
    ensures
        r == any_org_match(params.deep_view(), org@),
{
    let oc = chars_of(org);
    let n = params.len();
    let mut i: usize = 0;
    while i < n
        invariant
            n == params@.len(),
            i <= n,
            oc@ == org@,
            forall|j: int| 0 <= j < i ==> !org_param_matches(org@, params.deep_view()[j]),
        decreases n - i,
    {
        let pc = chars_of(params[i].as_str());
        let hit: bool = if pc.len() > 0 && pc.as_slice()[0] == '!' {
            let stripped = copy_range(pc.as_slice(), 1, pc.len());
            proof {
                assert(stripped@ =~= pc@.drop_first());
            }
            !chars_eq(oc.as_slice(), stripped.as_slice())
        } else {
            chars_eq(oc.as_slice(), pc.as_slice())
        };
        if hit {
            proof {
                assert(org_param_matches(org@, params.deep_view()[i as int]));
            }
            return true;
        }
        i = i + 1;
    }
    false
}

impl Rule {
    /// The rule's contribution to the score of `notification`: its
    /// score when the predicate matches, zero otherwise.
    pub fn matcher(&self, notification: &Notification) -> (r: i32)
        ensures
            r as int == rule_contrib(*self, *notification),
    {
        let hit: bool = match self.rule {
            RuleType::Author => params_contain(&self.params, notification.author.as_str()),
            RuleType::Repo => params_contain(&self.params, notification.repo.as_str()),
            RuleType::Title => params_substring(&self.params, notification.title.as_str()),
            RuleType::Org => {
                let org = notification.org();
                params_org_match(&self.params, org.as_str())
            },
            RuleType::Reason => params_substring(&self.params, notification.reason.as_str()),
        };
        if hit {
            self.score
        } else {
            0
        }
    }
}

/// The loaded rule set.
#[derive(Debug)]
pub struct Scorer {
    pub rules: Vec<Rule>,
}

impl Scorer {
    /// Few enough rules that a score sum cannot leave `i64`.
    pub open spec fn wf(self) -> bool {
        self.rules@.len() <= 0x7fff_ffff
    }

    /// The additive score of `notification` under the loaded rules.
    pub fn score(&self, notification: &Notification) -> (r: i64)
        requires
            self.wf(),
        ensures
            r as int == total_score(self.rules@, *notification),
    {
        let n = self.rules.len();
        let mut acc: i64 = 0;
        let mut i: usize = 0;
        proof {
            assert(self.rules@.skip(0) =~= self.rules@);
        }
        while i < n
            invariant
                n == self.rules@.len(),
                n <= 0x7fff_ffff,
                i <= n,
                acc + total_score(self.rules@.skip(i as int), *notification) == total_score(
                    self.rules@,
                    *notification,
                ),
                -(i as int) * 0x8000_0000 <= acc as int <= (i as int) * 0x7fff_ffff,
            decreases n - i,
        {
            let c = self.rules[i].matcher(notification);
            proof {
                let tail = self.rules@.skip(i as int);
                assert(tail.drop_first() =~= self.rules@.skip(i as int + 1));
                assert(tail[0] == self.rules@[i as int]);
                assert((i as int + 1) * 0x7fff_ffff == (i as int) * 0x7fff_ffff + 0x7fff_ffff);
                assert((i as int + 1) * (-0x8000_0000) == (i as int) * (-0x8000_0000)
                    - 0x8000_0000);
            }
            acc = acc + c as i64;
            i = i + 1;
        }
        proof {
            assert(self.rules@.skip(n as int) =~= Seq::<Rule>::empty());
        }
        acc
    }

    /// The rules whose individual contribution to `notification` is
    /// non-zero, for display; never mutates anything.
    pub fn explain(&self, notification: &Notification) -> (r: Vec<Rule>)
        ensures
            models_of(r@) == matched_models(self.rules@, *notification),
    {
        let n = self.rules.len();
        let mut out: Vec<Rule> = Vec::new();
        let mut i: usize = 0;
        proof {
            assert(self.rules@.skip(0) =~= self.rules@);
        }
        while i < n
            invariant
                n == self.rules@.len(),
                i <= n,
                models_of(out@) + matched_models(self.rules@.skip(i as int), *notification)
                    == matched_models(self.rules@, *notification),
            decreases n - i,
        {
            let c = self.rules[i].matcher(notification);
            proof {
                let tail = self.rules@.skip(i as int);
                assert(tail.drop_first() =~= self.rules@.skip(i as int + 1));
                assert(tail[0] == self.rules@[i as int]);
            }
            if c != 0 {
                let rl = &self.rules[i];
                out.push(
                    Rule {
                        rule: rl.rule,
                        name: rl.name.clone(),
                        params: clone_params(&rl.params),
                        score: rl.score,
                    },
                );
                proof {
                    let prev = out@.drop_last();
                    assert(out@.last().params.deep_view()
                        =~= self.rules@[i as int].params.deep_view());
                    assert(rule_model(out@.last()) == rule_model(self.rules@[i as int]));
                    assert(models_of(out@) =~= models_of(prev).push(
                        rule_model(self.rules@[i as int]),
                    ));
                    assert(models_of(prev).push(rule_model(self.rules@[i as int]))
                        + matched_models(self.rules@.skip(i as int + 1), *notification)
                        =~= models_of(prev) + (seq![rule_model(self.rules@[i as int])]
                        + matched_models(self.rules@.skip(i as int + 1), *notification)));
                }
            }
            i = i + 1;
        }
        proof {
            assert(self.rules@.skip(n as int) =~= Seq::<Rule>::empty());
        }
        out
    }
}

/// End of the comma-separated piece that starts at `i`.
pub open spec fn comma_end(s: Seq<char>, i: int) -> int {
    match find_from(s, seq![','], i) {
        Some(e) => crate::text::clamp(i, e, s.len() as int),
        None => s.len() as int,
    }
}

/// The comma-separated pieces of `s` from `i` on, each trimmed.
pub open spec fn params_of(s: Seq<char>, i: int) -> Seq<Seq<char>>
    decreases s.len() - i,
{
    if !(0 <= i <= s.len()) {
        Seq::empty()
    } else {
        let e = comma_end(s, i);
        let piece = trim_spec(s.subrange(i, e));
        if e == s.len() {
            seq![piece]
        } else {
            seq![piece] + params_of(s, e + 1)
        }
    }
}

/// Splits a raw parameter list on commas, trimming each piece.
fn params_from(u: &[char], i: usize) -> (r: Vec<String>)
    requires
        i <= u@.len(),
    ensures
        r.deep_view() == params_of(u@, i as int),
    decreases u@.len() - i,
{
    let n = u.len();
    let e: usize = match crate::text::find_char_from(u, ',', i) {
        Some(e) => e,
        None => n,
    };
    proof {
        lemma_find_from(u@, seq![','], i as int);
        assert(e as int == comma_end(u@, i as int));
    }
    let piece_v = trim_range(u, i, e);
    let piece = string_from_chars(&piece_v);
    let mut out: Vec<String> = Vec::new();
    out.push(piece);
    if e == n {
        proof {
            assert(out.deep_view() =~~= params_of(u@, i as int));
        }
        out
    } else {
        let mut rest = params_from(u, e + 1);
        out.append(&mut rest);
        proof {
            assert(out.deep_view() =~~= params_of(u@, i as int));
        }
        out
    }
}

/// The entry's score fits the rule score field.
pub open spec fn entry_score_ok(e: RuleEntry) -> bool {
    -0x8000_0000 <= e.score <= 0x7fff_ffff
}

/// The entry names a rule kind that exists.
pub open spec fn entry_rule_ok(e: RuleEntry) -> bool {
    rule_type_of(e.rule@) is Some
}

/// The rule that a well-shaped entry means.
pub open spec fn entry_model(e: RuleEntry) -> (RuleType, Seq<char>, Seq<Seq<char>>, int) {
    (rule_type_of(e.rule@)->Some_0, e.name@, params_of(e.param@, 0), e.score as int)
}

/// A named entry is well shaped: its kind exists and its score fits
/// a rule weight.
pub open spec fn entry_tuple_ok(e: (Seq<char>, Seq<char>, Seq<char>, int)) -> bool {
    rule_type_of(e.1) is Some && -0x8000_0000 <= e.3 <= 0x7fff_ffff
}

/// The rule a named entry means.
pub open spec fn entry_tuple_model(e: (Seq<char>, Seq<char>, Seq<char>, int)) -> (
    RuleType,
    Seq<char>,
    Seq<Seq<char>>,
    int,
) {
    (rule_type_of(e.1)->Some_0, e.0, params_of(e.2, 0), e.3)
}

/// Text `t` loads to scorer `sc`: the parse succeeds, every entry is
/// well shaped, the table is small enough to score, and the rules
/// model the entries one for one, in order.
pub open spec fn loads_to(t: Seq<char>, sc: Scorer) -> bool {
    match rule_entries_of(t) {
        Some(es) => {
            &&& es.len() <= 0x7fff_ffff
            &&& forall|i: int| 0 <= i < es.len() ==> entry_tuple_ok(#[trigger] es[i])
            &&& sc.rules@.len() == es.len()
            &&& forall|i: int|
                0 <= i < es.len() ==> rule_model(sc.rules@[i]) == entry_tuple_model(
                    #[trigger] es[i],
                )
        },
        None => false,
    }
}

/// Loading text `t` fails exactly with `e`: text that is no rule
/// table (or holds an oversized score) is the table error, and an
/// unknown rule kind is reported with its text.
pub open spec fn load_fails_with(t: Seq<char>, e: Error) -> bool {
    match e {
        Error::InvalidToml => match rule_entries_of(t) {
            None => true,
            Some(es) => es.len() > 0x7fff_ffff || exists|i: int|
                0 <= i < es.len() && !(-0x8000_0000 <= (#[trigger] es[i]).3 <= 0x7fff_ffff),
        },
        Error::InvalidRule(s) => match rule_entries_of(t) {
            None => false,
            Some(es) => {
                &&& es.len() <= 0x7fff_ffff
                &&& forall|i: int|
                    0 <= i < es.len() ==> -0x8000_0000 <= (#[trigger] es[i]).3 <= 0x7fff_ffff
                &&& exists|i: int|
                    0 <= i < es.len() && rule_type_of((#[trigger] es[i]).1) is None && s@
                        == es[i].1
            },
        },
        Error::RuleFileNotFound => false,
    }
}

impl Scorer {
    /// Interprets the rule-file entries, in order: every score must
    /// fit a signed 32-bit rule weight (checked first, like a typed
    /// parse would), and every rule kind must exist; otherwise the
    /// first offending kind text is reported.
    pub fn from_entries(entries: Vec<RuleEntry>) -> (r: Result<Scorer, Error>)
        ensures
            r matches Ok(sc) ==> {
                &&& sc.wf()
                &&& entries@.len() <= 0x7fff_ffff
                &&& forall|i: int|
                    0 <= i < entries@.len() ==> entry_score_ok(#[trigger] entries@[i])
                        && entry_rule_ok(entries@[i])
                &&& sc.rules@.len() == entries@.len()
                &&& forall|i: int|
                    0 <= i < entries@.len() ==> rule_model(#[trigger] sc.rules@[i]) == entry_model(
                        entries@[i],
                    )
            },
            r matches Err(e) ==> match e {
                Error::InvalidToml => entries@.len() > 0x7fff_ffff || exists|i: int|
                    0 <= i < entries@.len() && !entry_score_ok(#[trigger] entries@[i]),
                Error::InvalidRule(s) => {
                    &&& entries@.len() <= 0x7fff_ffff
                    &&& forall|i: int|
                        0 <= i < entries@.len() ==> entry_score_ok(#[trigger] entries@[i])
                    &&& exists|i: int|
                        0 <= i < entries@.len() && !entry_rule_ok(#[trigger] entries@[i]) && s@
                            == entries@[i].rule@
                },
                Error::RuleFileNotFound => false,
            },
    {
        let n = entries.len();
        if n > 0x7fff_ffff {
            return Err(Error::InvalidToml);
        }
        let mut i: usize = 0;
        while i < n
            invariant
                n == entries@.len(),
                i <= n,
                forall|j: int| 0 <= j < i ==> entry_score_ok(#[trigger] entries@[j]),
            decreases n - i,
        {
            let sc = entries[i].score;
            if sc < -0x8000_0000i64 || sc > 0x7fff_ffffi64 {
                return Err(Error::InvalidToml);
            }
            i = i + 1;
        }
        let mut rules: Vec<Rule> = Vec::new();
        let mut i: usize = 0;
        while i < n
            invariant
                n == entries@.len() <= 0x7fff_ffff,
                i <= n,
                forall|j: int| 0 <= j < n ==> entry_score_ok(#[trigger] entries@[j]),
                rules@.len() == i,
                forall|j: int|
                    0 <= j < i ==> entry_rule_ok(#[trigger] entries@[j]) && rule_model(
                        rules@[j],
                    ) == entry_model(entries@[j]),
            decreases n - i,
        {
            let e = &entries[i];
            let kind = match rule_from_str(e.rule.as_str()) {
                Ok(k) => k,
                Err(msg) => {
                    return Err(Error::InvalidRule(msg));
                },
            };
            let pv = chars_of(e.param.as_str());
            let params = params_from(pv.as_slice(), 0);
            rules.push(
                Rule { rule: kind, name: e.name.clone(), params, score: e.score as i32 },
            );
            i = i + 1;
        }
        Ok(Scorer { rules })
    }

    /// Builds the scorer from the rule file's text.  `None` stands
    /// for a missing file, which is tolerated: it yields an empty
    /// rule set, so every score is zero and the interface stays
    /// usable.  Text that is no rule table is the distinct table
    /// error; an unrecognized rule kind is the distinct rule error,
    /// naming the offending text.
    pub fn new(config: Option<&str>) -> (r: Result<Scorer, Error>)
        ensures
            config is None ==> (r matches Ok(sc) && sc.rules@.len() == 0),
            r matches Ok(sc) ==> sc.wf(),
            r matches Err(e) ==> !(e matches Error::RuleFileNotFound) && config is Some,
            config matches Some(t) ==> match r {
                Ok(sc) => loads_to(t@, sc),
                Err(e) => load_fails_with(t@, e),
            },
    {
        let text = match config {
            None => {
                return Ok(Scorer { rules: Vec::new() });
            },
            Some(t) => t,
        };
        let entries = match parse_rule_entries(text) {
            None => {
                return Err(Error::InvalidToml);
            },
            Some(es) => es,
        };
        let ghost ev = entries@;
        let ghost es = rule_entries_of(text@)->Some_0;
        let res = Scorer::from_entries(entries);
        proof {
            if res is Ok {
                let sc = res->Ok_0;
                assert forall|i: int| 0 <= i < es.len() implies entry_tuple_ok(
                    #[trigger] es[i],
                ) by {
                    assert(entry_score_ok(ev[i]) && entry_rule_ok(ev[i]));
                }
                assert forall|i: int|
                    0 <= i < es.len() implies rule_model(sc.rules@[i]) == entry_tuple_model(
                    #[trigger] es[i],
                ) by {
                    assert(rule_model(sc.rules@[i]) == entry_model(ev[i]));
                    assert(ev[i].rule@ == es[i].1 && ev[i].name@ == es[i].0 && ev[i].param@
                        == es[i].2 && ev[i].score as int == es[i].3);
                }
                assert(loads_to(text@, sc));
            } else {
                let e = res->Err_0;
                match e {
                    Error::InvalidToml => {
                        if ev.len() <= 0x7fff_ffff {
                            let i = choose|i: int|
                                0 <= i < ev.len() && !entry_score_ok(#[trigger] ev[i]);
                            assert(!(-0x8000_0000 <= es[i].3 <= 0x7fff_ffff));
                        }
                    },
                    Error::InvalidRule(msg) => {
                        assert forall|i: int|
                            0 <= i < es.len() implies -0x8000_0000 <= (#[trigger] es[i]).3
                            <= 0x7fff_ffff by {
                            assert(entry_score_ok(ev[i]));
                        }
                        let i = choose|i: int|
                            0 <= i < ev.len() && !entry_rule_ok(#[trigger] ev[i]) && msg@
                                == ev[i].rule@;
                        assert(rule_type_of(es[i].1) is None && msg@ == es[i].1);
                    },
                    Error::RuleFileNotFound => {
                        assert(false);
                    },
                }
            }
        }
        res
    }
}

/// What `toml` reads a rule file as: for text that is a TOML table
/// of entries with string `rule` and `param` fields and an integer
/// `score` field, the `(name, rule, param, score)` of each entry in
/// table order; nothing for any other text.  The table is ordered by
/// key, so the result depends on the text alone.
pub uninterp spec fn rule_entries_of(s: Seq<char>) -> Option<
    Seq<(Seq<char>, Seq<char>, Seq<char>, int)>,
>;

/// Relies on `toml::from_str` and `toml::Value::{get, as_str,
/// as_integer}`: parses the text as a TOML table and extracts the
/// three fields of each entry, in table order, yielding nothing when
/// the text is no such table.
#[verifier::external_body]
fn parse_rule_entries(text: &str) -> (r: Option<Vec<RuleEntry>>)
    ensures
        (r is Some) == (rule_entries_of(text@) is Some),
        r matches Some(v) ==> {
            let es = rule_entries_of(text@)->Some_0;
            &&& v@.len() == es.len()
            &&& forall|i: int|
                0 <= i < v@.len() ==> {
                    let e = #[trigger] v@[i];
                    &&& e.name@ == es[i].0
                    &&& e.rule@ == es[i].1
                    &&& e.param@ == es[i].2
                    &&& e.score as int == es[i].3
                }
        },
{
    let table: toml::Table = match toml::from_str(text) {
        Ok(t) => t,
        Err(_) => return None,
    };
    let mut out: Vec<RuleEntry> = Vec::new();
    for (name, v) in table {
        let rule = v.get("rule")?.as_str()?.to_string();
        let param = v.get("param")?.as_str()?.to_string();
        let score = v.get("score")?.as_integer()?;
        out.push(RuleEntry { name, rule, param, score });
    }
    Some(out)
}

/// Copies a parameter list.
fn clone_params(params: &Vec<String>) -> (r: Vec<String>)
    ensures
        r@ == params@,
{
    let n = params.len();
    let mut out: Vec<String> = Vec::new();
    let mut i: usize = 0;
    while i < n
        invariant
            n == params@.len(),
            i <= n,
            out@ == params@.subrange(0, i as int),
        decreases n - i,
    {
        out.push(params[i].clone());
        i = i + 1;
        proof {
            assert(out@ =~= params@.subrange(0, i as int));
        }
    }
    proof {
        assert(out@ =~= params@);
    }
    out
}

} // verus!
