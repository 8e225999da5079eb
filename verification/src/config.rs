//! The explicit configuration value.
//!
//! One `Config` is built at startup and threaded into the gateway,
//! orchestrator and scorer; tests build their own instead of
//! touching any global state.  The store and rule-file locations are
//! filled in by the surrounding program; the library only fixes the
//! default API base URL.

use vstd::prelude::*;
use crate::text::chars_of;
use crate::text::copy_range;
use crate::text::match_at;
use crate::text::matches_here;
use crate::text::string_from_chars;

verus! {

/// Where the program talks to and reads from.
#[derive(Debug, Clone)]
pub struct Config {
    pub github_base_url: String,
    pub db_path: String,
    pub rules_path: String,
}

pub open spec fn default_base_url() -> Seq<char> {
    "https://api.github.com"@
}

/// `s` with every non-overlapping occurrence of `pat` (scanned left
/// to right) replaced by `rep`.
pub open spec fn replace_seq(s: Seq<char>, pat: Seq<char>, rep: Seq<char>, i: int) -> Seq<char>
    decreases s.len() - i,
{
    if !(0 <= i < s.len()) {
        Seq::empty()
    } else if pat.len() > 0 && match_at(s, pat, i) {
        rep + replace_seq(s, pat, rep, i + pat.len() as int)
    } else {
        seq![s[i]] + replace_seq(s, pat, rep, i + 1)
    }
}

impl Config {
    /// The startup configuration: the public API base URL, with the
    /// store and rule-file locations left for the caller to fill in.
    pub fn get() -> (r: Config)
        ensures
            r.github_base_url@ == default_base_url(),
            r.db_path@ == Seq::<char>::empty(),
            r.rules_path@ == Seq::<char>::empty(),
    {
        let base = chars_of("https://api.github.com");
        Config {
            github_base_url: string_from_chars(&base),
            db_path: String::new(),
            rules_path: String::new(),
        }
    }

    /// A configuration under test control.
    pub fn init_for_test(github_base_url: String, db_path: String, rule_path: String) -> (r:
        Config)
        ensures
            r.github_base_url == github_base_url,
            r.db_path == db_path,
            r.rules_path == rule_path,
    {
        Config { github_base_url, db_path, rules_path: rule_path }
    }

    /// Back to the startup configuration.
    pub fn reset() -> (r: Config)
        ensures
            r.github_base_url@ == default_base_url(),
            r.db_path@ == Seq::<char>::empty(),
            r.rules_path@ == Seq::<char>::empty(),
    {
        Config::get()
    }

    /// Rewrites a public API URL onto this configuration's base URL;
    /// any other URL passes through unchanged.
    pub fn rewrite_url(&self, url: &str) -> (r: String)
        ensures
            match_at(url@, default_base_url(), 0) ==> r@ == replace_seq(
                url@,
                default_base_url(),
                self.github_base_url@,
                0,
            ),
            !match_at(url@, default_base_url(), 0) ==> r@ == url@,
    {
        let uc = chars_of(url);
        let base = chars_of("https://api.github.com");
        let n = uc.len();
        if base.len() > n || !matches_here(uc.as_slice(), base.as_slice(), 0) {
            proof {
                assert(!match_at(url@, default_base_url(), 0));
            }
            let v = copy_range(uc.as_slice(), 0, n);
            proof {
                assert(v@ =~= url@);
            }
            return string_from_chars(&v);
        }
        let rep = chars_of(self.github_base_url.as_str());
        let out = replace_exec(uc.as_slice(), base.as_slice(), rep.as_slice(), 0);
        string_from_chars(&out)
    }
}

/// Replaces every occurrence of `pat` in `s[i..]` by `rep`.
fn replace_exec(s: &[char], pat: &[char], rep: &[char], i: usize) -> (v: Vec<char>)
    requires
        i <= s@.len(),
    ensures
        v@ == replace_seq(s@, pat@, rep@, i as int),
    decreases s@.len() - i,
{
    let n = s.len();
    if i == n {
        let v: Vec<char> = Vec::new();
        proof {
            assert(v@ =~= Seq::<char>::empty());
        }
        return v;
    }
    let m = pat.len();
    if m > 0 && m <= n - i && matches_here(s, pat, i) {
        let mut v = copy_range(rep, 0, rep.len());
        proof {
            assert(v@ =~= rep@);
        }
        let mut tail = replace_exec(s, pat, rep, i + m);
        v.append(&mut tail);
        v
    } else {
        proof {
            if m > 0 && i + m > n {
                assert(!match_at(s@, pat@, i as int));
            }
        }
        let mut v: Vec<char> = Vec::new();
        v.push(s[i]);
        let mut tail = replace_exec(s, pat, rep, i + 1);
        v.append(&mut tail);
        proof {
            assert(v@ =~= seq![s@[i as int]] + replace_seq(s@, pat@, rep@, i as int + 1));
        }
        v
    }
}

} // verus!
