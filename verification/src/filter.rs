//! The search-query filter.
//!
//! A query is free text, optionally structured by the markers
//! `title:`, `author:`, `repo:` and `state:`.  Each marker's value
//! runs to the next marker (in query order) and is trimmed; text
//! before the first marker is a title filter; a query with no marker
//! is all title.  A state value is matched regardless of case against
//! the four state names, and anything else means no state filter.

use vstd::prelude::*;
use crate::text::chars_of;
use crate::text::copy_range;
use crate::text::eq_ci;
use crate::text::eq_ci_exec;
use crate::text::find_from;
use crate::text::find_from_exec;
use crate::text::lemma_find_from;
use crate::text::string_from_chars;
use crate::text::trim_range;
use crate::text::trim_spec;

verus! {

/// Position of a marker: its first occurrence in the query.
pub open spec fn kpos(s: Seq<char>, key: Seq<char>) -> Option<int> {
    find_from(s, key, 0)
}

pub open spec fn opt_min(a: Option<int>, b: Option<int>) -> Option<int> {
    match (a, b) {
        (Option::None, x) => x,
        (Option::Some(x), Option::None) => Some(x),
        (Option::Some(x), Option::Some(y)) => Some(
            if x <= y {
                x
            } else {
                y
            },
        ),
    }
}

pub open spec fn gt_filter(o: Option<int>, p: int) -> Option<int> {
    match o {
        Some(x) => if x > p {
            Some(x)
        } else {
            None
        },
        None => None,
    }
}

/// Where the value that starts after position `p` ends: the nearest
/// later marker, or the end of the query.
pub open spec fn bound_after(s_len: int, p: int, o1: Option<int>, o2: Option<int>, o3: Option<
    int,
>) -> int {
    match opt_min(gt_filter(o1, p), opt_min(gt_filter(o2, p), gt_filter(o3, p))) {
        Some(x) => x,
        None => s_len,
    }
}

/// The trimmed value of the marker at `o_self`, whose competitors
/// stand at the other three positions; empty when the marker is
/// absent.
pub open spec fn field_value(
    s: Seq<char>,
    key_len: int,
    o_self: Option<int>,
    o1: Option<int>,
    o2: Option<int>,
    o3: Option<int>,
) -> Seq<char> {
    match o_self {
        None => Seq::empty(),
        Some(p) => {
            let start = p + key_len;
            let bound = bound_after(s.len() as int, p, o1, o2, o3);
            let end = if bound < start {
                start
            } else {
                bound
            };
            trim_spec(s.subrange(start, end))
        },
    }
}

pub open spec fn title_pos(s: Seq<char>) -> Option<int> {
    kpos(s, "title:"@)
}

pub open spec fn author_pos(s: Seq<char>) -> Option<int> {
    kpos(s, "author:"@)
}

pub open spec fn repo_pos(s: Seq<char>) -> Option<int> {
    kpos(s, "repo:"@)
}

pub open spec fn state_pos(s: Seq<char>) -> Option<int> {
    kpos(s, "state:"@)
}

pub open spec fn no_marker(s: Seq<char>) -> bool {
    title_pos(s) is None && author_pos(s) is None && repo_pos(s) is None && state_pos(s) is None
}

/// The first marker of the query.
pub open spec fn first_marker(s: Seq<char>) -> Option<int> {
    opt_min(title_pos(s), opt_min(author_pos(s), opt_min(repo_pos(s), state_pos(s))))
}

/// The title filter: the whole query when it has no marker; the
/// `title:` value when that marker is present; otherwise the trimmed
/// text before the first marker.
pub open spec fn spec_title(s: Seq<char>) -> Seq<char> {
    if no_marker(s) {
        s
    } else if title_pos(s) is Some {
        field_value(s, 6, title_pos(s), author_pos(s), repo_pos(s), state_pos(s))
    } else {
        match first_marker(s) {
            Some(p) => if p > 0 {
                trim_spec(s.subrange(0, p))
            } else {
                Seq::empty()
            },
            None => Seq::empty(),
        }
    }
}

pub open spec fn spec_author(s: Seq<char>) -> Seq<char> {
    field_value(s, 7, author_pos(s), title_pos(s), repo_pos(s), state_pos(s))
}

pub open spec fn spec_repo(s: Seq<char>) -> Seq<char> {
    field_value(s, 5, repo_pos(s), title_pos(s), author_pos(s), state_pos(s))
}

/// The canonical state name a raw value means, regardless of case;
/// empty for anything unrecognized.
pub open spec fn canon_state(v: Seq<char>) -> Seq<char> {
    if eq_ci(v, "open"@) {
        "Open"@
    } else if eq_ci(v, "draft"@) {
        "Draft"@
    } else if eq_ci(v, "resolved"@) {
        "Resolved"@
    } else if eq_ci(v, "canceled"@) {
        "Canceled"@
    } else {
        Seq::empty()
    }
}

pub open spec fn spec_state(s: Seq<char>) -> Seq<char> {
    match state_pos(s) {
        None => Seq::empty(),
        Some(_) => canon_state(
            field_value(s, 6, state_pos(s), title_pos(s), author_pos(s), repo_pos(s)),
        ),
    }
}

/// A parsed search query.
#[derive(Debug, Clone)]
pub struct Filter {
    pub title: String,
    pub author: String,
    pub repo: String,
    pub state: String,
}

impl Filter {
    /// Splits a query into its four filter fields.
    pub fn parse(input: &str) -> (r: Result<Filter, ()>)
        ensures
            r matches Ok(f) ==> {
                &&& f.title@ == spec_title(input@)
                &&& f.author@ == spec_author(input@)
                &&& f.repo@ == spec_repo(input@)
                &&& f.state@ == spec_state(input@)
            },
            r is Ok,
    {
        let s = chars_of(input);
        let sv = s.as_slice();
        let n = s.len();
        let tk = chars_of("title:");
        let ak = chars_of("author:");
        let rk = chars_of("repo:");
        let sk = chars_of("state:");
        let pt = find_from_exec(sv, tk.as_slice(), 0);
        let pa = find_from_exec(sv, ak.as_slice(), 0);
        let pr = find_from_exec(sv, rk.as_slice(), 0);
        let ps = find_from_exec(sv, sk.as_slice(), 0);
        proof {
            reveal_strlit("title:");
            reveal_strlit("author:");
            reveal_strlit("repo:");
            reveal_strlit("state:");
            lemma_find_from(input@, "title:"@, 0);
            lemma_find_from(input@, "author:"@, 0);
            lemma_find_from(input@, "repo:"@, 0);
            lemma_find_from(input@, "state:"@, 0);
        }
        let author = Self::value_of(sv, pa, 7, pt, pr, ps);
        let repo = Self::value_of(sv, pr, 5, pt, pa, ps);
        let state_raw = Self::value_of(sv, ps, 6, pt, pa, pr);
        let state = Self::canon_state_exec(state_raw.as_slice());
        proof {
            assert(author@ == spec_author(input@));
            assert(repo@ == spec_repo(input@));
            if ps is Some {
                assert(state@ == spec_state(input@));
            } else {
                reveal_strlit("open");
                reveal_strlit("draft");
                reveal_strlit("resolved");
                reveal_strlit("canceled");
                assert(state_raw@ =~= Seq::<char>::empty());
                assert(!eq_ci(state_raw@, "open"@));
                assert(!eq_ci(state_raw@, "draft"@));
                assert(!eq_ci(state_raw@, "resolved"@));
                assert(!eq_ci(state_raw@, "canceled"@));
                assert(state@ =~= Seq::<char>::empty());
            }
        }
        let title: Vec<char>;
        if pt.is_none() && pa.is_none() && pr.is_none() && ps.is_none() {
            title = copy_range(sv, 0, n);
            proof {
                assert(title@ =~= input@);
            }
        } else if pt.is_some() {
            title = Self::value_of(sv, pt, 6, pa, pr, ps);
        } else {
            let mut first: usize = n;
            match pa {
                Some(p) => if p < first {
                    first = p;
                },
                None => {},
            }
            match pr {
                Some(p) => if p < first {
                    first = p;
                },
                None => {},
            }
            match ps {
                Some(p) => if p < first {
                    first = p;
                },
                None => {},
            }
            proof {
                assert(first_marker(input@) == Some(first as int));
            }
            if first > 0 {
                title = trim_range(sv, 0, first);
            } else {
                title = Vec::new();
                proof {
                    assert(title@ =~= Seq::<char>::empty());
                }
            }
        }
        proof {
            assert(title@ == spec_title(input@));
        }
        Ok(
            Filter {
                title: string_from_chars(&title),
                author: string_from_chars(&author),
                repo: string_from_chars(&repo),
                state: string_from_chars(&state),
            },
        )
    }

    /// The trimmed value of the marker at `o_self`.
    fn value_of(
        sv: &[char],
        o_self: Option<usize>,
        key_len: usize,
        o1: Option<usize>,
        o2: Option<usize>,
        o3: Option<usize>,
    ) -> (r: Vec<char>)
        requires
            o_self matches Some(p) ==> p + key_len <= sv@.len(),
            o1 matches Some(p) ==> p <= sv@.len(),
            o2 matches Some(p) ==> p <= sv@.len(),
            o3 matches Some(p) ==> p <= sv@.len(),
        ensures
            r@ == field_value(
                sv@,
                key_len as int,
                match o_self {
                    Some(p) => Some(p as int),
                    None => None,
                },
                match o1 {
                    Some(p) => Some(p as int),
                    None => None,
                },
                match o2 {
                    Some(p) => Some(p as int),
                    None => None,
                },
                match o3 {
                    Some(p) => Some(p as int),
                    None => None,
                },
            ),
    {
        let n = sv.len();
        let p = match o_self {
            None => {
                let v: Vec<char> = Vec::new();
                proof {
                    assert(v@ =~= Seq::<char>::empty());
                }
                return v;
            },
            Some(p) => p,
        };
        let mut bound: usize = n;
        let mut found: bool = false;
        match o1 {
            Some(q) => if q > p && (!found || q < bound) {
                bound = q;
                found = true;
            },
            None => {},
        }
        match o2 {
            Some(q) => if q > p && (!found || q < bound) {
                bound = q;
                found = true;
            },
            None => {},
        }
        match o3 {
            Some(q) => if q > p && (!found || q < bound) {
                bound = q;
                found = true;
            },
            None => {},
        }
        let start = p + key_len;
        let end = if !found {
            n
        } else if bound < start {
            start
        } else {
            bound
        };
        trim_range(sv, start, end)
    }

    /// Maps a raw state value onto its canonical name.
    fn canon_state_exec(v: &[char]) -> (r: Vec<char>)
        ensures
            r@ == canon_state(v@),
    {
        if eq_ci_exec(v, chars_of("open").as_slice()) {
            chars_of("Open")
        } else if eq_ci_exec(v, chars_of("draft").as_slice()) {
            chars_of("Draft")
        } else if eq_ci_exec(v, chars_of("resolved").as_slice()) {
            chars_of("Resolved")
        } else if eq_ci_exec(v, chars_of("canceled").as_slice()) {
            chars_of("Canceled")
        } else {
            let r: Vec<char> = Vec::new();
            proof {
                assert(r@ =~= Seq::<char>::empty());
            }
            r
        }
    }
}

} // verus!
