//! Pagination over the remote notification feed.
//!
//! The first response carries a link-relation header of the form
//! `<U1>; rel="next", <U2>; rel="last"`.  From it the gateway
//! synthesizes the URL of every remaining page: the `next` URL is
//! kept as the base, its `page` query parameter is replaced by each
//! page number from `next` to `last`, and every other query
//! parameter is preserved unchanged.

use vstd::prelude::*;
use crate::text::clamp;
use crate::text::copy_range;
use crate::text::find_char_from;
use crate::text::find_from;
use crate::text::find_from_exec;
use crate::text::lemma_find_from;
use crate::text::chars_eq;
use crate::text::chars_of;
use crate::text::dec_str;
use crate::text::fmt_u32;
use crate::text::parse_u32;
use crate::text::spec_parse_u32;
use crate::text::string_from_chars;

verus! {

/// End of the query segment that starts at `i`: the next `&`, or the
/// end of the string.
pub open spec fn seg_end(u: Seq<char>, i: int) -> int {
    match find_from(u, seq!['&'], i) {
        Some(e) => clamp(i, e, u.len() as int),
        None => u.len() as int,
    }
}

/// End of the key of the segment `[i, e)`: the first `=` inside it,
/// or `e` when it has none.
pub open spec fn key_end(u: Seq<char>, i: int, e: int) -> int {
    match find_from(u, seq!['='], i) {
        Some(k) => if k < e {
            k
        } else {
            e
        },
        None => e,
    }
}

/// Value of the segment `[i, e)`: the text after its first `=`,
/// empty when it has none.
pub open spec fn seg_value(u: Seq<char>, i: int, e: int) -> Seq<char> {
    let k = key_end(u, i, e);
    if k < e {
        u.subrange(k + 1, e)
    } else {
        Seq::empty()
    }
}

/// The raw value of the first `page` parameter among the query
/// segments that start at `i`.
pub open spec fn page_value_from(u: Seq<char>, i: int) -> Option<Seq<char>>
    decreases u.len() - i,
{
    if !(0 <= i <= u.len()) {
        None
    } else {
        let e = seg_end(u, i);
        let k = key_end(u, i, e);
        if u.subrange(i, k) == "page"@ {
            Some(seg_value(u, i, e))
        } else if e == u.len() {
            None
        } else {
            page_value_from(u, e + 1)
        }
    }
}

/// The raw value of the first `page` query parameter of `u`.
pub open spec fn url_page_str(u: Seq<char>) -> Option<Seq<char>> {
    match find_from(u, seq!['?'], 0) {
        None => None,
        Some(q) => page_value_from(u, clamp(0, q, u.len() as int) + 1),
    }
}

/// The `page` query parameter of `u`, read as a number.
pub open spec fn url_page_num(u: Seq<char>) -> Option<u32> {
    match url_page_str(u) {
        None => None,
        Some(v) => spec_parse_u32(v),
    }
}

/// The query segments from `i` on whose key is not `page`, in order.
pub open spec fn kept_segs(u: Seq<char>, i: int) -> Seq<Seq<char>>
    decreases u.len() - i,
{
    if !(0 <= i <= u.len()) {
        Seq::empty()
    } else {
        let e = seg_end(u, i);
        let k = key_end(u, i, e);
        let rest = if e == u.len() {
            Seq::<Seq<char>>::empty()
        } else {
            kept_segs(u, e + 1)
        };
        if u.subrange(i, k) == "page"@ {
            rest
        } else {
            seq![u.subrange(i, e)] + rest
        }
    }
}

/// The segments joined back together with `&`.
pub open spec fn join_amp(segs: Seq<Seq<char>>) -> Seq<char>
    decreases segs.len(),
{
    if segs.len() == 0 {
        Seq::empty()
    } else if segs.len() == 1 {
        segs[0]
    } else {
        segs[0] + seq!['&'] + join_amp(segs.drop_first())
    }
}

/// `u` with its `page` query parameter replaced by `p`: every other
/// query parameter is kept, in order, and `page=p` goes last.
pub open spec fn with_page(u: Seq<char>, p: int) -> Seq<char> {
    match find_from(u, seq!['?'], 0) {
        None => u,
        Some(q0) => {
            let q = clamp(0, q0, u.len() as int);
            let base = u.subrange(0, q);
            let kept = kept_segs(u, q + 1);
            if kept.len() == 0 {
                base + seq!['?'] + "page="@ + dec_str(p)
            } else {
                base + seq!['?'] + join_amp(kept) + seq!['&'] + "page="@ + dec_str(p)
            }
        },
    }
}

pub open spec fn link_sep() -> Seq<char> {
    ">; rel=\"next\", <"@
}

pub open spec fn link_suffix() -> Seq<char> {
    ">; rel=\"last\""@
}

/// The two URLs of a well-formed link header: the text between the
/// leading `<` and `>; rel="next", <`, and the text from there to the
/// closing `>; rel="last"`.
pub open spec fn link_parts(s: Seq<char>) -> Option<(Seq<char>, Seq<char>)> {
    if s.len() == 0 || s[0] != '<' {
        None
    } else {
        match find_from(s, link_sep(), 0) {
            None => None,
            Some(p0) => {
                let p = clamp(0, p0, s.len() as int);
                let rest_start = p + link_sep().len();
                let tail_start = s.len() - link_suffix().len();
                if p >= 1 && tail_start >= rest_start && s.subrange(
                    tail_start as int,
                    s.len() as int,
                ) == link_suffix() {
                    Some((s.subrange(1, p), s.subrange(rest_start as int, tail_start as int)))
                } else {
                    None
                }
            },
        }
    }
}

/// Every page URL that a well-formed link header calls for.
pub open spec fn pages_spec(s: Seq<char>) -> Option<Seq<Seq<char>>> {
    match link_parts(s) {
        None => None,
        Some((nu, lu)) => match (url_page_num(nu), url_page_num(lu)) {
            (Some(np), Some(lp)) => if np <= lp {
                Some(Seq::new((lp - np + 1) as nat, |k: int| with_page(nu, np + k)))
            } else {
                Some(Seq::empty())
            },
            _ => None,
        },
    }
}

/// Why a link header yielded no page URLs.
#[derive(Debug, Clone, Copy, PartialEq, Eq, Structural)]
pub enum LinkError {
    /// The header does not have the `<..>; rel="next", <..>; rel="last"` shape.
    InvalidFormat,
    /// A URL of the header has no readable `page` query parameter.
    InvalidPage,
}

/// Extracts the raw value of the first `page` parameter among the
/// query segments that start at `i`.
fn page_value_from_exec(u: &[char], i: usize) -> (r: Option<Vec<char>>)
    requires
        i <= u@.len(),
    ensures
        (r is None) == (page_value_from(u@, i as int) is None),
        r matches Some(v) ==> page_value_from(u@, i as int) == Some(v@),
    decreases u@.len() - i,
{
    let n = u.len();
    let e: usize = match find_char_from(u, '&', i) {
        Some(e) => e,
        None => n,
    };
    proof {
        lemma_find_from(u@, seq!['&'], i as int);
        assert(e as int == seg_end(u@, i as int));
    }
    let k0: usize = match find_char_from(u, '=', i) {
        Some(k) => if k < e {
            k
        } else {
            e
        },
        None => e,
    };
    proof {
        lemma_find_from(u@, seq!['='], i as int);
        assert(k0 as int == key_end(u@, i as int, e as int));
    }
    let key = copy_range(u, i, k0);
    let page_lit = chars_of("page");
    if chars_eq(key.as_slice(), page_lit.as_slice()) {
        if k0 < e {
            Some(copy_range(u, k0 + 1, e))
        } else {
            let v: Vec<char> = Vec::new();
            proof {
                assert(v@ =~= seg_value(u@, i as int, e as int));
            }
            Some(v)
        }
    } else if e == n {
        None
    } else {
        page_value_from_exec(u, e + 1)
    }
}

/// Reads the `page` query parameter of `u` as a number.
fn url_page_num_exec(u: &[char]) -> (r: Option<u32>)
    ensures
        r == url_page_num(u@),
{
    let n = u.len();
    match find_char_from(u, '?', 0) {
        None => None,
        Some(q) => {
            proof {
                lemma_find_from(u@, seq!['?'], 0);
                assert(q < n);
            }
            match page_value_from_exec(u, q + 1) {
                None => None,
                Some(v) => parse_u32(v.as_slice()),
            }
        },
    }
}

/// Collects the query segments from `i` on whose key is not `page`.
fn kept_segs_exec(u: &[char], i: usize) -> (r: Vec<Vec<char>>)
    requires
        i <= u@.len(),
    ensures
        r.deep_view() == kept_segs(u@, i as int),
    decreases u@.len() - i,
{
    let n = u.len();
    let e: usize = match find_char_from(u, '&', i) {
        Some(e) => e,
        None => n,
    };
    proof {
        lemma_find_from(u@, seq!['&'], i as int);
        assert(e as int == seg_end(u@, i as int));
    }
    let k0: usize = match find_char_from(u, '=', i) {
        Some(k) => if k < e {
            k
        } else {
            e
        },
        None => e,
    };
    proof {
        lemma_find_from(u@, seq!['='], i as int);
        assert(k0 as int == key_end(u@, i as int, e as int));
    }
    let key = copy_range(u, i, k0);
    let page_lit = chars_of("page");
    let rest: Vec<Vec<char>> = if e == n {
        Vec::new()
    } else {
        kept_segs_exec(u, e + 1)
    };
    if chars_eq(key.as_slice(), page_lit.as_slice()) {
        proof {
            assert(rest.deep_view() =~= kept_segs(u@, i as int));
        }
        rest
    } else {
        let seg = copy_range(u, i, e);
        let mut out = rest;
        out.insert(0, seg);
        proof {
            if e == n {
                assert(out.deep_view() =~~= seq![u@.subrange(i as int, e as int)]
                    + Seq::<Seq<char>>::empty());
            } else {
                assert(out.deep_view() =~~= seq![u@.subrange(i as int, e as int)]
                    + kept_segs(u@, e as int + 1));
            }
            assert(out.deep_view() =~~= kept_segs(u@, i as int));
        }
        out
    }
}

/// Joins the segments from `i` on back together with `&`.
fn join_from(segs: &Vec<Vec<char>>, i: usize) -> (v: Vec<char>)
    requires
        i <= segs@.len(),
    ensures
        v@ == join_amp(segs.deep_view().subrange(i as int, segs.deep_view().len() as int)),
    decreases segs@.len() - i,
{
    let n = segs.len();
    if i == n {
        let v: Vec<char> = Vec::new();
        proof {
            assert(segs.deep_view().subrange(i as int, i as int)
                =~= Seq::<Seq<char>>::empty());
            assert(v@ =~= Seq::<char>::empty());
        }
        v
    } else if i + 1 == n {
        let v = copy_range(segs[i].as_slice(), 0, segs[i].len());
        proof {
            let tail = segs.deep_view().subrange(i as int, n as int);
            assert(tail.len() == 1);
            assert(tail[0] == segs@[i as int]@);
            assert(v@ =~= segs@[i as int]@);
        }
        v
    } else {
        let mut v = copy_range(segs[i].as_slice(), 0, segs[i].len());
        v.push('&');
        let mut tail = join_from(segs, i + 1);
        v.append(&mut tail);
        proof {
            let whole = segs.deep_view().subrange(i as int, n as int);
            assert(whole.drop_first() =~= segs.deep_view().subrange(i as int + 1, n as int));
            assert(whole[0] == segs@[i as int]@);
            assert(v@ =~= whole[0] + seq!['&'] + join_amp(whole.drop_first()));
        }
        v
    }
}

/// Clones `u` with its `page` query parameter replaced by `p`.
fn with_page_exec(u: &[char], p: u32) -> (v: Vec<char>)
    ensures
        v@ == with_page(u@, p as int),
{
    let n = u.len();
    match find_char_from(u, '?', 0) {
        None => {
            let v = copy_range(u, 0, n);
            proof {
                assert(v@ =~= u@);
            }
            v
        },
        Some(q) => {
            proof {
                lemma_find_from(u@, seq!['?'], 0);
            }
            let mut out = copy_range(u, 0, q);
            out.push('?');
            let kept = kept_segs_exec(u, q + 1);
            if kept.len() > 0 {
                let mut joined = join_from(&kept, 0);
                proof {
                    assert(kept.deep_view().subrange(0, kept.deep_view().len() as int)
                        =~= kept.deep_view());
                }
                out.append(&mut joined);
                out.push('&');
            }
            let mut pl = chars_of("page=");
            out.append(&mut pl);
            let mut digits = fmt_u32(p);
            out.append(&mut digits);
            proof {
                assert(out@ =~= with_page(u@, p as int));
            }
            out
        },
    }
}

/// Parses the link-relation header of the first response and
/// synthesizes the URL of every page from `next` to `last`.
///
/// A malformed header is an error, never an empty list; when the
/// `next` and `last` URLs name the same page, exactly one URL comes
/// back.
pub fn pages_from_link(link: &str) -> (r: Result<Vec<String>, LinkError>)
    ensures
        r matches Ok(urls) ==> pages_spec(link@) matches Some(ps) && urls.deep_view() == ps,
        r matches Err(e) ==> pages_spec(link@) is None && (e == LinkError::InvalidFormat
            <==> link_parts(link@) is None),
{
    let s = chars_of(link);
    let n = s.len();
    if n == 0 {
        return Err(LinkError::InvalidFormat);
    }
    if s.as_slice()[0] != '<' {
        return Err(LinkError::InvalidFormat);
    }
    let sep = chars_of(">; rel=\"next\", <");
    let suf = chars_of(">; rel=\"last\"");
    let p: usize = match find_from_exec(s.as_slice(), sep.as_slice(), 0) {
        None => {
            return Err(LinkError::InvalidFormat);
        },
        Some(p) => p,
    };
    proof {
        lemma_find_from(link@, link_sep(), 0);
    }
    if p == 0 {
        return Err(LinkError::InvalidFormat);
    }
    if n < suf.len() {
        return Err(LinkError::InvalidFormat);
    }
    let rest_start = p + sep.len();
    let tail_start = n - suf.len();
    if tail_start < rest_start {
        return Err(LinkError::InvalidFormat);
    }
    if !crate::text::matches_here(s.as_slice(), suf.as_slice(), tail_start) {
        return Err(LinkError::InvalidFormat);
    }
    let next_v = copy_range(s.as_slice(), 1, p);
    let last_v = copy_range(s.as_slice(), rest_start, tail_start);
    proof {
        assert(link_parts(link@) == Some((next_v@, last_v@)));
    }
    let np: u32 = match url_page_num_exec(next_v.as_slice()) {
        None => {
            return Err(LinkError::InvalidPage);
        },
        Some(x) => x,
    };
    let lp: u32 = match url_page_num_exec(last_v.as_slice()) {
        None => {
            return Err(LinkError::InvalidPage);
        },
        Some(x) => x,
    };
    let mut urls: Vec<String> = Vec::new();
    if np > lp {
        proof {
            assert(urls.deep_view() =~= Seq::<Seq<char>>::empty());
        }
        return Ok(urls);
    }
    let count: u64 = lp as u64 - np as u64 + 1;
    let mut i: u64 = 0;
    while i < count
        invariant
            np <= lp,
            count == lp - np + 1,
            i <= count,
            link_parts(link@) == Some((next_v@, last_v@)),
            url_page_num(next_v@) == Some(np),
            url_page_num(last_v@) == Some(lp),
            urls@.len() == i,
            forall|k: int| 0 <= k < i ==> (#[trigger] urls@[k])@ == with_page(next_v@, np + k),
        decreases count - i,
    {
        let page: u32 = np + (i as u32);
        let v = with_page_exec(next_v.as_slice(), page);
        let s_new = string_from_chars(&v);
        urls.push(s_new);
        i = i + 1;
    }
    proof {
        let ps = Seq::new((lp - np + 1) as nat, |k: int| with_page(next_v@, np + k));
        assert(pages_spec(link@) is Some);
        assert(pages_spec(link@)->Some_0 =~~= ps);
        assert(urls.deep_view() =~~= ps);
    }
    Ok(urls)
}

} // verus!
