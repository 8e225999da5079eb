//! Character-sequence helpers shared by the parsers and the renderer.
//!
//! Executable code works on `Vec<char>` buffers; the contracts speak of
//! `Seq<char>` views, so every string result is pinned down exactly.

use vstd::prelude::*;

verus! {

/// `needle` occurs in `hay` starting at position `i`.
pub open spec fn match_at(hay: Seq<char>, needle: Seq<char>, i: int) -> bool {
    &&& 0 <= i
    &&& i + needle.len() <= hay.len()
    &&& hay.subrange(i, i + needle.len() as int) == needle
}

/// `needle` occurs somewhere in `hay`.
pub open spec fn contains_seq(hay: Seq<char>, needle: Seq<char>) -> bool {
    exists|i: int| match_at(hay, needle, i)
}

/// `needle` occurs at `i` and nowhere earlier.
pub open spec fn first_match_at(hay: Seq<char>, needle: Seq<char>, i: int) -> bool {
    &&& match_at(hay, needle, i)
    &&& forall|j: int| 0 <= j < i ==> !match_at(hay, needle, j)
}

/// Case folding for a single character: ASCII upper case maps onto
/// lower case, everything else is itself (as a scalar value).
pub open spec fn fold_char(c: char) -> int {
    if 'A' <= c && c <= 'Z' {
        c as int + 32
    } else {
        c as int
    }
}

/// The two sequences are equal up to ASCII case.
pub open spec fn eq_ci(a: Seq<char>, b: Seq<char>) -> bool {
    &&& a.len() == b.len()
    &&& forall|i: int| 0 <= i < a.len() ==> fold_char(a[i]) == fold_char(b[i])
}

/// `needle` occurs in `hay` at `i`, up to ASCII case.
pub open spec fn match_at_ci(hay: Seq<char>, needle: Seq<char>, i: int) -> bool {
    &&& 0 <= i
    &&& i + needle.len() <= hay.len()
    &&& eq_ci(hay.subrange(i, i + needle.len() as int), needle)
}

/// `needle` occurs somewhere in `hay`, up to ASCII case.
pub open spec fn contains_seq_ci(hay: Seq<char>, needle: Seq<char>) -> bool {
    exists|i: int| match_at_ci(hay, needle, i)
}

/// Copies the characters of a string slice into a vector.
pub fn chars_of(s: &str) -> (v: Vec<char>)
    ensures
        v@ == s@,
{
    let n = s.unicode_len();
    let mut v: Vec<char> = Vec::new();
    let mut i: usize = 0;
    while i < n
        invariant
            n == s@.len(),
            i <= n,
            v@ == s@.subrange(0, i as int),
        decreases n - i,
    {
        v.push(s.get_char(i));
        i = i + 1;
        proof {
            assert(v@ =~= s@.subrange(0, i as int));
        }
    }
    proof {
        assert(v@ =~= s@);
    }
    v
}

/// Relies on `core::iter::Iterator::collect` for `String`: collecting
/// characters builds the string of exactly those characters, in order.
#[verifier::external_body]
pub fn string_from_chars(v: &Vec<char>) -> (s: String)
    ensures
        s@ == v@,
{
    v.iter().collect()
}

/// Compares two character slices for equality.
pub fn chars_eq(a: &[char], b: &[char]) -> (r: bool)
    ensures
        r == (a@ == b@),
{
    if a.len() != b.len() {
        proof {
            assert(a@.len() != b@.len());
        }
        return false;
    }
    let n = a.len();
    let mut i: usize = 0;
    while i < n
        invariant
            n == a@.len() == b@.len(),
            i <= n,
            forall|j: int| 0 <= j < i ==> a@[j] == b@[j],
        decreases n - i,
    {
        if a[i] != b[i] {
            proof {
                assert(a@[i as int] != b@[i as int]);
            }
            return false;
        }
        i = i + 1;
    }
    proof {
        assert(a@ =~= b@);
    }
    true
}

/// Whether `needle` occurs in `hay` starting at `i` (exact case).
pub fn matches_here(hay: &[char], needle: &[char], i: usize) -> (r: bool)
    requires
        i + needle@.len() <= hay@.len(),
    ensures
        r == match_at(hay@, needle@, i as int),
{
    let n = hay.len();
    let m = needle.len();
    let mut k: usize = 0;
    while k < m
        invariant
            n == hay@.len(),
            m == needle@.len(),
            i + m <= hay@.len(),
            k <= m,
            forall|j: int| 0 <= j < k ==> hay@[i + j] == needle@[j],
        decreases m - k,
    {
        if hay[i + k] != needle[k] {
            proof {
                assert(hay@.subrange(i as int, i + needle@.len() as int)[k as int]
                    == hay@[i + k]);
            }
            return false;
        }
        k = k + 1;
    }
    proof {
        assert(hay@.subrange(i as int, i + needle@.len() as int) =~= needle@);
    }
    true
}

/// Finds the first occurrence of `needle` in `hay`, by character position.
pub fn find_sub(hay: &[char], needle: &[char]) -> (r: Option<usize>)
    ensures
        match r {
            Some(i) => first_match_at(hay@, needle@, i as int),
            None => !contains_seq(hay@, needle@),
        },
{
    let n = hay.len();
    let m = needle.len();
    if m > n {
        proof {
            assert(forall|i: int| !match_at(hay@, needle@, i));
        }
        return None;
    }
    if m == 0 {
        proof {
            assert(hay@.subrange(0, 0) =~= needle@);
        }
        return Some(0);
    }
    let count = n - m + 1;
    let mut i: usize = 0;
    while i < count
        invariant
            n == hay@.len(),
            m == needle@.len(),
            0 < m <= n,
            count == n - m + 1,
            i <= count,
            forall|j: int| 0 <= j < i ==> !match_at(hay@, needle@, j),
        decreases count - i,
    {
        if matches_here(hay, needle, i) {
            return Some(i);
        }
        i = i + 1;
    }
    proof {
        assert(forall|j: int| match_at(hay@, needle@, j) ==> j < count);
    }
    None
}

/// Case folding, executable form.
pub fn fold_char_exec(c: char) -> (r: u64)
    ensures
        r as int == fold_char(c),
{
    if 'A' <= c && c <= 'Z' {
        c as u64 + 32
    } else {
        c as u64
    }
}

/// Whether `needle` occurs in `hay` starting at `i`, up to ASCII case.
fn matches_here_ci(hay: &[char], needle: &[char], i: usize) -> (r: bool)
    requires
        i + needle@.len() <= hay@.len(),
    ensures
        r == match_at_ci(hay@, needle@, i as int),
{
    let n = hay.len();
    let m = needle.len();
    let mut k: usize = 0;
    while k < m
        invariant
            n == hay@.len(),
            m == needle@.len(),
            i + m <= hay@.len(),
            k <= m,
            forall|j: int| 0 <= j < k ==> fold_char(hay@[i + j]) == fold_char(needle@[j]),
        decreases m - k,
    {
        if fold_char_exec(hay[i + k]) != fold_char_exec(needle[k]) {
            proof {
                let sub = hay@.subrange(i as int, i + needle@.len() as int);
                assert(sub[k as int] == hay@[i + k]);
            }
            return false;
        }
        k = k + 1;
    }
    proof {
        let sub = hay@.subrange(i as int, i + needle@.len() as int);
        assert(forall|j: int| 0 <= j < m ==> sub[j] == hay@[i + j]);
    }
    true
}

/// Compares two character slices up to ASCII case.
pub fn eq_ci_exec(a: &[char], b: &[char]) -> (r: bool)
    ensures
        r == eq_ci(a@, b@),
{
    let n = a.len();
    if b.len() != n {
        return false;
    }
    let mut i: usize = 0;
    while i < n
        invariant
            n == a@.len() == b@.len(),
            i <= n,
            forall|j: int| 0 <= j < i ==> fold_char(a@[j]) == fold_char(b@[j]),
        decreases n - i,
    {
        if fold_char_exec(a[i]) != fold_char_exec(b[i]) {
            return false;
        }
        i = i + 1;
    }
    true
}

/// Whether `needle` occurs anywhere in `hay`, up to ASCII case.
pub fn contains_ci(hay: &[char], needle: &[char]) -> (r: bool)
    ensures
        r == contains_seq_ci(hay@, needle@),
{
    let n = hay.len();
    let m = needle.len();
    if m > n {
        proof {
            assert(forall|i: int| !match_at_ci(hay@, needle@, i));
        }
        return false;
    }
    if m == 0 {
        proof {
            assert(eq_ci(hay@.subrange(0, 0), needle@));
            assert(match_at_ci(hay@, needle@, 0));
        }
        return true;
    }
    let count = n - m + 1;
    let mut i: usize = 0;
    while i < count
        invariant
            n == hay@.len(),
            m == needle@.len(),
            0 < m <= n,
            count == n - m + 1,
            i <= count,
            forall|j: int| 0 <= j < i ==> !match_at_ci(hay@, needle@, j),
        decreases count - i,
    {
        if matches_here_ci(hay, needle, i) {
            return true;
        }
        i = i + 1;
    }
    proof {
        assert(forall|j: int| match_at_ci(hay@, needle@, j) ==> j < count);
    }
    false
}

/// ASCII whitespace, as trimmed from rule parameters and filter values.
pub open spec fn is_space(c: char) -> bool {
    c == ' ' || c == '\t' || c == '\n' || c == '\r' || c == '\u{b}' || c == '\u{c}'
}

pub open spec fn trim_front(s: Seq<char>) -> Seq<char>
    decreases s.len(),
{
    if s.len() > 0 && is_space(s[0]) {
        trim_front(s.drop_first())
    } else {
        s
    }
}

pub open spec fn trim_back(s: Seq<char>) -> Seq<char>
    decreases s.len(),
{
    if s.len() > 0 && is_space(s.last()) {
        trim_back(s.drop_last())
    } else {
        s
    }
}

/// `s` with leading and trailing ASCII whitespace removed.
pub open spec fn trim_spec(s: Seq<char>) -> Seq<char> {
    trim_back(trim_front(s))
}

pub fn is_space_exec(c: char) -> (r: bool)
    ensures
        r == is_space(c),
{
    c == ' ' || c == '\t' || c == '\n' || c == '\r' || c == '\u{b}' || c == '\u{c}'
}

/// Copies `s[a..b]` with its surrounding whitespace removed.
pub fn trim_range(s: &[char], a: usize, b: usize) -> (v: Vec<char>)
    requires
        a <= b <= s@.len(),
    ensures
        v@ == trim_spec(s@.subrange(a as int, b as int)),
{
    let ghost a0 = a as int;
    let ghost b0 = b as int;
    let mut a = a;
    let mut b = b;
    while a < b && is_space_exec(s[a])
        invariant
            a0 <= a <= b <= s@.len(),
            b == b0,
            trim_front(s@.subrange(a0, b0)) == trim_front(s@.subrange(a as int, b0)),
        decreases b - a,
    {
        proof {
            assert(s@.subrange(a as int, b0).drop_first() =~= s@.subrange(a as int + 1, b0));
        }
        a = a + 1;
    }
    proof {
        assert(trim_front(s@.subrange(a0, b0)) == s@.subrange(a as int, b0));
    }
    let ghost a1 = a as int;
    while b > a && is_space_exec(s[b - 1])
        invariant
            a1 == a,
            a1 <= b <= b0 <= s@.len(),
            trim_back(s@.subrange(a1, b0)) == trim_back(s@.subrange(a1, b as int)),
        decreases b,
    {
        proof {
            assert(s@.subrange(a1, b as int).drop_last() =~= s@.subrange(a1, b as int - 1));
        }
        b = b - 1;
    }
    proof {
        assert(trim_back(s@.subrange(a1, b0)) == s@.subrange(a1, b as int));
    }
    copy_range(s, a, b)
}

/// ASCII decimal digit.
pub open spec fn is_digit(c: char) -> bool {
    '0' <= c && c <= '9'
}

/// Numeric value of a digit character.
pub open spec fn digit_val(c: char) -> int {
    c as int - 48
}

/// Every character of `s` is a decimal digit.
pub open spec fn all_digits(s: Seq<char>) -> bool {
    forall|i: int| 0 <= i < s.len() ==> is_digit(s[i])
}

/// The value of `s` read as a decimal numeral.
pub open spec fn dec_val(s: Seq<char>) -> int
    decreases s.len(),
{
    if s.len() == 0 {
        0
    } else {
        dec_val(s.drop_last()) * 10 + digit_val(s.last())
    }
}

pub proof fn lemma_dec_val_nonneg(s: Seq<char>)
    requires
        all_digits(s),
    ensures
        dec_val(s) >= 0,
    decreases s.len(),
{
    if s.len() > 0 {
        assert(forall|i: int| 0 <= i < s.drop_last().len() ==> is_digit(s.drop_last()[i]));
        lemma_dec_val_nonneg(s.drop_last());
    }
}

/// Reading more digits can only grow the value.
pub proof fn lemma_dec_val_prefix(s: Seq<char>, i: int)
    requires
        all_digits(s),
        0 <= i <= s.len(),
    ensures
        dec_val(s) >= dec_val(s.subrange(0, i)),
    decreases s.len() - i,
{
    if i == s.len() {
        assert(s.subrange(0, i) =~= s);
    } else {
        let a = s.subrange(0, i);
        let b = s.subrange(0, i + 1);
        assert(b.drop_last() =~= a);
        assert(forall|j: int| 0 <= j < a.len() ==> is_digit(a[j]));
        lemma_dec_val_nonneg(a);
        assert(dec_val(b) == dec_val(a) * 10 + digit_val(b.last()));
        assert(dec_val(a) * 10 >= dec_val(a)) by (nonlinear_arith)
            requires
                dec_val(a) >= 0,
        ;
        lemma_dec_val_prefix(s, i + 1);
    }
}

/// The digits of `s` after an optional leading plus sign.
pub open spec fn digits_part(s: Seq<char>) -> Seq<char> {
    if s.len() > 0 && s[0] == '+' {
        s.drop_first()
    } else {
        s
    }
}

/// The result of reading `s` as a `u32`: an optional plus sign, then
/// at least one digit, with a value that fits.
pub open spec fn spec_parse_u32(s: Seq<char>) -> Option<u32> {
    let d = digits_part(s);
    if d.len() > 0 && all_digits(d) && dec_val(d) <= u32::MAX {
        Some(dec_val(d) as u32)
    } else {
        None
    }
}

/// Reads a `u32` from a character slice.
pub fn parse_u32(s: &[char]) -> (r: Option<u32>)
    ensures
        r == spec_parse_u32(s@),
{
    let n = s.len();
    let ghost d = digits_part(s@);
    if n == 0 {
        return None;
    }
    let st: usize = if s[0] == '+' {
        1
    } else {
        0
    };
    proof {
        assert(d =~= s@.subrange(st as int, n as int));
    }
    if st == n {
        return None;
    }
    let mut acc: u32 = 0;
    let mut i: usize = st;
    while i < n
        invariant
            n == s@.len(),
            st <= i <= n,
            st < n,
            d == digits_part(s@),
            d == s@.subrange(st as int, n as int),
            all_digits(s@.subrange(st as int, i as int)),
            acc as int == dec_val(s@.subrange(st as int, i as int)),
        decreases n - i,
    {
        let c = s[i];
        if !(c >= '0' && c <= '9') {
            proof {
                assert(!is_digit(d[i - st]));
            }
            return None;
        }
        let dv: u32 = c as u32 - 48;
        let ghost pre = s@.subrange(st as int, i as int);
        let ghost ext = s@.subrange(st as int, i as int + 1);
        proof {
            assert(ext.drop_last() =~= pre);
            assert(ext.last() == s@[i as int]);
            assert(dec_val(ext) == acc * 10 + dv);
        }
        let limit: u32 = (u32::MAX - dv) / 10;
        if acc > limit {
            proof {
                let m = (u32::MAX - dv) as int;
                assert(m == 10 * (m / 10) + m % 10 && 0 <= m % 10 < 10) by (nonlinear_arith)
                ;
                assert(acc * 10 > m - 9) by (nonlinear_arith)
                    requires
                        acc > m / 10,
                        m == 10 * (m / 10) + m % 10,
                        0 <= m % 10 < 10,
                ;
                assert(dec_val(ext) > u32::MAX);
                if all_digits(d) {
                    lemma_dec_val_prefix(d, i - st + 1);
                    assert(d.subrange(0, i - st + 1) =~= ext);
                }
            }
            return None;
        }
        proof {
            let m = (u32::MAX - dv) as int;
            assert(m == 10 * (m / 10) + m % 10 && 0 <= m % 10 < 10) by (nonlinear_arith)
            ;
            assert(acc * 10 <= m - m % 10) by (nonlinear_arith)
                requires
                    acc <= m / 10,
                    m == 10 * (m / 10) + m % 10,
            ;
            assert(acc * 10 + dv <= u32::MAX);
            assert(all_digits(ext));
        }
        acc = acc * 10 + dv;
        i = i + 1;
    }
    proof {
        assert(s@.subrange(st as int, n as int) =~= d);
    }
    Some(acc)
}

/// The result of reading `s` as a `u64`: an optional plus sign, then
/// at least one digit, with a value that fits.
pub open spec fn spec_parse_u64(s: Seq<char>) -> Option<u64> {
    let d = digits_part(s);
    if d.len() > 0 && all_digits(d) && dec_val(d) <= u64::MAX {
        Some(dec_val(d) as u64)
    } else {
        None
    }
}

/// Reads a `u64` from a character slice.
pub fn parse_u64(s: &[char]) -> (r: Option<u64>)
    ensures
        r == spec_parse_u64(s@),
{
    let n = s.len();
    let ghost d = digits_part(s@);
    if n == 0 {
        return None;
    }
    let st: usize = if s[0] == '+' {
        1
    } else {
        0
    };
    proof {
        assert(d =~= s@.subrange(st as int, n as int));
    }
    if st == n {
        return None;
    }
    let mut acc: u64 = 0;
    let mut i: usize = st;
    while i < n
        invariant
            n == s@.len(),
            st <= i <= n,
            st < n,
            d == digits_part(s@),
            d == s@.subrange(st as int, n as int),
            all_digits(s@.subrange(st as int, i as int)),
            acc as int == dec_val(s@.subrange(st as int, i as int)),
        decreases n - i,
    {
        let c = s[i];
        if !(c >= '0' && c <= '9') {
            proof {
                assert(!is_digit(d[i - st]));
            }
            return None;
        }
        let dv: u64 = c as u64 - 48;
        let ghost pre = s@.subrange(st as int, i as int);
        let ghost ext = s@.subrange(st as int, i as int + 1);
        proof {
            assert(ext.drop_last() =~= pre);
            assert(ext.last() == s@[i as int]);
            assert(dec_val(ext) == acc * 10 + dv);
        }
        let limit: u64 = (u64::MAX - dv) / 10;
        if acc > limit {
            proof {
                let m = (u64::MAX - dv) as int;
                assert(m == 10 * (m / 10) + m % 10 && 0 <= m % 10 < 10) by (nonlinear_arith)
                ;
                assert(acc * 10 > m - 9) by (nonlinear_arith)
                    requires
                        acc > m / 10,
                        m == 10 * (m / 10) + m % 10,
                        0 <= m % 10 < 10,
                ;
                assert(dec_val(ext) > u64::MAX);
                if all_digits(d) {
                    lemma_dec_val_prefix(d, i - st + 1);
                    assert(d.subrange(0, i - st + 1) =~= ext);
                }
            }
            return None;
        }
        proof {
            let m = (u64::MAX - dv) as int;
            assert(m == 10 * (m / 10) + m % 10 && 0 <= m % 10 < 10) by (nonlinear_arith)
            ;
            assert(acc * 10 <= m - m % 10) by (nonlinear_arith)
                requires
                    acc <= m / 10,
                    m == 10 * (m / 10) + m % 10,
            ;
            assert(acc * 10 + dv <= u64::MAX);
            assert(all_digits(ext));
        }
        acc = acc * 10 + dv;
        i = i + 1;
    }
    proof {
        assert(s@.subrange(st as int, n as int) =~= d);
    }
    Some(acc)
}

/// Character for the digit `d`.
pub open spec fn digit_char(d: int) -> char {
    ((48 + d) as u8) as char
}

/// The decimal numeral of `n`, without leading zeroes.
pub open spec fn dec_str(n: int) -> Seq<char>
    decreases n,
{
    if n < 10 {
        seq![digit_char(n)]
    } else {
        dec_str(n / 10).push(digit_char(n % 10))
    }
}

/// Writes `n` in decimal.
pub fn fmt_u32(n: u32) -> (v: Vec<char>)
    ensures
        v@ == dec_str(n as int),
    decreases n,
{
    if n < 10 {
        let mut v: Vec<char> = Vec::new();
        v.push((48 + n as u8) as char);
        proof {
            assert(v@ =~= dec_str(n as int));
        }
        v
    } else {
        let mut v = fmt_u32(n / 10);
        v.push((48 + (n % 10) as u8) as char);
        proof {
            assert(v@ =~= dec_str(n as int));
        }
        v
    }
}

/// The first position at or after `i` where `needle` occurs in `hay`.
pub open spec fn find_from(hay: Seq<char>, needle: Seq<char>, i: int) -> Option<int>
    decreases hay.len() - i,
{
    if i < 0 || i + needle.len() > hay.len() {
        None
    } else if needle.len() == 0 || hay.subrange(i, i + needle.len() as int) == needle {
        Some(i)
    } else {
        find_from(hay, needle, i + 1)
    }
}

pub proof fn lemma_find_from(hay: Seq<char>, needle: Seq<char>, i: int)
    requires
        0 <= i,
    ensures
        match find_from(hay, needle, i) {
            Some(p) => {
                &&& i <= p
                &&& match_at(hay, needle, p)
                &&& forall|j: int| i <= j < p ==> !match_at(hay, needle, j)
            },
            None => forall|j: int| i <= j ==> !match_at(hay, needle, j),
        },
    decreases hay.len() - i,
{
    if i + needle.len() > hay.len() {
        assert(forall|j: int| i <= j ==> !match_at(hay, needle, j)) by {
            assert forall|j: int| i <= j implies !match_at(hay, needle, j) by {
                assert(j + needle.len() > hay.len());
            }
        }
    } else if needle.len() == 0 || hay.subrange(i, i + needle.len() as int) == needle {
        if needle.len() == 0 {
            assert(hay.subrange(i, i) =~= needle);
        }
    } else {
        lemma_find_from(hay, needle, i + 1);
    }
}

/// Finds the first occurrence of `needle` at or after `i`.
pub fn find_from_exec(hay: &[char], needle: &[char], i: usize) -> (r: Option<usize>)
    ensures
        (r is None) == (find_from(hay@, needle@, i as int) is None),
        r matches Some(p) ==> find_from(hay@, needle@, i as int) == Some(p as int)
            && p + needle@.len() <= hay@.len(),
    decreases hay@.len() - i,
{
    let n = hay.len();
    let m = needle.len();
    if m > n || i > n - m {
        return None;
    }
    if crate::text::matches_here(hay, needle, i) {
        Some(i)
    } else {
        proof {
            if needle@.len() == 0 {
                assert(hay@.subrange(i as int, i as int) =~= needle@);
                assert(match_at(hay@, needle@, i as int));
            }
        }
        find_from_exec(hay, needle, i + 1)
    }
}

/// Finds the first occurrence of the character `c` at or after `i`.
pub fn find_char_from(hay: &[char], c: char, i: usize) -> (r: Option<usize>)
    ensures
        (r is None) == (find_from(hay@, seq![c], i as int) is None),
        r matches Some(p) ==> find_from(hay@, seq![c], i as int) == Some(p as int)
            && p < hay@.len(),
{
    let mut nd: Vec<char> = Vec::new();
    nd.push(c);
    proof {
        assert(nd@ =~= seq![c]);
    }
    find_from_exec(hay, nd.as_slice(), i)
}

/// Copies `s[a..b]` into a fresh vector.
pub fn copy_range(s: &[char], a: usize, b: usize) -> (v: Vec<char>)
    requires
        a <= b <= s@.len(),
    ensures
        v@ == s@.subrange(a as int, b as int),
{
    let mut v: Vec<char> = Vec::new();
    let mut i: usize = a;
    while i < b
        invariant
            a <= i <= b <= s@.len(),
            v@ == s@.subrange(a as int, i as int),
        decreases b - i,
    {
        v.push(s[i]);
        i = i + 1;
        proof {
            assert(v@ =~= s@.subrange(a as int, i as int));
        }
    }
    v
}

pub open spec fn clamp(lo: int, x: int, hi: int) -> int {
    if x < lo {
        lo
    } else if x > hi {
        hi
    } else {
        x
    }
}

/// Writes `n` in decimal.
pub fn fmt_u64(n: u64) -> (v: Vec<char>)
    ensures
        v@ == dec_str(n as int),
    decreases n,
{
    if n < 10 {
        let mut v: Vec<char> = Vec::new();
        v.push((48 + n as u8) as char);
        proof {
            assert(v@ =~= dec_str(n as int));
        }
        v
    } else {
        let mut v = fmt_u64(n / 10);
        v.push((48 + (n % 10) as u8) as char);
        proof {
            assert(v@ =~= dec_str(n as int));
        }
        v
    }
}

/// The decimal spelling of a signed number.
pub open spec fn int_str(n: int) -> Seq<char> {
    if n < 0 {
        seq!['-'] + dec_str(-n)
    } else {
        dec_str(n)
    }
}

/// Writes a signed number in decimal.
pub fn fmt_i64(n: i64) -> (v: Vec<char>)
    ensures
        v@ == int_str(n as int),
{
    if n >= 0 {
        fmt_u64(n as u64)
    } else {
        let mag: u64 = ((-(n + 1)) as u64) + 1;
        proof {
            assert(mag as int == -(n as int));
        }
        let mut v: Vec<char> = Vec::new();
        v.push('-');
        let mut tail = fmt_u64(mag);
        v.append(&mut tail);
        proof {
            assert(v@ =~= int_str(n as int));
        }
        v
    }
}

/// Writes `n` in decimal.
pub fn fmt_u128(n: u128) -> (v: Vec<char>)
    ensures
        v@ == dec_str(n as int),
    decreases n,
{
    if n < 10 {
        let mut v: Vec<char> = Vec::new();
        v.push((48 + n as u8) as char);
        proof {
            assert(v@ =~= dec_str(n as int));
        }
        v
    } else {
        let mut v = fmt_u128(n / 10);
        v.push((48 + (n % 10) as u8) as char);
        proof {
            assert(v@ =~= dec_str(n as int));
        }
        v
    }
}

/// Writes a signed number in decimal.
pub fn fmt_i128(n: i128) -> (v: Vec<char>)
    ensures
        v@ == int_str(n as int),
{
    if n >= 0 {
        fmt_u128(n as u128)
    } else {
        let mag: u128 = ((-(n + 1)) as u128) + 1;
        proof {
            assert(mag as int == -(n as int));
        }
        let mut v: Vec<char> = Vec::new();
        v.push('-');
        let mut tail = fmt_u128(mag);
        v.append(&mut tail);
        proof {
            assert(v@ =~= int_str(n as int));
        }
        v
    }
}

} // verus!
