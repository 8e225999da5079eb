//! Calendar timestamps.
//!
//! The remote API reports times as `YYYY-MM-DDTHH:MM:SSZ`.  The
//! library holds them as plain calendar fields, parses and formats
//! that shape itself, and orders timestamps through a strictly
//! monotone integer encoding.

use vstd::prelude::*;
use crate::text::all_digits;
use crate::text::dec_val;
use crate::text::digit_char;
use crate::text::digit_val;
use crate::text::is_digit;

verus! {

/// A second-precision UTC timestamp, held as calendar fields.
#[derive(Debug, Clone, Copy, PartialEq, Eq, Structural)]
pub struct Timestamp {
    pub year: u32,
    pub month: u32,
    pub day: u32,
    pub hour: u32,
    pub minute: u32,
    pub second: u32,
}

pub open spec fn leap_year(y: int) -> bool {
    (y % 4 == 0 && y % 100 != 0) || y % 400 == 0
}

pub open spec fn days_in_month(y: int, m: int) -> int {
    if m == 2 {
        if leap_year(y) {
            29
        } else {
            28
        }
    } else if m == 4 || m == 6 || m == 9 || m == 11 {
        30
    } else {
        31
    }
}

impl Timestamp {
    /// A valid calendar date and time of day, within the four-digit era.
    pub open spec fn wf(self) -> bool {
        &&& self.year <= 9999
        &&& 1 <= self.month <= 12
        &&& 1 <= self.day <= days_in_month(self.year as int, self.month as int)
        &&& self.hour < 24
        &&& self.minute < 60
        &&& self.second < 60
    }

    /// A strictly monotone encoding of the fields: for well-formed
    /// timestamps, later moments have larger keys.
    pub open spec fn key(self) -> int {
        ((((self.year * 13 + self.month) * 32 + self.day) * 24 + self.hour) * 60 + self.minute)
            * 60 + self.second
    }

    /// Checks well-formedness, for callers that must establish it
    /// at a trust boundary.
    pub fn is_wf(&self) -> (r: bool)
        ensures
            r == self.wf(),
    {
        let dim: u32 = if self.month == 2 {
            let leap = (self.year % 4 == 0 && self.year % 100 != 0) || self.year % 400 == 0;
            if leap {
                29
            } else {
                28
            }
        } else if self.month == 4 || self.month == 6 || self.month == 9 || self.month == 11 {
            30
        } else {
            31
        };
        self.year <= 9999 && 1 <= self.month && self.month <= 12 && 1 <= self.day && self.day
            <= dim && self.hour < 24 && self.minute < 60 && self.second < 60
    }

    /// The encoding, computed.
    pub fn key_val(&self) -> (k: u64)
        requires
            self.wf(),
        ensures
            k as int == self.key(),
    {
        let y = self.year as u64;
        let mo = self.month as u64;
        let d = self.day as u64;
        let h = self.hour as u64;
        let mi = self.minute as u64;
        let s = self.second as u64;
        ((((y * 13 + mo) * 32 + d) * 24 + h) * 60 + mi) * 60 + s
    }

    /// Whether `self` is no later than `other`.
    pub fn le(&self, other: &Timestamp) -> (r: bool)
        requires
            self.wf(),
            other.wf(),
        ensures
            r == (self.key() <= other.key()),
    {
        self.key_val() <= other.key_val()
    }
}

/// Whether `s` has digits and separators laid out as
/// `YYYY-MM-DDTHH:MM:SSZ`.
pub open spec fn ts_shape(s: Seq<char>) -> bool {
    &&& s.len() == 20
    &&& all_digits(s.subrange(0, 4))
    &&& s[4] == '-'
    &&& all_digits(s.subrange(5, 7))
    &&& s[7] == '-'
    &&& all_digits(s.subrange(8, 10))
    &&& s[10] == 'T'
    &&& all_digits(s.subrange(11, 13))
    &&& s[13] == ':'
    &&& all_digits(s.subrange(14, 16))
    &&& s[16] == ':'
    &&& all_digits(s.subrange(17, 19))
    &&& s[19] == 'Z'
}

/// The fields spelled by a string of that shape.
pub open spec fn ts_fields(s: Seq<char>) -> Timestamp {
    Timestamp {
        year: dec_val(s.subrange(0, 4)) as u32,
        month: dec_val(s.subrange(5, 7)) as u32,
        day: dec_val(s.subrange(8, 10)) as u32,
        hour: dec_val(s.subrange(11, 13)) as u32,
        minute: dec_val(s.subrange(14, 16)) as u32,
        second: dec_val(s.subrange(17, 19)) as u32,
    }
}

/// The timestamp that `s` spells, if `s` has the right shape and
/// names a valid moment.
pub open spec fn ts_parse(s: Seq<char>) -> Option<Timestamp> {
    if ts_shape(s) && ts_fields(s).wf() {
        Some(ts_fields(s))
    } else {
        None
    }
}

/// `n` in decimal, zero-padded to two digits.
pub open spec fn pad2(n: int) -> Seq<char> {
    seq![digit_char(n / 10 % 10), digit_char(n % 10)]
}

/// `n` in decimal, zero-padded to four digits.
pub open spec fn pad4(n: int) -> Seq<char> {
    seq![
        digit_char(n / 1000 % 10),
        digit_char(n / 100 % 10),
        digit_char(n / 10 % 10),
        digit_char(n % 10),
    ]
}

/// The `YYYY-MM-DDTHH:MM:SSZ` spelling of `t`.
pub open spec fn ts_fmt(t: Timestamp) -> Seq<char> {
    pad4(t.year as int) + seq!['-'] + pad2(t.month as int) + seq!['-'] + pad2(t.day as int)
        + seq!['T'] + pad2(t.hour as int) + seq![':'] + pad2(t.minute as int) + seq![':']
        + pad2(t.second as int) + seq!['Z']
}

/// A bound on short numerals: at most `n` digits spell less than `10^n`.
proof fn lemma_dec_val_width(s: Seq<char>, bound: int)
    requires
        all_digits(s),
        s.len() == 1 && bound == 10 || s.len() == 2 && bound == 100 || s.len() == 4 && bound
            == 10000,
    ensures
        0 <= dec_val(s) < bound,
    decreases s.len(),
{
    crate::text::lemma_dec_val_nonneg(s);
    if s.len() == 1 {
        assert(dec_val(s.drop_last()) == 0);
    } else if s.len() == 2 {
        let p = s.drop_last();
        assert(all_digits(p));
        lemma_dec_val_width(p, 10);
    } else {
        let p3 = s.drop_last();
        let p2 = p3.drop_last();
        let p1 = p2.drop_last();
        assert(all_digits(p3));
        assert(all_digits(p2));
        assert(all_digits(p1));
        assert(dec_val(p1.drop_last()) == 0);
        assert(dec_val(p1) < 10);
        assert(dec_val(p2) < 100);
        assert(dec_val(p3) < 1000);
    }
}

/// Reads a fixed run of digits `s[a..b]` as a number.
fn read_field(s: &[char], a: usize, b: usize) -> (r: Option<u32>)
    requires
        a <= b <= s@.len(),
        b - a == 2 || b - a == 4,
    ensures
        r matches Some(v) ==> all_digits(s@.subrange(a as int, b as int)) && v as int == dec_val(
            s@.subrange(a as int, b as int),
        ),
        r is None ==> !all_digits(s@.subrange(a as int, b as int)),
{
    let mut acc: u32 = 0;
    let mut i: usize = a;
    while i < b
        invariant
            a <= i <= b <= s@.len(),
            b - a == 2 || b - a == 4,
            all_digits(s@.subrange(a as int, i as int)),
            acc as int == dec_val(s@.subrange(a as int, i as int)),
            acc < 10000,
        decreases b - i,
    {
        let c = s[i];
        if !(c >= '0' && c <= '9') {
            proof {
                assert(s@.subrange(a as int, b as int)[i - a] == s@[i as int]);
            }
            return None;
        }
        let ghost pre = s@.subrange(a as int, i as int);
        let ghost ext = s@.subrange(a as int, i as int + 1);
        proof {
            assert(ext.drop_last() =~= pre);
            assert(ext.last() == s@[i as int]);
            assert(all_digits(ext));
            if i - a + 1 == 1 {
                lemma_dec_val_width(ext, 10);
            } else if i - a + 1 == 2 {
                lemma_dec_val_width(ext, 100);
            } else if ext.len() == 4 {
                lemma_dec_val_width(ext, 10000);
            } else {
                lemma_dec_val_width(pre, 100);
                assert(dec_val(ext) < 1000);
            }
        }
        acc = acc * 10 + (c as u32 - 48);
        i = i + 1;
    }
    proof {
        assert(s@.subrange(a as int, i as int) =~= s@.subrange(a as int, b as int));
    }
    Some(acc)
}

/// Reads a `YYYY-MM-DDTHH:MM:SSZ` timestamp.
pub fn parse_ts(s: &[char]) -> (r: Option<Timestamp>)
    ensures
        r == ts_parse(s@),
{
    let n = s.len();
    if n != 20 {
        return None;
    }
    if !(s[4] == '-' && s[7] == '-' && s[10] == 'T' && s[13] == ':' && s[16] == ':' && s[19]
        == 'Z') {
        return None;
    }
    let year = match read_field(s, 0, 4) {
        None => {
            return None;
        },
        Some(v) => v,
    };
    let month = match read_field(s, 5, 7) {
        None => {
            return None;
        },
        Some(v) => v,
    };
    let day = match read_field(s, 8, 10) {
        None => {
            return None;
        },
        Some(v) => v,
    };
    let hour = match read_field(s, 11, 13) {
        None => {
            return None;
        },
        Some(v) => v,
    };
    let minute = match read_field(s, 14, 16) {
        None => {
            return None;
        },
        Some(v) => v,
    };
    let second = match read_field(s, 17, 19) {
        None => {
            return None;
        },
        Some(v) => v,
    };
    let t = Timestamp { year, month, day, hour, minute, second };
    proof {
        assert(ts_shape(s@));
        assert(t == ts_fields(s@));
    }
    let ok = month >= 1 && month <= 12 && day >= 1 && hour < 24 && minute < 60 && second < 60
        && year <= 9999;
    if !ok {
        return None;
    }
    let dim: u32 = if month == 2 {
        let leap = (year % 4 == 0 && year % 100 != 0) || year % 400 == 0;
        if leap {
            29
        } else {
            28
        }
    } else if month == 4 || month == 6 || month == 9 || month == 11 {
        30
    } else {
        31
    };
    if day > dim {
        return None;
    }
    Some(t)
}

/// Pushes the two-digit spelling of `n`.
fn push_pad2(v: &mut Vec<char>, n: u32)
    requires
        n < 100,
    ensures
        final(v)@ == old(v)@ + pad2(n as int),
{
    v.push((48 + (n / 10) as u8) as char);
    v.push((48 + (n % 10) as u8) as char);
    proof {
        assert(n / 10 % 10 == n / 10);
        assert(v@ =~= old(v)@ + pad2(n as int));
    }
}

/// Writes `t` as `YYYY-MM-DDTHH:MM:SSZ`.
pub fn fmt_ts(t: &Timestamp) -> (v: Vec<char>)
    requires
        t.wf(),
    ensures
        v@ == ts_fmt(*t),
{
    let mut v: Vec<char> = Vec::new();
    v.push((48 + (t.year / 1000) as u8) as char);
    v.push((48 + (t.year / 100 % 10) as u8) as char);
    v.push((48 + (t.year / 10 % 10) as u8) as char);
    v.push((48 + (t.year % 10) as u8) as char);
    proof {
        assert(t.year / 1000 % 10 == t.year / 1000);
        assert(v@ =~= pad4(t.year as int));
    }
    v.push('-');
    push_pad2(&mut v, t.month);
    v.push('-');
    push_pad2(&mut v, t.day);
    v.push('T');
    push_pad2(&mut v, t.hour);
    v.push(':');
    push_pad2(&mut v, t.minute);
    v.push(':');
    push_pad2(&mut v, t.second);
    v.push('Z');
    proof {
        assert(v@ =~= ts_fmt(*t));
    }
    v
}


/// A digit character spells its digit.
proof fn lemma_digit_char(d: int)
    requires
        0 <= d < 10,
    ensures
        is_digit(digit_char(d)),
        digit_val(digit_char(d)) == d,
{
    assert((48 + d) as u8 as char as int == 48 + d);
}

/// A two-digit pad spells its number back.
proof fn lemma_pad2_digits(n: int)
    requires
        0 <= n < 100,
    ensures
        all_digits(pad2(n)),
        dec_val(pad2(n)) == n,
{
    lemma_digit_char(n / 10 % 10);
    lemma_digit_char(n % 10);
    let p = pad2(n);
    let q = seq![digit_char(n / 10 % 10)];
    assert(p.drop_last() =~= q);
    assert(q.drop_last() =~= Seq::<char>::empty());
    assert(dec_val(Seq::<char>::empty()) == 0);
    assert(dec_val(q) == digit_val(q.last()));
    assert(dec_val(p) == dec_val(q) * 10 + digit_val(p.last()));
    assert(p.last() == digit_char(n % 10));
    assert(n / 10 % 10 == n / 10);
    assert(dec_val(p) == (n / 10) * 10 + n % 10);
}

/// A four-digit pad spells its number back.
proof fn lemma_pad4_digits(n: int)
    requires
        0 <= n < 10000,
    ensures
        all_digits(pad4(n)),
        dec_val(pad4(n)) == n,
{
    lemma_digit_char(n / 1000 % 10);
    lemma_digit_char(n / 100 % 10);
    lemma_digit_char(n / 10 % 10);
    lemma_digit_char(n % 10);
    let p = pad4(n);
    let p3 = p.drop_last();
    let p2 = p3.drop_last();
    let p1 = p2.drop_last();
    assert(p3 =~= seq![
        digit_char(n / 1000 % 10),
        digit_char(n / 100 % 10),
        digit_char(n / 10 % 10),
    ]);
    assert(p2 =~= seq![digit_char(n / 1000 % 10), digit_char(n / 100 % 10)]);
    assert(p1 =~= seq![digit_char(n / 1000 % 10)]);
    assert(p1.drop_last() =~= Seq::<char>::empty());
    assert(dec_val(Seq::<char>::empty()) == 0);
    assert(dec_val(p1) == digit_val(p1.last()));
    assert(dec_val(p2) == dec_val(p1) * 10 + digit_val(p2.last()));
    assert(dec_val(p3) == dec_val(p2) * 10 + digit_val(p3.last()));
    assert(dec_val(p) == dec_val(p3) * 10 + digit_val(p.last()));
    assert(p.last() == digit_char(n % 10));
    assert(p3.last() == digit_char(n / 10 % 10));
    assert(p2.last() == digit_char(n / 100 % 10));
    assert(p1.last() == digit_char(n / 1000 % 10));
    assert(n / 1000 % 10 == n / 1000);
    assert(dec_val(p) == ((n / 1000 * 10 + n / 100 % 10) * 10 + n / 10 % 10) * 10 + n % 10);
    assert(((n / 1000 * 10 + n / 100 % 10) * 10 + n / 10 % 10) * 10 + n % 10 == n) by {
        assert(n / 100 == n / 1000 * 10 + n / 100 % 10);
        assert(n / 10 == n / 100 * 10 + n / 10 % 10);
        assert(n == n / 10 * 10 + n % 10);
    }
}

/// Formatting a well-formed timestamp and reading the text back
/// gives the same timestamp: the wire spelling loses nothing.
pub proof fn lemma_ts_round_trip(t: Timestamp)
    requires
        t.wf(),
    ensures
        ts_parse(ts_fmt(t)) == Some(t),
{
    let s = ts_fmt(t);
    lemma_pad4_digits(t.year as int);
    lemma_pad2_digits(t.month as int);
    lemma_pad2_digits(t.day as int);
    lemma_pad2_digits(t.hour as int);
    lemma_pad2_digits(t.minute as int);
    lemma_pad2_digits(t.second as int);
    assert(s.len() == 20);
    assert(s.subrange(0, 4) =~= pad4(t.year as int));
    assert(s.subrange(5, 7) =~= pad2(t.month as int));
    assert(s.subrange(8, 10) =~= pad2(t.day as int));
    assert(s.subrange(11, 13) =~= pad2(t.hour as int));
    assert(s.subrange(14, 16) =~= pad2(t.minute as int));
    assert(s.subrange(17, 19) =~= pad2(t.second as int));
    assert(s[4] == '-' && s[7] == '-' && s[10] == 'T' && s[13] == ':' && s[16] == ':' && s[19]
        == 'Z');
    assert(ts_shape(s));
    assert(ts_fields(s) == t);
}


/// The key encoding loses nothing: two well-formed timestamps with
/// the same key are the same moment.
pub proof fn lemma_key_injective(a: Timestamp, b: Timestamp)
    requires
        a.wf(),
        b.wf(),
        a.key() == b.key(),
    ensures
        a == b,
{
    let ka = a.key();
    assert(a.second == ka % 60 && b.second == ka % 60) by (nonlinear_arith)
        requires
            a.wf(),
            b.wf(),
            a.key() == ka,
            b.key() == ka,
    ;
    let k1 = (((a.year * 13 + a.month) * 32 + a.day) * 24 + a.hour) * 60 + a.minute;
    let k1b = (((b.year * 13 + b.month) * 32 + b.day) * 24 + b.hour) * 60 + b.minute;
    assert(k1 == k1b) by (nonlinear_arith)
        requires
            a.wf(),
            b.wf(),
            k1 == (((a.year * 13 + a.month) * 32 + a.day) * 24 + a.hour) * 60 + a.minute,
            k1b == (((b.year * 13 + b.month) * 32 + b.day) * 24 + b.hour) * 60 + b.minute,
            k1 * 60 + a.second == k1b * 60 + b.second,
            a.second == b.second,
    ;
    assert(a.minute == k1 % 60 && b.minute == k1 % 60) by (nonlinear_arith)
        requires
            a.wf(),
            b.wf(),
            k1 == (((a.year * 13 + a.month) * 32 + a.day) * 24 + a.hour) * 60 + a.minute,
            k1b == (((b.year * 13 + b.month) * 32 + b.day) * 24 + b.hour) * 60 + b.minute,
            k1 == k1b,
    ;
    let k2 = ((a.year * 13 + a.month) * 32 + a.day) * 24 + a.hour;
    let k2b = ((b.year * 13 + b.month) * 32 + b.day) * 24 + b.hour;
    assert(k2 == k2b && a.hour == k2 % 24 && b.hour == k2 % 24) by (nonlinear_arith)
        requires
            a.wf(),
            b.wf(),
            k2 == ((a.year * 13 + a.month) * 32 + a.day) * 24 + a.hour,
            k2b == ((b.year * 13 + b.month) * 32 + b.day) * 24 + b.hour,
            k2 * 60 + a.minute == k2b * 60 + b.minute,
            a.minute == b.minute,
    ;
    let k3 = (a.year * 13 + a.month) * 32 + a.day;
    let k3b = (b.year * 13 + b.month) * 32 + b.day;
    assert(k3 == k3b && a.day == k3 % 32 && b.day == k3 % 32) by (nonlinear_arith)
        requires
            a.wf(),
            b.wf(),
            k3 == (a.year * 13 + a.month) * 32 + a.day,
            k3b == (b.year * 13 + b.month) * 32 + b.day,
            k3 * 24 + a.hour == k3b * 24 + b.hour,
            a.hour == b.hour,
    ;
    assert(a.year == b.year && a.month == b.month) by (nonlinear_arith)
        requires
            a.wf(),
            b.wf(),
            a.year * 13 + a.month == b.year * 13 + b.month,
    ;
}

} // verus!
