//! Parsing of style values: decimal numbers, side widths, widths and
//! alignments.
use vstd::prelude::*;
use crate::style::{Trbl, Width};
use crate::text::chars_of;
use vstd::string::StrSliceExecFns;

verus! {

pub open spec fn is_digit(c: char) -> bool {
    '0' <= c && c <= '9'
}

pub open spec fn all_digits(s: Seq<char>) -> bool {
    forall|i: int| 0 <= i < s.len() ==> is_digit(#[trigger] s[i])
}

/// The number the decimal digits `s` write.
pub open spec fn digits_value(s: Seq<char>) -> int
    decreases s.len(),
{
    if s.len() == 0 {
        0
    } else {
        digits_value(s.drop_last()) * 10 + (s.last() as int - '0' as int)
    }
}

pub open spec fn pow10(n: nat) -> int
    decreases n,
{
    if n == 0 {
        1
    } else {
        10 * pow10((n - 1) as nat)
    }
}

/// The index of the first `.` in `u`, or its length.
pub open spec fn point_index(u: Seq<char>) -> int
    decreases u.len(),
{
    if u.len() == 0 {
        0
    } else if u[0] == '.' {
        0
    } else {
        1 + point_index(u.drop_first())
    }
}

/// `s` without a leading sign.
pub open spec fn unsigned_part(s: Seq<char>) -> Seq<char> {
    if s.len() > 0 && (s[0] == '-' || s[0] == '+') {
        s.drop_first()
    } else {
        s
    }
}

/// The first three fraction digits `b`, as thousandths.
pub open spec fn thousandths(b: Seq<char>) -> int {
    if b.len() >= 3 {
        digits_value(b.subrange(0, 3))
    } else if b.len() == 2 {
        digits_value(b) * 10
    } else if b.len() == 1 {
        digits_value(b) * 100
    } else {
        0
    }
}

/// `s` read as a decimal number, in thousandths: an optional sign, digits,
/// and optionally a point and more digits; at least one digit in all and
/// at most 15 before the point.  Digits past the third after the point are
/// dropped.
pub open spec fn milli_of(s: Seq<char>) -> Option<int> {
    let u = unsigned_part(s);
    let p = point_index(u);
    let a = u.subrange(0, p);
    let b = if p < u.len() {
        u.subrange(p + 1, u.len() as int)
    } else {
        Seq::empty()
    };
    if all_digits(a) && all_digits(b) && a.len() + b.len() > 0 && a.len() <= 15 {
        let v = digits_value(a) * 1000 + thousandths(b);
        Some(
            if s.len() > 0 && s[0] == '-' {
                -v
            } else {
                v
            },
        )
    } else {
        None
    }
}

/// Thousandths to whole units, rounded toward zero.
pub open spec fn whole_of(m: int) -> int {
    if m >= 0 {
        m / 1000
    } else {
        -((-m) / 1000)
    }
}

proof fn lemma_digits_bound(s: Seq<char>)
    requires
        all_digits(s),
    ensures
        0 <= digits_value(s) < pow10(s.len()),
    decreases s.len(),
{
    if s.len() > 0 {
        let t = s.drop_last();
        assert forall|i: int| 0 <= i < t.len() implies is_digit(#[trigger] t[i]) by {
            assert(t[i] == s[i]);
        }
        lemma_digits_bound(t);
        assert(is_digit(s[s.len() - 1]));
    }
}

proof fn lemma_pow10_mono(a: nat, b: nat)
    requires
        a <= b,
    ensures
        pow10(a) <= pow10(b),
        pow10(a) >= 1,
    decreases b,
{
    if a < b {
        lemma_pow10_mono(a, (b - 1) as nat);
    } else if a > 0 {
        lemma_pow10_mono((a - 1) as nat, (a - 1) as nat);
    }
}

proof fn lemma_pow10_values()
    ensures
        pow10(0) == 1,
        pow10(1) == 10,
        pow10(2) == 100,
        pow10(3) == 1000,
        pow10(14) == 100_000_000_000_000,
        pow10(15) == 1_000_000_000_000_000,
{
    reveal_with_fuel(pow10, 16);
}

/// The value of the digits `c[lo..hi]`, all digits, at most 15 of them.
fn digits_at(c: &Vec<char>, lo: usize, hi: usize) -> (r: i64)
    requires
        lo <= hi <= c@.len(),
        hi - lo <= 15,
        all_digits(c@.subrange(lo as int, hi as int)),
    ensures
        r == digits_value(c@.subrange(lo as int, hi as int)),
        0 <= r < pow10((hi - lo) as nat),
{
    let mut v: i64 = 0;
    let mut i: usize = lo;
    proof {
        lemma_pow10_values();
    }
    while i < hi
        invariant
            lo <= i <= hi <= c@.len(),
            hi - lo <= 15,
            all_digits(c@.subrange(lo as int, hi as int)),
            v == digits_value(c@.subrange(lo as int, i as int)),
            0 <= v < pow10((i - lo) as nat),
            pow10(15) == 1_000_000_000_000_000,
        decreases hi - i,
    {
        assert(c@.subrange(lo as int, hi as int)[i - lo] == c@[i as int]);
        let d = c[i] as i64 - '0' as i64;
        assert(c@.subrange(lo as int, i + 1).drop_last() =~= c@.subrange(lo as int, i as int));
        proof {
            lemma_pow10_mono((i - lo) as nat, 14);
            assert(pow10((i + 1 - lo) as nat) == 10 * pow10((i - lo) as nat));
        }
        v = v * 10 + d;
        i = i + 1;
    }
    v
}

/// Whether `c[lo..hi]` are all digits.
fn digits_only(c: &Vec<char>, lo: usize, hi: usize) -> (r: bool)
    requires
        lo <= hi <= c@.len(),
    ensures
        r == all_digits(c@.subrange(lo as int, hi as int)),
{
    let mut i: usize = lo;
    while i < hi
        invariant
            lo <= i <= hi <= c@.len(),
            forall|j: int| lo <= j < i ==> is_digit(#[trigger] c@[j]),
        decreases hi - i,
    {
        if !('0' <= c[i] && c[i] <= '9') {
            assert(!is_digit(c@.subrange(lo as int, hi as int)[i - lo]));
            return false;
        }
        i = i + 1;
    }
    assert forall|j: int| 0 <= j < hi - lo implies is_digit(#[trigger] c@.subrange(lo as int, hi as int)[j]) by {
        assert(c@.subrange(lo as int, hi as int)[j] == c@[lo + j]);
    }
    true
}

/// Reads `c[lo..hi]` as a decimal number in thousandths, see [`milli_of`].
#[verifier::rlimit(40)]
pub fn milli_at(c: &Vec<char>, lo: usize, hi: usize) -> (r: Option<i64>)
    requires
        lo <= hi <= c@.len(),
    ensures
        match r {
            Some(v) => milli_of(c@.subrange(lo as int, hi as int)) == Some(v as int),
            None => milli_of(c@.subrange(lo as int, hi as int)) is None,
        },
{
    let ghost s = c@.subrange(lo as int, hi as int);
    let signed = lo < hi && (c[lo] == '-' || c[lo] == '+');
    let neg = lo < hi && c[lo] == '-';
    let ulo: usize = if signed {
        lo + 1
    } else {
        lo
    };
    let ghost u = c@.subrange(ulo as int, hi as int);
    assert(u =~= unsigned_part(s));
    let mut p: usize = ulo;
    while p < hi && c[p] != '.'
        invariant
            ulo <= p <= hi <= c@.len(),
            u == c@.subrange(ulo as int, hi as int),
            point_index(u) == (p - ulo) + point_index(c@.subrange(p as int, hi as int)),
        decreases hi - p,
    {
        assert(c@.subrange(p + 1, hi as int) =~= c@.subrange(p as int, hi as int).drop_first());
        p = p + 1;
    }
    assert(point_index(u) == p - ulo) by {
        if p < hi {
            assert(c@.subrange(p as int, hi as int)[0] == '.');
        }
    }
    let blo: usize = if p < hi {
        p + 1
    } else {
        hi
    };
    let ghost a = u.subrange(0, (p - ulo) as int);
    let ghost b = if p < hi {
        u.subrange((p - ulo) + 1, u.len() as int)
    } else {
        Seq::<char>::empty()
    };
    assert(a =~= c@.subrange(ulo as int, p as int));
    assert(b =~= c@.subrange(blo as int, hi as int));
    if !digits_only(c, ulo, p) || !digits_only(c, blo, hi) || (p - ulo) + (hi - blo) == 0 || p - ulo > 15 {
        return None;
    }
    let iv = digits_at(c, ulo, p);
    let nb = hi - blo;
    proof {
        lemma_pow10_values();
    }
    let fv: i64 = if nb >= 3 {
        assert(c@.subrange(blo as int, blo + 3) =~= b.subrange(0, 3));
        digits_at(c, blo, blo + 3)
    } else if nb == 2 {
        digits_at(c, blo, hi) * 10
    } else if nb == 1 {
        digits_at(c, blo, hi) * 100
    } else {
        0
    };
    proof {
        lemma_digits_bound(a);
        lemma_pow10_mono(a.len(), 15);
        if nb >= 3 {
            assert(all_digits(b.subrange(0, 3))) by {
                assert forall|i: int| 0 <= i < 3 implies is_digit(#[trigger] b.subrange(0, 3)[i]) by {
                    assert(b.subrange(0, 3)[i] == b[i]);
                }
            }
            lemma_digits_bound(b.subrange(0, 3));
        } else {
            lemma_digits_bound(b);
        }
        assert(thousandths(b) == fv);
    }
    let v = iv * 1000 + fv;
    if neg {
        Some(-v)
    } else {
        Some(v)
    }
}

/// Whether `c` separates words.
pub open spec fn is_space(c: char) -> bool {
    c == ' ' || c == '\t' || c == '\n' || c == '\u{b}' || c == '\u{c}' || c == '\r' || c == '\u{85}'
        || c == '\u{a0}' || c == '\u{1680}' || ('\u{2000}' <= c && c <= '\u{200a}') || c == '\u{2028}'
        || c == '\u{2029}' || c == '\u{202f}' || c == '\u{205f}' || c == '\u{3000}'
}

fn space(c: char) -> (r: bool)
    ensures
        r == is_space(c),
{
    c == ' ' || c == '\t' || c == '\n' || c == '\u{b}' || c == '\u{c}' || c == '\r' || c == '\u{85}'
        || c == '\u{a0}' || c == '\u{1680}' || ('\u{2000}' <= c && c <= '\u{200a}') || c == '\u{2028}'
        || c == '\u{2029}' || c == '\u{202f}' || c == '\u{205f}' || c == '\u{3000}'
}

/// The words of `s` so far, and the word being read.
pub open spec fn split_state(s: Seq<char>) -> (Seq<Seq<char>>, Seq<char>)
    decreases s.len(),
{
    if s.len() == 0 {
        (Seq::empty(), Seq::empty())
    } else {
        let (done, cur) = split_state(s.drop_last());
        let c = s.last();
        if is_space(c) {
            if cur.len() > 0 {
                (done.push(cur), Seq::empty())
            } else {
                (done, cur)
            }
        } else {
            (done, cur.push(c))
        }
    }
}

/// The words of `s`: the runs of characters between whitespace.
pub open spec fn words(s: Seq<char>) -> Seq<Seq<char>> {
    let (done, cur) = split_state(s);
    if cur.len() > 0 {
        done.push(cur)
    } else {
        done
    }
}

/// The spans of the words of `c`.
pub fn word_spans(c: &Vec<char>) -> (r: Vec<(usize, usize)>)
    ensures
        r@.len() == words(c@).len(),
        forall|k: int| 0 <= k < r@.len() ==> (#[trigger] r@[k]).0 <= r@[k].1 <= c@.len()
            && c@.subrange(r@[k].0 as int, r@[k].1 as int) == words(c@)[k],
{
    let mut r: Vec<(usize, usize)> = Vec::new();
    let mut start: usize = 0;
    let mut i: usize = 0;
    while i < c.len()
        invariant
            start <= i <= c@.len(),
            r@.len() == split_state(c@.subrange(0, i as int)).0.len(),
            forall|k: int| 0 <= k < r@.len() ==> (#[trigger] r@[k]).0 <= r@[k].1 <= i
                && c@.subrange(r@[k].0 as int, r@[k].1 as int) == split_state(c@.subrange(0, i as int)).0[k],
            split_state(c@.subrange(0, i as int)).1 == c@.subrange(start as int, i as int),
        decreases c@.len() - i,
    {
        assert(c@.subrange(0, i + 1).drop_last() =~= c@.subrange(0, i as int));
        let ch = c[i];
        if space(ch) {
            if start < i {
                r.push((start, i));
            }
            start = i + 1;
            assert(c@.subrange(start as int, i + 1) =~= Seq::<char>::empty());
        } else {
            assert(c@.subrange(start as int, i + 1) =~= c@.subrange(start as int, i as int).push(ch));
        }
        i = i + 1;
    }
    assert(c@.subrange(0, i as int) =~= c@);
    if start < i {
        r.push((start, i));
    }
    r
}

/// The side widths written as one to four numbers, CSS style: one for all
/// sides; vertical and horizontal; top, horizontal and bottom; or top,
/// right, bottom and left.  No numbers give zeros; a fifth number or one
/// that does not parse gives nothing.  Numbers are in pixels, fractions of
/// a pixel dropped.
pub open spec fn trbl_of(s: Seq<char>) -> Option<Trbl> {
    let w = words(s);
    if w.len() > 4 || exists|i: int| 0 <= i < w.len() && #[trigger] milli_of(w[i]) is None {
        None
    } else {
        let v = |i: int| whole_of(milli_of(w[i])->Some_0) as i64;
        Some(
            if w.len() == 0 {
                Trbl { top: 0, right: 0, bottom: 0, left: 0 }
            } else if w.len() == 1 {
                Trbl { top: v(0), right: v(0), bottom: v(0), left: v(0) }
            } else if w.len() == 2 {
                Trbl { top: v(0), right: v(1), bottom: v(0), left: v(1) }
            } else if w.len() == 3 {
                Trbl { top: v(0), right: v(1), bottom: v(2), left: v(1) }
            } else {
                Trbl { top: v(0), right: v(1), bottom: v(2), left: v(3) }
            },
        )
    }
}

fn whole(m: i64) -> (r: i64)
    ensures
        r == whole_of(m as int),
{
    if m >= 0 {
        m / 1000
    } else {
        assert(m >= i64::MIN);
        -(((-(m as i128)) / 1000) as i64)
    }
}

/// Parses side widths, see [`trbl_of`].
pub fn parse_trbl(s: &str) -> (r: Option<Trbl>)
    ensures
        r == trbl_of(s@),
{
    let c = chars_of(s);
    let w = word_spans(&c);
    let ghost ws = words(c@);
    if w.len() > 4 {
        return None;
    }
    let mut vals: Vec<i64> = Vec::new();
    let mut i: usize = 0;
    while i < w.len()
        invariant
            c@ == s@,
            w@.len() == ws.len(),
            ws == words(c@),
            forall|k: int| 0 <= k < w@.len() ==> (#[trigger] w@[k]).0 <= w@[k].1 <= c@.len()
                && c@.subrange(w@[k].0 as int, w@[k].1 as int) == ws[k],
            i <= w@.len(),
            vals@.len() == i,
            forall|k: int| 0 <= k < i ==> milli_of(#[trigger] ws[k]) is Some && vals@[k] == whole_of(milli_of(ws[k])->Some_0),
        decreases w@.len() - i,
    {
        let (lo, hi) = w[i];
        match milli_at(&c, lo, hi) {
            Some(m) => vals.push(whole(m)),
            None => {
                assert(milli_of(ws[i as int]) is None);
                assert(words(s@) == ws);
                assert(exists|k: int| 0 <= k < ws.len() && #[trigger] milli_of(ws[k]) is None);
                return None;
            },
        }
        i = i + 1;
    }
    let n = vals.len();
    let r = if n == 0 {
        Trbl { top: 0, right: 0, bottom: 0, left: 0 }
    } else if n == 1 {
        Trbl { top: vals[0], right: vals[0], bottom: vals[0], left: vals[0] }
    } else if n == 2 {
        Trbl { top: vals[0], right: vals[1], bottom: vals[0], left: vals[1] }
    } else if n == 3 {
        Trbl { top: vals[0], right: vals[1], bottom: vals[2], left: vals[1] }
    } else {
        Trbl { top: vals[0], right: vals[1], bottom: vals[2], left: vals[3] }
    };
    Some(r)
}

} // verus!

verus! {

/// A width: `N%` is a fraction of the parent's width (in thousandths of
/// it), a bare number a count of pixels.
pub open spec fn width_of(s: Seq<char>) -> Option<Width> {
    if s.len() > 0 && s.last() == '%' {
        match milli_of(s.drop_last()) {
            Some(m) => Some(Width::Fraction((if m >= 0 { m / 100 } else { -((-m) / 100) }) as i64)),
            None => None,
        }
    } else {
        match milli_of(s) {
            Some(m) => Some(Width::Pixels(whole_of(m) as i64)),
            None => None,
        }
    }
}

/// An alignment in thousandths: `left`, `center`, `right`, or a number
/// from 0 to 1.
pub open spec fn align_of(s: Seq<char>) -> Option<i64> {
    if s == seq!['l', 'e', 'f', 't'] {
        Some(0)
    } else if s == seq!['c', 'e', 'n', 't', 'e', 'r'] {
        Some(500)
    } else if s == seq!['r', 'i', 'g', 'h', 't'] {
        Some(1000)
    } else {
        match milli_of(s) {
            Some(m) => Some(m as i64),
            None => None,
        }
    }
}

/// An alpha from 0 to 1 in units of 1/65535, limited to that range.
pub open spec fn alpha_of(s: Seq<char>) -> Option<int> {
    match milli_of(s) {
        Some(m) => Some(crate::color::clamp16(if m >= 0 { (m * 65535) / 1000 } else { -((-m * 65535) / 1000) })),
        None => None,
    }
}

impl Width {
    /// Parses a width, see [`width_of`].
    pub fn from_str(s: &str) -> (r: Option<Width>)
        ensures
            r == width_of(s@),
    {
        let c = chars_of(s);
        let n = c.len();
        if n > 0 && c[n - 1] == '%' {
            assert(c@.subrange(0, n - 1) =~= s@.drop_last());
            match milli_at(&c, 0, n - 1) {
                Some(m) => {
                    let f: i64 = if m >= 0 {
                        m / 100
                    } else {
                        -(((-(m as i128)) / 100) as i64)
                    };
                    Some(Width::Fraction(f))
                },
                None => None,
            }
        } else {
            assert(c@.subrange(0, n as int) =~= s@);
            match milli_at(&c, 0, n) {
                Some(m) => Some(Width::Pixels(whole(m))),
                None => None,
            }
        }
    }
}

/// Parses an alignment, see [`align_of`].
pub fn parse_align(s: &str) -> (r: Option<i64>)
    ensures
        r == align_of(s@),
{
    let c = chars_of(s);
    let n = c.len();
    assert(c@.subrange(0, n as int) =~= c@);
    if crate::text::slice_is(&c, 0, n, &vec!['l', 'e', 'f', 't']) {
        Some(0)
    } else if crate::text::slice_is(&c, 0, n, &vec!['c', 'e', 'n', 't', 'e', 'r']) {
        Some(500)
    } else if crate::text::slice_is(&c, 0, n, &vec!['r', 'i', 'g', 'h', 't']) {
        Some(1000)
    } else {
        milli_at(&c, 0, n)
    }
}

/// Parses an alpha, see [`alpha_of`].
pub fn parse_alpha(s: &str) -> (r: Option<i64>)
    ensures
        match r {
            Some(v) => alpha_of(s@) == Some(v as int),
            None => alpha_of(s@) is None,
        },
{
    let c = chars_of(s);
    let n = c.len();
    assert(c@.subrange(0, n as int) =~= s@);
    match milli_at(&c, 0, n) {
        Some(m) => {
            assert(-0x7fff_ffff_ffff_ffff_ffff_ffff <= m * 65535 <= 0x7fff_ffff_ffff_ffff_ffff_ffff) by (nonlinear_arith)
                requires
                    i64::MIN <= m <= i64::MAX,
            ;
            let p: i128 = m as i128 * 65535;
            let q: i128 = if p >= 0 {
                p / 1000
            } else {
                -((-p) / 1000)
            };
            let a: i64 = if q < 0 {
                0
            } else if q > 0xFFFF {
                0xFFFF
            } else {
                q as i64
            };
            Some(a)
        },
        None => None,
    }
}

} // verus!

verus! {

/// The index of the last space in `s`, or -1.
pub open spec fn last_space(s: Seq<char>) -> int
    decreases s.len(),
{
    if s.len() == 0 {
        -1
    } else if s.last() == ' ' {
        s.len() - 1
    } else {
        last_space(s.drop_last())
    }
}

/// A font written `name size`: the name and the size in thousandths, when
/// what follows the last space is a number; otherwise all of `s` names the
/// font and no size is given.
pub open spec fn font_of(s: Seq<char>) -> (Seq<char>, Option<int>) {
    let k = last_space(s);
    if k >= 0 && milli_of(s.subrange(k + 1, s.len() as int)) is Some {
        (s.subrange(0, k), milli_of(s.subrange(k + 1, s.len() as int)))
    } else {
        (s, None)
    }
}

/// Parses a font, see [`font_of`].
pub fn parse_font(s: &str) -> (r: (String, Option<i64>))
    ensures
        r.0@ == font_of(s@).0,
        match r.1 {
            Some(v) => font_of(s@).1 == Some(v as int),
            None => font_of(s@).1 is None,
        },
{
    let c = chars_of(s);
    let n = c.len();
    let mut k: usize = n;
    assert(c@.subrange(0, n as int) =~= c@);
    while k > 0 && c[k - 1] != ' '
        invariant
            k <= n == c@.len(),
            c@ == s@,
            last_space(s@) == last_space(c@.subrange(0, k as int)),
        decreases k,
    {
        assert(c@.subrange(0, k as int).drop_last() =~= c@.subrange(0, k - 1));
        k = k - 1;
    }
    assert(c@.subrange(0, n as int) =~= c@);
    if k == 0 {
        assert(last_space(c@.subrange(0, 0)) == -1);
        return (s.to_owned(), None);
    }
    assert(last_space(c@.subrange(0, k as int)) == k - 1);
    match milli_at(&c, k, n) {
        Some(size) => {
            let name = s.substring_char(0, k - 1).to_owned();
            (name, Some(size))
        },
        None => (s.to_owned(), None),
    }
}

} // verus!
