//! Colors given as `#RGB[A]`, `#RRGGBB[AA]`, `#RRRRGGGGBBBB[AAAA]` or by name.
//!
//! Channels are kept as 16-bit integers: `0xFFFF` is full intensity.
use vstd::prelude::*;
use crate::style::Formatting;
use crate::text::{chars_of, slice_is};

verus! {

/// A color with four 16-bit channels.
#[derive(Clone, Copy, Debug, PartialEq, Eq, Structural)]
pub struct Rgba {
    pub r: u16,
    pub g: u16,
    pub b: u16,
    pub a: u16,
}

pub open spec fn rgba(r: int, g: int, b: int, a: int) -> Rgba {
    Rgba { r: r as u16, g: g as u16, b: b as u16, a: a as u16 }
}

pub open spec fn is_hex_digit(c: char) -> bool {
    ('0' <= c && c <= '9') || ('a' <= c && c <= 'f') || ('A' <= c && c <= 'F')
}

pub open spec fn hex_digit_value(c: char) -> int {
    if '0' <= c && c <= '9' {
        c as int - '0' as int
    } else if 'a' <= c && c <= 'f' {
        c as int - 'a' as int + 10
    } else {
        c as int - 'A' as int + 10
    }
}

/// The number written by the hex digits `s`, most significant first.
pub open spec fn hex_value(s: Seq<char>) -> int
    decreases s.len(),
{
    if s.len() == 0 {
        0
    } else {
        hex_value(s.drop_last()) * 16 + hex_digit_value(s.last())
    }
}

pub open spec fn pow16(n: nat) -> int
    decreases n,
{
    if n == 0 {
        1
    } else {
        16 * pow16((n - 1) as nat)
    }
}

/// `s` without one leading `+`, if it has one.
pub open spec fn strip_plus(s: Seq<char>) -> Seq<char> {
    if s.len() > 0 && s[0] == '+' {
        s.drop_first()
    } else {
        s
    }
}

pub open spec fn all_hex_digits(d: Seq<char>) -> bool {
    forall|i: int| 0 <= i < d.len() ==> is_hex_digit(#[trigger] d[i])
}

/// The digits that a base-16 integer parse reads from `s`: an optional
/// leading `+`, then one or more hex digits and nothing else.
pub open spec fn radix16_digits(s: Seq<char>) -> Option<Seq<char>> {
    if strip_plus(s).len() > 0 && all_hex_digits(strip_plus(s)) {
        Some(strip_plus(s))
    } else {
        None
    }
}

/// For a hex color of `len` characters (the `#` included): the digits per
/// channel and whether an alpha channel is written.
pub open spec fn hex_layout(len: int) -> Option<(int, bool)> {
    if len == 4 {
        Some((1, false))
    } else if len == 5 {
        Some((1, true))
    } else if len == 7 {
        Some((2, false))
    } else if len == 9 {
        Some((2, true))
    } else if len == 13 {
        Some((4, false))
    } else if len == 17 {
        Some((4, true))
    } else {
        None
    }
}

/// The factor that widens a channel of `k` hex digits to 16 bits.
pub open spec fn channel_scale(k: int) -> int {
    if k == 1 {
        0x1111
    } else if k == 2 {
        0x101
    } else {
        1
    }
}

/// `d` with zeros added in front up to `n` digits.
pub open spec fn zero_pad(d: Seq<char>, n: int) -> Seq<char> {
    Seq::new((n - d.len()) as nat, |i: int| '0') + d
}

/// Channel `i` (red, green, blue, alpha) of the padded digits `p`.
pub open spec fn hex_channel(p: Seq<char>, k: int, i: int) -> int {
    hex_value(p.subrange(i * k, (i + 1) * k)) * channel_scale(k)
}

/// The color written in hex after the `#` (`s` holds the characters after
/// it); black with alpha `a` when `s` is not such a color.
pub open spec fn hex_color(s: Seq<char>, a: int) -> Rgba {
    match (hex_layout(s.len() + 1int), radix16_digits(s)) {
        (Some((k, has_alpha)), Some(d)) => {
            let n = if has_alpha { 4 * k } else { 3 * k };
            let p = zero_pad(d, n);
            rgba(
                hex_channel(p, k, 0),
                hex_channel(p, k, 1),
                hex_channel(p, k, 2),
                if has_alpha { hex_channel(p, k, 3) } else { a },
            )
        },
        _ => rgba(0, 0, 0, a),
    }
}

/// The named colors; any other name is black.
pub open spec fn named_color(s: Seq<char>, a: int) -> Rgba {
    if s == seq!['r', 'e', 'd'] {
        rgba(0xFFFF, 0, 0, a)
    } else if s == seq!['y', 'e', 'l', 'l', 'o', 'w'] {
        rgba(0xFFFF, 0xFFFF, 0, a)
    } else if s == seq!['g', 'r', 'e', 'e', 'n'] {
        rgba(0, 0xFFFF, 0, a)
    } else if s == seq!['b', 'l', 'u', 'e'] {
        rgba(0, 0, 0xFFFF, a)
    } else if s == seq!['g', 'r', 'a', 'y'] {
        rgba(0x7FFF, 0x7FFF, 0x7FFF, a)
    } else if s == seq!['w', 'h', 'i', 't', 'e'] {
        rgba(0xFFFF, 0xFFFF, 0xFFFF, a)
    } else {
        rgba(0, 0, 0, a)
    }
}

pub open spec fn clamp16(v: int) -> int {
    if v < 0 {
        0
    } else if v > 0xFFFF {
        0xFFFF
    } else {
        v
    }
}

/// The color for an optional color string and an optional alpha (in units
/// of 1/65535): nothing when both are unset; a missing color is black, a
/// missing alpha is opaque, and a written alpha channel wins over `alpha`.
pub open spec fn rgba_of(color: Option<Seq<char>>, alpha: Option<int>) -> Option<Rgba> {
    if color is None && alpha is None {
        None
    } else {
        let a = clamp16(
            match alpha {
                Some(v) => v,
                None => 0xFFFF,
            },
        );
        match color {
            Some(s) => if s.len() > 0 && s[0] == '#' {
                Some(hex_color(s.drop_first(), a))
            } else {
                Some(named_color(s, a))
            },
            None => Some(rgba(0, 0, 0, a)),
        }
    }
}

/// The value of the hex digits `p[lo..hi]`.
fn hex_slice_value(p: &Vec<char>, lo: usize, hi: usize) -> (r: u64)
    requires
        lo <= hi <= p@.len(),
        hi - lo <= 4,
        forall|i: int| 0 <= i < p@.len() ==> is_hex_digit(#[trigger] p@[i]),
    ensures
        r as int == hex_value(p@.subrange(lo as int, hi as int)),
        r < pow16((hi - lo) as nat),
{
    let mut v: u64 = 0;
    let mut i: usize = lo;
    while i < hi
        invariant
            lo <= i <= hi <= p@.len(),
            hi - lo <= 4,
            forall|j: int| 0 <= j < p@.len() ==> is_hex_digit(#[trigger] p@[j]),
            v as int == hex_value(p@.subrange(lo as int, i as int)),
            v < pow16((i - lo) as nat),
        decreases hi - i,
    {
        let c = p[i];
        assert(is_hex_digit(p@[i as int]));
        let d: u64 = if '0' <= c && c <= '9' {
            (c as u64) - ('0' as u64)
        } else if 'a' <= c && c <= 'f' {
            (c as u64) - ('a' as u64) + 10
        } else {
            (c as u64) - ('A' as u64) + 10
        };
        assert(p@.subrange(lo as int, i + 1).drop_last() =~= p@.subrange(lo as int, i as int));
        assert(pow16((i + 1 - lo) as nat) == 16 * pow16((i - lo) as nat));
        proof {
            reveal_with_fuel(pow16, 5);
        }
        v = v * 16 + d;
        i = i + 1;
    }
    v
}

/// Whether `c[lo..hi]` are all hex digits.
fn all_hex(c: &Vec<char>, lo: usize, hi: usize) -> (r: bool)
    requires
        lo <= hi <= c@.len(),
    ensures
        r == (forall|j: int| lo <= j < hi ==> is_hex_digit(#[trigger] c@[j])),
{
    let mut i: usize = lo;
    while i < hi
        invariant
            lo <= i <= hi <= c@.len(),
            forall|j: int| lo <= j < i ==> is_hex_digit(#[trigger] c@[j]),
        decreases hi - i,
    {
        let ch = c[i];
        if !(('0' <= ch && ch <= '9') || ('a' <= ch && ch <= 'f') || ('A' <= ch && ch <= 'F')) {
            assert(!is_hex_digit(c@[i as int]));
            return false;
        }
        i = i + 1;
    }
    true
}

/// The color written in hex by `c[1..]`, `c[0]` being `#`.
fn parse_hex(c: &Vec<char>, a: u16) -> (r: Rgba)
    requires
        c@.len() > 0,
        c@[0] == '#',
    ensures
        r == hex_color(c@.drop_first(), a as int),
{
    let s = Ghost(c@.drop_first());
    let n = c.len();
    let (k, has_alpha): (usize, bool) = if n == 4 {
        (1, false)
    } else if n == 5 {
        (1, true)
    } else if n == 7 {
        (2, false)
    } else if n == 9 {
        (2, true)
    } else if n == 13 {
        (4, false)
    } else if n == 17 {
        (4, true)
    } else {
        return Rgba { r: 0, g: 0, b: 0, a };
    };
    assert(hex_layout(s@.len() + 1int) == Some((k as int, has_alpha)));
    let start: usize = if c[1] == '+' {
        2
    } else {
        1
    };
    let d = Ghost(c@.subrange(start as int, n as int));
    assert(s@[0] == c@[1]);
    assert(start == 2 ==> d@ =~= s@.drop_first());
    assert(start == 1 ==> d@ =~= s@);
    if start >= n {
        return Rgba { r: 0, g: 0, b: 0, a };
    }
    if !all_hex(c, start, n) {
        let ghost j = choose|j: int| start <= j < n && !is_hex_digit(c@[j]);
        assert(!is_hex_digit(d@[j - start]));
        assert(strip_plus(s@) == d@);
        return Rgba { r: 0, g: 0, b: 0, a };
    }
    assert(radix16_digits(s@) == Some(d@));
    let width: usize = if has_alpha {
        4 * k
    } else {
        3 * k
    };
    let ndig: usize = n - start;
    // the digits come from a string of the layout's length
    assert(ndig <= width);
    let mut p: Vec<char> = Vec::new();
    let mut j: usize = 0;
    while j < width - ndig
        invariant
            j <= width - ndig,
            p@ == Seq::new(j as nat, |i: int| '0'),
        decreases width - ndig - j,
    {
        p.push('0');
        j = j + 1;
        assert(p@ =~= Seq::new(j as nat, |i: int| '0'));
    }
    let mut m: usize = start;
    while m < n
        invariant
            1 <= start <= m <= n == c@.len(),
            p@ == Seq::new((width - ndig) as nat, |i: int| '0') + c@.subrange(start as int, m as int),
        decreases n - m,
    {
        p.push(c[m]);
        m = m + 1;
        assert(p@ =~= Seq::new((width - ndig) as nat, |i: int| '0') + c@.subrange(
            start as int,
            m as int,
        ));
    }
    assert(p@ =~= zero_pad(d@, width as int));
    assert forall|i: int| 0 <= i < p@.len() implies is_hex_digit(#[trigger] p@[i]) by {
        if i >= width - ndig {
            assert(p@[i] == c@[start + i - (width - ndig)]);
        }
    }
    proof {
        reveal_with_fuel(pow16, 5);
    }
    let scale: u64 = if k == 1 {
        0x1111
    } else if k == 2 {
        0x101
    } else {
        1
    };
    let r = hex_slice_value(&p, 0, k) * scale;
    let g = hex_slice_value(&p, k, 2 * k) * scale;
    let b = hex_slice_value(&p, 2 * k, 3 * k) * scale;
    let alpha = if has_alpha {
        (hex_slice_value(&p, 3 * k, 4 * k) * scale) as u16
    } else {
        a
    };
    Rgba { r: r as u16, g: g as u16, b: b as u16, a: alpha }
}

impl Formatting {
    /// Parses a color from an optional color string and an optional alpha (in
    /// units of 1/65535, clamped to `0..=0xFFFF`).
    ///
    /// Nothing comes back when both are unset.  A missing color is black, a
    /// missing alpha is opaque, an alpha digit group in the color wins over
    /// `alpha`, and a color that cannot be parsed is black with the alpha
    /// unchanged.
    pub fn parse_rgba(color: Option<&str>, alpha: Option<i64>) -> (r: Option<Rgba>)
        ensures
            r == rgba_of(
                match color {
                    Some(s) => Some(s@),
                    None => None,
                },
                match alpha {
                    Some(v) => Some(v as int),
                    None => None,
                },
            ),
    {
        if color.is_none() && alpha.is_none() {
            return None;
        }
        let av: i64 = match alpha {
            Some(v) => v,
            None => 0xFFFF,
        };
        let a: u16 = if av < 0 {
            0
        } else if av > 0xFFFF {
            0xFFFF
        } else {
            av as u16
        };
        match color {
            None => Some(Rgba { r: 0, g: 0, b: 0, a }),
            Some(s) => {
                let c = chars_of(s);
                if c.len() > 0 && c[0] == '#' {
                    Some(parse_hex(&c, a))
                } else {
                    Some(named(&c, a))
                }
            },
        }
    }
}

fn named(c: &Vec<char>, a: u16) -> (r: Rgba)
    ensures
        r == named_color(c@, a as int),
{
    let n = c.len();
    assert(c@.subrange(0, n as int) =~= c@);
    if slice_is(c, 0, n, &vec!['r', 'e', 'd']) {
        Rgba { r: 0xFFFF, g: 0, b: 0, a }
    } else if slice_is(c, 0, n, &vec!['y', 'e', 'l', 'l', 'o', 'w']) {
        Rgba { r: 0xFFFF, g: 0xFFFF, b: 0, a }
    } else if slice_is(c, 0, n, &vec!['g', 'r', 'e', 'e', 'n']) {
        Rgba { r: 0, g: 0xFFFF, b: 0, a }
    } else if slice_is(c, 0, n, &vec!['b', 'l', 'u', 'e']) {
        Rgba { r: 0, g: 0, b: 0xFFFF, a }
    } else if slice_is(c, 0, n, &vec!['g', 'r', 'a', 'y']) {
        Rgba { r: 0x7FFF, g: 0x7FFF, b: 0x7FFF, a }
    } else if slice_is(c, 0, n, &vec!['w', 'h', 'i', 't', 'e']) {
        Rgba { r: 0xFFFF, g: 0xFFFF, b: 0xFFFF, a }
    } else {
        Rgba { r: 0, g: 0, b: 0, a }
    }
}

} // verus!
