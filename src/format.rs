//! An item's formatting settings and their expansion into a style.
use vstd::prelude::*;
use crate::color::{Rgba, rgba_of};
use crate::parse::{
    align_of, alpha_of, font_of, milli_at, milli_of, parse_align, parse_alpha, parse_font, parse_trbl,
    trbl_of, width_of,
};
use crate::layout::{Env, child_env};
use crate::style::{Formatting, Style, Width};
use crate::text::{chars_of, slice_is};

verus! {

/// The keys of an item's settings that make up its style.
pub open spec fn is_style_key(k: Seq<char>) -> bool {
    k == seq!['a', 'l', 'i', 'g', 'n']
        || k == seq!['b', 'g']
        || k == seq!['b', 'g', '-', 'a', 'l', 'p', 'h', 'a']
        || k == seq!['b', 'o', 'r', 'd', 'e', 'r']
        || k == seq!['b', 'o', 'r', 'd', 'e', 'r', '-', 'a', 'l', 'p', 'h', 'a']
        || k == seq!['b', 'o', 'r', 'd', 'e', 'r', '-', 'c', 'o', 'l', 'o', 'r']
        || k == seq!['f', 'g']
        || k == seq!['f', 'g', '-', 'a', 'l', 'p', 'h', 'a']
        || k == seq!['f', 'o', 'n', 't']
        || k == seq!['h', 'a', 'l', 'i', 'g', 'n']
        || k == seq!['m', 'a', 'r', 'g', 'i', 'n']
        || k == seq!['m', 'a', 'x', '-', 'w', 'i', 'd', 't', 'h']
        || k == seq!['m', 'i', 'n', '-', 'w', 'i', 'd', 't', 'h']
        || k == seq!['p', 'a', 'd', 'd', 'i', 'n', 'g']
        || k == seq!['t', 'e', 'x', 't', '-', 'o', 'u', 't', 'l', 'i', 'n', 'e']
        || k == seq!['t', 'e', 'x', 't', '-', 'o', 'u', 't', 'l', 'i', 'n', 'e', '-', 'a', 'l', 'p', 'h', 'a']
        || k == seq!['t', 'e', 'x', 't', '-', 'o', 'u', 't', 'l', 'i', 'n', 'e', '-', 'w', 'i', 'd', 't', 'h']
        || k == seq!['v', 'a', 'l', 'i', 'g', 'n']
}

fn style_key(k: &String) -> (r: bool)
    ensures
        r == is_style_key(k@),
{
    let c = chars_of(k.as_str());
    let n = c.len();
    assert(c@.subrange(0, n as int) =~= c@);
    if slice_is(&c, 0, n, &vec!['a', 'l', 'i', 'g', 'n']) {
        return true;
    }
    if slice_is(&c, 0, n, &vec!['b', 'g']) {
        return true;
    }
    if slice_is(&c, 0, n, &vec!['b', 'g', '-', 'a', 'l', 'p', 'h', 'a']) {
        return true;
    }
    if slice_is(&c, 0, n, &vec!['b', 'o', 'r', 'd', 'e', 'r']) {
        return true;
    }
    if slice_is(&c, 0, n, &vec!['b', 'o', 'r', 'd', 'e', 'r', '-', 'a', 'l', 'p', 'h', 'a']) {
        return true;
    }
    if slice_is(&c, 0, n, &vec!['b', 'o', 'r', 'd', 'e', 'r', '-', 'c', 'o', 'l', 'o', 'r']) {
        return true;
    }
    if slice_is(&c, 0, n, &vec!['f', 'g']) {
        return true;
    }
    if slice_is(&c, 0, n, &vec!['f', 'g', '-', 'a', 'l', 'p', 'h', 'a']) {
        return true;
    }
    if slice_is(&c, 0, n, &vec!['f', 'o', 'n', 't']) {
        return true;
    }
    if slice_is(&c, 0, n, &vec!['h', 'a', 'l', 'i', 'g', 'n']) {
        return true;
    }
    if slice_is(&c, 0, n, &vec!['m', 'a', 'r', 'g', 'i', 'n']) {
        return true;
    }
    if slice_is(&c, 0, n, &vec!['m', 'a', 'x', '-', 'w', 'i', 'd', 't', 'h']) {
        return true;
    }
    if slice_is(&c, 0, n, &vec!['m', 'i', 'n', '-', 'w', 'i', 'd', 't', 'h']) {
        return true;
    }
    if slice_is(&c, 0, n, &vec!['p', 'a', 'd', 'd', 'i', 'n', 'g']) {
        return true;
    }
    if slice_is(&c, 0, n, &vec!['t', 'e', 'x', 't', '-', 'o', 'u', 't', 'l', 'i', 'n', 'e']) {
        return true;
    }
    if slice_is(&c, 0, n, &vec!['t', 'e', 'x', 't', '-', 'o', 'u', 't', 'l', 'i', 'n', 'e', '-', 'a', 'l', 'p', 'h', 'a']) {
        return true;
    }
    if slice_is(&c, 0, n, &vec!['t', 'e', 'x', 't', '-', 'o', 'u', 't', 'l', 'i', 'n', 'e', '-', 'w', 'i', 'd', 't', 'h']) {
        return true;
    }
    if slice_is(&c, 0, n, &vec!['v', 'a', 'l', 'i', 'g', 'n']) {
        return true;
    }
    false
}

/// The entries of `entries` whose keys are style keys, in order.
pub open spec fn style_entries(entries: Seq<(String, String)>) -> Seq<(String, String)>
    decreases entries.len(),
{
    if entries.len() == 0 {
        entries
    } else {
        let p = style_entries(entries.drop_last());
        if is_style_key(entries.last().0@) {
            p.push(entries.last())
        } else {
            p
        }
    }
}

/// Formatting information of a bar item.
#[derive(Debug)]
pub struct ItemFormat {
    pub markup: bool,
    pub oneline: bool,
    /// The style settings, unexpanded; none when there are none.
    pub cfg: Option<Vec<(String, String)>>,
}

impl ItemFormat {
    /// The formatting of an item configured with `entries` (key and value
    /// text): the style entries are kept, the others dropped.
    pub fn from_entries(entries: Vec<(String, String)>, markup: Option<bool>, oneline: Option<bool>) -> (r: ItemFormat)
        ensures
            r.markup == (markup == Some(true)),
            r.oneline == (oneline == Some(true)),
            style_entries(entries@).len() == 0 ==> r.cfg is None,
            style_entries(entries@).len() > 0 ==> r.cfg is Some && r.cfg->Some_0@ == style_entries(entries@),
    {
        let ghost all = entries@;
        let mut kept: Vec<(String, String)> = Vec::new();
        let mut rest = entries;
        let mut back: Vec<(String, String)> = Vec::new();
        // reverse first, so that entries come out in order when popped
        while rest.len() > 0
            invariant
                rest@.len() + back@.len() == all.len(),
                rest@ == all.subrange(0, rest@.len() as int),
                forall|k: int| 0 <= k < back@.len() ==> #[trigger] back@[k] == all[all.len() - 1 - k],
            decreases rest@.len(),
        {
            let ghost m = rest@.len();
            let ghost before = rest@;
            let e = rest.pop().unwrap();
            assert(e == all[m - 1]);
            assert(rest@ =~= all.subrange(0, rest@.len() as int));
            back.push(e);
        }
        while back.len() > 0
            invariant
                back@.len() <= all.len(),
                forall|k: int| 0 <= k < back@.len() ==> #[trigger] back@[k] == all[all.len() - 1 - k],
                kept@ == style_entries(all.subrange(0, all.len() - back@.len())),
            decreases back@.len(),
        {
            let ghost j = all.len() - back@.len();
            let e = back.pop().unwrap();
            assert(e == all[j]);
            assert(all.subrange(0, j + 1).drop_last() =~= all.subrange(0, j));
            if style_key(&e.0) {
                kept.push(e);
            }
        }
        assert(all.subrange(0, all.len() as int) =~= all);
        let cfg = if kept.len() == 0 {
            None
        } else {
            Some(kept)
        };
        ItemFormat {
            markup: match markup {
                Some(b) => b,
                None => false,
            },
            oneline: match oneline {
                Some(b) => b,
                None => false,
            },
            cfg,
        }
    }

    /// The style of an item whose settings expanded to `v`, and the
    /// surroundings its content sees within `env`.
    pub fn setup_ctx(v: &StyleValues, fonts: &Vec<String>, env: &Env) -> (r: (Style, Env))
        ensures
            r.0 == style_of(*v, fonts@),
            r.1 == child_env(*env, r.0),
    {
        let st = Style::expand(v, fonts);
        let e = env.under(&st);
        (st, e)
    }

    /// No style settings at all.
    pub fn is_trivial(&self) -> (r: bool)
        ensures
            r == self.cfg is None,
    {
        self.cfg.is_none()
    }
}

/// The expanded text of each style setting, when set.
#[derive(Debug, Default)]
pub struct StyleValues {
    pub align: Option<String>,
    pub halign: Option<String>,
    pub fg: Option<String>,
    pub fg_alpha: Option<String>,
    pub bg: Option<String>,
    pub bg_alpha: Option<String>,
    pub border: Option<String>,
    pub border_alpha: Option<String>,
    pub border_color: Option<String>,
    pub margin: Option<String>,
    pub padding: Option<String>,
    pub min_width: Option<String>,
    pub max_width: Option<String>,
    pub font: Option<String>,
    pub text_outline: Option<String>,
    pub text_outline_alpha: Option<String>,
    pub text_outline_width: Option<String>,
}

/// The index of the first font named `name`.
pub open spec fn font_index(fonts: Seq<String>, name: Seq<char>) -> Option<int>
    decreases fonts.len(),
{
    if fonts.len() == 0 {
        None
    } else if fonts[0]@ == name {
        Some(0)
    } else {
        match font_index(fonts.drop_first(), name) {
            Some(i) => Some(i + 1),
            None => None,
        }
    }
}

/// Finds the first font named `name`, see [`font_index`].
pub fn find_font(fonts: &Vec<String>, name: &String) -> (r: Option<usize>)
    ensures
        match r {
            Some(i) => font_index(fonts@, name@) == Some(i as int),
            None => font_index(fonts@, name@) is None,
        },
{
    let mut i: usize = 0;
    assert(fonts@.subrange(0, fonts@.len() as int) =~= fonts@);
    while i < fonts.len()
        invariant
            i <= fonts@.len(),
            font_index(fonts@, name@) == match font_index(fonts@.subrange(i as int, fonts@.len() as int), name@) {
                Some(j) => Some(j + i),
                None => None,
            },
        decreases fonts@.len() - i,
    {
        let ghost rest = fonts@.subrange(i as int, fonts@.len() as int);
        assert(rest.drop_first() =~= fonts@.subrange(i + 1, fonts@.len() as int));
        assert(rest[0] == fonts@[i as int]);
        if fonts[i] == *name {
            return Some(i);
        }
        i = i + 1;
    }
    None
}

/// The font and font size that the font setting `f` picks among `fonts`:
/// an unknown font name picks none.
pub open spec fn font_choice(fonts: Seq<String>, f: Option<String>) -> (Option<usize>, Option<i64>) {
    match f {
        Some(s) => {
            let (name, size) = font_of(s@);
            (
                match font_index(fonts, name) {
                    Some(i) => Some(i as usize),
                    None => None,
                },
                match size {
                    Some(z) => Some(z as i64),
                    None => None,
                },
            )
        },
        None => (None, None),
    }
}

pub open spec fn milli_setting(s: Option<String>) -> Option<i64> {
    match s {
        Some(v) => match milli_of(v@) {
            Some(m) => Some(m as i64),
            None => None,
        },
        None => None,
    }
}

pub open spec fn sview(s: Option<String>) -> Option<Seq<char>> {
    match s {
        Some(v) => Some(v@),
        None => None,
    }
}

pub open spec fn then_parse<T>(s: Option<String>, f: spec_fn(Seq<char>) -> Option<T>) -> Option<T> {
    match s {
        Some(v) => f(v@),
        None => None,
    }
}

/// The style that the expanded settings `v` describe, with fonts looked up
/// in `fonts`.  A value that does not parse counts as unset; `halign` wins
/// over `align`.
pub open spec fn style_of(v: StyleValues, fonts: Seq<String>) -> Style {
    let halign = match then_parse(v.halign, |s: Seq<char>| align_of(s)) {
        Some(a) => Some(a),
        None => then_parse(v.align, |s: Seq<char>| align_of(s)),
    };
    Style {
        fmt: Formatting {
            bg_rgba: rgba_of(sview(v.bg), then_parse(v.bg_alpha, |s: Seq<char>| alpha_of(s))),
            border: then_parse(v.border, |s: Seq<char>| trbl_of(s)),
            border_rgba: rgba_of(sview(v.border_color), then_parse(v.border_alpha, |s: Seq<char>| alpha_of(s))),
            min_width: then_parse(v.min_width, |s: Seq<char>| width_of(s)),
            max_width: then_parse(v.max_width, |s: Seq<char>| width_of(s)),
            margin: then_parse(v.margin, |s: Seq<char>| trbl_of(s)),
            padding: then_parse(v.padding, |s: Seq<char>| trbl_of(s)),
        },
        halign,
        font_color: rgba_of(sview(v.fg), then_parse(v.fg_alpha, |s: Seq<char>| alpha_of(s))),
        font: font_choice(fonts, v.font).0,
        font_size: font_choice(fonts, v.font).1,
        text_stroke: rgba_of(sview(v.text_outline), then_parse(v.text_outline_alpha, |s: Seq<char>| alpha_of(s))),
        text_stroke_size: milli_setting(v.text_outline_width),
    }
}

fn font(fonts: &Vec<String>, f: &Option<String>) -> (r: (Option<usize>, Option<i64>))
    ensures
        r == font_choice(fonts@, *f),
{
    match f {
        Some(s) => {
            let (name, size) = parse_font(s.as_str());
            (find_font(fonts, &name), size)
        },
        None => (None, None),
    }
}

fn milli(s: &Option<String>) -> (r: Option<i64>)
    ensures
        r == milli_setting(*s),
{
    match s {
        Some(v) => {
            let c = crate::text::chars_of(v.as_str());
            assert(c@.subrange(0, c@.len() as int) =~= c@);
            milli_at(&c, 0, c.len())
        },
        None => None,
    }
}

fn opt_str(s: &Option<String>) -> (r: Option<&str>)
    ensures
        match r {
            Some(v) => *s matches Some(w) && v@ == w@,
            None => s is None,
        },
{
    match s {
        Some(v) => Some(v.as_str()),
        None => None,
    }
}

fn alpha(s: &Option<String>) -> (r: Option<i64>)
    ensures
        match r {
            Some(a) => then_parse(*s, |t: Seq<char>| alpha_of(t)) == Some(a as int),
            None => then_parse(*s, |t: Seq<char>| alpha_of(t)) is None,
        },
{
    match s {
        Some(v) => parse_alpha(v.as_str()),
        None => None,
    }
}

fn color(c: &Option<String>, a: &Option<String>) -> (r: Option<Rgba>)
    ensures
        r == rgba_of(sview(*c), then_parse(*a, |t: Seq<char>| alpha_of(t))),
{
    let av = alpha(a);
    let cs = opt_str(c);
    let r = Formatting::parse_rgba(cs, av);
    proof {
        let x = match cs { Some(s) => Some(s@), None => None };
        assert(x == sview(*c));
        let y = match av { Some(v) => Some(v as int), None => None };
        assert(y == then_parse(*a, |t: Seq<char>| alpha_of(t)));
    }
    r
}

fn trbl(s: &Option<String>) -> (r: Option<crate::style::Trbl>)
    ensures
        r == then_parse(*s, |t: Seq<char>| trbl_of(t)),
{
    match s {
        Some(v) => parse_trbl(v.as_str()),
        None => None,
    }
}

fn width(s: &Option<String>) -> (r: Option<Width>)
    ensures
        r == then_parse(*s, |t: Seq<char>| width_of(t)),
{
    match s {
        Some(v) => Width::from_str(v.as_str()),
        None => None,
    }
}

fn align(s: &Option<String>) -> (r: Option<i64>)
    ensures
        r == then_parse(*s, |t: Seq<char>| align_of(t)),
{
    match s {
        Some(v) => parse_align(v.as_str()),
        None => None,
    }
}

impl Style {
    /// The style that expanded settings describe, see [`style_of`].
    pub fn expand(v: &StyleValues, fonts: &Vec<String>) -> (r: Style)
        ensures
            r == style_of(*v, fonts@),
    {
        let (f, size) = font(fonts, &v.font);
        let h = match align(&v.halign) {
            Some(a) => Some(a),
            None => align(&v.align),
        };
        Style {
            fmt: Formatting {
                bg_rgba: color(&v.bg, &v.bg_alpha),
                border: trbl(&v.border),
                border_rgba: color(&v.border_color, &v.border_alpha),
                min_width: width(&v.min_width),
                max_width: width(&v.max_width),
                margin: trbl(&v.margin),
                padding: trbl(&v.padding),
            },
            halign: h,
            font_color: color(&v.fg, &v.fg_alpha),
            font: f,
            font_size: size,
            text_stroke: color(&v.text_outline, &v.text_outline_alpha),
            text_stroke_size: milli(&v.text_outline_width),
        }
    }
}

} // verus!
