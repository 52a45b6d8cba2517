//! The item tree and the recursive layout that turns it into draw
//! operations and interactive regions.
//!
//! Items live in an arena ([`ItemTree`]); an item refers to its children by
//! index, and every child index is smaller than its parent's, so the tree is
//! acyclic and a child may be shared by several parents.
use vstd::prelude::*;
use crate::color::Rgba;
use crate::event::{
    EventSink, PopupDesc, Region, clamp_region, offset_clamp_regions, tooltip_region, with_item,
};
use crate::geom::{
    Point, Rect, sat, min, max, permille, rect_shift, rect_meet, add_px, sub_px, min_px, max_px,
    permille_px,
};
use crate::style::{Formatting, Style, Trbl, Width, shrink_of, formatting_is_boring};

verus! {

/// What the popup of a text item shows.
#[derive(Clone, Copy, Debug, PartialEq, Eq, Structural)]
pub enum Tooltip {
    /// No popup.
    Empty,
    /// The item's tooltip text, measured at `width` by `height`.
    Text { width: i64, height: i64 },
    /// Another item, rendered in the popup.
    Item(usize),
}

/// One entry of a focus list: its iteration token and the item shown for it.
#[derive(Clone, Copy, Debug, PartialEq, Eq, Structural)]
pub struct FocusEntry {
    pub token: u64,
    pub item: usize,
}

/// The content of an item.
#[derive(Clone, Debug)]
pub enum Module {
    /// A measured piece of text (or an icon), drawn by the text renderer.
    Text { width: i64, height: i64, tooltip: Tooltip },
    /// Children laid out in order, left to right or top to bottom.
    Group {
        items: Vec<usize>,
        spacing: i64,
        vertical: bool,
        /// The group's condition held; a hidden group renders nothing.
        visible: bool,
        tooltip: Option<usize>,
    },
    /// One item per entry, each tagged with the entry's token.
    FocusList { entries: Vec<FocusEntry>, spacing: i64 },
    /// Left, center and right content sharing one width.
    Bar { left: usize, center: usize, right: usize },
    /// Another item, found by name; nothing when the name is unknown.
    Ref { target: Option<usize> },
}

/// A node of the item tree.
#[derive(Clone, Debug)]
pub struct Item {
    pub format: Option<Style>,
    pub data: Module,
    /// The item's own regions (click handlers), before layout.
    pub events: EventSink,
}

/// An arena of items.
#[derive(Clone, Debug)]
pub struct ItemTree {
    pub nodes: Vec<Item>,
}

/// How texts are drawn: font (by index in the font list), size (in
/// thousandths of a pixel), color and outline.
#[derive(Clone, Copy, Debug, PartialEq, Eq, Structural)]
pub struct TextStyle {
    pub font: usize,
    pub size: i64,
    pub color: Rgba,
    pub stroke: Option<Rgba>,
    pub stroke_size: Option<i64>,
}

/// A draw operation, in bar coordinates, cut to `clip`.
#[derive(Clone, Copy, Debug, PartialEq, Eq, Structural)]
pub enum DrawOp {
    /// Draw the text of item `node` with its top left corner at `at`.
    Text { node: usize, at: Point, text: TextStyle, clip: Rect },
    /// Draw the tooltip text of item `node` with its top left corner at `at`.
    Tooltip { node: usize, at: Point, text: TextStyle, clip: Rect },
    /// Fill `rect`; `under` paints beneath what is already drawn.
    Fill { rect: Rect, color: Rgba, under: bool, clip: Rect },
}

/// What the content of an item sees of its surroundings.
#[derive(Clone, Copy, Debug, PartialEq, Eq, Structural)]
pub struct Env {
    /// The area the content may use.
    pub clip: Rect,
    /// The content may run past the right edge of `clip`.
    pub flex: bool,
    /// Horizontal alignment in thousandths, when set.
    pub halign: Option<i64>,
    pub text: TextStyle,
    /// The iteration entry being rendered, if any.
    pub iter: Option<u64>,
}

/// The state threaded through a render pass: the surroundings, the paint
/// cursor and the operations drawn so far.
#[derive(Debug)]
pub struct Render {
    pub env: Env,
    pub pos: Point,
    pub canvas: Vec<DrawOp>,
}

/// What rendering an item does: where the cursor ends, what it draws and
/// which regions it reports.
pub struct Out {
    pub pos: Point,
    pub ops: Seq<DrawOp>,
    pub events: Seq<Region>,
}

pub open spec fn out(pos: Point, ops: Seq<DrawOp>, events: Seq<Region>) -> Out {
    Out { pos, ops, events }
}

pub open spec fn nothing(pos: Point) -> Out {
    out(pos, Seq::empty(), Seq::empty())
}

pub open spec fn place_op(op: DrawOp, dx: int, win: Rect) -> DrawOp {
    match op {
        DrawOp::Text { node, at, text, clip } => DrawOp::Text {
            node,
            at: Point { x: sat(at.x + dx) as i64, y: at.y },
            text,
            clip: rect_meet(rect_shift(clip, dx), win),
        },
        DrawOp::Tooltip { node, at, text, clip } => DrawOp::Tooltip {
            node,
            at: Point { x: sat(at.x + dx) as i64, y: at.y },
            text,
            clip: rect_meet(rect_shift(clip, dx), win),
        },
        DrawOp::Fill { rect, color, under, clip } => DrawOp::Fill {
            rect: rect_shift(rect, dx),
            color,
            under,
            clip: rect_meet(rect_shift(clip, dx), win),
        },
    }
}

/// The operations moved right by `dx` and cut to `win`.
pub open spec fn place_ops(s: Seq<DrawOp>, dx: int, win: Rect) -> Seq<DrawOp> {
    s.map_values(|op: DrawOp| place_op(op, dx, win))
}

/// The surroundings of an item's content under its style.
pub open spec fn child_env(env: Env, st: Style) -> Env {
    Env {
        halign: if st.halign is Some {
            st.halign
        } else {
            env.halign
        },
        text: TextStyle {
            font: match st.font {
                Some(f) => f,
                None => env.text.font,
            },
            size: match st.font_size {
                Some(z) => z,
                None => env.text.size,
            },
            color: match st.font_color {
                Some(c) => c,
                None => env.text.color,
            },
            stroke: if st.text_stroke is Some {
                st.text_stroke
            } else {
                env.text.stroke
            },
            stroke_size: if st.text_stroke_size is Some {
                st.text_stroke_size
            } else {
                env.text.stroke_size
            },
        },
        ..env
    }
}

/// A style that changes nothing: boring formatting, no alignment, no color.
pub open spec fn style_is_identity(st: Style) -> bool {
    formatting_is_boring(st.fmt) && st.halign is None && st.font_color is None && st.font is None
        && st.font_size is None && st.text_stroke is None && st.text_stroke_size is None
}

/// The clip of a text drawn in `env`: open to the right when flexible.
pub open spec fn text_clip(env: Env) -> Rect {
    if env.flex {
        Rect { x1: i64::MAX, ..env.clip }
    } else {
        env.clip
    }
}

pub open spec fn tooltip_regions(idx: int, tt: Tooltip, iter: Option<u64>) -> Seq<Region> {
    match tt {
        Tooltip::Empty => Seq::empty(),
        Tooltip::Text { .. } => seq![tooltip_region(PopupDesc::TextItem { source: idx as usize, iter })],
        Tooltip::Item(j) => seq![tooltip_region(PopupDesc::RenderItem { item: j, iter })],
    }
}

/// Where the content of a formatted box starts and what it sees.
#[derive(Clone, Copy, Debug)]
pub struct BoxStart {
    pub env: Env,
    pub start: Point,
    pub shrink: Option<Trbl>,
}

/// The inner box of formatting `f` placed at `pos` in `env`: the insets of
/// padding, margin and border shrink the clip and move the start, and a
/// maximum width cuts the clip further.
pub open spec fn box_start(f: Formatting, env: Env, pos: Point) -> BoxStart {
    let shrink = shrink_of(f);
    let outer = env.clip;
    let (clip1, start1) = match shrink {
        Some(s) => (
            Rect {
                x0: sat(outer.x0 + s.left) as i64,
                y0: sat(outer.y0 + s.top) as i64,
                x1: sat(outer.x1 - s.right) as i64,
                y1: sat(outer.y1 - s.bottom) as i64,
            },
            Point { x: sat(pos.x + s.left) as i64, y: sat(pos.y + s.top) as i64 },
        ),
        None => (outer, pos),
    };
    let (clip2, flex) = match f.max_width {
        Some(Width::Pixels(n)) => {
            let clip_at = sat(start1.x + n);
            if clip1.x1 > clip_at {
                (Rect { x1: clip_at as i64, ..clip1 }, false)
            } else {
                (clip1, env.flex)
            }
        },
        Some(Width::Fraction(fr)) => {
            let pw = sat(outer.x1 - outer.x0);
            (Rect { x1: min(clip1.x1 as int, sat(start1.x + sat(permille(pw, fr as int)))) as i64, ..clip1 }, false)
        },
        None => (clip1, env.flex),
    };
    BoxStart { env: Env { clip: clip2, flex, ..env }, start: start1, shrink }
}

/// The minimum width of formatting `f`, limited to the room in `b`.
pub open spec fn box_min_width(f: Formatting, outer: Rect, b: BoxStart) -> int {
    let m = match f.min_width {
        None => 0,
        Some(Width::Pixels(n)) => n as int,
        Some(Width::Fraction(fr)) => sat(permille(sat(outer.x1 - outer.x0), fr as int)),
    };
    let room = sat(b.env.clip.x1 - b.start.x);
    if m > room {
        room
    } else {
        m
    }
}

/// How far content of width `w` moves right inside a box of minimum width
/// `m` under alignment `halign`.
pub open spec fn align_offset(w: int, m: int, halign: Option<i64>) -> int {
    if w < m {
        match halign {
            Some(fr) => sat(permille(sat(m - w), fr as int)),
            None => 0,
        }
    } else {
        0
    }
}

/// The background and border of a box whose content spans `s..e`.
pub open spec fn box_paint(f: Formatting, env: Env, s: Point, e: Point) -> Seq<DrawOp> {
    let bg = match f.padding {
        Some(p) => Rect {
            x0: sat(s.x - p.left) as i64,
            y0: sat(s.y - p.top) as i64,
            x1: sat(e.x + p.right) as i64,
            y1: sat(e.y + p.bottom) as i64,
        },
        None => Rect { x0: s.x, y0: s.y, x1: e.x, y1: e.y },
    };
    let fill = match f.bg_rgba {
        Some(c) => seq![DrawOp::Fill { rect: bg, color: c, under: true, clip: Rect::spec_all() }],
        None => Seq::empty(),
    };
    let border = match f.border {
        Some(t) => {
            let c = match f.border_rgba {
                Some(c) => c,
                None => env.text.color,
            };
            let top = sat(bg.y0 - t.top) as i64;
            let left = sat(bg.x0 - t.left) as i64;
            let right = sat(bg.x1 + t.right) as i64;
            let bottom = sat(bg.y1 + t.bottom) as i64;
            seq![
                DrawOp::Fill { rect: Rect { x0: bg.x0, y0: top, x1: bg.x1, y1: bg.y0 }, color: c, under: false, clip: Rect::spec_all() },
                DrawOp::Fill { rect: Rect { x0: left, y0: top, x1: bg.x0, y1: bg.y1 }, color: c, under: false, clip: Rect::spec_all() },
                DrawOp::Fill { rect: Rect { x0: bg.x1, y0: top, x1: right, y1: bg.y1 }, color: c, under: false, clip: Rect::spec_all() },
                DrawOp::Fill { rect: Rect { x0: left, y0: bg.y1, x1: right, y1: bottom }, color: c, under: false, clip: Rect::spec_all() },
            ]
        },
        None => Seq::empty(),
    };
    fill + border
}

/// The right edge of a box's slot for its regions: the end of its content,
/// or further when the minimum width `m` reaches further.
pub open spec fn box_slot_end(b: BoxStart, end: Point, m: int) -> int {
    max(end.x as int, sat(b.start.x + m))
}

/// A formatted box whose content, started as `b` says, ended at `end0`,
/// drew `ops` and reported `events` (the item's own regions first).
pub open spec fn box_finish(
    f: Formatting,
    env: Env,
    b: BoxStart,
    events: Seq<Region>,
    end0: Point,
    ops: Seq<DrawOp>,
) -> Out {
    let m = box_min_width(f, env.clip, b);
    let w = sat(end0.x - b.start.x);
    let off = align_offset(w, m, b.env.halign);
    let end = if !b.env.flex {
        Point { x: min(end0.x as int, b.env.clip.x1 as int) as i64, y: end0.y }
    } else {
        end0
    };
    let (sr, sb) = match b.shrink {
        Some(s) => (s.right as int, s.bottom as int),
        None => (0, 0),
    };
    let outer_pos = Point { x: sat(end.x + sr) as i64, y: sat(end.y + sb) as i64 };
    let events = offset_clamp_regions(events, off, b.start.x as int, box_slot_end(b, end, m));
    let paint = if f.bg_rgba is Some || f.border is Some {
        box_paint(f, b.env, b.start, end)
    } else {
        Seq::empty()
    };
    out(outer_pos, place_ops(ops, off, Rect::spec_all()) + paint, events)
}

/// The state of a group after some of its children.
pub struct GroupAcc {
    pub pos: Point,
    pub bounds: Point,
    pub ops: Seq<DrawOp>,
    pub events: Seq<Region>,
}

/// Moves the cursor of a group past a child that ended at `p`.
pub open spec fn group_step(
    vertical: bool,
    spacing: int,
    origin: Point,
    bounds: Point,
    p: Point,
) -> (Point, Point) {
    if vertical {
        let bx = if p.x > bounds.x {
            p.x
        } else {
            bounds.x
        };
        let y = if spacing > 0 {
            sat(p.y + spacing) as i64
        } else {
            p.y
        };
        (Point { x: origin.x, y }, Point { x: bx, y: p.y })
    } else {
        let by = if p.y > bounds.y {
            p.y
        } else {
            bounds.y
        };
        let x = if spacing > 0 {
            sat(p.x + spacing) as i64
        } else {
            p.x
        };
        (Point { x, y: origin.y }, Point { x: p.x, y: by })
    }
}

/// The group `idx` after its first `k` children.
pub open spec fn group_fold(
    t: ItemTree,
    idx: int,
    items: Seq<usize>,
    spacing: int,
    vertical: bool,
    env: Env,
    origin: Point,
    k: int,
) -> GroupAcc
    decreases idx, 0int, k,
{
    if k <= 0 || k > items.len() {
        GroupAcc { pos: origin, bounds: origin, ops: Seq::empty(), events: Seq::empty() }
    } else {
        let a = group_fold(t, idx, items, spacing, vertical, env, origin, k - 1);
        let c = items[k - 1] as int;
        let o = if 0 <= c < idx {
            render_out(t, c, env, a.pos)
        } else {
            nothing(a.pos)
        };
        let ev = offset_clamp_regions(o.events, 0, a.pos.x as int, o.pos.x as int);
        let (pos, bounds) = group_step(vertical, spacing, origin, a.bounds, o.pos);
        GroupAcc { pos, bounds, ops: a.ops + o.ops, events: a.events + ev }
    }
}

/// The focus list `idx` after its first `k` entries.
pub open spec fn focus_fold(
    t: ItemTree,
    idx: int,
    entries: Seq<FocusEntry>,
    spacing: int,
    env: Env,
    origin: Point,
    k: int,
) -> Out
    decreases idx, 0int, k,
{
    if k <= 0 || k > entries.len() {
        nothing(origin)
    } else {
        let a = focus_fold(t, idx, entries, spacing, env, origin, k - 1);
        let e = entries[k - 1];
        let c = e.item as int;
        let o = if 0 <= c < idx {
            render_out(t, c, Env { iter: Some(e.token), ..env }, a.pos)
        } else {
            nothing(a.pos)
        };
        let ev = with_item(offset_clamp_regions(o.events, 0, a.pos.x as int, o.pos.x as int), e.token);
        out(Point { x: sat(o.pos.x + spacing) as i64, y: origin.y }, a.ops + o.ops, a.events + ev)
    }
}

/// `v / 2` rounded down.
pub open spec fn floor_half(v: int) -> int {
    if v >= 0 {
        v / 2
    } else {
        -((-v + 1) / 2)
    }
}

/// Where the center content of a sub-bar `width` wide, ending at `x1`,
/// starts: centered, unless the left content reaches past the centered
/// position (then just after it) or the right content does (then just
/// before it).
pub open spec fn center_place(width: int, x1: int, left_size: int, right_width: int, cent_size: int) -> int {
    let max_side = sat(floor_half(width - cent_size));
    if left_size > max_side {
        left_size
    } else if right_width > max_side {
        sat(sat(x1 - right_width) - cent_size)
    } else {
        max_side
    }
}

/// The sub-bar `idx`: left content in place, right content against the
/// right edge, center content centered when there is room.
pub open spec fn bar_out(t: ItemTree, idx: int, left: int, center: int, right: int, env: Env, pos: Point) -> Out
    decreases idx, 0int, 0int,
{
    let clip = env.clip;
    let width = sat(clip.x1 - pos.x);
    let height = sat(clip.y1 - pos.y);
    let lo = if 0 <= left < idx { render_out(t, left, env, pos) } else { nothing(pos) };
    let left_size = lo.pos.x as int;
    let lev = offset_clamp_regions(lo.events, 0, 0, left_size);
    let genv = Env { clip: Rect { x0: 0, y0: 0, x1: width as i64, y1: height as i64 }, ..env };
    let origin = Point { x: 0, y: 0 };
    let ro = if 0 <= right < idx { render_out(t, right, genv, origin) } else { nothing(origin) };
    let right_width = ro.pos.x as int;
    let right_offset = sat(clip.x1 - right_width);
    let rwin = Rect { x0: right_offset as i64, y0: 0, x1: sat(right_offset + width) as i64, y1: height as i64 };
    let rops = place_ops(ro.ops, right_offset, rwin);
    let rev = offset_clamp_regions(ro.events, right_offset, right_offset, clip.x1 as int);
    let co = if 0 <= center < idx { render_out(t, center, genv, origin) } else { nothing(origin) };
    let cent_size = co.pos.x as int;
    let total_room = width - (left_size + right_width + cent_size);
    if total_room < 0 {
        out(lo.pos, lo.ops + rops, lev + rev)
    } else {
        let cent_offset = center_place(width, clip.x1 as int, left_size, right_width, cent_size);
        let cwin = Rect { x0: cent_offset as i64, y0: 0, x1: sat(cent_offset + width) as i64, y1: height as i64 };
        let cops = place_ops(co.ops, cent_offset, cwin);
        let cev = offset_clamp_regions(co.events, cent_offset, cent_offset, sat(cent_offset + cent_size));
        out(Point { x: clip.x1, y: lo.pos.y }, lo.ops + rops + cops, lev + rev + cev)
    }
}

/// What the content of item `idx` does, without its style and own regions.
pub open spec fn inner_out(t: ItemTree, idx: int, env: Env, pos: Point) -> Out
    decreases idx, 1int, 0int,
{
    if idx < 0 || idx >= t.nodes@.len() {
        nothing(pos)
    } else {
        match t.nodes@[idx].data {
            Module::Text { width, height, tooltip } => out(
                Point { x: sat(pos.x + width) as i64, y: sat(pos.y + height) as i64 },
                seq![DrawOp::Text { node: idx as usize, at: pos, text: env.text, clip: text_clip(env) }],
                tooltip_regions(idx, tooltip, env.iter),
            ),
            Module::Group { items, spacing, vertical, visible, tooltip } => if !visible {
                nothing(pos)
            } else {
                let a = group_fold(t, idx, items@, spacing as int, vertical, env, pos, items@.len() as int);
                let tt = match tooltip {
                    Some(j) => seq![tooltip_region(PopupDesc::RenderItem { item: j, iter: env.iter })],
                    None => Seq::empty(),
                };
                out(a.bounds, a.ops, a.events + tt)
            },
            Module::FocusList { entries, spacing } => {
                let a = focus_fold(t, idx, entries@, spacing as int, env, pos, entries@.len() as int);
                let x = if entries@.len() > 0 {
                    min(a.pos.x as int, sat(a.pos.x - spacing)) as i64
                } else {
                    a.pos.x
                };
                out(Point { x, y: a.pos.y }, a.ops, a.events)
            },
            Module::Bar { left, center, right } => bar_out(t, idx, left as int, center as int, right as int, env, pos),
            Module::Ref { target } => match target {
                Some(j) => if 0 <= j < idx {
                    render_out(t, j as int, env, pos)
                } else {
                    nothing(pos)
                },
                None => nothing(pos),
            },
        }
    }
}

/// What rendering item `idx` at `pos` in `env` does.
pub open spec fn render_out(t: ItemTree, idx: int, env: Env, pos: Point) -> Out
    decreases idx, 2int, 0int,
{
    if idx < 0 || idx >= t.nodes@.len() {
        nothing(pos)
    } else if !env.flex && pos.x > env.clip.x1 {
        nothing(pos)
    } else {
        let item = t.nodes@[idx];
        match item.format {
            None => {
                let o = inner_out(t, idx, env, pos);
                out(o.pos, o.ops, item.events@ + o.events)
            },
            Some(st) => {
                let cenv = child_env(env, st);
                if formatting_is_boring(st.fmt) {
                    let o = inner_out(t, idx, cenv, pos);
                    out(o.pos, o.ops, item.events@ + o.events)
                } else {
                    let b = box_start(st.fmt, cenv, pos);
                    let o = inner_out(t, idx, b.env, b.start);
                    box_finish(st.fmt, cenv, b, item.events@ + o.events, o.pos, o.ops)
                }
            },
        }
    }
}

/// Every child index of every item is smaller than the item's own.
pub open spec fn tree_wf(t: ItemTree) -> bool {
    forall|i: int| 0 <= i < t.nodes@.len() ==> #[trigger] node_wf(t.nodes@[i], i)
}

pub open spec fn node_wf(item: Item, i: int) -> bool {
    match item.data {
        Module::Text { tooltip, .. } => match tooltip {
            Tooltip::Item(j) => j < i,
            _ => true,
        },
        Module::Group { items, tooltip, .. } => (forall|k: int| 0 <= k < items@.len() ==> #[trigger] items@[k] < i)
            && match tooltip {
            Some(j) => j < i,
            None => true,
        },
        Module::FocusList { entries, .. } => forall|k: int| 0 <= k < entries@.len() ==> #[trigger] entries@[k].item < i,
        Module::Bar { left, center, right } => left < i && center < i && right < i,
        Module::Ref { target } => match target {
            Some(j) => j < i,
            None => true,
        },
    }
}

} // verus!

verus! {

impl DrawOp {
    /// This operation moved right by `dx` and cut to `win`.
    pub fn placed(&self, dx: i64, win: &Rect) -> (r: DrawOp)
        ensures
            r == place_op(*self, dx as int, *win),
    {
        match *self {
            DrawOp::Text { node, at, text, clip } => DrawOp::Text {
                node,
                at: Point { x: add_px(at.x, dx), y: at.y },
                text,
                clip: clip.shift(dx).meet(win),
            },
            DrawOp::Tooltip { node, at, text, clip } => DrawOp::Tooltip {
                node,
                at: Point { x: add_px(at.x, dx), y: at.y },
                text,
                clip: clip.shift(dx).meet(win),
            },
            DrawOp::Fill { rect, color, under, clip } => DrawOp::Fill {
                rect: rect.shift(dx),
                color,
                under,
                clip: clip.shift(dx).meet(win),
            },
        }
    }
}

/// Appends `src`, moved right by `dx` and cut to `win`, to `dst`.
fn place_ops_into(src: &Vec<DrawOp>, dx: i64, win: &Rect, dst: &mut Vec<DrawOp>)
    ensures
        final(dst)@ == old(dst)@ + place_ops(src@, dx as int, *win),
{
    let ghost d0 = dst@;
    let mut i: usize = 0;
    while i < src.len()
        invariant
            i <= src@.len(),
            dst@ == d0 + place_ops(src@.subrange(0, i as int), dx as int, *win),
        decreases src@.len() - i,
    {
        dst.push(src[i].placed(dx, win));
        i = i + 1;
        assert(place_ops(src@.subrange(0, i as int), dx as int, *win) =~= place_ops(
            src@.subrange(0, i - 1),
            dx as int,
            *win,
        ).push(place_op(src@[i - 1], dx as int, *win)));
    }
    assert(src@.subrange(0, i as int) =~= src@);
}

impl Env {
    /// The surroundings of content under style `st`.
    pub fn under(&self, st: &Style) -> (r: Env)
        ensures
            r == child_env(*self, *st),
    {
        Env {
            halign: if st.halign.is_some() {
                st.halign
            } else {
                self.halign
            },
            text: TextStyle {
                font: match st.font {
                    Some(f) => f,
                    None => self.text.font,
                },
                size: match st.font_size {
                    Some(z) => z,
                    None => self.text.size,
                },
                color: match st.font_color {
                    Some(c) => c,
                    None => self.text.color,
                },
                stroke: if st.text_stroke.is_some() {
                    st.text_stroke
                } else {
                    self.text.stroke
                },
                stroke_size: if st.text_stroke_size.is_some() {
                    st.text_stroke_size
                } else {
                    self.text.stroke_size
                },
            },
            ..*self
        }
    }
}

fn shrink_box(f: &Formatting, env: &Env, pos: Point) -> (r: BoxStart)
    ensures
        r == box_start(*f, *env, pos),
{
    let shrink = f.get_shrink();
    let outer = env.clip;
    let (clip1, start1) = match shrink {
        Some(s) => (
            Rect {
                x0: add_px(outer.x0, s.left),
                y0: add_px(outer.y0, s.top),
                x1: sub_px(outer.x1, s.right),
                y1: sub_px(outer.y1, s.bottom),
            },
            Point { x: add_px(pos.x, s.left), y: add_px(pos.y, s.top) },
        ),
        None => (outer, pos),
    };
    let (clip2, flex) = match f.max_width {
        Some(Width::Pixels(n)) => {
            let clip_at = add_px(start1.x, n);
            if clip1.x1 > clip_at {
                (Rect { x1: clip_at, ..clip1 }, false)
            } else {
                (clip1, env.flex)
            }
        },
        Some(Width::Fraction(fr)) => {
            let pw = sub_px(outer.x1, outer.x0);
            (Rect { x1: min_px(clip1.x1, add_px(start1.x, permille_px(pw, fr))), ..clip1 }, false)
        },
        None => (clip1, env.flex),
    };
    BoxStart { env: Env { clip: clip2, flex, ..*env }, start: start1, shrink }
}

fn box_paint_into(f: &Formatting, env: &Env, s: Point, e: Point, dst: &mut Vec<DrawOp>)
    ensures
        final(dst)@ == old(dst)@ + box_paint(*f, *env, s, e),
{
    let bg = match f.padding {
        Some(p) => Rect {
            x0: sub_px(s.x, p.left),
            y0: sub_px(s.y, p.top),
            x1: add_px(e.x, p.right),
            y1: add_px(e.y, p.bottom),
        },
        None => Rect { x0: s.x, y0: s.y, x1: e.x, y1: e.y },
    };
    let ghost d0 = dst@;
    let all = Rect::all();
    match f.bg_rgba {
        Some(c) => dst.push(DrawOp::Fill { rect: bg, color: c, under: true, clip: all }),
        None => {},
    }
    let ghost d1 = dst@;
    match f.border {
        Some(t) => {
            let c = match f.border_rgba {
                Some(c) => c,
                None => env.text.color,
            };
            let top = sub_px(bg.y0, t.top);
            let left = sub_px(bg.x0, t.left);
            let right = add_px(bg.x1, t.right);
            let bottom = add_px(bg.y1, t.bottom);
            dst.push(DrawOp::Fill { rect: Rect { x0: bg.x0, y0: top, x1: bg.x1, y1: bg.y0 }, color: c, under: false, clip: all });
            dst.push(DrawOp::Fill { rect: Rect { x0: left, y0: top, x1: bg.x0, y1: bg.y1 }, color: c, under: false, clip: all });
            dst.push(DrawOp::Fill { rect: Rect { x0: bg.x1, y0: top, x1: right, y1: bg.y1 }, color: c, under: false, clip: all });
            dst.push(DrawOp::Fill { rect: Rect { x0: left, y0: bg.y1, x1: right, y1: bottom }, color: c, under: false, clip: all });
        },
        None => {},
    }
    assert(dst@ =~= d0 + box_paint(*f, *env, s, e));
}

/// Finishes a formatted box: aligns the content that `inner` drew, cuts the
/// regions to the content's slot, paints background and border into
/// `ctx` and moves its cursor past the box.
fn finish_box(
    f: &Formatting,
    env: &Env,
    b: &BoxStart,
    mut events: EventSink,
    inner: &Render,
    ctx: &mut Render,
) -> (r: EventSink)
    ensures
        ({
            let o = box_finish(*f, *env, *b, events@, inner.pos, inner.canvas@);
            &&& final(ctx).env == old(ctx).env
            &&& final(ctx).pos == o.pos
            &&& final(ctx).canvas@ == old(ctx).canvas@ + o.ops
            &&& r@ == o.events
        }),
{
    let ghost ev0 = events@;
    let outer = env.clip;
    let m0: i64 = match f.min_width {
        None => 0,
        Some(Width::Pixels(n)) => n,
        Some(Width::Fraction(fr)) => permille_px(sub_px(outer.x1, outer.x0), fr),
    };
    let room = sub_px(b.env.clip.x1, b.start.x);
    let m = if m0 > room {
        room
    } else {
        m0
    };
    assert(m == box_min_width(*f, env.clip, *b));
    let end0 = inner.pos;
    let w = sub_px(end0.x, b.start.x);
    let off: i64 = if w < m {
        match b.env.halign {
            Some(fr) => permille_px(sub_px(m, w), fr),
            None => 0,
        }
    } else {
        0
    };
    assert(off == align_offset(w as int, m as int, b.env.halign));
    let end = if !b.env.flex {
        Point { x: min_px(end0.x, b.env.clip.x1), y: end0.y }
    } else {
        end0
    };
    let (sr, sb): (i64, i64) = match b.shrink {
        Some(s) => (s.right, s.bottom),
        None => (0, 0),
    };
    let outer_pos = Point { x: add_px(end.x, sr), y: add_px(end.y, sb) };
    let slot_end = max_px(end.x, add_px(b.start.x, m));
    events.offset_clamp(off, b.start.x, slot_end);
    let all = Rect::all();
    place_ops_into(&inner.canvas, off, &all, &mut ctx.canvas);
    if f.bg_rgba.is_some() || f.border.is_some() {
        box_paint_into(f, &b.env, b.start, end, &mut ctx.canvas);
    }
    ctx.pos = outer_pos;
    proof {
        let o = box_finish(*f, *env, *b, ev0, inner.pos, inner.canvas@);
        assert(ctx.canvas@ =~= old(ctx).canvas@ + o.ops);
    }
    events
}

} // verus!

verus! {

/// The effect of rendering: the surroundings kept, the cursor moved, the
/// operations appended and the regions returned as `o` says.
pub open spec fn rendered(before: Render, after: Render, r: Seq<Region>, o: Out) -> bool {
    &&& after.env == before.env
    &&& after.pos == o.pos
    &&& after.canvas@ == before.canvas@ + o.ops
    &&& r == o.events
}

impl Item {
    /// Renders item `idx` of `t` at the cursor of `ctx`.
    ///
    /// Content past the right edge of a clip that is not flexible is
    /// skipped.  A style's box insets, maximum and minimum widths, alignment,
    /// background and border are applied around the content, and the
    /// regions are returned in the coordinates of `ctx`.
    pub fn render(t: &ItemTree, idx: usize, ctx: &mut Render) -> (r: EventSink)
        requires
            tree_wf(*t),
            idx < t.nodes@.len(),
        ensures
            rendered(*old(ctx), *final(ctx), r@, render_out(*t, idx as int, old(ctx).env, old(ctx).pos)),
        decreases idx, 2int, 0int,
    {
        if !ctx.env.flex && ctx.pos.x > ctx.env.clip.x1 {
            return EventSink::new();
        }
        let item = &t.nodes[idx];
        let mut rv = item.events.copy();
        match item.format {
            None => {
                let ev = Item::render_inner(t, idx, ctx);
                rv.merge(ev);
                rv
            },
            Some(st) => {
                let env = ctx.env;
                let cenv = env.under(&st);
                if st.fmt.is_boring() {
                    ctx.env = cenv;
                    let ev = Item::render_inner(t, idx, ctx);
                    ctx.env = env;
                    rv.merge(ev);
                    rv
                } else {
                    let b = shrink_box(&st.fmt, &cenv, ctx.pos);
                    let mut inner = Render { env: b.env, pos: b.start, canvas: Vec::new() };
                    let ev = Item::render_inner(t, idx, &mut inner);
                    assert(inner.canvas@ =~= Seq::<DrawOp>::empty() + inner.canvas@);
                    rv.merge(ev);
                    finish_box(&st.fmt, &cenv, &b, rv, &inner, ctx)
                }
            },
        }
    }

    /// Renders item `idx` and adds its regions, cut to the span it used, to
    /// `ev`.
    pub fn render_clamped(t: &ItemTree, idx: usize, ctx: &mut Render, ev: &mut EventSink)
        requires
            tree_wf(*t),
            idx < t.nodes@.len(),
        ensures
            ({
                let o = render_out(*t, idx as int, old(ctx).env, old(ctx).pos);
                &&& final(ctx).env == old(ctx).env
                &&& final(ctx).pos == o.pos
                &&& final(ctx).canvas@ == old(ctx).canvas@ + o.ops
                &&& final(ev)@ == old(ev)@ + offset_clamp_regions(
                    o.events,
                    0,
                    old(ctx).pos.x as int,
                    o.pos.x as int,
                )
            }),
        decreases idx, 3int, 0int,
    {
        let x0 = ctx.pos.x;
        let mut rv = Item::render(t, idx, ctx);
        let x1 = ctx.pos.x;
        rv.offset_clamp(0, x0, x1);
        ev.merge(rv);
    }

    /// Renders item `idx` for the iteration entry `item`: its regions are cut
    /// to the span it used, tagged with `item` and added to `ev`, and the
    /// cursor returns to the starting row.
    pub fn render_clamped_item(
        t: &ItemTree,
        idx: usize,
        ctx: &mut Render,
        ev: &mut EventSink,
        item: u64,
    )
        requires
            tree_wf(*t),
            idx < t.nodes@.len(),
        ensures
            ({
                let o = render_out(*t, idx as int, Env { iter: Some(item), ..old(ctx).env }, old(ctx).pos);
                &&& final(ctx).env == old(ctx).env
                &&& final(ctx).pos == Point { x: o.pos.x, y: old(ctx).pos.y }
                &&& final(ctx).canvas@ == old(ctx).canvas@ + o.ops
                &&& final(ev)@ == old(ev)@ + with_item(
                    offset_clamp_regions(o.events, 0, old(ctx).pos.x as int, o.pos.x as int),
                    item,
                )
            }),
        decreases idx, 3int, 0int,
    {
        let prev = ctx.env.iter;
        ctx.env.iter = Some(item);
        let origin = ctx.pos;
        let mut rv = Item::render(t, idx, ctx);
        let x1 = ctx.pos.x;
        ctx.pos.y = origin.y;
        rv.offset_clamp(0, origin.x, x1);
        rv.set_item(item);
        ev.merge(rv);
        ctx.env.iter = prev;
    }

    fn render_inner(t: &ItemTree, idx: usize, ctx: &mut Render) -> (r: EventSink)
        requires
            tree_wf(*t),
            idx < t.nodes@.len(),
        ensures
            rendered(*old(ctx), *final(ctx), r@, inner_out(*t, idx as int, old(ctx).env, old(ctx).pos)),
        decreases idx, 1int, 0int,
    {
        proof {
            assert(node_wf(t.nodes@[idx as int], idx as int));
        }
        match &t.nodes[idx].data {
            Module::Text { width, height, tooltip } => {
                let clip = if ctx.env.flex {
                    Rect { x1: i64::MAX, ..ctx.env.clip }
                } else {
                    ctx.env.clip
                };
                let ghost c0 = ctx.canvas@;
                let op = DrawOp::Text { node: idx, at: ctx.pos, text: ctx.env.text, clip };
                ctx.canvas.push(op);
                assert(ctx.canvas@ =~= c0 + seq![op]);
                ctx.pos = Point { x: add_px(ctx.pos.x, *width), y: add_px(ctx.pos.y, *height) };
                let mut rv = EventSink::new();
                match tooltip {
                    Tooltip::Empty => {},
                    Tooltip::Text { .. } => rv.add_tooltip(PopupDesc::TextItem { source: idx, iter: ctx.env.iter }),
                    Tooltip::Item(j) => rv.add_tooltip(PopupDesc::RenderItem { item: *j, iter: ctx.env.iter }),
                }
                assert(rv@ =~= tooltip_regions(idx as int, *tooltip, ctx.env.iter));
                rv
            },
            Module::Group { items, spacing, vertical, visible, tooltip } => {
                if !*visible {
                    return EventSink::new();
                }
                let ghost env0 = ctx.env;
                let ghost c0 = ctx.canvas@;
                let origin = ctx.pos;
                let mut bounds = origin;
                let mut rv = EventSink::new();
                let mut i: usize = 0;
                while i < items.len()
                    invariant
                        tree_wf(*t),
                        idx < t.nodes@.len(),
                        t.nodes@[idx as int].data == (Module::Group { items: *items, spacing: *spacing, vertical: *vertical, visible: *visible, tooltip: *tooltip }),
                        forall|k: int| 0 <= k < items@.len() ==> #[trigger] items@[k] < idx,
                        i <= items@.len(),
                        ctx.env == env0,
                        ({
                            let a = group_fold(*t, idx as int, items@, *spacing as int, *vertical, env0, origin, i as int);
                            &&& ctx.pos == a.pos
                            &&& bounds == a.bounds
                            &&& ctx.canvas@ == c0 + a.ops
                            &&& rv@ == a.events
                        }),
                    decreases items@.len() - i,
                {
                    let c = items[i];
                    assert(items@[i as int] < idx);
                    Item::render_clamped(t, c, ctx, &mut rv);
                    let p = ctx.pos;
                    if *vertical {
                        if p.x > bounds.x {
                            bounds.x = p.x;
                        }
                        ctx.pos.x = origin.x;
                        bounds.y = p.y;
                        if *spacing > 0 {
                            ctx.pos.y = add_px(p.y, *spacing);
                        }
                    } else {
                        bounds.x = p.x;
                        if p.y > bounds.y {
                            bounds.y = p.y;
                        }
                        ctx.pos.y = origin.y;
                        if *spacing > 0 {
                            ctx.pos.x = add_px(p.x, *spacing);
                        }
                    }
                    i = i + 1;
                    proof {
                        let a = group_fold(*t, idx as int, items@, *spacing as int, *vertical, env0, origin, i as int);
                        assert(ctx.canvas@ =~= c0 + a.ops);
                        assert(rv@ =~= a.events);
                    }
                }
                ctx.pos = bounds;
                let ghost ev1 = rv@;
                match tooltip {
                    Some(j) => rv.add_tooltip(PopupDesc::RenderItem { item: *j, iter: ctx.env.iter }),
                    None => {},
                }
                proof {
                    let a = group_fold(*t, idx as int, items@, *spacing as int, *vertical, env0, origin, items@.len() as int);
                    assert(ctx.canvas@ =~= c0 + a.ops);
                    let tt = match *tooltip {
                        Some(j) => seq![tooltip_region(PopupDesc::RenderItem { item: j, iter: env0.iter })],
                        None => Seq::<Region>::empty(),
                    };
                    assert(rv@ =~= ev1 + tt);
                }
                rv
            },
            Module::FocusList { entries, spacing } => {
                let ghost env0 = ctx.env;
                let ghost c0 = ctx.canvas@;
                let origin = ctx.pos;
                let mut rv = EventSink::new();
                let mut i: usize = 0;
                while i < entries.len()
                    invariant
                        tree_wf(*t),
                        idx < t.nodes@.len(),
                        forall|k: int| 0 <= k < entries@.len() ==> #[trigger] entries@[k].item < idx,
                        i <= entries@.len(),
                        ctx.env == env0,
                        ({
                            let a = focus_fold(*t, idx as int, entries@, *spacing as int, env0, origin, i as int);
                            &&& ctx.pos == a.pos
                            &&& ctx.canvas@ == c0 + a.ops
                            &&& rv@ == a.events
                        }),
                    decreases entries@.len() - i,
                {
                    let e = entries[i];
                    assert(entries@[i as int].item < idx);
                    Item::render_clamped_item(t, e.item, ctx, &mut rv, e.token);
                    ctx.pos = Point { x: add_px(ctx.pos.x, *spacing), y: origin.y };
                    i = i + 1;
                    proof {
                        let a = focus_fold(*t, idx as int, entries@, *spacing as int, env0, origin, i as int);
                        assert(ctx.canvas@ =~= c0 + a.ops);
                        assert(rv@ =~= a.events);
                    }
                }
                if entries.len() > 0 {
                    ctx.pos.x = min_px(ctx.pos.x, sub_px(ctx.pos.x, *spacing));
                }
                proof {
                    let a = focus_fold(*t, idx as int, entries@, *spacing as int, env0, origin, entries@.len() as int);
                    assert(ctx.canvas@ =~= c0 + a.ops);
                }
                rv
            },
            Module::Bar { left, center, right } => Item::render_bar(t, idx, *left, *center, *right, ctx),
            Module::Ref { target } => match target {
                Some(j) => Item::render(t, *j, ctx),
                None => EventSink::new(),
            },
        }
    }

    fn render_bar(t: &ItemTree, idx: usize, left: usize, center: usize, right: usize, ctx: &mut Render) -> (r: EventSink)
        requires
            tree_wf(*t),
            idx < t.nodes@.len(),
            left < idx,
            center < idx,
            right < idx,
        ensures
            rendered(*old(ctx), *final(ctx), r@, bar_out(*t, idx as int, left as int, center as int, right as int, old(ctx).env, old(ctx).pos)),
        decreases idx, 0int, 0int,
    {
        let ghost c0 = ctx.canvas@;
        let env = ctx.env;
        let clip = env.clip;
        let pos0 = ctx.pos;
        let width = sub_px(clip.x1, pos0.x);
        let height = sub_px(clip.y1, pos0.y);
        let mut rv = EventSink::new();
        let mut lev = Item::render(t, left, ctx);
        let left_size = ctx.pos.x;
        let left_end = ctx.pos;
        lev.offset_clamp(0, 0, left_size);
        rv.merge(lev);
        let ghost c1 = ctx.canvas@;
        let genv = Env { clip: Rect { x0: 0, y0: 0, x1: width, y1: height }, ..env };
        let origin = Point { x: 0, y: 0 };
        let mut g = Render { env: genv, pos: origin, canvas: Vec::new() };
        let mut rev = Item::render(t, right, &mut g);
        assert(g.canvas@ =~= Seq::<DrawOp>::empty() + g.canvas@);
        let right_width = g.pos.x;
        let right_offset = sub_px(clip.x1, right_width);
        let rwin = Rect { x0: right_offset, y0: 0, x1: add_px(right_offset, width), y1: height };
        place_ops_into(&g.canvas, right_offset, &rwin, &mut ctx.canvas);
        rev.offset_clamp(right_offset, right_offset, clip.x1);
        rv.merge(rev);
        let mut g2 = Render { env: genv, pos: origin, canvas: Vec::new() };
        let mut cev = Item::render(t, center, &mut g2);
        assert(g2.canvas@ =~= Seq::<DrawOp>::empty() + g2.canvas@);
        let cent_size = g2.pos.x;
        let total_room: i128 = width as i128 - (left_size as i128 + right_width as i128 + cent_size as i128);
        if total_room < 0 {
            proof {
                let o = bar_out(*t, idx as int, left as int, center as int, right as int, env, pos0);
                assert(ctx.canvas@ =~= c0 + o.ops);
            }
            return rv;
        }
        let d: i128 = width as i128 - cent_size as i128;
        let h: i128 = if d >= 0 {
            d / 2
        } else {
            -((-d + 1) / 2)
        };
        let max_side: i64 = if h < i64::MIN as i128 {
            i64::MIN
        } else if h > i64::MAX as i128 {
            i64::MAX
        } else {
            h as i64
        };
        let cent_offset = if left_size > max_side {
            left_size
        } else if right_width > max_side {
            sub_px(sub_px(clip.x1, right_width), cent_size)
        } else {
            max_side
        };
        let cwin = Rect { x0: cent_offset, y0: 0, x1: add_px(cent_offset, width), y1: height };
        place_ops_into(&g2.canvas, cent_offset, &cwin, &mut ctx.canvas);
        cev.offset_clamp(cent_offset, cent_offset, add_px(cent_offset, cent_size));
        rv.merge(cev);
        ctx.pos = Point { x: clip.x1, y: left_end.y };
        proof {
            let o = bar_out(*t, idx as int, left as int, center as int, right as int, env, pos0);
            assert(ctx.canvas@ =~= c0 + o.ops);
            assert(rv@ =~= o.events);
        }
        rv
    }
}

} // verus!

verus! {

/// Rendering item `idx` with its style left out: the early exit, the content
/// and the item's own regions, and nothing else.
pub open spec fn unstyled_out(t: ItemTree, idx: int, env: Env, pos: Point) -> Out {
    if !env.flex && pos.x > env.clip.x1 {
        nothing(pos)
    } else {
        let o = inner_out(t, idx, env, pos);
        out(o.pos, o.ops, t.nodes@[idx].events@ + o.events)
    }
}

/// Boring formatting skips the box step: the item renders as its content
/// does under the style's colors and alignment, with its own regions
/// first.  When the style changes nothing else either, the item renders
/// exactly as it would with no style at all.
pub proof fn lemma_boring_format_is_skipped(t: ItemTree, idx: int, env: Env, pos: Point)
    requires
        0 <= idx < t.nodes@.len(),
        t.nodes@[idx].format is Some,
        formatting_is_boring(t.nodes@[idx].format->Some_0.fmt),
    ensures
        render_out(t, idx, env, pos) == unstyled_out(
            t,
            idx,
            child_env(env, t.nodes@[idx].format->Some_0),
            pos,
        ),
        style_is_identity(t.nodes@[idx].format->Some_0) ==> render_out(t, idx, env, pos)
            == unstyled_out(t, idx, env, pos),
{
    let st = t.nodes@[idx].format->Some_0;
    assert(child_env(env, st).flex == env.flex && child_env(env, st).clip == env.clip);
    if style_is_identity(st) {
        assert(child_env(env, st) == env);
    }
}

/// A text item with no style, no regions and no popup.
pub open spec fn plain_text(item: Item, w: int, h: int) -> bool {
    &&& item.format is None
    &&& item.events@.len() == 0
    &&& item.data matches Module::Text { width, height, tooltip }
    &&& width == w && height == h && tooltip == Tooltip::Empty
}

/// A horizontal group of three plain texts with spacing 4 is as wide as
/// the three texts and two gaps, and as tall as the tallest text.
pub proof fn lemma_group_of_three(
    t: ItemTree,
    g: int,
    env: Env,
    pos: Point,
    w: Seq<int>,
    h: Seq<int>,
)
    requires
        tree_wf(t),
        0 <= g < t.nodes@.len(),
        t.nodes@[g].format is None,
        t.nodes@[g].events@.len() == 0,
        t.nodes@[g].data matches Module::Group { items, spacing, vertical, visible, tooltip }
            && items@.len() == 3 && spacing == 4 && !vertical && visible && tooltip is None
            && (forall|k: int| 0 <= k < 3 ==> plain_text(t.nodes@[items@[k] as int], w[k], h[k])),
        w.len() == 3,
        h.len() == 3,
        forall|k: int| 0 <= k < 3 ==> 0 <= #[trigger] w[k] <= 0x10000000 && 0 <= #[trigger] h[k] <= 0x10000000,
        0 <= pos.x <= 0x10000000,
        0 <= pos.y <= 0x10000000,
        env.flex || pos.x + w[0] + w[1] + w[2] + 8 <= env.clip.x1,
    ensures
        render_out(t, g, env, pos).pos == (Point {
            x: (pos.x + w[0] + w[1] + w[2] + 8) as i64,
            y: (pos.y + max(max(h[0], h[1]), h[2])) as i64,
        }),
{
    let items = t.nodes@[g].data->Group_items;
    assert(node_wf(t.nodes@[g], g));
    let a0 = group_fold(t, g, items@, 4, false, env, pos, 0);
    let a1 = group_fold(t, g, items@, 4, false, env, pos, 1);
    let a2 = group_fold(t, g, items@, 4, false, env, pos, 2);
    let a3 = group_fold(t, g, items@, 4, false, env, pos, 3);
    assert(items@[0] < g && items@[1] < g && items@[2] < g);
    assert(plain_text(t.nodes@[items@[0] as int], w[0], h[0]));
    assert(plain_text(t.nodes@[items@[1] as int], w[1], h[1]));
    assert(plain_text(t.nodes@[items@[2] as int], w[2], h[2]));
    let c0 = items@[0] as int;
    let c1 = items@[1] as int;
    let c2 = items@[2] as int;
    assert(a0.pos == pos && a0.bounds == pos);
    let o0 = render_out(t, c0, env, a0.pos);
    assert(inner_out(t, c0, env, pos).pos == Point { x: (pos.x + w[0]) as i64, y: (pos.y + h[0]) as i64 });
    assert(o0.pos == Point { x: (pos.x + w[0]) as i64, y: (pos.y + h[0]) as i64 });
    assert(a1.pos.x == pos.x + w[0] + 4 && a1.bounds.x == pos.x + w[0]);
    assert(a1.bounds.y == max(pos.y as int, pos.y + h[0]) && a1.pos.y == pos.y);
    let p1 = a1.pos;
    assert(inner_out(t, c1, env, p1).pos == Point { x: (p1.x + w[1]) as i64, y: (p1.y + h[1]) as i64 });
    assert(render_out(t, c1, env, p1).pos == Point { x: (p1.x + w[1]) as i64, y: (p1.y + h[1]) as i64 });
    assert(a2.pos.x == pos.x + w[0] + w[1] + 8 && a2.bounds.x == pos.x + w[0] + w[1] + 4);
    assert(a2.bounds.y == max(max(pos.y as int, pos.y + h[0]), pos.y + h[1]));
    let p2 = a2.pos;
    assert(inner_out(t, c2, env, p2).pos == Point { x: (p2.x + w[2]) as i64, y: (p2.y + h[2]) as i64 });
    assert(render_out(t, c2, env, p2).pos == Point { x: (p2.x + w[2]) as i64, y: (p2.y + h[2]) as i64 });
    assert(a3.bounds.x == pos.x + w[0] + w[1] + w[2] + 8);
}

/// In a centered box whose minimum width exceeds the width `w` of its
/// content, a region that spanned the content moves right by exactly
/// `(mw - w) / 2`, where `mw` is the minimum width limited to the room left
/// in the clip.
pub proof fn lemma_centered_min_width(
    env: Env,
    pos: Point,
    m: i64,
    w: int,
    end_y: i64,
    r: Region,
    ops: Seq<DrawOp>,
)
    requires
        env.halign == Some(500i64),
        !env.flex,
        0 <= pos.x <= 0x10000000,
        0 < w < m <= 0x10000000,
        pos.x + w < env.clip.x1 <= 0x10000000,
        r.lo == pos.x,
        r.hi == pos.x + w,
    ensures
        ({
            let f = Formatting {
                bg_rgba: None,
                border: None,
                border_rgba: None,
                min_width: Some(Width::Pixels(m)),
                max_width: None,
                margin: None,
                padding: None,
            };
            let b = box_start(f, env, pos);
            let o = box_finish(f, env, b, seq![r], Point { x: (pos.x + w) as i64, y: end_y }, ops);
            let mw = min(m as int, env.clip.x1 - pos.x);
            let off = (mw - w) / 2;
            &&& b.start == pos
            &&& o.events == seq![Region { lo: (pos.x + off) as i64, hi: (pos.x + w + off) as i64, ..r }]
        }),
{
    let mw = min(m as int, env.clip.x1 - pos.x);
    let off = (mw - w) / 2;
    assert(permille(mw - w, 500) == off) by (nonlinear_arith)
        requires
            mw - w > 0,
            off == (mw - w) / 2,
    {
    }
    assert(0 <= off && 2 * off <= mw - w) by (nonlinear_arith)
        requires
            mw - w > 0,
            off == (mw - w) / 2,
    {
    }
    let f = Formatting {
        bg_rgba: None,
        border: None,
        border_rgba: None,
        min_width: Some(Width::Pixels(m)),
        max_width: None,
        margin: None,
        padding: None,
    };
    let b = box_start(f, env, pos);
    assert(b.start == pos && b.env == env);
    assert(box_min_width(f, env.clip, b) == mw);
    assert(align_offset(w, mw, b.env.halign) == off);
    let end = Point { x: (pos.x + w) as i64, y: end_y };
    assert(box_slot_end(b, end, mw) == pos.x + mw);
    let s = seq![r];
    assert(s.drop_last() =~= Seq::<Region>::empty());
    assert(offset_clamp_regions(Seq::<Region>::empty(), off, pos.x as int, pos.x + mw) =~= Seq::<Region>::empty());
    assert(clamp_region(r, off, pos.x as int, pos.x + mw) == Region { lo: (pos.x + off) as i64, hi: (pos.x + w + off) as i64, ..r });
}

} // verus!

verus! {

impl ItemTree {
    /// An empty tree.
    pub fn new() -> (r: ItemTree)
        ensures
            r.nodes@.len() == 0,
            tree_wf(r),
    {
        ItemTree { nodes: Vec::new() }
    }

    pub fn len(&self) -> (r: usize)
        ensures
            r == self.nodes@.len(),
    {
        self.nodes.len()
    }

    /// Adds `item`, whose children are already in the tree; returns its
    /// index.
    pub fn push(&mut self, item: Item) -> (r: usize)
        requires
            tree_wf(*old(self)),
            node_wf(item, old(self).nodes@.len() as int),
        ensures
            tree_wf(*final(self)),
            r == old(self).nodes@.len(),
            final(self).nodes@ == old(self).nodes@.push(item),
    {
        let r = self.nodes.len();
        self.nodes.push(item);
        assert forall|i: int| 0 <= i < self.nodes@.len() implies #[trigger] node_wf(self.nodes@[i], i) by {
            if i < r {
                assert(node_wf(old(self).nodes@[i], i));
            }
        }
        r
    }
}

impl Item {
    /// An item that renders nothing.
    pub fn none() -> (r: Item)
        ensures
            r.format is None,
            r.events@.len() == 0,
            r.data matches Module::Ref { target } && target is None,
    {
        Item { format: None, data: Module::Ref { target: None }, events: EventSink::new() }
    }

    /// An item showing `data`, unstyled and with no regions of its own.
    pub fn from_module(data: Module) -> (r: Item)
        ensures
            r.format is None,
            r.events@.len() == 0,
            r.data == data,
    {
        Item { format: None, data, events: EventSink::new() }
    }

    /// A bar: `left`, `center` and `right` content sharing its width.
    pub fn new_bar(left: usize, center: usize, right: usize, format: Option<Style>, events: EventSink) -> (r: Item)
        ensures
            r.format == format,
            r.events@ == events@,
            r.data == (Module::Bar { left, center, right }),
    {
        Item { format, data: Module::Bar { left, center, right }, events }
    }

    /// A plain horizontal group of `items`, in order.
    pub fn from_item_list(items: Vec<usize>) -> (r: Item)
        ensures
            r.format is None,
            r.events@.len() == 0,
            r.data matches Module::Group { items: v, spacing, vertical, visible, tooltip } && v@ == items@
                && spacing == 0 && !vertical && visible && tooltip is None,
    {
        Item {
            format: None,
            data: Module::Group { items, spacing: 0, vertical: false, visible: true, tooltip: None },
            events: EventSink::new(),
        }
    }
}

} // verus!

verus! {

impl Item {
    /// Whether every child index of this item is below `i`, the index it
    /// gets in the tree.
    pub fn children_below(&self, i: usize) -> (r: bool)
        ensures
            r == node_wf(*self, i as int),
    {
        match &self.data {
            Module::Text { tooltip, .. } => match tooltip {
                Tooltip::Item(j) => *j < i,
                _ => true,
            },
            Module::Group { items, spacing, vertical, visible, tooltip } => {
                let mut k: usize = 0;
                while k < items.len()
                    invariant
                        self.data == (Module::Group { items: *items, spacing: *spacing, vertical: *vertical, visible: *visible, tooltip: *tooltip }),
                        k <= items@.len(),
                        forall|m: int| 0 <= m < k ==> #[trigger] items@[m] < i,
                    decreases items@.len() - k,
                {
                    if items[k] >= i {
                        assert(!(items@[k as int] < i));
                        assert(self.data->Group_items@[k as int] >= i);
                        assert(!(forall|m: int| 0 <= m < self.data->Group_items@.len() ==> #[trigger] self.data->Group_items@[m] < i));
                        return false;
                    }
                    k = k + 1;
                }
                match tooltip {
                    Some(j) => *j < i,
                    None => true,
                }
            },
            Module::FocusList { entries, spacing } => {
                let mut k: usize = 0;
                while k < entries.len()
                    invariant
                        self.data == (Module::FocusList { entries: *entries, spacing: *spacing }),
                        k <= entries@.len(),
                        forall|m: int| 0 <= m < k ==> #[trigger] entries@[m].item < i,
                    decreases entries@.len() - k,
                {
                    if entries[k].item >= i {
                        assert(!(entries@[k as int].item < i));
                        assert(self.data->FocusList_entries@[k as int].item >= i);
                        assert(!(forall|m: int| 0 <= m < self.data->FocusList_entries@.len() ==> #[trigger] self.data->FocusList_entries@[m].item < i));
                        return false;
                    }
                    k = k + 1;
                }
                true
            },
            Module::Bar { left, center, right } => *left < i && *center < i && *right < i,
            Module::Ref { target } => match target {
                Some(j) => *j < i,
                None => true,
            },
        }
    }
}

impl ItemTree {
    /// Whether every item refers only to items before it.
    pub fn is_wf(&self) -> (r: bool)
        ensures
            r == tree_wf(*self),
    {
        let mut i: usize = 0;
        while i < self.nodes.len()
            invariant
                i <= self.nodes@.len(),
                forall|k: int| 0 <= k < i ==> #[trigger] node_wf(self.nodes@[k], k),
            decreases self.nodes@.len() - i,
        {
            if !self.nodes[i].children_below(i) {
                return false;
            }
            i = i + 1;
        }
        true
    }
}

} // verus!

verus! {

/// Whether a group with the condition `condition` renders, given the
/// outcome of evaluating it (`None` when evaluation failed): no condition
/// or an empty one renders, and so does one that failed to evaluate.
pub open spec fn group_shows(condition: Option<Seq<char>>, outcome: Option<bool>) -> bool {
    match condition {
        None => true,
        Some(c) => c.len() == 0 || match outcome {
            Some(b) => b,
            None => true,
        },
    }
}

/// Decides whether a group renders, see [`group_shows`].
pub fn group_visible<E>(condition: Option<&str>, outcome: &Result<bool, E>) -> (r: bool)
    ensures
        r == group_shows(
            match condition {
                Some(c) => Some(c@),
                None => None,
            },
            match outcome {
                Ok(b) => Some(*b),
                Err(_) => None,
            },
        ),
{
    match condition {
        None => true,
        Some(c) => {
            if c.is_empty() {
                return true;
            }
            match outcome {
                Ok(b) => *b,
                Err(_) => true,
            }
        },
    }
}

/// When the sub-bar content fits (the room left is not negative), the
/// center content starts after the left content and ends before the right
/// content, so they never overlap.
pub proof fn lemma_center_clear(width: int, left_size: int, right_width: int, cent_size: int)
    requires
        0 <= left_size,
        0 <= right_width,
        0 <= cent_size,
        width <= 0x1000_0000_0000,
        width - (left_size + right_width + cent_size) >= 0,
    ensures
        left_size <= center_place(width, width, left_size, right_width, cent_size),
        center_place(width, width, left_size, right_width, cent_size) + cent_size <= width - right_width,
{
    let h = floor_half(width - cent_size);
    assert(2 * h <= width - cent_size < 2 * h + 2) by (nonlinear_arith)
        requires
            width - cent_size >= 0,
            h == (width - cent_size) / 2,
    {
    }
}

/// The regions of a formatted box stay in its slot: from the start of its
/// content to the end of the content or of its minimum width, whichever is
/// further; and, in a clip that is not flexible, within the clip.
pub proof fn lemma_box_regions_in_slot(
    f: Formatting,
    env: Env,
    b: BoxStart,
    events: Seq<Region>,
    end0: Point,
    ops: Seq<DrawOp>,
)
    requires
        -0x1000_0000_0000 <= b.start.x <= 0x1000_0000_0000,
        -0x1000_0000_0000 <= b.env.clip.x1 <= 0x1000_0000_0000,
        -0x1000_0000_0000 <= end0.x <= 0x1000_0000_0000,
    ensures
        ({
            let o = box_finish(f, env, b, events, end0, ops);
            forall|i: int| 0 <= i < o.events.len() ==> {
                &&& b.start.x <= (#[trigger] o.events[i]).lo < o.events[i].hi
                &&& (!b.env.flex ==> o.events[i].hi <= b.env.clip.x1)
            }
        }),
{
    let m = box_min_width(f, env.clip, b);
    let w = sat(end0.x - b.start.x);
    let off = align_offset(w, m, b.env.halign);
    let end = if !b.env.flex {
        Point { x: min(end0.x as int, b.env.clip.x1 as int) as i64, y: end0.y }
    } else {
        end0
    };
    let hi = box_slot_end(b, end, m);
    crate::event::lemma_clamp_within(events, off, b.start.x as int, hi);
}

} // verus!
