//! One bar on one output: its settings, when it repaints, and the life of
//! its hover popup.
use vstd::prelude::*;
use crate::color::Rgba;
use crate::event::{
    EventSink, PopupDesc, Region, covers, hover_at, lemma_canonical_unique, spans_canonical, spans_cover,
};
use crate::geom::{Point, Rect, max, sat, sub_px};
use crate::layout::{DrawOp, Env, Item, ItemTree, Render, TextStyle, render_out, tree_wf};
use crate::popup::popup_out;
use crate::text::{chars_of, slice_is};

verus! {

/// The compositor layer a bar is placed in.
#[derive(Clone, Copy, Debug, PartialEq, Eq, Structural)]
pub enum Layer {
    Overlay,
    Bottom,
    Top,
}

/// A bar's placement and sizes, as configured.
#[derive(Clone, Copy, Debug, PartialEq, Eq, Structural)]
pub struct BarSettings {
    pub layer: Layer,
    /// Thickness of the bar.
    pub size: u32,
    /// Space reserved from other windows; -1 for none.
    pub size_excl: i32,
    /// Thickness of the part that takes pointer input.
    pub click_size: u32,
    pub anchor_top: bool,
    /// The part outside the exclusive zone takes input only where there is
    /// something to click.
    pub sparse: bool,
}

pub open spec fn layer_of(s: Option<Seq<char>>) -> Layer {
    match s {
        Some(v) => if v == seq!['o', 'v', 'e', 'r', 'l', 'a', 'y'] {
            Layer::Overlay
        } else if v == seq!['b', 'o', 't', 't', 'o', 'm'] {
            Layer::Bottom
        } else {
            Layer::Top
        },
        None => Layer::Top,
    }
}

pub open spec fn side_is_top(s: Option<Seq<char>>) -> bool {
    match s {
        Some(v) => v == seq!['t', 'o', 'p'],
        None => false,
    }
}

pub open spec fn size_of(size: Option<i64>) -> u32 {
    match size {
        Some(v) => if 0 < v < i32::MAX {
            v as u32
        } else {
            20
        },
        None => 20,
    }
}

pub open spec fn size_excl_of(size: u32, excl: Option<i64>) -> i32 {
    match excl {
        Some(v) => if -1 <= v < i32::MAX {
            v as i32
        } else {
            size as i32
        },
        None => size as i32,
    }
}

pub open spec fn click_size_of(size: u32, excl: i32, click: Option<i64>) -> u32 {
    match click {
        Some(v) if 0 < v < i32::MAX => v as u32,
        _ => if excl > 0 {
            excl as u32
        } else {
            size
        },
    }
}

/// The settings for the configured values: unknown layers give the top
/// layer, unknown sides the bottom; sizes out of range take their defaults
/// (20, then the size, then the exclusive size when positive).
pub open spec fn settings_of(
    layer: Option<Seq<char>>,
    side: Option<Seq<char>>,
    size: Option<i64>,
    size_exclusive: Option<i64>,
    size_clickable: Option<i64>,
    sparse: Option<bool>,
) -> BarSettings {
    let sz = size_of(size);
    let ex = size_excl_of(sz, size_exclusive);
    BarSettings {
        layer: layer_of(layer),
        size: sz,
        size_excl: ex,
        click_size: click_size_of(sz, ex, size_clickable),
        anchor_top: side_is_top(side),
        sparse: match sparse {
            Some(b) => b,
            None => true,
        },
    }
}

pub open spec fn opt_view(s: Option<&str>) -> Option<Seq<char>> {
    match s {
        Some(v) => Some(v@),
        None => None,
    }
}

/// A rectangle of the input region, in surface coordinates: `x0..x1` by
/// `y..y + h`.
#[derive(Clone, Copy, Debug, PartialEq, Eq, Structural)]
pub struct InputRect {
    pub x0: i64,
    pub x1: i64,
    pub y: i64,
    pub h: i64,
}

/// The row of the input strip: the top, or the bottom `click` of `height`.
pub open spec fn input_y(anchor_top: bool, height: int, click: int) -> int {
    if anchor_top {
        0
    } else {
        max(0, height - click)
    }
}

impl BarSettings {
    /// Settings from the configured values, see [`settings_of`].
    pub fn from_config(
        layer: Option<&str>,
        side: Option<&str>,
        size: Option<i64>,
        size_exclusive: Option<i64>,
        size_clickable: Option<i64>,
        sparse: Option<bool>,
    ) -> (r: BarSettings)
        ensures
            r == settings_of(opt_view(layer), opt_view(side), size, size_exclusive, size_clickable, sparse),
    {
        let layer_v = match layer {
            Some(s) => {
                let c = chars_of(s);
                let n = c.len();
                assert(c@.subrange(0, n as int) =~= c@);
                if slice_is(&c, 0, n, &vec!['o', 'v', 'e', 'r', 'l', 'a', 'y']) {
                    Layer::Overlay
                } else if slice_is(&c, 0, n, &vec!['b', 'o', 't', 't', 'o', 'm']) {
                    Layer::Bottom
                } else {
                    Layer::Top
                }
            },
            None => Layer::Top,
        };
        let anchor_top = match side {
            Some(s) => {
                let c = chars_of(s);
                let n = c.len();
                assert(c@.subrange(0, n as int) =~= c@);
                slice_is(&c, 0, n, &vec!['t', 'o', 'p'])
            },
            None => false,
        };
        let sz: u32 = match size {
            Some(v) => if 0 < v && v < i32::MAX as i64 {
                v as u32
            } else {
                20
            },
            None => 20,
        };
        let ex: i32 = match size_exclusive {
            Some(v) => if -1 <= v && v < i32::MAX as i64 {
                v as i32
            } else {
                sz as i32
            },
            None => sz as i32,
        };
        let click: u32 = match size_clickable {
            Some(v) if 0 < v && v < i32::MAX as i64 => v as u32,
            _ => if ex > 0 {
                ex as u32
            } else {
                sz
            },
        };
        BarSettings {
            layer: layer_v,
            size: sz,
            size_excl: ex,
            click_size: click,
            anchor_top,
            sparse: match sparse {
                Some(b) => b,
                None => true,
            },
        }
    }

    /// The input region to set when the bar is created: none when the whole
    /// bar takes input; otherwise empty for sparse clicks, else the full
    /// input strip.
    pub fn initial_input_region(&self) -> (r: Option<Vec<InputRect>>)
        ensures
            self.size == self.click_size ==> r is None,
            self.size != self.click_size ==> r is Some && (self.sparse ==> r->Some_0@.len() == 0)
                && (!self.sparse ==> r->Some_0@ == seq![InputRect {
                    x0: 0,
                    x1: i32::MAX as i64,
                    y: input_y(self.anchor_top, self.size as int, self.click_size as int) as i64,
                    h: self.click_size as i64,
                }]),
    {
        if self.size == self.click_size {
            return None;
        }
        let mut v: Vec<InputRect> = Vec::new();
        if !self.sparse {
            let y: i64 = if self.anchor_top {
                0
            } else if self.size > self.click_size {
                (self.size - self.click_size) as i64
            } else {
                0
            };
            let rect = InputRect { x0: 0, x1: i32::MAX as i64, y, h: self.click_size as i64 };
            v.push(rect);
            assert(v@ =~= seq![rect]);
        }
        Some(v)
    }
}

} // verus!

verus! {

/// The popup of a bar.
#[derive(Clone, Copy, Debug, PartialEq, Eq, Structural)]
pub struct BarPopup {
    /// What the popup shows.
    pub desc: PopupDesc,
    /// The span of the bar the popup belongs to: `anchor_x` and its width.
    pub anchor_x: i64,
    pub anchor_w: i64,
    /// The size asked of the compositor; it only grows.
    pub size: Point,
    /// When the popup goes away (milliseconds), if the pointer has left.
    pub vanish: Option<u64>,
    /// The compositor has not yet configured the popup surface.
    pub waiting_on_configure: bool,
}

/// A single bar on a single output.
#[derive(Debug)]
pub struct Bar {
    pub settings: BarSettings,
    /// The name of the output the bar is on.
    pub output: String,
    /// Which configured bar this is.
    pub cfg_index: usize,
    pub popup: Option<BarPopup>,
    /// The regions of the last frame.
    pub sink: EventSink,
    /// The content changed since the last frame.
    pub dirty: bool,
    /// The frame that the compositor has not yet shown, if any.
    pub throttle: Option<u64>,
}

/// A rendered frame of a bar.
#[derive(Debug)]
pub struct BarFrame {
    pub ops: Vec<DrawOp>,
    /// The new input region, when it has to change.
    pub input_region: Option<Vec<InputRect>>,
}

/// What a draw pass did for a bar and its popup.
#[derive(Debug)]
pub struct Frame {
    /// The bar's new frame, when it painted.
    pub bar: Option<BarFrame>,
    /// What became of the popup.
    pub popup: PopupStep,
    /// The popup's content, when it was painted.
    pub popup_ops: Vec<DrawOp>,
    /// The larger size the popup asks for, when its content outgrew it.
    pub popup_resize: Option<Point>,
}

/// What the compositor has to do after the pointer moved over a bar.
#[derive(Clone, Copy, Debug, PartialEq, Eq, Structural)]
pub enum HoverAction {
    /// Nothing to do (an existing popup may have been dropped).
    Keep,
    /// Show the bar's new popup.
    Show,
}

/// What a bar's popup needs on a draw pass.
#[derive(Clone, Copy, Debug, PartialEq, Eq, Structural)]
pub enum PopupStep {
    /// There is no popup (any more).
    Absent,
    /// The popup waits for its surface.
    Wait,
    /// The popup is to be painted.
    Paint,
}

/// How long a popup outlives the pointer leaving, in milliseconds.
pub const POPUP_LINGER_MS: u64 = 100;

/// The repaint state of a bar: dirty, and the frame in flight.
pub open spec fn may_paint(dirty: bool, throttle: Option<u64>, can_render: bool) -> bool {
    dirty && throttle is None && can_render
}

/// The frame in flight after the compositor reports frame `token` done;
/// `alive` says whether the frame in flight is still pending.
pub open spec fn after_frame_done(throttle: Option<u64>, token: u64, alive: bool) -> Option<u64> {
    match throttle {
        Some(t) => if !alive || t == token {
            None
        } else {
            throttle
        },
        None => None,
    }
}

/// The surroundings of a bar's content on a `width` by `height` surface.
pub open spec fn bar_env(width: i64, height: i64) -> Env {
    Env {
        clip: Rect { x0: 0, y0: 0, x1: width, y1: height },
        flex: false,
        halign: None,
        text: TextStyle {
            font: 0,
            size: 16000,
            color: Rgba { r: 0, g: 0, b: 0, a: 0xFFFF },
            stroke: None,
            stroke_size: None,
        },
        iter: None,
    }
}

/// The popup after the pointer moved to `x` over a bar whose last frame
/// reported `sink`; `size` is what the content of the hit popup measures.
pub open spec fn hover_popup_next(
    sink: Seq<Region>,
    popup: Option<BarPopup>,
    x: int,
    size: Point,
) -> (Option<BarPopup>, HoverAction) {
    match hover_at(sink, x) {
        None => match popup {
            Some(p) => if p.anchor_x <= x <= p.anchor_x + p.anchor_w {
                (popup, HoverAction::Keep)
            } else {
                (None, HoverAction::Keep)
            },
            None => (None, HoverAction::Keep),
        },
        Some((lo, hi, desc)) => {
            let inside = match popup {
                Some(p) => p.anchor_x <= x <= p.anchor_x + p.anchor_w,
                None => false,
            };
            if inside && popup->Some_0.desc == desc {
                (Some(BarPopup { vanish: None, ..popup->Some_0 }), HoverAction::Keep)
            } else if size.x <= 0 || size.y <= 0 {
                (None, HoverAction::Keep)
            } else {
                (
                    Some(
                        BarPopup {
                            desc,
                            anchor_x: lo,
                            anchor_w: sat(hi - lo) as i64,
                            size,
                            vanish: None,
                            waiting_on_configure: true,
                        },
                    ),
                    HoverAction::Show,
                )
            }
        },
    }
}

/// The popup after the pointer left the bar at time `now`.
pub open spec fn leave_popup_next(popup: Option<BarPopup>, now: u64) -> Option<BarPopup> {
    match popup {
        Some(p) => Some(BarPopup { vanish: Some((now + POPUP_LINGER_MS) as u64), ..p }),
        None => None,
    }
}

/// The popup after its content, measuring `needed`, was painted: when the
/// content exceeds the size asked for, the popup asks for the larger of the
/// two in each direction and waits for its surface again.
pub open spec fn grow_popup(p: BarPopup, needed: Point) -> (BarPopup, Option<Point>) {
    if needed.x > p.size.x || needed.y > p.size.y {
        let s = Point { x: max(needed.x as int, p.size.x as int) as i64, y: max(needed.y as int, p.size.y as int) as i64 };
        (BarPopup { size: s, waiting_on_configure: true, ..p }, Some(s))
    } else {
        (p, None)
    }
}

/// What a draw pass does to the popup `p` (already past its expiry check).
pub open spec fn popup_step_of(p: Option<BarPopup>) -> PopupStep {
    match p {
        None => PopupStep::Absent,
        Some(q) => if q.waiting_on_configure {
            PopupStep::Wait
        } else {
            PopupStep::Paint
        },
    }
}

/// The popup on a draw pass at time `now`: gone once its time is past.
pub open spec fn tick_popup_next(popup: Option<BarPopup>, now: u64) -> Option<BarPopup> {
    match popup {
        Some(p) => match p.vanish {
            Some(d) => if d < now {
                None
            } else {
                popup
            },
            None => popup,
        },
        None => None,
    }
}

/// The bar part of a draw pass, from `before` to `after`: without a paint
/// nothing changes; a paint renders item `root` of `t` on a `width` by
/// `height` surface, keeps its regions, marks frame `token` in flight and
/// returns the operations; with sparse clicks the input region is returned
/// when the merged regions changed, as the merged spans of the new regions
/// on the input strip.
pub open spec fn painted(
    before: Bar,
    after: Bar,
    r: Option<BarFrame>,
    t: ItemTree,
    root: usize,
    width: i64,
    height: i64,
    can_render: bool,
    token: u64,
) -> bool {
    &&& after.settings == before.settings
    &&& after.cfg_index == before.cfg_index
    &&& after.output@ == before.output@
    &&& !may_paint(before.dirty, before.throttle, can_render) ==> r is None && after.dirty == before.dirty
        && after.throttle == before.throttle && after.sink@ == before.sink@
    &&& may_paint(before.dirty, before.throttle, can_render) ==> ({
        let o = render_out(t, root as int, bar_env(width, height), Point { x: 0, y: 0 });
        &&& r is Some
        &&& r->Some_0.ops@ == o.ops
        &&& after.sink@ == o.events
        &&& !after.dirty
        &&& after.throttle == Some(token)
        &&& (r->Some_0.input_region is Some ==> before.settings.sparse)
        &&& (before.settings.sparse ==> (r->Some_0.input_region is None <==> forall|x: int|
            covers(before.sink@, x) == covers(o.events, x)))
        &&& (r->Some_0.input_region matches Some(v) ==> forall|i: int|
            0 <= i < v@.len() ==> (#[trigger] v@[i]).y == input_y(
                before.settings.anchor_top,
                height as int,
                before.settings.click_size as int,
            ) && v@[i].h == before.settings.click_size)
        &&& (r->Some_0.input_region matches Some(v) ==> spans_canonical(v@.map_values(|q: InputRect| (q.x0, q.x1)))
            && forall|x: int| spans_cover(v@.map_values(|q: InputRect| (q.x0, q.x1)), x) == covers(o.events, x))
    })
}

impl Bar {
    /// A new bar, clean and without a popup.
    pub fn new(settings: BarSettings, output: String, cfg_index: usize) -> (r: Bar)
        ensures
            r.settings == settings,
            r.output@ == output@,
            r.cfg_index == cfg_index,
            r.popup is None,
            r.sink@.len() == 0,
            !r.dirty,
            r.throttle is None,
    {
        Bar { settings, output, cfg_index, popup: None, sink: EventSink::new(), dirty: false, throttle: None }
    }

    /// Marks the content changed.
    pub fn mark_dirty(&mut self)
        ensures
            final(self).dirty,
            final(self).throttle == old(self).throttle,
            final(self).popup == old(self).popup,
            final(self).sink@ == old(self).sink@,
            final(self).settings == old(self).settings,
            final(self).cfg_index == old(self).cfg_index,
            final(self).output@ == old(self).output@,
    {
        self.dirty = true;
    }

    /// The compositor showed frame `token`; `alive` says whether the frame
    /// in flight is still pending.  Clears the frame in flight when it is
    /// that frame or no longer pending.
    pub fn frame_done(&mut self, token: u64, alive: bool)
        ensures
            final(self).throttle == after_frame_done(old(self).throttle, token, alive),
            final(self).dirty == old(self).dirty,
            final(self).popup == old(self).popup,
            final(self).sink@ == old(self).sink@,
            final(self).settings == old(self).settings,
            final(self).cfg_index == old(self).cfg_index,
            final(self).output@ == old(self).output@,
    {
        match self.throttle {
            Some(t) => {
                if !alive || t == token {
                    self.throttle = None;
                }
            },
            None => {},
        }
    }

    /// Paints the bar when it is dirty, no frame is in flight and its
    /// surface can take a frame, see [`painted`].
    fn paint(
        &mut self,
        t: &ItemTree,
        root: usize,
        width: i64,
        height: i64,
        can_render: bool,
        token: u64,
    ) -> (r: Option<BarFrame>)
        requires
            tree_wf(*t),
            root < t.nodes@.len(),
        ensures
            painted(*old(self), *final(self), r, *t, root, width, height, can_render, token),
            final(self).popup == old(self).popup,
    {
        if !(self.dirty && self.throttle.is_none() && can_render) {
            return None;
        }
        let env = Env {
            clip: Rect { x0: 0, y0: 0, x1: width, y1: height },
            flex: false,
            halign: None,
            text: TextStyle {
                font: 0,
                size: 16000,
                color: Rgba { r: 0, g: 0, b: 0, a: 0xFFFF },
                stroke: None,
                stroke_size: None,
            },
            iter: None,
        };
        let mut ctx = Render { env, pos: Point { x: 0, y: 0 }, canvas: Vec::new() };
        let new_sink = Item::render(t, root, &mut ctx);
        assert(ctx.canvas@ =~= Seq::<DrawOp>::empty() + ctx.canvas@);
        let input = input_update(&self.sink, &new_sink, &self.settings, height);
        let ghost old_sink = self.sink@;
        self.sink = new_sink;
        self.throttle = Some(token);
        self.dirty = false;
        proof {
            let o = render_out(*t, root as int, bar_env(width, height), Point { x: 0, y: 0 });
            assert(env == bar_env(width, height));
            assert(ctx.canvas@ == o.ops);
            assert(self.sink@ == o.events);
        }
        Some(BarFrame { ops: ctx.canvas, input_region: input })
    }

    /// A draw pass at time `now`.  The bar paints when it is dirty, no
    /// frame is in flight and its surface can take a frame: item `root` of
    /// `t` is rendered on a `width` by `height` surface, the new regions are
    /// kept and frame `token` is marked in flight; with sparse clicks the
    /// input region is sent when the merged regions changed.  Then the
    /// popup is dropped once its time is past, or painted when its surface
    /// is configured, asking for a larger surface when its content outgrew
    /// it.
    pub fn render_with(
        &mut self,
        t: &ItemTree,
        root: usize,
        width: i64,
        height: i64,
        can_render: bool,
        token: u64,
        now: u64,
    ) -> (r: Frame)
        requires
            tree_wf(*t),
            root < t.nodes@.len(),
        ensures
            painted(*old(self), *final(self), r.bar, *t, root, width, height, can_render, token),
            r.popup == popup_step_of(tick_popup_next(old(self).popup, now)),
            match tick_popup_next(old(self).popup, now) {
                Some(p) => if !p.waiting_on_configure {
                    let o = popup_out(*t, p.desc, p.size.x, p.size.y);
                    &&& r.popup_ops@ == o.ops
                    &&& final(self).popup == Some(grow_popup(p, o.pos).0)
                    &&& r.popup_resize == grow_popup(p, o.pos).1
                } else {
                    r.popup_ops@.len() == 0 && r.popup_resize is None && final(self).popup == Some(p)
                },
                None => r.popup_ops@.len() == 0 && r.popup_resize is None && final(self).popup is None,
            },
    {
        let bar = self.paint(t, root, width, height, can_render, token);
        let step = self.popup_tick(now);
        let mut popup_ops: Vec<DrawOp> = Vec::new();
        let mut popup_resize: Option<Point> = None;
        if step == PopupStep::Paint {
            let p = self.popup.unwrap();
            let (needed, ops) = p.desc.render_popup(t, p.size.x, p.size.y);
            popup_ops = ops;
            popup_resize = self.popup_painted(needed);
        }
        Frame { bar, popup: step, popup_ops, popup_resize }
    }

    /// The pointer moved to `x` over the bar.  Outside the span of the
    /// popup shown, the popup goes; a hit on a region with another popup
    /// replaces it, when the new content has a size; a hit on the popup
    /// shown keeps it and cancels its pending removal.
    pub fn hover(&mut self, x: i64, t: &ItemTree) -> (r: HoverAction)
        requires
            tree_wf(*t),
        ensures
            ({
                let size = match hover_at(old(self).sink@, x as int) {
                    Some((_, _, desc)) => popup_out(*t, desc, 1, 1).pos,
                    None => Point { x: 0, y: 0 },
                };
                (final(self).popup, r) == hover_popup_next(old(self).sink@, old(self).popup, x as int, size)
            }),
            final(self).dirty == old(self).dirty,
            final(self).throttle == old(self).throttle,
            final(self).sink@ == old(self).sink@,
            final(self).settings == old(self).settings,
            final(self).cfg_index == old(self).cfg_index,
            final(self).output@ == old(self).output@,
    {
        match self.sink.get_hover(x) {
            None => {
                match self.popup {
                    Some(p) => {
                        if !(p.anchor_x as i128 <= x as i128 && x as i128 <= p.anchor_x as i128 + p.anchor_w as i128) {
                            self.popup = None;
                        }
                    },
                    None => {},
                }
                HoverAction::Keep
            },
            Some((lo, hi, desc)) => {
                let inside = match self.popup {
                    Some(p) => p.anchor_x as i128 <= x as i128 && x as i128 <= p.anchor_x as i128
                        + p.anchor_w as i128,
                    None => false,
                };
                if inside {
                    let p = self.popup.unwrap();
                    if p.desc == desc {
                        self.popup = Some(BarPopup { vanish: None, ..p });
                        return HoverAction::Keep;
                    }
                }
                let (size, _) = desc.render_popup(t, 1, 1);
                if size.x <= 0 || size.y <= 0 {
                    self.popup = None;
                    return HoverAction::Keep;
                }
                proof {
                    assert(hover_at(self.sink@, x as int) == Some((lo, hi, desc)));
                    assert(lo <= x < hi) by {
                        lemma_hover_in_span(self.sink@, x as int);
                    }
                }
                self.popup = Some(
                    BarPopup {
                        desc,
                        anchor_x: lo,
                        anchor_w: sub_px(hi, lo),
                        size,
                        vanish: None,
                        waiting_on_configure: true,
                    },
                );
                HoverAction::Show
            },
        }
    }

    /// The pointer left the bar at time `now` (milliseconds): the popup, if
    /// any, goes away after [`POPUP_LINGER_MS`].  Returns when to look
    /// again.
    pub fn no_hover(&mut self, now: u64) -> (r: Option<u64>)
        requires
            now <= u64::MAX - POPUP_LINGER_MS,
        ensures
            final(self).popup == leave_popup_next(old(self).popup, now),
            r == match final(self).popup {
                Some(p) => p.vanish,
                None => None,
            },
            final(self).dirty == old(self).dirty,
            final(self).throttle == old(self).throttle,
            final(self).sink@ == old(self).sink@,
            final(self).settings == old(self).settings,
            final(self).cfg_index == old(self).cfg_index,
            final(self).output@ == old(self).output@,
    {
        match self.popup {
            Some(p) => {
                let vanish = now + POPUP_LINGER_MS;
                self.popup = Some(BarPopup { vanish: Some(vanish), ..p });
                Some(vanish)
            },
            None => None,
        }
    }

    /// The pointer is over the popup: it stays.
    pub fn hover_popup(&mut self)
        ensures
            final(self).popup == match old(self).popup {
                Some(p) => Some(BarPopup { vanish: None, ..p }),
                None => None,
            },
            final(self).dirty == old(self).dirty,
            final(self).throttle == old(self).throttle,
            final(self).sink@ == old(self).sink@,
            final(self).settings == old(self).settings,
            final(self).cfg_index == old(self).cfg_index,
            final(self).output@ == old(self).output@,
    {
        match self.popup {
            Some(p) => {
                self.popup = Some(BarPopup { vanish: None, ..p });
            },
            None => {},
        }
    }

    /// What a click in the popup goes to.
    pub fn popup_button(&self) -> (r: Option<PopupDesc>)
        ensures
            r == match self.popup {
                Some(p) => Some(p.desc),
                None => None,
            },
    {
        match self.popup {
            Some(p) => Some(p.desc),
            None => None,
        }
    }

    /// A draw pass at time `now` reaches the popup: it is dropped once its
    /// time is past, waits while its surface is not configured, and is
    /// painted otherwise.
    pub fn popup_tick(&mut self, now: u64) -> (r: PopupStep)
        ensures
            final(self).popup == tick_popup_next(old(self).popup, now),
            r == popup_step_of(final(self).popup),
            final(self).dirty == old(self).dirty,
            final(self).throttle == old(self).throttle,
            final(self).sink@ == old(self).sink@,
            final(self).settings == old(self).settings,
            final(self).cfg_index == old(self).cfg_index,
            final(self).output@ == old(self).output@,
    {
        match self.popup {
            Some(p) => {
                match p.vanish {
                    Some(d) => {
                        if d < now {
                            self.popup = None;
                            return PopupStep::Absent;
                        }
                    },
                    None => {},
                }
                if p.waiting_on_configure {
                    PopupStep::Wait
                } else {
                    PopupStep::Paint
                }
            },
            None => PopupStep::Absent,
        }
    }

    /// The compositor configured the popup surface.
    pub fn popup_configured(&mut self)
        ensures
            final(self).popup == match old(self).popup {
                Some(p) => Some(BarPopup { waiting_on_configure: false, ..p }),
                None => None,
            },
            final(self).dirty == old(self).dirty,
            final(self).throttle == old(self).throttle,
            final(self).sink@ == old(self).sink@,
            final(self).settings == old(self).settings,
            final(self).cfg_index == old(self).cfg_index,
            final(self).output@ == old(self).output@,
    {
        match self.popup {
            Some(p) => {
                self.popup = Some(BarPopup { waiting_on_configure: false, ..p });
            },
            None => {},
        }
    }

    /// The popup content measured `needed` when painted: when it exceeds the
    /// size asked for, the popup asks for the larger of the two in each
    /// direction and waits for its surface again.  Returns the new size.
    pub fn popup_painted(&mut self, needed: Point) -> (r: Option<Point>)
        ensures
            match old(self).popup {
                Some(p) => final(self).popup == Some(grow_popup(p, needed).0) && r == grow_popup(p, needed).1,
                None => r is None && final(self).popup is None,
            },
            final(self).dirty == old(self).dirty,
            final(self).throttle == old(self).throttle,
            final(self).sink@ == old(self).sink@,
            final(self).settings == old(self).settings,
            final(self).cfg_index == old(self).cfg_index,
            final(self).output@ == old(self).output@,
    {
        match self.popup {
            Some(p) => {
                if needed.x > p.size.x || needed.y > p.size.y {
                    let s = Point {
                        x: if needed.x > p.size.x { needed.x } else { p.size.x },
                        y: if needed.y > p.size.y { needed.y } else { p.size.y },
                    };
                    self.popup = Some(BarPopup { size: s, waiting_on_configure: true, ..p });
                    Some(s)
                } else {
                    None
                }
            },
            None => None,
        }
    }
}

proof fn lemma_hover_in_span(s: Seq<Region>, x: int)
    requires
        hover_at(s, x) is Some,
    ensures
        ({
            let (lo, hi, _) = hover_at(s, x)->Some_0;
            lo <= x < hi
        }),
    decreases s.len(),
{
    if s.len() > 0 && !(s[0].popup is Some && s[0].lo <= x < s[0].hi) {
        lemma_hover_in_span(s.drop_first(), x);
    }
}

/// The input region to send after a paint with sparse clicks: the merged
/// spans of the new regions on the input strip, when they differ from
/// those of the old regions.
fn input_update(old_sink: &EventSink, new_sink: &EventSink, settings: &BarSettings, height: i64) -> (r: Option<Vec<InputRect>>)
    ensures
        r is Some ==> settings.sparse,
        settings.sparse ==> (r is None <==> forall|x: int| covers(old_sink@, x) == covers(new_sink@, x)),
        r matches Some(v) ==> forall|i: int|
            0 <= i < v@.len() ==> (#[trigger] v@[i]).y == input_y(
                settings.anchor_top,
                height as int,
                settings.click_size as int,
            ) && v@[i].h == settings.click_size,
        r matches Some(v) ==> spans_canonical(v@.map_values(|q: InputRect| (q.x0, q.x1)))
            && forall|x: int| spans_cover(v@.map_values(|q: InputRect| (q.x0, q.x1)), x) == covers(new_sink@, x),
{
    let mut input: Option<Vec<InputRect>> = None;
    if settings.sparse {
        let old_regions = old_sink.active_regions();
        let new_regions = new_sink.active_regions();
        if !same_spans(&old_regions, &new_regions) {
            let click = settings.click_size as i64;
            let y: i64 = if settings.anchor_top {
                0
            } else if height > click {
                height - click
            } else {
                0
            };
            let v = input_rects(&new_regions, y, click);
            assert forall|x: int|
                (exists|i: int| 0 <= i < v@.len() && #[trigger] v@[i].x0 <= x && x < v@[i].x1)
                == covers(new_sink@, x) by {
                if exists|i: int| 0 <= i < v@.len() && #[trigger] v@[i].x0 <= x && x < v@[i].x1 {
                    let i = choose|i: int| 0 <= i < v@.len() && #[trigger] v@[i].x0 <= x && x < v@[i].x1;
                    assert(new_regions@[i].0 <= x && x < new_regions@[i].1);
                }
                if spans_cover(new_regions@, x) {
                    let i = choose|i: int| 0 <= i < new_regions@.len() && #[trigger] new_regions@[i].0 <= x && x < new_regions@[i].1;
                    assert(v@[i].x0 <= x && x < v@[i].x1);
                }
            }
            assert(y == input_y(settings.anchor_top, height as int, settings.click_size as int));
            assert forall|i: int| 0 <= i < v@.len() implies (#[trigger] v@[i]).y == input_y(
                settings.anchor_top,
                height as int,
                settings.click_size as int,
            ) && v@[i].h == settings.click_size by {}
            assert(v@.map_values(|q: InputRect| (q.x0, q.x1)) =~= new_regions@);
            assert(!(forall|x: int| covers(old_sink@, x) == covers(new_sink@, x))) by {
                if forall|x: int| covers(old_sink@, x) == covers(new_sink@, x) {
                    assert forall|x: int| spans_cover(old_regions@, x) == spans_cover(new_regions@, x) by {
                        assert(spans_cover(old_regions@, x) == covers(old_sink@, x));
                        assert(spans_cover(new_regions@, x) == covers(new_sink@, x));
                    }
                    lemma_canonical_unique(old_regions@, new_regions@);
                }
            }
            input = Some(v);
        } else {
            assert forall|x: int| covers(old_sink@, x) == covers(new_sink@, x) by {
                assert(spans_cover(old_regions@, x) == covers(old_sink@, x));
                assert(spans_cover(new_regions@, x) == covers(new_sink@, x));
            }
        }
    }
    input
}

/// Whether two span lists are equal.
fn same_spans(a: &Vec<(i64, i64)>, b: &Vec<(i64, i64)>) -> (r: bool)
    ensures
        r == (a@ == b@),
{
    if a.len() != b.len() {
        return false;
    }
    let mut i: usize = 0;
    while i < a.len()
        invariant
            a@.len() == b@.len(),
            i <= a@.len(),
            forall|j: int| 0 <= j < i ==> a@[j] == b@[j],
        decreases a@.len() - i,
    {
        if a[i].0 != b[i].0 || a[i].1 != b[i].1 {
            return false;
        }
        i = i + 1;
    }
    assert(a@ =~= b@);
    true
}

/// One input rectangle per span, on the row `y` with height `h`.
fn input_rects(spans: &Vec<(i64, i64)>, y: i64, h: i64) -> (r: Vec<InputRect>)
    ensures
        r@.len() == spans@.len(),
        forall|i: int| 0 <= i < r@.len() ==> (#[trigger] r@[i]) == (InputRect { x0: spans@[i].0, x1: spans@[i].1, y, h }),
{
    let mut out: Vec<InputRect> = Vec::new();
    let mut i: usize = 0;
    while i < spans.len()
        invariant
            i <= spans@.len(),
            out@.len() == i,
            forall|k: int| 0 <= k < i ==> (#[trigger] out@[k]) == (InputRect { x0: spans@[k].0, x1: spans@[k].1, y, h }),
        decreases spans@.len() - i,
    {
        let (lo, hi) = spans[i];
        out.push(InputRect { x0: lo, x1: hi, y, h });
        i = i + 1;
    }
    out
}

/// A bar with a frame in flight does not paint, however often it is marked
/// dirty.  When the compositor reports that frame done and the bar is still
/// dirty, it paints once; the frame of that paint is then in flight and a
/// second paint waits for it.
pub proof fn lemma_one_frame_in_flight(t1: u64, t2: u64, alive: bool)
    ensures
        !may_paint(true, Some(t1), true),
        after_frame_done(Some(t1), t1, alive) is None,
        may_paint(true, after_frame_done(Some(t1), t1, alive), true),
        !may_paint(true, Some(t2), true),
        !may_paint(false, None, true),
{
}

/// A popup whose pointer left and came back to the same popup region keeps
/// its instance: nothing is created, the pending removal is cancelled, and
/// no later draw pass removes it.  A draw pass within the linger time after
/// the pointer left does not remove it either.
pub proof fn lemma_popup_survives_return(sink: Seq<Region>, p: BarPopup, x: int, now: u64, size: Point)
    requires
        hover_at(sink, x) matches Some((_, _, d)) && d == p.desc,
        p.anchor_x <= x <= p.anchor_x + p.anchor_w,
        now <= u64::MAX - POPUP_LINGER_MS,
    ensures
        ({
            let left = leave_popup_next(Some(p), now);
            let (back, act) = hover_popup_next(sink, left, x, size);
            &&& back == Some(BarPopup { vanish: None, ..p })
            &&& act == HoverAction::Keep
            &&& forall|later: u64| tick_popup_next(back, later) == back
            &&& forall|soon: u64| soon <= now + POPUP_LINGER_MS ==> tick_popup_next(left, soon) == left
        }),
{
}

/// A popup whose pointer left and did not come back is removed by the first
/// draw pass after the linger time.
pub proof fn lemma_popup_vanishes(p: BarPopup, now: u64, later: u64)
    requires
        now <= u64::MAX - POPUP_LINGER_MS,
        now + POPUP_LINGER_MS < later,
    ensures
        tick_popup_next(leave_popup_next(Some(p), now), later) is None,
{
}

} // verus!
