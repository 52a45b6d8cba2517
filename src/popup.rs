//! Rendering the content of a hover popup.
use vstd::prelude::*;
use crate::color::Rgba;
use crate::event::{EventSink, PopupDesc, with_item};
use crate::geom::{Point, Rect, sat, add_px};
use crate::layout::{DrawOp, Env, Item, ItemTree, Module, Out, Render, TextStyle, Tooltip, out, nothing, render_out, tree_wf};

verus! {

/// White, opaque: the text color inside popups.
pub open spec fn popup_white() -> Rgba {
    Rgba { r: 0xFFFF, g: 0xFFFF, b: 0xFFFF, a: 0xFFFF }
}

/// The surroundings of popup content on a `width` by `height` surface.
pub open spec fn popup_env(width: i64, height: i64, iter: Option<u64>) -> Env {
    Env {
        clip: Rect { x0: 0, y0: 0, x1: width, y1: height },
        flex: true,
        halign: None,
        text: TextStyle { font: 0, size: 16000, color: popup_white(), stroke: None, stroke_size: None },
        iter,
    }
}

/// Where popup content starts.
pub open spec fn popup_origin() -> Point {
    Point { x: 2, y: 2 }
}

/// What the popup `desc` draws on a `width` by `height` surface; its
/// cursor ends at the size the popup wants.
pub open spec fn popup_out(t: ItemTree, desc: PopupDesc, width: i64, height: i64) -> Out {
    match desc {
        PopupDesc::RenderItem { item, iter } => if item < t.nodes@.len() {
            render_out(t, item as int, popup_env(width, height, iter), popup_origin())
        } else {
            nothing(popup_origin())
        },
        PopupDesc::TextItem { source, iter } => if source < t.nodes@.len() {
            match t.nodes@[source as int].data {
                Module::Text { tooltip: Tooltip::Text { width: tw, height: th }, .. } => out(
                    Point { x: sat(tw + 4) as i64, y: sat(th + 4) as i64 },
                    seq![DrawOp::Tooltip {
                        node: source,
                        at: popup_origin(),
                        text: popup_env(width, height, iter).text,
                        clip: Rect { x0: 0, y0: 0, x1: width, y1: height },
                    }],
                    Seq::empty(),
                ),
                _ => nothing(popup_origin()),
            }
        } else {
            nothing(popup_origin())
        },
    }
}

fn popup_text(color: Rgba) -> (r: TextStyle)
    ensures
        r == (TextStyle { font: 0, size: 16000, color, stroke: None, stroke_size: None }),
{
    TextStyle { font: 0, size: 16000, color, stroke: None, stroke_size: None }
}

impl PopupDesc {
    /// Renders the popup content on a `width` by `height` surface: the
    /// operations to draw and the size the content needs.
    pub fn render_popup(&self, t: &ItemTree, width: i64, height: i64) -> (r: (Point, Vec<DrawOp>))
        requires
            tree_wf(*t),
        ensures
            r.0 == popup_out(*t, *self, width, height).pos,
            r.1@ == popup_out(*t, *self, width, height).ops,
    {
        let white = Rgba { r: 0xFFFF, g: 0xFFFF, b: 0xFFFF, a: 0xFFFF };
        let clip = Rect { x0: 0, y0: 0, x1: width, y1: height };
        let origin = Point { x: 2, y: 2 };
        match *self {
            PopupDesc::RenderItem { item, iter } => {
                if item >= t.nodes.len() {
                    return (origin, Vec::new());
                }
                let env = Env { clip, flex: true, halign: None, text: popup_text(white), iter };
                let mut ctx = Render { env, pos: origin, canvas: Vec::new() };
                let _ = Item::render(t, item, &mut ctx);
                assert(ctx.canvas@ =~= Seq::<DrawOp>::empty() + ctx.canvas@);
                (ctx.pos, ctx.canvas)
            },
            PopupDesc::TextItem { source, iter } => {
                if source >= t.nodes.len() {
                    return (origin, Vec::new());
                }
                match &t.nodes[source].data {
                    Module::Text { tooltip: Tooltip::Text { width: tw, height: th }, .. } => {
                        let mut ops: Vec<DrawOp> = Vec::new();
                        let op = DrawOp::Tooltip { node: source, at: origin, text: popup_text(white), clip };
                        ops.push(op);
                        assert(ops@ =~= seq![op]);
                        (Point { x: add_px(*tw, 4), y: add_px(*th, 4) }, ops)
                    },
                    _ => (origin, Vec::new()),
                }
            },
        }
    }

    /// The regions a click in the popup goes to: those of the rendered item,
    /// tagged with its iteration entry; none for a tooltip text.
    pub fn button(&self, t: &ItemTree) -> (r: Option<EventSink>)
        ensures
            match *self {
                PopupDesc::RenderItem { item, iter } => if item < t.nodes@.len() {
                    r is Some && r->Some_0@ == match iter {
                        Some(k) => with_item(t.nodes@[item as int].events@, k),
                        None => t.nodes@[item as int].events@,
                    }
                } else {
                    r is None
                },
                PopupDesc::TextItem { .. } => r is None,
            },
    {
        match *self {
            PopupDesc::RenderItem { item, iter } => {
                if item >= t.nodes.len() {
                    return None;
                }
                let mut events = t.nodes[item].events.copy();
                match iter {
                    Some(k) => events.set_item(k),
                    None => {},
                }
                Some(events)
            },
            PopupDesc::TextItem { .. } => None,
        }
    }
}

} // verus!
