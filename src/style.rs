//! Per-item style: box model widths, colors and alignment.
use vstd::prelude::*;
use crate::color::Rgba;
use crate::geom::{sat, add_px};

verus! {

/// Widths of the four sides of a box, CSS order.
#[derive(Clone, Copy, Debug, PartialEq, Eq, Structural)]
pub struct Trbl {
    pub top: i64,
    pub right: i64,
    pub bottom: i64,
    pub left: i64,
}

/// A width given in pixels or as a fraction (in thousandths) of the
/// parent's available width.
#[derive(Clone, Copy, Debug, PartialEq, Eq, Structural)]
pub enum Width {
    Pixels(i64),
    Fraction(i64),
}

/// The resolved box formatting of an item; every part is optional.
#[derive(Clone, Copy, Debug, PartialEq, Eq, Structural)]
pub struct Formatting {
    pub bg_rgba: Option<Rgba>,
    pub border: Option<Trbl>,
    pub border_rgba: Option<Rgba>,
    pub min_width: Option<Width>,
    pub max_width: Option<Width>,
    pub margin: Option<Trbl>,
    pub padding: Option<Trbl>,
}

/// An item's style: its box formatting and what it changes for its content.
#[derive(Clone, Copy, Debug, PartialEq, Eq, Structural)]
pub struct Style {
    pub fmt: Formatting,
    /// Horizontal alignment, in thousandths (0 left, 500 center, 1000 right).
    pub halign: Option<i64>,
    /// Text color for the content.
    pub font_color: Option<Rgba>,
    /// Font for the content, by index in the font list.
    pub font: Option<usize>,
    /// Font size, in thousandths of a pixel.
    pub font_size: Option<i64>,
    /// Text outline color.
    pub text_stroke: Option<Rgba>,
    /// Text outline width, in thousandths of a pixel.
    pub text_stroke_size: Option<i64>,
}

pub open spec fn trbl_add(a: Trbl, b: Option<Trbl>) -> Trbl {
    match b {
        Some(b) => Trbl {
            top: sat(a.top + b.top) as i64,
            right: sat(a.right + b.right) as i64,
            bottom: sat(a.bottom + b.bottom) as i64,
            left: sat(a.left + b.left) as i64,
        },
        None => a,
    }
}

/// The total inset of the box: padding, margin and border added side by
/// side; none when none of the three is set.
pub open spec fn shrink_of(f: Formatting) -> Option<Trbl> {
    if f.padding is None && f.margin is None && f.border is None {
        None
    } else {
        Some(
            trbl_add(
                trbl_add(trbl_add(Trbl { top: 0, right: 0, bottom: 0, left: 0 }, f.padding), f.margin),
                f.border,
            ),
        )
    }
}

/// Formatting that changes nothing: every part unset.
pub open spec fn formatting_is_boring(f: Formatting) -> bool {
    f.bg_rgba is None && f.border is None && f.border_rgba is None && f.min_width is None
        && f.max_width is None && f.margin is None && f.padding is None
}

fn trbl_sum(a: Trbl, b: Option<Trbl>) -> (r: Trbl)
    ensures
        r == trbl_add(a, b),
{
    match b {
        Some(b) => Trbl {
            top: add_px(a.top, b.top),
            right: add_px(a.right, b.right),
            bottom: add_px(a.bottom, b.bottom),
            left: add_px(a.left, b.left),
        },
        None => a,
    }
}

impl Formatting {
    /// Formatting with every part unset.
    pub fn boring() -> (r: Formatting)
        ensures
            formatting_is_boring(r),
    {
        Formatting {
            bg_rgba: None,
            border: None,
            border_rgba: None,
            min_width: None,
            max_width: None,
            margin: None,
            padding: None,
        }
    }

    /// The total inset of the box, see [`shrink_of`].
    pub fn get_shrink(&self) -> (r: Option<Trbl>)
        ensures
            r == shrink_of(*self),
    {
        if self.padding.is_none() && self.margin.is_none() && self.border.is_none() {
            return None;
        }
        let z = Trbl { top: 0, right: 0, bottom: 0, left: 0 };
        Some(trbl_sum(trbl_sum(trbl_sum(z, self.padding), self.margin), self.border))
    }

    pub fn is_boring(&self) -> (r: bool)
        ensures
            r == formatting_is_boring(*self),
    {
        self.bg_rgba.is_none() && self.border.is_none() && self.border_rgba.is_none()
            && self.min_width.is_none() && self.max_width.is_none() && self.margin.is_none()
            && self.padding.is_none()
    }
}

} // verus!
