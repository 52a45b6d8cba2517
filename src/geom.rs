//! Whole-pixel geometry with saturating arithmetic.
use vstd::prelude::*;

verus! {

/// Saturates `v` to the range of `i64`.
pub open spec fn sat(v: int) -> int {
    if v < i64::MIN {
        i64::MIN as int
    } else if v > i64::MAX {
        i64::MAX as int
    } else {
        v
    }
}

pub open spec fn min(a: int, b: int) -> int {
    if a < b {
        a
    } else {
        b
    }
}

pub open spec fn max(a: int, b: int) -> int {
    if a < b {
        b
    } else {
        a
    }
}

/// `v * f / 1000`, rounded toward zero.
pub open spec fn permille(v: int, f: int) -> int {
    if v * f >= 0 {
        (v * f) / 1000
    } else {
        -((-(v * f)) / 1000)
    }
}

/// `a + b`, saturating.
pub fn add_px(a: i64, b: i64) -> (r: i64)
    ensures
        r == sat(a + b),
{
    let v: i128 = a as i128 + b as i128;
    if v < i64::MIN as i128 {
        i64::MIN
    } else if v > i64::MAX as i128 {
        i64::MAX
    } else {
        v as i64
    }
}

/// `a - b`, saturating.
pub fn sub_px(a: i64, b: i64) -> (r: i64)
    ensures
        r == sat(a - b),
{
    let v: i128 = a as i128 - b as i128;
    if v < i64::MIN as i128 {
        i64::MIN
    } else if v > i64::MAX as i128 {
        i64::MAX
    } else {
        v as i64
    }
}

/// `v * f / 1000` rounded toward zero, saturating.
pub fn permille_px(v: i64, f: i64) -> (r: i64)
    ensures
        r == sat(permille(v as int, f as int)),
{
    assert((v as int) * (f as int) <= 0x4000_0000_0000_0000_0000_0000_0000_0000
        && (v as int) * (f as int) >= -0x4000_0000_0000_0000_0000_0000_0000_0000) by (nonlinear_arith)
        requires
            i64::MIN <= v <= i64::MAX,
            i64::MIN <= f <= i64::MAX,
    ;
    let p: i128 = v as i128 * f as i128;
    let q: i128 = if p >= 0 {
        p / 1000
    } else {
        -((-p) / 1000)
    };
    if q < i64::MIN as i128 {
        i64::MIN
    } else if q > i64::MAX as i128 {
        i64::MAX
    } else {
        q as i64
    }
}

pub fn min_px(a: i64, b: i64) -> (r: i64)
    ensures
        r == min(a as int, b as int),
{
    if a < b {
        a
    } else {
        b
    }
}

pub fn max_px(a: i64, b: i64) -> (r: i64)
    ensures
        r == max(a as int, b as int),
{
    if a < b {
        b
    } else {
        a
    }
}

/// A point in bar coordinates.
#[derive(Clone, Copy, Debug, PartialEq, Eq, Structural)]
pub struct Point {
    pub x: i64,
    pub y: i64,
}

/// A rectangle spanning `x0..x1` by `y0..y1`.
#[derive(Clone, Copy, Debug, PartialEq, Eq, Structural)]
pub struct Rect {
    pub x0: i64,
    pub y0: i64,
    pub x1: i64,
    pub y1: i64,
}

pub open spec fn rect_shift(r: Rect, dx: int) -> Rect {
    Rect { x0: sat(r.x0 + dx) as i64, x1: sat(r.x1 + dx) as i64, ..r }
}

pub open spec fn rect_meet(a: Rect, b: Rect) -> Rect {
    Rect {
        x0: max(a.x0 as int, b.x0 as int) as i64,
        y0: max(a.y0 as int, b.y0 as int) as i64,
        x1: min(a.x1 as int, b.x1 as int) as i64,
        y1: min(a.y1 as int, b.y1 as int) as i64,
    }
}

impl Rect {
    /// The whole plane.
    pub open spec fn spec_all() -> Rect {
        Rect { x0: i64::MIN, y0: i64::MIN, x1: i64::MAX, y1: i64::MAX }
    }

    pub fn all() -> (r: Rect)
        ensures
            r == Rect::spec_all(),
    {
        Rect { x0: i64::MIN, y0: i64::MIN, x1: i64::MAX, y1: i64::MAX }
    }

    /// This rectangle moved right by `dx`.
    pub fn shift(&self, dx: i64) -> (r: Rect)
        ensures
            r == rect_shift(*self, dx as int),
    {
        Rect { x0: add_px(self.x0, dx), x1: add_px(self.x1, dx), ..*self }
    }

    /// The part of this rectangle inside `o`.
    pub fn meet(&self, o: &Rect) -> (r: Rect)
        ensures
            r == rect_meet(*self, *o),
    {
        Rect {
            x0: max_px(self.x0, o.x0),
            y0: max_px(self.y0, o.y0),
            x1: min_px(self.x1, o.x1),
            y1: min_px(self.y1, o.y1),
        }
    }
}

} // verus!
