use vstd::prelude::*;

verus! {

/// A two-dimensional extent in layout units. Both components are
/// non-negative; `u32::MAX` on an axis stands for "unbounded".
#[derive(Clone, Copy, PartialEq, Eq, Structural, Debug)]
pub struct Size {
    pub x: u32,
    pub y: u32,
}

/// A point in layout units, relative to some origin.
#[derive(Clone, Copy, PartialEq, Eq, Structural, Debug)]
pub struct Position {
    pub x: i64,
    pub y: i64,
}

/// An axis-aligned rectangle: a corner position and an extent.
#[derive(Clone, Copy, PartialEq, Eq, Structural, Debug)]
pub struct Rect {
    pub position: Position,
    pub size: Size,
}

/// Four-sided spacing around a widget.
#[derive(Clone, Copy, PartialEq, Eq, Structural, Debug)]
pub struct Thickness {
    pub left: u32,
    pub top: u32,
    pub right: u32,
    pub bottom: u32,
}

/// `v` pushed into the interval `[lo, hi]`, lower bound first, as the
/// setters of a widget do on each axis.
pub open spec fn clamp_dim(v: u32, lo: u32, hi: u32) -> u32 {
    let raised = if v < lo { lo } else { v };
    if raised > hi { hi } else { raised }
}

/// `a + b` held inside the range of `i64`, for accumulating screen offsets.
pub open spec fn sat_add(a: i64, b: i64) -> i64 {
    if a + b > i64::MAX {
        i64::MAX
    } else if a + b < i64::MIN {
        i64::MIN
    } else {
        (a + b) as i64
    }
}

impl Size {
    pub fn zero() -> (r: Size)
        ensures
            r == (Size { x: 0u32, y: 0u32 }),
    {
        Size { x: 0, y: 0 }
    }

    pub fn new(x: u32, y: u32) -> (r: Size)
        ensures
            r == (Size { x, y }),
    {
        Size { x, y }
    }

    /// The largest representable extent, standing for an unconstrained one.
    pub fn unbounded() -> (r: Size)
        ensures
            r == (Size { x: u32::MAX, y: u32::MAX }),
    {
        Size { x: u32::MAX, y: u32::MAX }
    }

    /// The component-wise maximum of two extents.
    pub fn max(self, other: Size) -> (r: Size)
        ensures
            r.x == if self.x >= other.x { self.x } else { other.x },
            r.y == if self.y >= other.y { self.y } else { other.y },
    {
        Size {
            x: if self.x >= other.x { self.x } else { other.x },
            y: if self.y >= other.y { self.y } else { other.y },
        }
    }
}

impl Position {
    pub fn zero() -> (r: Position)
        ensures
            r == (Position { x: 0i64, y: 0i64 }),
    {
        Position { x: 0, y: 0 }
    }

    pub fn new(x: i64, y: i64) -> (r: Position)
        ensures
            r == (Position { x, y }),
    {
        Position { x, y }
    }

    /// Translate this point by another, saturating at the ends of the range.
    pub fn translate(self, offset: Position) -> (r: Position)
        ensures
            r.x == sat_add(self.x, offset.x),
            r.y == sat_add(self.y, offset.y),
    {
        Position { x: sat_add_exec(self.x, offset.x), y: sat_add_exec(self.y, offset.y) }
    }
}

impl Rect {
    pub fn new(x: i64, y: i64, w: u32, h: u32) -> (r: Rect)
        ensures
            r == (Rect { position: Position { x, y }, size: Size { x: w, y: h } }),
    {
        Rect { position: Position { x, y }, size: Size { x: w, y: h } }
    }

    pub fn zero() -> (r: Rect)
        ensures
            r == (Rect {
                position: Position { x: 0i64, y: 0i64 },
                size: Size { x: 0u32, y: 0u32 },
            }),
    {
        Rect { position: Position { x: 0, y: 0 }, size: Size { x: 0, y: 0 } }
    }
}

impl Thickness {
    pub fn zero() -> (r: Thickness)
        ensures
            r == (Thickness { left: 0u32, top: 0u32, right: 0u32, bottom: 0u32 }),
    {
        Thickness { left: 0, top: 0, right: 0, bottom: 0 }
    }

    pub fn uniform(v: u32) -> (r: Thickness)
        ensures
            r == (Thickness { left: v, top: v, right: v, bottom: v }),
    {
        Thickness { left: v, top: v, right: v, bottom: v }
    }
}

/// Clamp a value into `[lo, hi]`, lower bound first.
pub fn clamp_dim_exec(v: u32, lo: u32, hi: u32) -> (r: u32)
    ensures
        r == clamp_dim(v, lo, hi),
{
    let raised = if v < lo { lo } else { v };
    if raised > hi { hi } else { raised }
}

/// Saturating addition on layout coordinates.
pub fn sat_add_exec(a: i64, b: i64) -> (r: i64)
    ensures
        r == sat_add(a, b),
{
    match a.checked_add(b) {
        Some(s) => s,
        None => {
            if b >= 0 {
                i64::MAX
            } else {
                i64::MIN
            }
        },
    }
}

} // verus!
