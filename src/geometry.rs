//! Integer sizes, fixed-point anchors and anchor-relative positions.
//!
//! A scale is written in thousandths: `1000` is the whole parent extent,
//! `500` is half of it.

use vstd::prelude::*;

verus! {

/// The denominator of every scale value.
pub const SCALE_ONE: u16 = 1000;

/// Half of `SCALE_ONE`, added before dividing so that products round to nearest.
pub const SCALE_HALF: u64 = 500;

/// A width and a height in cells.
#[derive(Clone, Copy, Debug, PartialEq, Eq, Structural)]
pub struct Size2D {
    pub x: u16,
    pub y: u16,
}

impl Size2D {
    pub fn new(x: u16, y: u16) -> (r: Size2D)
        ensures
            r.x == x,
            r.y == y,
    {
        Size2D { x, y }
    }
}

/// A point inside a box, in thousandths of its width and height.
#[derive(Clone, Copy, Debug, PartialEq, Eq, Structural)]
pub struct Scale2D {
    pub x: u16,
    pub y: u16,
}

impl Scale2D {
    pub open spec fn wf(&self) -> bool {
        self.x <= SCALE_ONE && self.y <= SCALE_ONE
    }

    pub fn new(x: u16, y: u16) -> (r: Scale2D)
        requires
            x <= SCALE_ONE,
            y <= SCALE_ONE,
        ensures
            r.x == x,
            r.y == y,
            r.wf(),
    {
        Scale2D { x, y }
    }
}

/// One axis of a relative quantity: `scale` thousandths of the parent extent plus `offset` cells.
#[derive(Clone, Copy, Debug, PartialEq, Eq, Structural)]
pub struct UDim {
    pub scale: u16,
    pub offset: i32,
}

/// A relative quantity on both axes.
#[derive(Clone, Copy, Debug, PartialEq, Eq, Structural)]
pub struct UDim2 {
    pub x: UDim,
    pub y: UDim,
}

/// An absolute rectangle of cells; its corner may lie off the surface.
#[derive(Clone, Copy, Debug, PartialEq, Eq, Structural)]
pub struct Rect {
    pub x: i32,
    pub y: i32,
    pub width: u16,
    pub height: u16,
}

/// `milli` thousandths of `extent`, rounded to the nearest integer (halves round up).
pub open spec fn scaled(milli: int, extent: int) -> int {
    (milli * extent + SCALE_HALF) / (SCALE_ONE as int)
}

/// The value of one axis of a relative quantity against a parent extent.
pub open spec fn resolve_axis(u: UDim, extent: int) -> int {
    scaled(u.scale as int, extent) + u.offset as int
}

/// `v` held to the range of `i32`.
pub open spec fn clamp_i32(v: int) -> int {
    if v < i32::MIN { i32::MIN as int } else if v > i32::MAX { i32::MAX as int } else { v }
}

/// `v` held to the range of `u16`.
pub open spec fn clamp_u16(v: int) -> int {
    if v < 0 { 0 } else if v > u16::MAX { u16::MAX as int } else { v }
}

impl UDim2 {
    pub open spec fn wf(&self) -> bool {
        self.x.scale <= SCALE_ONE && self.y.scale <= SCALE_ONE
    }

    pub fn new(scale_x: u16, offset_x: i32, scale_y: u16, offset_y: i32) -> (r: UDim2)
        requires
            scale_x <= SCALE_ONE,
            scale_y <= SCALE_ONE,
        ensures
            r.x == (UDim { scale: scale_x, offset: offset_x }),
            r.y == (UDim { scale: scale_y, offset: offset_y }),
            r.wf(),
    {
        UDim2 { x: UDim { scale: scale_x, offset: offset_x }, y: UDim { scale: scale_y, offset: offset_y } }
    }

    /// A fixed quantity that does not follow the parent's extent.
    pub fn from_size2d(s: Size2D) -> (r: UDim2)
        ensures
            r.x == (UDim { scale: 0, offset: s.x as i32 }),
            r.y == (UDim { scale: 0, offset: s.y as i32 }),
            r.wf(),
    {
        UDim2 { x: UDim { scale: 0, offset: s.x as i32 }, y: UDim { scale: 0, offset: s.y as i32 } }
    }

    /// The whole parent extent on both axes.
    pub fn full() -> (r: UDim2)
        ensures
            r.x == (UDim { scale: SCALE_ONE, offset: 0 }),
            r.y == (UDim { scale: SCALE_ONE, offset: 0 }),
            r.wf(),
    {
        UDim2 { x: UDim { scale: SCALE_ONE, offset: 0 }, y: UDim { scale: SCALE_ONE, offset: 0 } }
    }

    /// Zero on both axes.
    pub fn zero() -> (r: UDim2)
        ensures
            r.x == (UDim { scale: 0, offset: 0 }),
            r.y == (UDim { scale: 0, offset: 0 }),
            r.wf(),
    {
        UDim2 { x: UDim { scale: 0, offset: 0 }, y: UDim { scale: 0, offset: 0 } }
    }
}

/// `milli` thousandths of `extent`, rounded to nearest.
pub fn scale_extent(milli: u16, extent: u16) -> (r: i64)
    requires
        milli <= SCALE_ONE,
    ensures
        r == scaled(milli as int, extent as int),
        0 <= r <= extent,
{
    assert((milli as u64) * (extent as u64) <= 1000 * (extent as u64)) by (nonlinear_arith)
        requires milli <= 1000;
    let p: u64 = (milli as u64) * (extent as u64);
    let q: u64 = (p + SCALE_HALF) / (SCALE_ONE as u64);
    assert(q <= extent as u64) by (nonlinear_arith)
        requires q == (p + 500) / 1000, p <= 1000 * (extent as u64);
    q as i64
}

/// Resolves a relative quantity against a parent rectangle, giving a value per axis
/// measured from the parent's corner.
pub fn resolve(u: UDim2, parent: Rect) -> (r: (i64, i64))
    requires
        u.wf(),
    ensures
        r.0 == resolve_axis(u.x, parent.width as int),
        r.1 == resolve_axis(u.y, parent.height as int),
        i32::MIN <= r.0 <= i32::MAX + u16::MAX,
        i32::MIN <= r.1 <= i32::MAX + u16::MAX,
{
    let sx = scale_extent(u.x.scale, parent.width);
    let sy = scale_extent(u.y.scale, parent.height);
    (sx + u.x.offset as i64, sy + u.y.offset as i64)
}

/// Holds a value to the range of `i32`.
pub fn saturate_i32(v: i64) -> (r: i32)
    ensures
        r == clamp_i32(v as int),
{
    if v < i32::MIN as i64 {
        i32::MIN
    } else if v > i32::MAX as i64 {
        i32::MAX
    } else {
        v as i32
    }
}

/// Holds a value to the range of `u16`.
pub fn saturate_u16(v: i64) -> (r: u16)
    ensures
        r == clamp_u16(v as int),
{
    if v < 0 {
        0
    } else if v > u16::MAX as i64 {
        u16::MAX
    } else {
        v as u16
    }
}

} // verus!
