//! Per-entity layout: desired size, position and anchor, and their resolution
//! against a parent rectangle.

use vstd::prelude::*;
use crate::geometry::{
    clamp_i32, clamp_u16, resolve, resolve_axis, saturate_i32, saturate_u16, scale_extent, scaled,
    Rect, Scale2D, Size2D, UDim, UDim2, SCALE_ONE,
};

verus! {

/// Half of a scale: the middle of a box.
pub const SCALE_MID: u16 = 500;

/// How one entity wants to be placed inside its parent's rectangle.
#[derive(Clone, Copy, Debug, PartialEq, Eq, Structural)]
pub struct LayoutNode {
    pub size: UDim2,
    pub position: UDim2,
    pub anchor: Scale2D,
}

/// The rectangle that `node` takes inside `parent`: the size is resolved against the
/// parent's extent, the position against the parent's extent from its corner, and the
/// anchor point of the node's own box is then moved onto that position.
pub open spec fn place_spec(node: LayoutNode, parent: Rect) -> Rect {
    let w = clamp_u16(resolve_axis(node.size.x, parent.width as int));
    let h = clamp_u16(resolve_axis(node.size.y, parent.height as int));
    Rect {
        x: clamp_i32(parent.x as int + resolve_axis(node.position.x, parent.width as int)
            - scaled(node.anchor.x as int, w)) as i32,
        y: clamp_i32(parent.y as int + resolve_axis(node.position.y, parent.height as int)
            - scaled(node.anchor.y as int, h)) as i32,
        width: w as u16,
        height: h as u16,
    }
}

/// The cell column that halves a rectangle's width (rounded as scales are).
pub open spec fn mid_x(r: Rect) -> int {
    r.x as int + scaled(SCALE_MID as int, r.width as int)
}

/// The cell row that halves a rectangle's height (rounded as scales are).
pub open spec fn mid_y(r: Rect) -> int {
    r.y as int + scaled(SCALE_MID as int, r.height as int)
}

/// The layout a new entity starts with: the whole parent, anchored at its top left.
pub open spec fn default_layout() -> LayoutNode {
    LayoutNode {
        size: UDim2 { x: UDim { scale: SCALE_ONE, offset: 0 }, y: UDim { scale: SCALE_ONE, offset: 0 } },
        position: UDim2 { x: UDim { scale: 0, offset: 0 }, y: UDim { scale: 0, offset: 0 } },
        anchor: Scale2D { x: 0, y: 0 },
    }
}

/// The default layout with a fixed size.
pub open spec fn sized_layout(size: Size2D) -> LayoutNode {
    LayoutNode {
        size: UDim2 { x: UDim { scale: 0, offset: size.x as i32 }, y: UDim { scale: 0, offset: size.y as i32 } },
        ..default_layout()
    }
}

impl LayoutNode {
    pub open spec fn wf(&self) -> bool {
        self.size.wf() && self.position.wf() && self.anchor.wf()
    }

    /// Full parent size, at the parent's corner, anchored at the top left.
    pub fn new() -> (r: LayoutNode)
        ensures
            r.wf(),
            r == default_layout(),
    {
        LayoutNode { size: UDim2::full(), position: UDim2::zero(), anchor: Scale2D::new(0, 0) }
    }

    pub fn set_size(&mut self, size: UDim2)
        ensures
            *final(self) == (LayoutNode { size, ..*old(self) }),
    {
        self.size = size;
    }

    pub fn set_position(&mut self, position: UDim2)
        ensures
            *final(self) == (LayoutNode { position, ..*old(self) }),
    {
        self.position = position;
    }

    pub fn set_anchor(&mut self, anchor: Scale2D)
        ensures
            *final(self) == (LayoutNode { anchor, ..*old(self) }),
    {
        self.anchor = anchor;
    }

    /// Places the middle of the node on the middle of its parent, whatever its size.
    pub fn center(&mut self)
        ensures
            *final(self) == (LayoutNode {
                position: UDim2 {
                    x: UDim { scale: SCALE_MID, offset: 0 },
                    y: UDim { scale: SCALE_MID, offset: 0 },
                },
                anchor: Scale2D { x: SCALE_MID, y: SCALE_MID },
                ..*old(self)
            }),
    {
        self.position = UDim2::new(SCALE_MID, 0, SCALE_MID, 0);
        self.anchor = Scale2D::new(SCALE_MID, SCALE_MID);
    }

    /// The rectangle this node takes inside `parent`.
    pub fn place(&self, parent: Rect) -> (r: Rect)
        requires
            self.wf(),
        ensures
            r == place_spec(*self, parent),
    {
        let (sw, sh) = resolve(self.size, parent);
        let w = saturate_u16(sw);
        let h = saturate_u16(sh);
        let (px, py) = resolve(self.position, parent);
        let ax = scale_extent(self.anchor.x, w);
        let ay = scale_extent(self.anchor.y, h);
        let x = saturate_i32(parent.x as i64 + px - ax);
        let y = saturate_i32(parent.y as i64 + py - ay);
        Rect { x, y, width: w, height: h }
    }
}

/// Resolving a relative quantity depends on nothing but the quantity and the parent, and
/// each axis is the rounded scaled parent extent plus the offset.
pub proof fn lemma_resolve_exact(u: UDim2, parent: Rect)
    requires
        u.wf(),
    ensures
        resolve_axis(u.x, parent.width as int)
            == scaled(u.x.scale as int, parent.width as int) + u.x.offset,
        resolve_axis(u.y, parent.height as int)
            == scaled(u.y.scale as int, parent.height as int) + u.y.offset,
        scaled(u.x.scale as int, parent.width as int) * 1000 <= u.x.scale * parent.width + 500,
        u.x.scale * parent.width + 500 < scaled(u.x.scale as int, parent.width as int) * 1000 + 1000,
        scaled(u.y.scale as int, parent.height as int) * 1000 <= u.y.scale * parent.height + 500,
        u.y.scale * parent.height + 500 < scaled(u.y.scale as int, parent.height as int) * 1000 + 1000,
{
    let a = u.x.scale * parent.width + 500;
    let b = u.y.scale * parent.height + 500;
    assert(0 <= a) by (nonlinear_arith) requires u.x.scale >= 0, parent.width >= 0, a == u.x.scale * parent.width + 500;
    assert(0 <= b) by (nonlinear_arith) requires u.y.scale >= 0, parent.height >= 0, b == u.y.scale * parent.height + 500;
    assert((a / 1000) * 1000 <= a && a < (a / 1000) * 1000 + 1000) by (nonlinear_arith) requires a >= 0;
    assert((b / 1000) * 1000 <= b && b < (b / 1000) * 1000 + 1000) by (nonlinear_arith) requires b >= 0;
}

/// A centred node's middle lies on its parent's middle, whatever the node's size,
/// as long as the parent lies far enough from the limits of the coordinate range.
pub proof fn lemma_center_midpoint(node: LayoutNode, parent: Rect)
    requires
        node.wf(),
        node.position == (UDim2 {
            x: UDim { scale: SCALE_MID, offset: 0 },
            y: UDim { scale: SCALE_MID, offset: 0 },
        }),
        node.anchor == (Scale2D { x: SCALE_MID, y: SCALE_MID }),
        i32::MIN + 65536 <= parent.x <= i32::MAX - 65536,
        i32::MIN + 65536 <= parent.y <= i32::MAX - 65536,
    ensures
        mid_x(place_spec(node, parent)) == mid_x(parent),
        mid_y(place_spec(node, parent)) == mid_y(parent),
{
    let r = place_spec(node, parent);
    lemma_scaled_bounds(SCALE_MID as int, parent.width as int);
    lemma_scaled_bounds(SCALE_MID as int, parent.height as int);
    lemma_scaled_bounds(SCALE_MID as int, r.width as int);
    lemma_scaled_bounds(SCALE_MID as int, r.height as int);
}

/// A scale of at most one, applied to an extent, stays between zero and that extent.
pub proof fn lemma_scaled_bounds(milli: int, extent: int)
    requires
        0 <= milli <= SCALE_ONE,
        0 <= extent,
    ensures
        0 <= scaled(milli, extent) <= extent,
{
    assert(0 <= milli * extent <= 1000 * extent) by (nonlinear_arith)
        requires 0 <= milli <= 1000, 0 <= extent;
}

} // verus!
