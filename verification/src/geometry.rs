//! Integer pixel geometry: points, extents, rectangles, and the pointer
//! hit test used by the interaction engine.

use vstd::prelude::*;

verus! {

/// An absolute pixel position on screen. Coordinates may be negative when a
/// constraint places an element above or left of the screen origin.
#[derive(Clone, Copy, Debug, PartialEq, Eq, Structural)]
pub struct PixelPoint {
    pub x: i32,
    pub y: i32,
}

/// A pixel extent (width and height).
#[derive(Clone, Copy, Debug, PartialEq, Eq, Structural)]
pub struct PixelSize {
    pub w: u32,
    pub h: u32,
}

/// An axis-aligned pixel rectangle: origin plus extent.
#[derive(Clone, Copy, Debug, PartialEq, Eq, Structural)]
pub struct PixelRect {
    pub pos: PixelPoint,
    pub size: PixelSize,
}

/// A point `(px, py)` lies in a rectangle when it is at or past the origin
/// and strictly before `origin + extent` on both axes. The upper bound is
/// exclusive: a point exactly at `origin + extent` is outside.
pub open spec fn rect_contains(r: PixelRect, px: int, py: int) -> bool {
    &&& r.pos.x <= px < r.pos.x + r.size.w
    &&& r.pos.y <= py < r.pos.y + r.size.h
}

impl PixelRect {
    /// Pointer hit test against this rectangle.
    pub fn contains(&self, px: u32, py: u32) -> (b: bool)
        ensures
            b == rect_contains(*self, px as int, py as int),
    {
        let x = px as i64;
        let y = py as i64;
        (self.pos.x as i64) <= x && x < (self.pos.x as i64) + (self.size.w as i64)
            && (self.pos.y as i64) <= y && y < (self.pos.y as i64) + (self.size.h as i64)
    }
}

/// Hit testing is exclusive on the upper bound: whatever the other
/// coordinate, a point whose x is exactly `origin.x + extent.w` is outside,
/// and likewise for y.
pub proof fn lemma_hit_test_upper_bound_exclusive(r: PixelRect)
    ensures
        forall|py: int| !(#[trigger] rect_contains(r, r.pos.x + r.size.w, py)),
        forall|px: int| !(#[trigger] rect_contains(r, px, r.pos.y + r.size.h)),
{
}

/// A world-space vector in fixed-point world units (the engine never uses
/// floating point; a unit is one pixel at zoom 1).
#[derive(Clone, Copy, Debug, PartialEq, Eq, Structural)]
pub struct WorldVec {
    pub x: i64,
    pub y: i64,
}

impl WorldVec {
    pub fn new(x: i64, y: i64) -> (r: WorldVec)
        ensures
            r == (WorldVec { x, y }),
    {
        WorldVec { x, y }
    }
}

/// A world-space extent in the same fixed-point units.
#[derive(Clone, Copy, Debug, PartialEq, Eq, Structural)]
pub struct WorldDim {
    pub w: u64,
    pub h: u64,
}

impl WorldDim {
    pub fn new(w: u64, h: u64) -> (r: WorldDim)
        ensures
            r == (WorldDim { w, h }),
    {
        WorldDim { w, h }
    }
}

} // verus!
