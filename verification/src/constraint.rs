//! Declarative layout constraints: one size and one position constraint per
//! axis. Size constraints are always resolved before position constraints on
//! the same axis, because `Center` and `End` need the resolved size.

use vstd::prelude::*;

verus! {

/// How large an element is along one axis, relative to its container.
///
/// `Proportion(num, den)` asks for `num/den` of the container's extent,
/// `Pixels` for a fixed extent (not clamped to the container), `NegativePixels`
/// for the container's extent minus a fixed amount, and `Fill` for whatever
/// the container has left past its layout cursor on that axis.
#[derive(Clone, Copy, Debug, PartialEq, Eq, Structural)]
pub enum SizeConstraint {
    Proportion(u32, u32),
    Pixels(u32),
    NegativePixels(u32),
    Fill,
}

/// Where an element sits along one axis inside its container: at the start,
/// centered, at the end, or at a fixed pixel offset from the start.
#[derive(Clone, Copy, Debug, PartialEq, Eq, Structural)]
pub enum PositionConstraint {
    Start,
    Center,
    End,
    StartPixelOffset(u32),
}

/// The constraint pair of one element: a position and a size constraint for
/// each axis.
#[derive(Clone, Copy, Debug, PartialEq, Eq, Structural)]
pub struct ConstraintCom {
    pub x_pos: PositionConstraint,
    pub y_pos: PositionConstraint,
    pub x_size: SizeConstraint,
    pub y_size: SizeConstraint,
}

impl ConstraintCom {
    pub fn new(
        x_pos: PositionConstraint,
        y_pos: PositionConstraint,
        x_size: SizeConstraint,
        y_size: SizeConstraint,
    ) -> (r: ConstraintCom)
        ensures
            r == (ConstraintCom { x_pos, y_pos, x_size, y_size }),
    {
        ConstraintCom { x_pos, y_pos, x_size, y_size }
    }
}

/// Whether a size constraint can be satisfied in a container of extent
/// `container` whose layout cursor has already moved `used` pixels along
/// this axis. Unsatisfiable constraints are a malformed-document condition.
pub open spec fn size_resolves(c: SizeConstraint, container: nat, used: nat) -> bool {
    match c {
        SizeConstraint::Proportion(num, den) => den != 0 && container * (num as nat) / (den as nat) <= u32::MAX,
        SizeConstraint::Pixels(_) => true,
        SizeConstraint::NegativePixels(p) => p <= container,
        SizeConstraint::Fill => used <= container,
    }
}

/// The resolved extent in pixels. Meaningful when `size_resolves` holds.
pub open spec fn size_in_pixels(c: SizeConstraint, container: nat, used: nat) -> nat
    recommends
        size_resolves(c, container, used),
{
    match c {
        SizeConstraint::Proportion(num, den) => container * (num as nat) / (den as nat),
        SizeConstraint::Pixels(p) => p as nat,
        SizeConstraint::NegativePixels(p) => (container - p) as nat,
        SizeConstraint::Fill => (container - used) as nat,
    }
}

/// Whether a position constraint can be satisfied for an element of resolved
/// extent `size` in a container of extent `container`.
pub open spec fn position_resolves(c: PositionConstraint, size: nat, container: nat) -> bool {
    match c {
        PositionConstraint::Start => true,
        PositionConstraint::Center => size / 2 <= container / 2,
        PositionConstraint::End => size <= container,
        PositionConstraint::StartPixelOffset(_) => true,
    }
}

/// The resolved local offset in pixels from the container's origin.
/// Meaningful when `position_resolves` holds.
pub open spec fn position_in_pixels(c: PositionConstraint, size: nat, container: nat) -> nat
    recommends
        position_resolves(c, size, container),
{
    match c {
        PositionConstraint::Start => 0,
        PositionConstraint::Center => (container / 2 - size / 2) as nat,
        PositionConstraint::End => (container - size) as nat,
        PositionConstraint::StartPixelOffset(o) => o as nat,
    }
}

impl SizeConstraint {
    /// Resolve this size constraint in a container of extent `container`
    /// whose cursor has used `used` pixels of this axis, or report that the
    /// constraint is unsatisfiable there.
    pub fn as_pixels(&self, container: u32, used: u32) -> (r: Option<u32>)
        ensures
            r is Some <==> size_resolves(*self, container as nat, used as nat),
            r is Some ==> r->0 == size_in_pixels(*self, container as nat, used as nat),
    {
        match self {
            SizeConstraint::Proportion(num, den) => {
                if *den == 0 {
                    None
                } else {
                    let c64: u64 = container as u64;
                    let n64: u64 = *num as u64;
                    assert((c64 as int) * (n64 as int) <= u64::MAX as int) by (nonlinear_arith)
                        requires
                            c64 <= u32::MAX as int,
                            n64 <= u32::MAX as int,
                    ;
                    let q: u64 = c64 * n64 / (*den as u64);
                    if q > u32::MAX as u64 {
                        None
                    } else {
                        Some(q as u32)
                    }
                }
            },
            SizeConstraint::Pixels(p) => Some(*p),
            SizeConstraint::NegativePixels(p) => {
                if *p <= container {
                    Some(container - *p)
                } else {
                    None
                }
            },
            SizeConstraint::Fill => {
                if used <= container {
                    Some(container - used)
                } else {
                    None
                }
            },
        }
    }
}

impl PositionConstraint {
    /// Resolve this position constraint for an element of already-resolved
    /// extent `size` in a container of extent `container`, or report that
    /// the constraint is unsatisfiable there.
    pub fn as_pixels(&self, size: u32, container: u32) -> (r: Option<u32>)
        ensures
            r is Some <==> position_resolves(*self, size as nat, container as nat),
            r is Some ==> r->0 == position_in_pixels(*self, size as nat, container as nat),
    {
        match self {
            PositionConstraint::Start => Some(0),
            PositionConstraint::Center => {
                if size / 2 <= container / 2 {
                    Some(container / 2 - size / 2)
                } else {
                    None
                }
            },
            PositionConstraint::End => {
                if size <= container {
                    Some(container - size)
                } else {
                    None
                }
            },
            PositionConstraint::StartPixelOffset(o) => Some(*o),
        }
    }
}

/// Size resolution is strictly prior to position resolution on the same
/// axis: two constraint pairs that agree on their size constraints resolve
/// to the same sizes, whatever their position constraints say.
pub proof fn lemma_position_kind_never_changes_size(
    a: ConstraintCom,
    b: ConstraintCom,
    container: nat,
    used: nat,
)
    requires
        a.x_size == b.x_size,
        a.y_size == b.y_size,
    ensures
        size_resolves(a.x_size, container, used) == size_resolves(b.x_size, container, used),
        size_resolves(a.y_size, container, used) == size_resolves(b.y_size, container, used),
        size_in_pixels(a.x_size, container, used) == size_in_pixels(b.x_size, container, used),
        size_in_pixels(a.y_size, container, used) == size_in_pixels(b.y_size, container, used),
{
}

} // verus!
