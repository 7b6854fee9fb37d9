//! The data the core exchanges with the physics collaborator: a transform
//! component, and plain-value descriptions of rigid bodies and colliders.
//! The collaborator's own objects stay behind opaque handles; the core
//! never inspects physics internals.

use vstd::prelude::*;
use crate::geometry::WorldVec;

verus! {

/// World-space position of an entity.
#[derive(Clone, Copy, Debug, PartialEq, Eq, Structural)]
pub struct TransformCom {
    pub pos: WorldVec,
}

impl TransformCom {
    pub fn new(pos: WorldVec) -> (r: TransformCom)
        ensures
            r == (TransformCom { pos }),
    {
        TransformCom { pos }
    }
}

/// The simulation status of a rigid body, as the physics collaborator
/// defines it.
#[derive(Clone, Copy, Debug, PartialEq, Eq, Structural)]
pub enum BodyStatus {
    Disabled,
    Static,
    Dynamic,
    Kinematic,
}

/// An axis-aligned box shape, by its half extents.
#[derive(Clone, Copy, Debug, PartialEq, Eq, Structural)]
pub struct CuboidDef {
    pub half_extents: WorldVec,
}

/// A convex polygon shape, by its corner points.
pub struct ConvexPolygonDef {
    pub points: Vec<WorldVec>,
}

impl ConvexPolygonDef {
    /// Copy the shape.
    pub fn duplicate(&self) -> (r: ConvexPolygonDef)
        ensures
            r.points@ == self.points@,
    {
        let points = self.points.clone();
        proof {
            assert(points@ =~= self.points@);
        }
        ConvexPolygonDef { points }
    }
}

/// The closed set of collider shapes the core can persist.
pub enum ShapeDef {
    Cuboid(CuboidDef),
    ConvexPolygon(ConvexPolygonDef),
}

/// Mathematical image of a shape.
pub ghost enum ShapeDefView {
    Cuboid(CuboidDef),
    ConvexPolygon(Seq<WorldVec>),
}

impl View for ShapeDef {
    type V = ShapeDefView;

    open spec fn view(&self) -> ShapeDefView {
        match self {
            ShapeDef::Cuboid(c) => ShapeDefView::Cuboid(*c),
            ShapeDef::ConvexPolygon(p) => ShapeDefView::ConvexPolygon(p.points@),
        }
    }
}

impl ShapeDef {
    /// Copy the shape.
    pub fn duplicate(&self) -> (r: ShapeDef)
        ensures
            r@ == self@,
    {
        match self {
            ShapeDef::Cuboid(c) => ShapeDef::Cuboid(*c),
            ShapeDef::ConvexPolygon(p) => ShapeDef::ConvexPolygon(p.duplicate()),
        }
    }
}

/// A collider's placement relative to its body: a translation and a
/// fixed-point rotation angle in micro-radians.
#[derive(Clone, Copy, Debug, PartialEq, Eq, Structural)]
pub struct IsometryDef {
    pub translation: WorldVec,
    pub rotation_urad: i64,
}

/// A rigid-body component: the collaborator's opaque handle and the plain
/// data the core persists about the body.
#[derive(Clone, Copy, Debug, PartialEq, Eq, Structural)]
pub struct RigidBodyCom {
    pub handle: u64,
    pub status: BodyStatus,
}

/// A collider component: the collaborator's opaque handle and the plain
/// shape and placement data the core persists.
pub struct ColliderCom {
    pub handle: u64,
    pub shape: ShapeDef,
    pub position: IsometryDef,
}

/// Mathematical image of a collider component.
pub ghost struct ColliderComView {
    pub handle: u64,
    pub shape: ShapeDefView,
    pub position: IsometryDef,
}

impl View for ColliderCom {
    type V = ColliderComView;

    open spec fn view(&self) -> ColliderComView {
        ColliderComView { handle: self.handle, shape: self.shape@, position: self.position }
    }
}

impl ColliderCom {
    /// Copy the component.
    pub fn duplicate(&self) -> (r: ColliderCom)
        ensures
            r@ == self@,
    {
        ColliderCom { handle: self.handle, shape: self.shape.duplicate(), position: self.position }
    }
}

} // verus!
