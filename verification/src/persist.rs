//! Persistence of stage content: the request queue the persistence
//! collaborator drains once per frame, the plain stage-entity records that
//! are written to and read from disk, the collection and application of
//! those records against the world store, and the sprite-sheet asset list.
//! Encoding the records to bytes and the file traffic itself belong to the
//! collaborator; the core only builds and applies the records.

use vstd::prelude::*;
use crate::events::EventQueue;
use crate::physics::BodyStatus;
use crate::physics::ColliderCom;
use crate::physics::IsometryDef;
use crate::physics::RigidBodyCom;
use crate::physics::ShapeDef;
use crate::physics::ShapeDefView;
use crate::physics::TransformCom;
use crate::scene::SpriteCom;
use crate::scene::SpriteComView;
use crate::scene::TextCom;
use crate::scene::TextComView;
use crate::world::EntityId;
use crate::world::Slot;
use crate::world::World;

verus! {

/// A request to the persistence collaborator, carrying the file path.
pub enum PersistRequest {
    SaveStage(String),
    LoadStage(String),
}

/// The persistence request queue, drained exactly once per frame.
pub type PersistRequestQueue = EventQueue<PersistRequest>;

/// Marks the stage-content tag; entities carrying the tag are the ones
/// persistence saves, clears and recreates.
#[derive(Clone, Copy, Debug, PartialEq, Eq, Structural)]
pub struct StageMarkerType;

/// What persistence keeps of a rigid body: its simulation status.
#[derive(Clone, Copy, Debug, PartialEq, Eq, Structural)]
pub struct PersistentRigidBody {
    pub status: BodyStatus,
}

/// What persistence keeps of a collider: its shape and its placement
/// relative to the body.
pub struct PersistentCollider {
    pub shape: ShapeDef,
    pub position: IsometryDef,
}

/// Mathematical image of a persistent collider.
pub ghost struct PersistentColliderView {
    pub shape: ShapeDefView,
    pub position: IsometryDef,
}

impl View for PersistentCollider {
    type V = PersistentColliderView;

    open spec fn view(&self) -> PersistentColliderView {
        PersistentColliderView { shape: self.shape@, position: self.position }
    }
}

/// One tagged entity as it is persisted: each component it carried, as
/// plain values.
pub struct StageEntity {
    pub transform: Option<TransformCom>,
    pub sprite: Option<SpriteCom>,
    pub text: Option<TextCom>,
    pub body: Option<PersistentRigidBody>,
    pub collider: Option<PersistentCollider>,
}

/// Mathematical image of a stage record.
pub ghost struct StageEntityView {
    pub transform: Option<TransformCom>,
    pub sprite: Option<SpriteComView>,
    pub text: Option<TextComView>,
    pub body: Option<PersistentRigidBody>,
    pub collider: Option<PersistentColliderView>,
}

impl View for StageEntity {
    type V = StageEntityView;

    open spec fn view(&self) -> StageEntityView {
        StageEntityView {
            transform: self.transform,
            sprite: match self.sprite {
                Some(c) => Some(c@),
                None => None,
            },
            text: match self.text {
                Some(c) => Some(c@),
                None => None,
            },
            body: self.body,
            collider: match self.collider {
                Some(c) => Some(c@),
                None => None,
            },
        }
    }
}

/// The views of a record list.
pub open spec fn stage_views(s: Seq<StageEntity>) -> Seq<StageEntityView> {
    s.map_values(|e: StageEntity| e@)
}

/// The view of an optional sprite component.
pub open spec fn opt_sprite_view(c: Option<SpriteCom>) -> Option<SpriteComView> {
    match c {
        Some(c) => Some(c@),
        None => None,
    }
}

/// The view of an optional text component.
pub open spec fn opt_text_view(c: Option<TextCom>) -> Option<TextComView> {
    match c {
        Some(c) => Some(c@),
        None => None,
    }
}

/// What persistence keeps of an optional rigid-body component.
pub open spec fn opt_body_record(c: Option<RigidBodyCom>) -> Option<PersistentRigidBody> {
    match c {
        Some(b) => Some(PersistentRigidBody { status: b.status }),
        None => None,
    }
}

/// What persistence keeps of an optional collider component.
pub open spec fn opt_collider_record(c: Option<ColliderCom>) -> Option<PersistentColliderView> {
    match c {
        Some(c) => Some(PersistentColliderView { shape: c.shape@, position: c.position }),
        None => None,
    }
}

/// The record persistence takes of slot `x`.
pub open spec fn record_at(w: World, x: int) -> StageEntityView {
    StageEntityView {
        transform: w.transforms@[x],
        sprite: opt_sprite_view(w.sprites@[x]),
        text: opt_text_view(w.texts@[x]),
        body: opt_body_record(w.bodies@[x]),
        collider: opt_collider_record(w.colliders@[x]),
    }
}

/// The records of every tagged slot among the first `n`, in slot order.
pub open spec fn collect_spec(w: World, n: int) -> Seq<StageEntityView>
    decreases n,
{
    if n <= 0 {
        Seq::<StageEntityView>::empty()
    } else {
        let rest = collect_spec(w, n - 1);
        if w.stage_markers@[n - 1] {
            rest.push(record_at(w, n - 1))
        } else {
            rest
        }
    }
}

/// Collect the stage records of every tagged entity, in slot order: what a
/// save request writes out.
pub fn collect_stage(w: &World) -> (r: Vec<StageEntity>)
    requires
        w.wf(),
    ensures
        stage_views(r@) == collect_spec(*w, w.slots@.len() as int),
{
    let mut out: Vec<StageEntity> = Vec::new();
    let n = w.num_slots();
    let mut x: usize = 0;
    proof {
        assert(stage_views(out@) =~= collect_spec(*w, 0));
    }
    while x < n
        invariant
            w.wf(),
            n == w.slots@.len(),
            x <= n,
            stage_views(out@) == collect_spec(*w, x as int),
        decreases n - x,
    {
        if w.stage_markers[x] {
            let transform = match &w.transforms[x] {
                Some(c) => Some(*c),
                None => None,
            };
            let sprite = match &w.sprites[x] {
                Some(c) => Some(c.duplicate()),
                None => None,
            };
            let text = match &w.texts[x] {
                Some(c) => Some(c.duplicate()),
                None => None,
            };
            let body = match &w.bodies[x] {
                Some(b) => Some(PersistentRigidBody { status: b.status }),
                None => None,
            };
            let collider = match &w.colliders[x] {
                Some(c) => Some(
                    PersistentCollider { shape: c.shape.duplicate(), position: c.position },
                ),
                None => None,
            };
            let rec = StageEntity { transform, sprite, text, body, collider };
            proof {
                assert(rec@ == record_at(*w, x as int));
            }
            out.push(rec);
            proof {
                assert(stage_views(out@) =~= collect_spec(*w, x as int + 1));
            }
        }
        x += 1;
    }
    out
}

/// Remove every tagged entity's persisted components and clear all stage
/// tags: what a load request does before recreating the stage.
pub fn strip_stage(w: &mut World)
    requires
        old(w).wf(),
    ensures
        final(w).wf(),
        final(w).slots@ == old(w).slots@,
        final(w).pending_creates@ == old(w).pending_creates@,
        final(w).pending_destroys@ == old(w).pending_destroys@,
        final(w).slots@.len() == old(w).slots@.len(),
        forall|x: int|
            0 <= x < old(w).slots@.len() ==> #[trigger] final(w).transforms@[x] == (if old(
                w,
            ).stage_markers@[x] {
                None::<TransformCom>
            } else {
                old(w).transforms@[x]
            }),
        forall|x: int|
            0 <= x < old(w).slots@.len() ==> #[trigger] final(w).sprites@[x] == (if old(
                w,
            ).stage_markers@[x] {
                None::<SpriteCom>
            } else {
                old(w).sprites@[x]
            }),
        forall|x: int|
            0 <= x < old(w).slots@.len() ==> #[trigger] final(w).texts@[x] == (if old(
                w,
            ).stage_markers@[x] {
                None::<TextCom>
            } else {
                old(w).texts@[x]
            }),
        forall|x: int|
            0 <= x < old(w).slots@.len() ==> #[trigger] final(w).bodies@[x] == (if old(
                w,
            ).stage_markers@[x] {
                None::<RigidBodyCom>
            } else {
                old(w).bodies@[x]
            }),
        forall|x: int|
            0 <= x < old(w).slots@.len() ==> #[trigger] final(w).colliders@[x] == (if old(
                w,
            ).stage_markers@[x] {
                None::<ColliderCom>
            } else {
                old(w).colliders@[x]
            }),
        forall|x: int|
            0 <= x < old(w).slots@.len() ==> !(#[trigger] final(w).stage_markers@[x]),
    {
    let n = w.num_slots();
    let mut x: usize = 0;
    while x < n
        invariant
            n == w.slots@.len(),
            x <= n,
            w.slots@ == old(w).slots@,
            w.pending_creates@ == old(w).pending_creates@,
            w.pending_destroys@ == old(w).pending_destroys@,
            w.transforms@.len() == n,
            w.sprites@.len() == n,
            w.texts@.len() == n,
            w.bodies@.len() == n,
            w.colliders@.len() == n,
            w.stage_markers@.len() == n,
            forall|y: int|
                0 <= y < x ==> #[trigger] w.transforms@[y] == (if old(w).stage_markers@[y] {
                    None::<TransformCom>
                } else {
                    old(w).transforms@[y]
                }),
            forall|y: int|
                0 <= y < x ==> #[trigger] w.sprites@[y] == (if old(w).stage_markers@[y] {
                    None::<SpriteCom>
                } else {
                    old(w).sprites@[y]
                }),
            forall|y: int|
                0 <= y < x ==> #[trigger] w.texts@[y] == (if old(w).stage_markers@[y] {
                    None::<TextCom>
                } else {
                    old(w).texts@[y]
                }),
            forall|y: int|
                0 <= y < x ==> #[trigger] w.bodies@[y] == (if old(w).stage_markers@[y] {
                    None::<RigidBodyCom>
                } else {
                    old(w).bodies@[y]
                }),
            forall|y: int|
                0 <= y < x ==> #[trigger] w.colliders@[y] == (if old(w).stage_markers@[y] {
                    None::<ColliderCom>
                } else {
                    old(w).colliders@[y]
                }),
            forall|y: int| 0 <= y < x ==> !(#[trigger] w.stage_markers@[y]),
            forall|y: int|
                x <= y < n ==> #[trigger] w.transforms@[y] == old(w).transforms@[y],
            forall|y: int| x <= y < n ==> #[trigger] w.sprites@[y] == old(w).sprites@[y],
            forall|y: int| x <= y < n ==> #[trigger] w.texts@[y] == old(w).texts@[y],
            forall|y: int| x <= y < n ==> #[trigger] w.bodies@[y] == old(w).bodies@[y],
            forall|y: int| x <= y < n ==> #[trigger] w.colliders@[y] == old(w).colliders@[y],
            forall|y: int|
                x <= y < n ==> #[trigger] w.stage_markers@[y] == old(w).stage_markers@[y],
        decreases n - x,
    {
        if w.stage_markers[x] {
            w.transforms.set(x, None);
            w.sprites.set(x, None);
            w.texts.set(x, None);
            w.bodies.set(x, None);
            w.colliders.set(x, None);
            w.stage_markers.set(x, false);
        }
        x += 1;
    }
}


/// Recreate the stage from records: strip the current stage content, then
/// create one entity per record — deferred, alive at the frame's commit —
/// attach the record's components, and tag the entity as stage content.
/// A collider is attached only when its record also carries a body, since
/// a collider needs its own element's body as parent; physics handles
/// start at zero until the collaborator registers the bodies.
#[verifier::rlimit(60)]
pub fn apply_stage(w: &mut World, recs: &Vec<StageEntity>)
    requires
        old(w).wf(),
        old(w).slots@.len() + recs@.len() <= usize::MAX,
    ensures
        final(w).wf(),
        final(w).slots@.len() == old(w).slots@.len() + recs@.len(),
        final(w).pending_destroys@ == old(w).pending_destroys@,
        forall|x: int|
            0 <= x < old(w).slots@.len() ==> #[trigger] final(w).slots@[x] == old(w).slots@[x],
        forall|x: int|
            0 <= x < old(w).slots@.len() ==> #[trigger] final(w).transforms@[x] == (if old(
                w,
            ).stage_markers@[x] {
                None::<TransformCom>
            } else {
                old(w).transforms@[x]
            }),
        forall|x: int|
            0 <= x < old(w).slots@.len() ==> #[trigger] final(w).sprites@[x] == (if old(
                w,
            ).stage_markers@[x] {
                None::<SpriteCom>
            } else {
                old(w).sprites@[x]
            }),
        forall|x: int|
            0 <= x < old(w).slots@.len() ==> #[trigger] final(w).texts@[x] == (if old(
                w,
            ).stage_markers@[x] {
                None::<TextCom>
            } else {
                old(w).texts@[x]
            }),
        forall|x: int|
            0 <= x < old(w).slots@.len() ==> #[trigger] final(w).bodies@[x] == (if old(
                w,
            ).stage_markers@[x] {
                None::<RigidBodyCom>
            } else {
                old(w).bodies@[x]
            }),
        forall|x: int|
            0 <= x < old(w).slots@.len() ==> #[trigger] final(w).colliders@[x] == (if old(
                w,
            ).stage_markers@[x] {
                None::<ColliderCom>
            } else {
                old(w).colliders@[x]
            }),
        forall|x: int|
            0 <= x < old(w).slots@.len() ==> !(#[trigger] final(w).stage_markers@[x]),
        forall|j: int|
            0 <= j < recs@.len() ==> #[trigger] final(w).slots@[old(w).slots@.len() + j] == (Slot {
                generation: 0,
                alive: false,
            }),
        forall|j: int|
            0 <= j < recs@.len() ==> #[trigger] final(w).transforms@[old(w).slots@.len() + j]
                == recs@[j]@.transform,
        forall|j: int|
            0 <= j < recs@.len() ==> opt_sprite_view(
                #[trigger] final(w).sprites@[old(w).slots@.len() + j],
            ) == recs@[j]@.sprite,
        forall|j: int|
            0 <= j < recs@.len() ==> opt_text_view(
                #[trigger] final(w).texts@[old(w).slots@.len() + j],
            ) == recs@[j]@.text,
        forall|j: int|
            0 <= j < recs@.len() ==> opt_body_record(
                #[trigger] final(w).bodies@[old(w).slots@.len() + j],
            ) == recs@[j]@.body,
        forall|j: int|
            0 <= j < recs@.len() ==> opt_collider_record(
                #[trigger] final(w).colliders@[old(w).slots@.len() + j],
            ) == (if recs@[j]@.body is Some {
                recs@[j]@.collider
            } else {
                None::<PersistentColliderView>
            }),
        forall|j: int|
            0 <= j < recs@.len() ==> #[trigger] final(w).stage_markers@[old(w).slots@.len() + j],
{
    strip_stage(w);
    let ghost stripped = *w;
    let base = w.num_slots();
    let nrecs = recs.len();
    let mut j: usize = 0;
    while j < nrecs
        invariant
            w.wf(),
            base == old(w).slots@.len(),
            base + nrecs <= usize::MAX,
            nrecs == recs@.len(),
            j <= nrecs,
            w.slots@.len() == base + j,
            w.pending_destroys@ == stripped.pending_destroys@,
            stripped.pending_destroys@ == old(w).pending_destroys@,
            stripped.slots@ == old(w).slots@,
            stripped.slots@.len() == base,
            forall|x: int|
                0 <= x < base ==> #[trigger] w.slots@[x] == old(w).slots@[x],
            forall|x: int|
                0 <= x < base ==> #[trigger] w.transforms@[x] == stripped.transforms@[x],
            forall|x: int| 0 <= x < base ==> #[trigger] w.sprites@[x] == stripped.sprites@[x],
            forall|x: int| 0 <= x < base ==> #[trigger] w.texts@[x] == stripped.texts@[x],
            forall|x: int| 0 <= x < base ==> #[trigger] w.bodies@[x] == stripped.bodies@[x],
            forall|x: int| 0 <= x < base ==> #[trigger] w.colliders@[x] == stripped.colliders@[x],
            forall|x: int|
                0 <= x < base ==> #[trigger] w.stage_markers@[x] == stripped.stage_markers@[x],
            forall|x: int|
                0 <= x < base ==> #[trigger] stripped.transforms@[x] == (if old(
                    w,
                ).stage_markers@[x] {
                    None::<TransformCom>
                } else {
                    old(w).transforms@[x]
                }),
            forall|x: int|
                0 <= x < base ==> #[trigger] stripped.sprites@[x] == (if old(w).stage_markers@[x] {
                    None::<SpriteCom>
                } else {
                    old(w).sprites@[x]
                }),
            forall|x: int|
                0 <= x < base ==> #[trigger] stripped.texts@[x] == (if old(w).stage_markers@[x] {
                    None::<TextCom>
                } else {
                    old(w).texts@[x]
                }),
            forall|x: int|
                0 <= x < base ==> #[trigger] stripped.bodies@[x] == (if old(w).stage_markers@[x] {
                    None::<RigidBodyCom>
                } else {
                    old(w).bodies@[x]
                }),
            forall|x: int|
                0 <= x < base ==> #[trigger] stripped.colliders@[x] == (if old(
                    w,
                ).stage_markers@[x] {
                    None::<ColliderCom>
                } else {
                    old(w).colliders@[x]
                }),
            forall|x: int| 0 <= x < base ==> !(#[trigger] stripped.stage_markers@[x]),
            forall|i: int|
                0 <= i < j ==> #[trigger] w.slots@[base + i] == (Slot {
                    generation: 0,
                    alive: false,
                }),
            forall|i: int|
                0 <= i < j ==> #[trigger] w.transforms@[base + i] == recs@[i]@.transform,
            forall|i: int|
                0 <= i < j ==> opt_sprite_view(#[trigger] w.sprites@[base + i]) == recs@[i]@.sprite,
            forall|i: int|
                0 <= i < j ==> opt_text_view(#[trigger] w.texts@[base + i]) == recs@[i]@.text,
            forall|i: int|
                0 <= i < j ==> opt_body_record(#[trigger] w.bodies@[base + i]) == recs@[i]@.body,
            forall|i: int|
                0 <= i < j ==> opt_collider_record(#[trigger] w.colliders@[base + i]) == (
                if recs@[i]@.body is Some {
                    recs@[i]@.collider
                } else {
                    None::<PersistentColliderView>
                }),
            forall|i: int| 0 <= i < j ==> #[trigger] w.stage_markers@[base + i],
        decreases nrecs - j,
    {
        let id = w.create_entity();
        let rec = &recs[j];
        match &rec.transform {
            Some(t) => {
                let ok = w.attach_transform(id, *t);
                proof {
                    assert(ok);
                }
            },
            None => {},
        }
        match &rec.sprite {
            Some(c) => {
                let ok = w.attach_sprite(id, c.duplicate());
                proof {
                    assert(ok);
                }
            },
            None => {},
        }
        match &rec.text {
            Some(c) => {
                let ok = w.attach_text(id, c.duplicate());
                proof {
                    assert(ok);
                }
            },
            None => {},
        }
        match &rec.body {
            Some(b) => {
                let ok = w.attach_body(id, RigidBodyCom { handle: 0, status: b.status });
                proof {
                    assert(ok);
                }
            },
            None => {},
        }
        match (&rec.body, &rec.collider) {
            (Some(_), Some(c)) => {
                let ok = w.attach_collider(
                    id,
                    ColliderCom { handle: 0, shape: c.shape.duplicate(), position: c.position },
                );
                proof {
                    assert(ok);
                }
            },
            _ => {},
        }
        let ok = w.set_stage_marker(id, true);
        proof {
            assert(ok);
        }
        j += 1;
    }
}

/// A world whose first `n` slots carry no stage tag contributes no records
/// there.
pub proof fn lemma_collect_prefix_empty(w: World, n: int)
    requires
        0 <= n,
        forall|x: int| 0 <= x < n ==> !(#[trigger] w.stage_markers@[x]),
    ensures
        collect_spec(w, n) == Seq::<StageEntityView>::empty(),
    decreases n,
{
    if n > 0 {
        lemma_collect_prefix_empty(w, n - 1);
    }
}

/// Collecting over a run of tagged slots whose components match the
/// records, starting at `base`, yields exactly those records.
pub proof fn lemma_collect_suffix(w: World, base: int, recs: Seq<StageEntityView>, n: int)
    requires
        0 <= base,
        0 <= n <= recs.len(),
        forall|j: int| 0 <= j < recs.len() ==> #[trigger] w.stage_markers@[base + j],
        forall|j: int|
            0 <= j < recs.len() ==> #[trigger] record_at(w, base + j) == recs[j],
    ensures
        collect_spec(w, base + n) == collect_spec(w, base) + recs.take(n),
    decreases n,
{
    if n > 0 {
        lemma_collect_suffix(w, base, recs, n - 1);
        assert(w.stage_markers@[base + n - 1]);
        assert(record_at(w, base + n - 1) == recs[n - 1]);
        assert(recs.take(n) =~= recs.take(n - 1).push(recs[n - 1]));
        assert(collect_spec(w, base + n) == (collect_spec(w, base) + recs.take(n - 1)).push(
            recs[n - 1],
        ));
        assert((collect_spec(w, base) + recs.take(n - 1)).push(recs[n - 1]) =~= collect_spec(
            w,
            base,
        ) + recs.take(n));
    } else {
        assert(recs.take(0) =~= Seq::<StageEntityView>::empty());
        assert(collect_spec(w, base) + recs.take(0) =~= collect_spec(w, base));
    }
}

/// The save-then-load round trip preserves every tagged entity's persisted
/// data. `recs` are the records saved from a world; `w2` is any world in
/// which the stage was recreated from them — its old slots carry no stage
/// tag any more and one new tagged slot per record carries exactly the
/// record's transform, sprite, text, body status and collider, as
/// `apply_stage` guarantees whenever a record's collider comes with its
/// body (stage application drops a collider whose record has no body, so
/// such a record sits outside this law's hypotheses). Saving `w2` again
/// yields the same records.
pub proof fn lemma_save_load_round_trip(w2: World, base: int, recs: Seq<StageEntityView>)
    requires
        0 <= base,
        w2.slots@.len() == base + recs.len(),
        forall|x: int| 0 <= x < base ==> !(#[trigger] w2.stage_markers@[x]),
        forall|j: int| 0 <= j < recs.len() ==> #[trigger] w2.stage_markers@[base + j],
        forall|j: int|
            0 <= j < recs.len() ==> #[trigger] record_at(w2, base + j) == recs[j],
    ensures
        collect_spec(w2, w2.slots@.len() as int) == recs,
{
    lemma_collect_prefix_empty(w2, base);
    lemma_collect_suffix(w2, base, recs, recs.len() as int);
    assert(recs.take(recs.len() as int) =~= recs);
    assert(collect_spec(w2, base) + recs =~= recs);
}


/// One font asset: file path, point size and text colour.
pub struct FontDef {
    pub path: String,
    pub size: u16,
    pub color_r: u8,
    pub color_g: u8,
    pub color_b: u8,
}

/// Mathematical image of a font asset.
pub ghost struct FontDefView {
    pub path: Seq<char>,
    pub size: u16,
    pub color_r: u8,
    pub color_g: u8,
    pub color_b: u8,
}

impl View for FontDef {
    type V = FontDefView;

    open spec fn view(&self) -> FontDefView {
        FontDefView {
            path: self.path@,
            size: self.size,
            color_r: self.color_r,
            color_g: self.color_g,
            color_b: self.color_b,
        }
    }
}

/// The asset list the application draws from: sprite names mapped to image
/// paths and font names mapped to font definitions, each name at most
/// once. Writing the list to a file and reading it back belong to the
/// persistence collaborator.
pub struct SpriteSheet {
    pub sprites: Vec<(String, String)>,
    pub fonts: Vec<(String, FontDef)>,
}

impl SpriteSheet {
    /// No sprite name and no font name occurs twice.
    pub open spec fn wf(&self) -> bool {
        &&& forall|i: int, j: int|
            0 <= i < j < self.sprites@.len() ==> (#[trigger] self.sprites@[i]).0@ != (
            #[trigger] self.sprites@[j]).0@
        &&& forall|i: int, j: int|
            0 <= i < j < self.fonts@.len() ==> (#[trigger] self.fonts@[i]).0@ != (
            #[trigger] self.fonts@[j]).0@
    }

    /// Whether a sprite of this name is listed.
    pub open spec fn has_sprite(&self, name: Seq<char>) -> bool {
        exists|i: int| 0 <= i < self.sprites@.len() && (#[trigger] self.sprites@[i]).0@ == name
    }

    /// Whether a font of this name is listed.
    pub open spec fn has_font(&self, name: Seq<char>) -> bool {
        exists|i: int| 0 <= i < self.fonts@.len() && (#[trigger] self.fonts@[i]).0@ == name
    }

    /// An empty sheet.
    pub fn new() -> (r: SpriteSheet)
        ensures
            r.wf(),
            r.sprites@ == Seq::<(String, String)>::empty(),
            r.fonts@ == Seq::<(String, FontDef)>::empty(),
    {
        SpriteSheet { sprites: Vec::new(), fonts: Vec::new() }
    }

    /// Map a sprite name to an image path, replacing the entry of that
    /// name if one is listed and appending one otherwise.
    pub fn add_sprite(&mut self, name: &str, path: &str)
        requires
            old(self).wf(),
        ensures
            final(self).wf(),
            final(self).fonts@ == old(self).fonts@,
            forall|j: int|
                0 <= j < old(self).sprites@.len() ==> (#[trigger] final(self).sprites@[j]).0@
                    == old(self).sprites@[j].0@,
            forall|j: int|
                0 <= j < old(self).sprites@.len() ==> (#[trigger] final(self).sprites@[j]).1@ == (
                if old(self).sprites@[j].0@ == name@ {
                    path@
                } else {
                    old(self).sprites@[j].1@
                }),
            old(self).has_sprite(name@) ==> final(self).sprites@.len() == old(
                self,
            ).sprites@.len(),
            !old(self).has_sprite(name@) ==> final(self).sprites@.len() == old(
                self,
            ).sprites@.len() + 1 && final(self).sprites@[old(self).sprites@.len() as int].0@
                == name@ && final(self).sprites@[old(self).sprites@.len() as int].1@ == path@,
    {
        let name_s = name.to_owned();
        let mut i: usize = 0;
        while i < self.sprites.len()
            invariant
                old(self).wf(),
                self.sprites@ == old(self).sprites@,
                self.fonts@ == old(self).fonts@,
                name_s@ == name@,
                i <= self.sprites@.len(),
                forall|k: int| 0 <= k < i ==> (#[trigger] self.sprites@[k]).0@ != name@,
            decreases self.sprites@.len() - i,
        {
            if self.sprites[i].0 == name_s {
                self.sprites.set(i, (name_s, path.to_owned()));
                proof {
                    assert(old(self).has_sprite(name@));
                    assert forall|a: int, b: int|
                        0 <= a < b < self.sprites@.len() implies (#[trigger] self.sprites@[a]).0@
                        != (#[trigger] self.sprites@[b]).0@ by {
                        assert(old(self).sprites@[a].0@ != old(self).sprites@[b].0@);
                    }
                }
                return;
            }
            i += 1;
        }
        self.sprites.push((name_s, path.to_owned()));
        proof {
            assert(!old(self).has_sprite(name@));
            assert forall|a: int, b: int|
                0 <= a < b < self.sprites@.len() implies (#[trigger] self.sprites@[a]).0@ != (
            #[trigger] self.sprites@[b]).0@ by {
                if b == self.sprites@.len() - 1 {
                    assert(self.sprites@[a].0@ != name@);
                }
            }
        }
    }

    /// Drop the sprite entry of this name, if one is listed.
    pub fn remove_sprite(&mut self, name: &str)
        requires
            old(self).wf(),
        ensures
            final(self).wf(),
            final(self).fonts@ == old(self).fonts@,
            !old(self).has_sprite(name@) ==> final(self).sprites@ == old(self).sprites@,
            old(self).has_sprite(name@) ==> exists|i: int|
                0 <= i < old(self).sprites@.len() && (#[trigger] old(self).sprites@[i]).0@ == name@
                    && final(self).sprites@ == old(self).sprites@.remove(i),
    {
        let name_s = name.to_owned();
        let mut i: usize = 0;
        while i < self.sprites.len()
            invariant
                old(self).wf(),
                self.sprites@ == old(self).sprites@,
                self.fonts@ == old(self).fonts@,
                name_s@ == name@,
                i <= self.sprites@.len(),
                forall|k: int| 0 <= k < i ==> (#[trigger] self.sprites@[k]).0@ != name@,
            decreases self.sprites@.len() - i,
        {
            if self.sprites[i].0 == name_s {
                self.sprites.remove(i);
                proof {
                    assert(old(self).sprites@[i as int].0@ == name@);
                    assert(self.sprites@ == old(self).sprites@.remove(i as int));
                    assert forall|a: int, b: int|
                        0 <= a < b < self.sprites@.len() implies (#[trigger] self.sprites@[a]).0@
                        != (#[trigger] self.sprites@[b]).0@ by {
                        assert(self.sprites@[a] == if a < i as int {
                            old(self).sprites@[a]
                        } else {
                            old(self).sprites@[a + 1]
                        });
                        assert(self.sprites@[b] == if b < i as int {
                            old(self).sprites@[b]
                        } else {
                            old(self).sprites@[b + 1]
                        });
                    }
                }
                return;
            }
            i += 1;
        }
    }

    /// Map a font name to a font definition, replacing the entry of that
    /// name if one is listed and appending one otherwise.
    pub fn add_font(&mut self, name: &str, path: &str, size: u16, color_r: u8, color_g: u8, color_b: u8)
        requires
            old(self).wf(),
        ensures
            final(self).wf(),
            final(self).sprites@ == old(self).sprites@,
            forall|j: int|
                0 <= j < old(self).fonts@.len() ==> (#[trigger] final(self).fonts@[j]).0@ == old(
                    self,
                ).fonts@[j].0@,
            forall|j: int|
                0 <= j < old(self).fonts@.len() ==> (#[trigger] final(self).fonts@[j]).1@ == (
                if old(self).fonts@[j].0@ == name@ {
                    FontDefView { path: path@, size, color_r, color_g, color_b }
                } else {
                    old(self).fonts@[j].1@
                }),
            old(self).has_font(name@) ==> final(self).fonts@.len() == old(self).fonts@.len(),
            !old(self).has_font(name@) ==> final(self).fonts@.len() == old(self).fonts@.len() + 1
                && final(self).fonts@[old(self).fonts@.len() as int].0@ == name@
                && final(self).fonts@[old(self).fonts@.len() as int].1@ == (FontDefView {
                path: path@,
                size,
                color_r,
                color_g,
                color_b,
            }),
    {
        let name_s = name.to_owned();
        let mut i: usize = 0;
        while i < self.fonts.len()
            invariant
                old(self).wf(),
                self.sprites@ == old(self).sprites@,
                self.fonts@ == old(self).fonts@,
                name_s@ == name@,
                i <= self.fonts@.len(),
                forall|k: int| 0 <= k < i ==> (#[trigger] self.fonts@[k]).0@ != name@,
            decreases self.fonts@.len() - i,
        {
            if self.fonts[i].0 == name_s {
                self.fonts.set(
                    i,
                    (name_s, FontDef { path: path.to_owned(), size, color_r, color_g, color_b }),
                );
                proof {
                    assert(old(self).has_font(name@));
                    assert forall|a: int, b: int|
                        0 <= a < b < self.fonts@.len() implies (#[trigger] self.fonts@[a]).0@ != (
                    #[trigger] self.fonts@[b]).0@ by {
                        assert(old(self).fonts@[a].0@ != old(self).fonts@[b].0@);
                    }
                }
                return;
            }
            i += 1;
        }
        self.fonts.push(
            (name_s, FontDef { path: path.to_owned(), size, color_r, color_g, color_b }),
        );
        proof {
            assert(!old(self).has_font(name@));
            assert forall|a: int, b: int|
                0 <= a < b < self.fonts@.len() implies (#[trigger] self.fonts@[a]).0@ != (
            #[trigger] self.fonts@[b]).0@ by {
                if b == self.fonts@.len() - 1 {
                    assert(self.fonts@[a].0@ != name@);
                }
            }
        }
    }

    /// Drop the font entry of this name, if one is listed.
    pub fn remove_font(&mut self, name: &str)
        requires
            old(self).wf(),
        ensures
            final(self).wf(),
            final(self).sprites@ == old(self).sprites@,
            !old(self).has_font(name@) ==> final(self).fonts@ == old(self).fonts@,
            old(self).has_font(name@) ==> exists|i: int|
                0 <= i < old(self).fonts@.len() && (#[trigger] old(self).fonts@[i]).0@ == name@
                    && final(self).fonts@ == old(self).fonts@.remove(i),
    {
        let name_s = name.to_owned();
        let mut i: usize = 0;
        while i < self.fonts.len()
            invariant
                old(self).wf(),
                self.sprites@ == old(self).sprites@,
                self.fonts@ == old(self).fonts@,
                name_s@ == name@,
                i <= self.fonts@.len(),
                forall|k: int| 0 <= k < i ==> (#[trigger] self.fonts@[k]).0@ != name@,
            decreases self.fonts@.len() - i,
        {
            if self.fonts[i].0 == name_s {
                self.fonts.remove(i);
                proof {
                    assert(old(self).fonts@[i as int].0@ == name@);
                    assert(self.fonts@ == old(self).fonts@.remove(i as int));
                    assert forall|a: int, b: int|
                        0 <= a < b < self.fonts@.len() implies (#[trigger] self.fonts@[a]).0@ != (
                    #[trigger] self.fonts@[b]).0@ by {
                        assert(self.fonts@[a] == if a < i as int {
                            old(self).fonts@[a]
                        } else {
                            old(self).fonts@[a + 1]
                        });
                        assert(self.fonts@[b] == if b < i as int {
                            old(self).fonts@[b]
                        } else {
                            old(self).fonts@[b + 1]
                        });
                    }
                }
                return;
            }
            i += 1;
        }
    }
}

} // verus!
