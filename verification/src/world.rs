//! The shared world store: an arena of component tables indexed by a
//! generational entity identifier. Entity creation and destruction are
//! deferred — they are requested during a frame and applied together at one
//! commit point, so no subsystem ever observes a partially applied set of
//! structural changes, and a stale identifier is detected by its generation.

use vstd::prelude::*;
use crate::physics::ColliderCom;
use crate::physics::RigidBodyCom;
use crate::physics::TransformCom;
use crate::scene::SpriteCom;
use crate::scene::TextCom;

verus! {

/// An opaque entity identifier: a slot index and the generation the slot
/// had when the entity was created. After the entity's destruction the
/// slot's generation moves on, so the identifier goes stale detectably.
#[derive(Clone, Copy, Debug, PartialEq, Eq, Structural)]
pub struct EntityId {
    pub index: usize,
    pub generation: u64,
}

/// One arena slot: its current generation and whether an entity lives in it.
#[derive(Clone, Copy, Debug, PartialEq, Eq, Structural)]
pub struct Slot {
    pub generation: u64,
    pub alive: bool,
}

/// The world store: entity slots, one component table per component kind
/// (indexed by slot), the stage-content markers used by persistence, and
/// the command buffers of deferred creations and destructions.
pub struct World {
    pub slots: Vec<Slot>,
    pub transforms: Vec<Option<TransformCom>>,
    pub sprites: Vec<Option<SpriteCom>>,
    pub texts: Vec<Option<TextCom>>,
    pub bodies: Vec<Option<RigidBodyCom>>,
    pub colliders: Vec<Option<ColliderCom>>,
    pub stage_markers: Vec<bool>,
    pub pending_creates: Vec<usize>,
    pub pending_destroys: Vec<EntityId>,
}

/// Membership in a sequence extended by one element.
pub proof fn lemma_push_contains<T>(s: Seq<T>, e: T, x: T)
    ensures
        s.push(e).contains(x) <==> (s.contains(x) || x == e),
{
    if s.push(e).contains(x) && x != e {
        let w = choose|w: int| 0 <= w < s.push(e).len() && s.push(e)[w] == x;
        assert(s[w] == x);
    }
    if s.contains(x) {
        let w = choose|w: int| 0 <= w < s.len() && s[w] == x;
        assert(s.push(e)[w] == x);
    }
    if x == e {
        assert(s.push(e)[s.len() as int] == e);
    }
}

/// Whether slot `x` was alive after the pending creations, and one of the
/// destruction requests `pd` names it under its pre-commit generation.
pub open spec fn killed_by(s1: Seq<Slot>, pd: Seq<EntityId>, x: int) -> bool {
    s1[x].alive && pd.contains(EntityId { index: x as usize, generation: s1[x].generation })
}

/// The slot arena after the pending creations alone: every slot named by a
/// pending creation comes alive, generations unchanged.
pub open spec fn created_slots(w: World) -> Seq<Slot> {
    Seq::new(
        w.slots@.len(),
        |x: int|
            Slot {
                generation: w.slots@[x].generation,
                alive: w.slots@[x].alive || w.pending_creates@.contains(x as usize),
            },
    )
}

/// Whether a commit of `w` destroys slot `x`: it is alive once the
/// creations applied, and some pending destruction names it under its
/// current generation.
pub open spec fn commit_killed(w: World, x: int) -> bool {
    killed_by(created_slots(w), w.pending_destroys@, x)
}

impl World {
    /// Every table runs parallel to the slot arena, pending creations point
    /// at real slots whose generation can still move on, and a living
    /// slot's generation can move on too.
    pub open spec fn wf(&self) -> bool {
        &&& self.transforms@.len() == self.slots@.len()
        &&& self.sprites@.len() == self.slots@.len()
        &&& self.texts@.len() == self.slots@.len()
        &&& self.bodies@.len() == self.slots@.len()
        &&& self.colliders@.len() == self.slots@.len()
        &&& self.stage_markers@.len() == self.slots@.len()
        &&& forall|k: int|
            0 <= k < self.pending_creates@.len() ==> (#[trigger] self.pending_creates@[k]
                < self.slots@.len() && self.slots@[self.pending_creates@[k] as int].generation
                < u64::MAX)
        &&& forall|x: int|
            0 <= x < self.slots@.len() && (#[trigger] self.slots@[x]).alive
                ==> self.slots@[x].generation < u64::MAX
    }

    /// The identifier names its slot's current generation.
    pub open spec fn valid(&self, id: EntityId) -> bool {
        id.index < self.slots@.len() && self.slots@[id.index as int].generation == id.generation
    }

    /// The identifier's entity has been committed and not yet destroyed.
    pub open spec fn live(&self, id: EntityId) -> bool {
        self.valid(id) && self.slots@[id.index as int].alive
    }

    /// An empty world.
    pub fn new() -> (r: World)
        ensures
            r.wf(),
            r.slots@ == Seq::<Slot>::empty(),
            r.pending_creates@ == Seq::<usize>::empty(),
            r.pending_destroys@ == Seq::<EntityId>::empty(),
    {
        World {
            slots: Vec::new(),
            transforms: Vec::new(),
            sprites: Vec::new(),
            texts: Vec::new(),
            bodies: Vec::new(),
            colliders: Vec::new(),
            stage_markers: Vec::new(),
            pending_creates: Vec::new(),
            pending_destroys: Vec::new(),
        }
    }

    pub fn num_slots(&self) -> (n: usize)
        ensures
            n == self.slots@.len(),
    {
        self.slots.len()
    }

    /// Request a new entity. The identifier is handed out at once, with a
    /// fresh slot, but the entity only comes alive at the next commit.
    pub fn create_entity(&mut self) -> (id: EntityId)
        requires
            old(self).wf(),
        ensures
            final(self).wf(),
            id.index == old(self).slots@.len(),
            id.generation == 0,
            final(self).valid(id),
            !final(self).live(id),
            final(self).slots@ == old(self).slots@.push(Slot { generation: 0, alive: false }),
            final(self).transforms@ == old(self).transforms@.push(None::<TransformCom>),
            final(self).sprites@ == old(self).sprites@.push(None::<SpriteCom>),
            final(self).texts@ == old(self).texts@.push(None::<TextCom>),
            final(self).bodies@ == old(self).bodies@.push(None::<RigidBodyCom>),
            final(self).colliders@ == old(self).colliders@.push(None::<ColliderCom>),
            final(self).stage_markers@ == old(self).stage_markers@.push(false),
            final(self).pending_creates@ == old(self).pending_creates@.push(id.index),
            final(self).pending_destroys@ == old(self).pending_destroys@,
    {
        let idx = self.slots.len();
        self.slots.push(Slot { generation: 0, alive: false });
        self.transforms.push(None);
        self.sprites.push(None);
        self.texts.push(None);
        self.bodies.push(None);
        self.colliders.push(None);
        self.stage_markers.push(false);
        self.pending_creates.push(idx);
        EntityId { index: idx, generation: 0 }
    }

    /// Request the entity's destruction; it takes effect at the next
    /// commit, and only if the identifier is still current then.
    pub fn destroy_entity(&mut self, id: EntityId)
        requires
            old(self).wf(),
        ensures
            final(self).wf(),
            final(self).pending_destroys@ == old(self).pending_destroys@.push(id),
            final(self).slots@ == old(self).slots@,
            final(self).transforms@ == old(self).transforms@,
            final(self).sprites@ == old(self).sprites@,
            final(self).texts@ == old(self).texts@,
            final(self).bodies@ == old(self).bodies@,
            final(self).colliders@ == old(self).colliders@,
            final(self).stage_markers@ == old(self).stage_markers@,
            final(self).pending_creates@ == old(self).pending_creates@,
    {
        self.pending_destroys.push(id);
    }

    /// Attach a transform to the entity, replacing any previous one.
    /// Fails exactly on a stale or unknown identifier.
    pub fn attach_transform(&mut self, id: EntityId, c: TransformCom) -> (ok: bool)
        requires
            old(self).wf(),
        ensures
            final(self).wf(),
            ok == old(self).valid(id),
            ok ==> final(self).transforms@ == old(self).transforms@.update(id.index as int, Some(c)),
            !ok ==> final(self).transforms@ == old(self).transforms@,
            final(self).slots@ == old(self).slots@,
            final(self).sprites@ == old(self).sprites@,
            final(self).texts@ == old(self).texts@,
            final(self).bodies@ == old(self).bodies@,
            final(self).colliders@ == old(self).colliders@,
            final(self).stage_markers@ == old(self).stage_markers@,
            final(self).pending_creates@ == old(self).pending_creates@,
            final(self).pending_destroys@ == old(self).pending_destroys@,
    {
        if id.index < self.slots.len() && self.slots[id.index].generation == id.generation {
            self.transforms.set(id.index, Some(c));
            true
        } else {
            false
        }
    }

    /// Attach a sprite to the entity. Fails exactly on a stale identifier.
    pub fn attach_sprite(&mut self, id: EntityId, c: SpriteCom) -> (ok: bool)
        requires
            old(self).wf(),
        ensures
            final(self).wf(),
            ok == old(self).valid(id),
            ok ==> final(self).sprites@ == old(self).sprites@.update(id.index as int, Some(c)),
            !ok ==> final(self).sprites@ == old(self).sprites@,
            final(self).slots@ == old(self).slots@,
            final(self).transforms@ == old(self).transforms@,
            final(self).texts@ == old(self).texts@,
            final(self).bodies@ == old(self).bodies@,
            final(self).colliders@ == old(self).colliders@,
            final(self).stage_markers@ == old(self).stage_markers@,
            final(self).pending_creates@ == old(self).pending_creates@,
            final(self).pending_destroys@ == old(self).pending_destroys@,
    {
        if id.index < self.slots.len() && self.slots[id.index].generation == id.generation {
            self.sprites.set(id.index, Some(c));
            true
        } else {
            false
        }
    }

    /// Attach world-space text to the entity. Fails exactly on a stale
    /// identifier.
    pub fn attach_text(&mut self, id: EntityId, c: TextCom) -> (ok: bool)
        requires
            old(self).wf(),
        ensures
            final(self).wf(),
            ok == old(self).valid(id),
            ok ==> final(self).texts@ == old(self).texts@.update(id.index as int, Some(c)),
            !ok ==> final(self).texts@ == old(self).texts@,
            final(self).slots@ == old(self).slots@,
            final(self).transforms@ == old(self).transforms@,
            final(self).sprites@ == old(self).sprites@,
            final(self).bodies@ == old(self).bodies@,
            final(self).colliders@ == old(self).colliders@,
            final(self).stage_markers@ == old(self).stage_markers@,
            final(self).pending_creates@ == old(self).pending_creates@,
            final(self).pending_destroys@ == old(self).pending_destroys@,
    {
        if id.index < self.slots.len() && self.slots[id.index].generation == id.generation {
            self.texts.set(id.index, Some(c));
            true
        } else {
            false
        }
    }

    /// Attach a rigid-body component. Fails exactly on a stale identifier.
    pub fn attach_body(&mut self, id: EntityId, c: RigidBodyCom) -> (ok: bool)
        requires
            old(self).wf(),
        ensures
            final(self).wf(),
            ok == old(self).valid(id),
            ok ==> final(self).bodies@ == old(self).bodies@.update(id.index as int, Some(c)),
            !ok ==> final(self).bodies@ == old(self).bodies@,
            final(self).slots@ == old(self).slots@,
            final(self).transforms@ == old(self).transforms@,
            final(self).sprites@ == old(self).sprites@,
            final(self).texts@ == old(self).texts@,
            final(self).colliders@ == old(self).colliders@,
            final(self).stage_markers@ == old(self).stage_markers@,
            final(self).pending_creates@ == old(self).pending_creates@,
            final(self).pending_destroys@ == old(self).pending_destroys@,
    {
        if id.index < self.slots.len() && self.slots[id.index].generation == id.generation {
            self.bodies.set(id.index, Some(c));
            true
        } else {
            false
        }
    }

    /// Attach a collider component. Fails exactly on a stale identifier.
    pub fn attach_collider(&mut self, id: EntityId, c: ColliderCom) -> (ok: bool)
        requires
            old(self).wf(),
        ensures
            final(self).wf(),
            ok == old(self).valid(id),
            ok ==> final(self).colliders@ == old(self).colliders@.update(id.index as int, Some(c)),
            !ok ==> final(self).colliders@ == old(self).colliders@,
            final(self).slots@ == old(self).slots@,
            final(self).transforms@ == old(self).transforms@,
            final(self).sprites@ == old(self).sprites@,
            final(self).texts@ == old(self).texts@,
            final(self).bodies@ == old(self).bodies@,
            final(self).stage_markers@ == old(self).stage_markers@,
            final(self).pending_creates@ == old(self).pending_creates@,
            final(self).pending_destroys@ == old(self).pending_destroys@,
    {
        if id.index < self.slots.len() && self.slots[id.index].generation == id.generation {
            self.colliders.set(id.index, Some(c));
            true
        } else {
            false
        }
    }

    /// Remove the entity's transform, if any. Fails exactly on a stale
    /// identifier.
    pub fn detach_transform(&mut self, id: EntityId) -> (ok: bool)
        requires
            old(self).wf(),
        ensures
            final(self).wf(),
            ok == old(self).valid(id),
            ok ==> final(self).transforms@ == old(self).transforms@.update(
                id.index as int,
                None::<TransformCom>,
            ),
            !ok ==> final(self).transforms@ == old(self).transforms@,
            final(self).slots@ == old(self).slots@,
            final(self).sprites@ == old(self).sprites@,
            final(self).texts@ == old(self).texts@,
            final(self).bodies@ == old(self).bodies@,
            final(self).colliders@ == old(self).colliders@,
            final(self).stage_markers@ == old(self).stage_markers@,
            final(self).pending_creates@ == old(self).pending_creates@,
            final(self).pending_destroys@ == old(self).pending_destroys@,
    {
        if id.index < self.slots.len() && self.slots[id.index].generation == id.generation {
            self.transforms.set(id.index, None);
            true
        } else {
            false
        }
    }

    /// Remove the entity's sprite, as `detach_transform` does.
    pub fn detach_sprite(&mut self, id: EntityId) -> (ok: bool)
        requires
            old(self).wf(),
        ensures
            final(self).wf(),
            ok == old(self).valid(id),
            ok ==> final(self).sprites@ == old(self).sprites@.update(
                id.index as int,
                None::<SpriteCom>,
            ),
            !ok ==> final(self).sprites@ == old(self).sprites@,
            final(self).slots@ == old(self).slots@,
            final(self).transforms@ == old(self).transforms@,
            final(self).texts@ == old(self).texts@,
            final(self).bodies@ == old(self).bodies@,
            final(self).colliders@ == old(self).colliders@,
            final(self).stage_markers@ == old(self).stage_markers@,
            final(self).pending_creates@ == old(self).pending_creates@,
            final(self).pending_destroys@ == old(self).pending_destroys@,
    {
        if id.index < self.slots.len() && self.slots[id.index].generation == id.generation {
            self.sprites.set(id.index, None);
            true
        } else {
            false
        }
    }

    /// Remove the entity's text, as `detach_transform` does.
    pub fn detach_text(&mut self, id: EntityId) -> (ok: bool)
        requires
            old(self).wf(),
        ensures
            final(self).wf(),
            ok == old(self).valid(id),
            ok ==> final(self).texts@ == old(self).texts@.update(id.index as int, None::<TextCom>),
            !ok ==> final(self).texts@ == old(self).texts@,
            final(self).slots@ == old(self).slots@,
            final(self).transforms@ == old(self).transforms@,
            final(self).sprites@ == old(self).sprites@,
            final(self).bodies@ == old(self).bodies@,
            final(self).colliders@ == old(self).colliders@,
            final(self).stage_markers@ == old(self).stage_markers@,
            final(self).pending_creates@ == old(self).pending_creates@,
            final(self).pending_destroys@ == old(self).pending_destroys@,
    {
        if id.index < self.slots.len() && self.slots[id.index].generation == id.generation {
            self.texts.set(id.index, None);
            true
        } else {
            false
        }
    }

    /// Remove the entity's rigid-body component, as `detach_transform`
    /// does.
    pub fn detach_body(&mut self, id: EntityId) -> (ok: bool)
        requires
            old(self).wf(),
        ensures
            final(self).wf(),
            ok == old(self).valid(id),
            ok ==> final(self).bodies@ == old(self).bodies@.update(
                id.index as int,
                None::<RigidBodyCom>,
            ),
            !ok ==> final(self).bodies@ == old(self).bodies@,
            final(self).slots@ == old(self).slots@,
            final(self).transforms@ == old(self).transforms@,
            final(self).sprites@ == old(self).sprites@,
            final(self).texts@ == old(self).texts@,
            final(self).colliders@ == old(self).colliders@,
            final(self).stage_markers@ == old(self).stage_markers@,
            final(self).pending_creates@ == old(self).pending_creates@,
            final(self).pending_destroys@ == old(self).pending_destroys@,
    {
        if id.index < self.slots.len() && self.slots[id.index].generation == id.generation {
            self.bodies.set(id.index, None);
            true
        } else {
            false
        }
    }

    /// Remove the entity's collider component, as `detach_transform` does.
    pub fn detach_collider(&mut self, id: EntityId) -> (ok: bool)
        requires
            old(self).wf(),
        ensures
            final(self).wf(),
            ok == old(self).valid(id),
            ok ==> final(self).colliders@ == old(self).colliders@.update(
                id.index as int,
                None::<ColliderCom>,
            ),
            !ok ==> final(self).colliders@ == old(self).colliders@,
            final(self).slots@ == old(self).slots@,
            final(self).transforms@ == old(self).transforms@,
            final(self).sprites@ == old(self).sprites@,
            final(self).texts@ == old(self).texts@,
            final(self).bodies@ == old(self).bodies@,
            final(self).stage_markers@ == old(self).stage_markers@,
            final(self).pending_creates@ == old(self).pending_creates@,
            final(self).pending_destroys@ == old(self).pending_destroys@,
    {
        if id.index < self.slots.len() && self.slots[id.index].generation == id.generation {
            self.colliders.set(id.index, None);
            true
        } else {
            false
        }
    }

    /// Mark or unmark the entity as stage content. Fails exactly on a
    /// stale identifier.
    pub fn set_stage_marker(&mut self, id: EntityId, on: bool) -> (ok: bool)
        requires
            old(self).wf(),
        ensures
            final(self).wf(),
            ok == old(self).valid(id),
            ok ==> final(self).stage_markers@ == old(self).stage_markers@.update(
                id.index as int,
                on,
            ),
            !ok ==> final(self).stage_markers@ == old(self).stage_markers@,
            final(self).slots@ == old(self).slots@,
            final(self).transforms@ == old(self).transforms@,
            final(self).sprites@ == old(self).sprites@,
            final(self).texts@ == old(self).texts@,
            final(self).bodies@ == old(self).bodies@,
            final(self).colliders@ == old(self).colliders@,
            final(self).pending_creates@ == old(self).pending_creates@,
            final(self).pending_destroys@ == old(self).pending_destroys@,
    {
        if id.index < self.slots.len() && self.slots[id.index].generation == id.generation {
            self.stage_markers.set(id.index, on);
            true
        } else {
            false
        }
    }

    /// Read the entity's transform; `None` for a stale identifier or an
    /// entity without one.
    pub fn get_transform(&self, id: EntityId) -> (r: Option<&TransformCom>)
        requires
            self.wf(),
        ensures
            self.valid(id) ==> r == match self.transforms@[id.index as int] {
                Some(_) => Some(&self.transforms@[id.index as int]->0),
                None => None::<&TransformCom>,
            },
            !self.valid(id) ==> r is None,
            r is Some ==> self.valid(id) && self.transforms@[id.index as int] == Some(*r->0),
    {
        if id.index < self.slots.len() && self.slots[id.index].generation == id.generation {
            match &self.transforms[id.index] {
                Some(c) => Some(c),
                None => None,
            }
        } else {
            None
        }
    }

    /// Read the entity's sprite, as `get_transform` does for transforms.
    pub fn get_sprite(&self, id: EntityId) -> (r: Option<&SpriteCom>)
        requires
            self.wf(),
        ensures
            r is Some ==> self.valid(id) && self.sprites@[id.index as int] == Some(*r->0),
            r is None ==> !self.valid(id) || self.sprites@[id.index as int] is None,
    {
        if id.index < self.slots.len() && self.slots[id.index].generation == id.generation {
            match &self.sprites[id.index] {
                Some(c) => Some(c),
                None => None,
            }
        } else {
            None
        }
    }

    /// Read the entity's rigid-body component, as `get_sprite` does.
    pub fn get_body(&self, id: EntityId) -> (r: Option<&RigidBodyCom>)
        requires
            self.wf(),
        ensures
            r is Some ==> self.valid(id) && self.bodies@[id.index as int] == Some(*r->0),
            r is None ==> !self.valid(id) || self.bodies@[id.index as int] is None,
    {
        if id.index < self.slots.len() && self.slots[id.index].generation == id.generation {
            match &self.bodies[id.index] {
                Some(c) => Some(c),
                None => None,
            }
        } else {
            None
        }
    }

    /// Apply all pending structural changes at the frame's single commit
    /// point: first every pending creation comes alive, then every
    /// destruction request whose identifier is still current kills its
    /// entity — its components and stage marker are dropped and the slot's
    /// generation moves on, so the old identifier goes stale. Both command
    /// buffers end up empty; nothing else changes.
    #[verifier::rlimit(100)]
    pub fn commit(&mut self)
        requires
            old(self).wf(),
        ensures
            final(self).wf(),
            final(self).slots@.len() == old(self).slots@.len(),
            final(self).pending_creates@ == Seq::<usize>::empty(),
            final(self).pending_destroys@ == Seq::<EntityId>::empty(),
            forall|x: int|
                0 <= x < old(self).slots@.len() ==> #[trigger] final(self).slots@[x] == (
                if commit_killed(*old(self), x) {
                    Slot {
                        generation: (old(self).slots@[x].generation + 1) as u64,
                        alive: false,
                    }
                } else {
                    created_slots(*old(self))[x]
                }),
            forall|x: int|
                0 <= x < old(self).slots@.len() ==> #[trigger] final(self).transforms@[x] == (
                if commit_killed(*old(self), x) {
                    None::<TransformCom>
                } else {
                    old(self).transforms@[x]
                }),
            forall|x: int|
                0 <= x < old(self).slots@.len() ==> #[trigger] final(self).sprites@[x] == (
                if commit_killed(*old(self), x) {
                    None::<SpriteCom>
                } else {
                    old(self).sprites@[x]
                }),
            forall|x: int|
                0 <= x < old(self).slots@.len() ==> #[trigger] final(self).texts@[x] == (
                if commit_killed(*old(self), x) {
                    None::<TextCom>
                } else {
                    old(self).texts@[x]
                }),
            forall|x: int|
                0 <= x < old(self).slots@.len() ==> #[trigger] final(self).bodies@[x] == (
                if commit_killed(*old(self), x) {
                    None::<RigidBodyCom>
                } else {
                    old(self).bodies@[x]
                }),
            forall|x: int|
                0 <= x < old(self).slots@.len() ==> #[trigger] final(self).colliders@[x] == (
                if commit_killed(*old(self), x) {
                    None::<ColliderCom>
                } else {
                    old(self).colliders@[x]
                }),
            forall|x: int|
                0 <= x < old(self).slots@.len() ==> #[trigger] final(self).stage_markers@[x] == (
                if commit_killed(*old(self), x) {
                    false
                } else {
                    old(self).stage_markers@[x]
                }),
    {
        let n_all: usize = self.slots.len();
        let npc = self.pending_creates.len();
        let mut k: usize = 0;
        while k < npc
            invariant
                old(self).wf(),
                self.slots@.len() <= usize::MAX,
                npc == old(self).pending_creates@.len(),
                k <= npc,
                self.pending_creates@ == old(self).pending_creates@,
                self.pending_destroys@ == old(self).pending_destroys@,
                self.transforms@ == old(self).transforms@,
                self.sprites@ == old(self).sprites@,
                self.texts@ == old(self).texts@,
                self.bodies@ == old(self).bodies@,
                self.colliders@ == old(self).colliders@,
                self.stage_markers@ == old(self).stage_markers@,
                self.slots@.len() == old(self).slots@.len(),
                forall|x: int|
                    0 <= x < self.slots@.len() ==> (#[trigger] self.slots@[x]).generation == old(
                        self,
                    ).slots@[x].generation,
                forall|x: int|
                    0 <= x < self.slots@.len() ==> (#[trigger] self.slots@[x]).alive == (old(
                        self,
                    ).slots@[x].alive || old(self).pending_creates@.take(k as int).contains(
                        x as usize,
                    )),
            decreases npc - k,
        {
            let ghost prev_slots = self.slots@;
            let idx = self.pending_creates[k];
            let g = self.slots[idx].generation;
            self.slots.set(idx, Slot { generation: g, alive: true });
            proof {
                assert(self.slots@ == prev_slots.update(
                    idx as int,
                    Slot { generation: g, alive: true },
                ));
                assert(old(self).pending_creates@.take(k as int + 1) =~= old(
                    self,
                ).pending_creates@.take(k as int).push(idx));
                assert forall|x: int| 0 <= x < self.slots@.len() implies ((
                #[trigger] self.slots@[x]).alive == (old(self).slots@[x].alive || old(
                    self,
                ).pending_creates@.take(k as int + 1).contains(x as usize))) by {
                    let pcs = old(self).pending_creates@;
                    lemma_push_contains(pcs.take(k as int), idx, x as usize);
                    assert(pcs.take(k as int + 1) == pcs.take(k as int).push(idx));
                    assert(pcs.take(k as int + 1).contains(x as usize) == (pcs.take(
                        k as int,
                    ).contains(x as usize) || x as usize == idx));
                    assert(prev_slots[x].alive == (old(self).slots@[x].alive || pcs.take(
                        k as int,
                    ).contains(x as usize)));
                    if x == idx as int {
                        assert(x as usize == idx);
                        assert(self.slots@[x] == Slot { generation: g, alive: true });
                    } else {
                        assert(x as usize != idx);
                        assert(self.slots@[x] == prev_slots[x]);
                    }
                }
            }
            k += 1;
        }
        proof {
            assert(old(self).pending_creates@.take(npc as int) =~= old(self).pending_creates@);
            assert(self.slots@ =~= created_slots(*old(self)));
        }
        let ghost s1 = self.slots@;
        proof {
            assert forall|x: int|
                0 <= x < s1.len() && (#[trigger] s1[x]).alive implies s1[x].generation < u64::MAX by {
                assert(s1[x] == created_slots(*old(self))[x]);
                assert(s1[x].generation == old(self).slots@[x].generation);
                if !old(self).slots@[x].alive {
                    assert(old(self).pending_creates@.contains(x as usize));
                    let kk = choose|kk: int|
                        0 <= kk < old(self).pending_creates@.len() && old(
                            self,
                        ).pending_creates@[kk] == x as usize;
                    assert(old(self).pending_creates@[kk] < old(self).slots@.len() && old(
                        self,
                    ).slots@[old(self).pending_creates@[kk] as int].generation < u64::MAX);
                } else {
                    assert(old(self).slots@[x].generation < u64::MAX);
                }
            }
        }
        let npd = self.pending_destroys.len();
        let mut m: usize = 0;
        while m < npd
            invariant
                s1 == created_slots(*old(self)),
                s1.len() <= usize::MAX,
                s1.len() == old(self).slots@.len(),
                forall|x: int|
                    0 <= x < s1.len() && (#[trigger] s1[x]).alive ==> s1[x].generation < u64::MAX,
                npd == old(self).pending_destroys@.len(),
                m <= npd,
                self.pending_creates@ == old(self).pending_creates@,
                self.pending_destroys@ == old(self).pending_destroys@,
                self.slots@.len() == s1.len(),
                self.transforms@.len() == s1.len(),
                self.sprites@.len() == s1.len(),
                self.texts@.len() == s1.len(),
                self.bodies@.len() == s1.len(),
                self.colliders@.len() == s1.len(),
                self.stage_markers@.len() == s1.len(),
                old(self).transforms@.len() == s1.len(),
                old(self).sprites@.len() == s1.len(),
                old(self).texts@.len() == s1.len(),
                old(self).bodies@.len() == s1.len(),
                old(self).colliders@.len() == s1.len(),
                old(self).stage_markers@.len() == s1.len(),
                forall|x: int|
                    0 <= x < s1.len() ==> #[trigger] self.slots@[x] == (if killed_by(
                        s1,
                        old(self).pending_destroys@.take(m as int),
                        x,
                    ) {
                        Slot { generation: (s1[x].generation + 1) as u64, alive: false }
                    } else {
                        s1[x]
                    }),
                forall|x: int|
                    0 <= x < s1.len() ==> #[trigger] self.transforms@[x] == (if killed_by(
                        s1,
                        old(self).pending_destroys@.take(m as int),
                        x,
                    ) {
                        None::<TransformCom>
                    } else {
                        old(self).transforms@[x]
                    }),
                forall|x: int|
                    0 <= x < s1.len() ==> #[trigger] self.sprites@[x] == (if killed_by(
                        s1,
                        old(self).pending_destroys@.take(m as int),
                        x,
                    ) {
                        None::<SpriteCom>
                    } else {
                        old(self).sprites@[x]
                    }),
                forall|x: int|
                    0 <= x < s1.len() ==> #[trigger] self.texts@[x] == (if killed_by(
                        s1,
                        old(self).pending_destroys@.take(m as int),
                        x,
                    ) {
                        None::<TextCom>
                    } else {
                        old(self).texts@[x]
                    }),
                forall|x: int|
                    0 <= x < s1.len() ==> #[trigger] self.bodies@[x] == (if killed_by(
                        s1,
                        old(self).pending_destroys@.take(m as int),
                        x,
                    ) {
                        None::<RigidBodyCom>
                    } else {
                        old(self).bodies@[x]
                    }),
                forall|x: int|
                    0 <= x < s1.len() ==> #[trigger] self.colliders@[x] == (if killed_by(
                        s1,
                        old(self).pending_destroys@.take(m as int),
                        x,
                    ) {
                        None::<ColliderCom>
                    } else {
                        old(self).colliders@[x]
                    }),
                forall|x: int|
                    0 <= x < s1.len() ==> #[trigger] self.stage_markers@[x] == (if killed_by(
                        s1,
                        old(self).pending_destroys@.take(m as int),
                        x,
                    ) {
                        false
                    } else {
                        old(self).stage_markers@[x]
                    }),
            decreases npd - m,
        {
            let id = self.pending_destroys[m];
            if id.index < self.slots.len() {
                let s = self.slots[id.index];
                if s.alive && s.generation == id.generation {
                    self.slots.set(id.index, Slot { generation: s.generation + 1, alive: false });
                    self.transforms.set(id.index, None);
                    self.sprites.set(id.index, None);
                    self.texts.set(id.index, None);
                    self.bodies.set(id.index, None);
                    self.colliders.set(id.index, None);
                    self.stage_markers.set(id.index, false);
                }
            }
            proof {
                let pdm = old(self).pending_destroys@.take(m as int);
                assert(old(self).pending_destroys@.take(m as int + 1) =~= pdm.push(id));
                assert forall|x: int| 0 <= x < s1.len() implies (killed_by(
                    s1,
                    pdm.push(id),
                    x,
                ) == (killed_by(s1, pdm, x) || (s1[x].alive && id == (EntityId {
                    index: x as usize,
                    generation: s1[x].generation,
                })))) by {
                    lemma_push_contains(
                        pdm,
                        id,
                        EntityId { index: x as usize, generation: s1[x].generation },
                    );
                }
            }
            m += 1;
        }
        proof {
            assert(old(self).pending_destroys@.take(npd as int) =~= old(self).pending_destroys@);
        }
        self.pending_creates.clear();
        self.pending_destroys.clear();
    }
}

} // verus!
