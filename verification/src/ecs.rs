use vstd::prelude::*;

use crate::components::{Position, Sprite, Tint, Velocity};

verus! {

/// An opaque handle to one entity: a slot index plus the generation the
/// slot had when the entity was created, so a recycled slot never aliases
/// an entity destroyed earlier.
#[derive(Copy, Clone, Debug, PartialEq, Eq, Structural)]
pub struct Entity {
    pub index: usize,
    pub generation: u64,
}

/// A set of component kinds, one flag per kind the registry stores.
#[derive(Copy, Clone, Debug, PartialEq, Eq, Structural)]
pub struct KindSet {
    pub position: bool,
    pub velocity: bool,
    pub sprite: bool,
    pub tint: bool,
    pub camera_follow: bool,
}

impl KindSet {
    pub open spec fn subset_of(self, other: KindSet) -> bool {
        &&& (self.position ==> other.position)
        &&& (self.velocity ==> other.velocity)
        &&& (self.sprite ==> other.sprite)
        &&& (self.tint ==> other.tint)
        &&& (self.camera_follow ==> other.camera_follow)
    }

    pub open spec fn intersects(self, other: KindSet) -> bool {
        ||| (self.position && other.position)
        ||| (self.velocity && other.velocity)
        ||| (self.sprite && other.sprite)
        ||| (self.tint && other.tint)
        ||| (self.camera_follow && other.camera_follow)
    }

    pub open spec fn is_empty(self) -> bool {
        !self.position && !self.velocity && !self.sprite && !self.tint && !self.camera_follow
    }

    /// The empty kind set.
    pub fn none() -> (r: KindSet)
        ensures
            r == no_kinds(),
    {
        KindSet {
            position: false,
            velocity: false,
            sprite: false,
            tint: false,
            camera_follow: false,
        }
    }
}

pub open spec fn no_kinds() -> KindSet {
    KindSet { position: false, velocity: false, sprite: false, tint: false, camera_follow: false }
}

/// Which entities a system applies to: every kind in `all`, at least one of
/// `any` when `any` is not empty, and none of `none`.
#[derive(Copy, Clone, Debug, PartialEq, Eq, Structural)]
pub struct Aspect {
    pub all: KindSet,
    pub any: KindSet,
    pub none: KindSet,
}

pub open spec fn aspect_matches(aspect: Aspect, kinds: KindSet) -> bool {
    &&& aspect.all.subset_of(kinds)
    &&& (aspect.any.is_empty() || aspect.any.intersects(kinds))
    &&& !aspect.none.intersects(kinds)
}

impl Aspect {
    /// The aspect that requires exactly the given kinds.
    pub fn with_all(all: KindSet) -> (r: Aspect)
        ensures
            r == (Aspect { all, any: no_kinds(), none: no_kinds() }),
    {
        Aspect { all, any: KindSet::none(), none: KindSet::none() }
    }

    /// Whether an entity with the given kinds matches this aspect.
    pub fn matches(&self, kinds: KindSet) -> (r: bool)
        ensures
            r == aspect_matches(*self, kinds),
    {
        let a = &self.all;
        let subset = (!a.position || kinds.position) && (!a.velocity || kinds.velocity)
            && (!a.sprite || kinds.sprite) && (!a.tint || kinds.tint) && (!a.camera_follow
            || kinds.camera_follow);
        let y = &self.any;
        let any_empty = !y.position && !y.velocity && !y.sprite && !y.tint && !y.camera_follow;
        let any_hit = (y.position && kinds.position) || (y.velocity && kinds.velocity)
            || (y.sprite && kinds.sprite) || (y.tint && kinds.tint) || (y.camera_follow
            && kinds.camera_follow);
        let n = &self.none;
        let none_hit = (n.position && kinds.position) || (n.velocity && kinds.velocity)
            || (n.sprite && kinds.sprite) || (n.tint && kinds.tint) || (n.camera_follow
            && kinds.camera_follow);
        subset && (any_empty || any_hit) && !none_hit
    }
}

/// The per-kind component stores, all indexed by entity slot. Position,
/// velocity and sprite are the hot kinds of the frame loop; tint and the
/// camera-follow marker are cold. The split is a layout hint only: every
/// store is addressed the same way.
pub struct Components {
    pub positions: Vec<Option<Position>>,
    pub velocities: Vec<Option<Velocity>>,
    pub sprites: Vec<Option<Sprite>>,
    pub tints: Vec<Option<Tint>>,
    pub camera_follows: Vec<bool>,
}

/// What an entity is created with: one optional value per component kind.
/// The whole template is attached in one step, so an entity is never
/// visible with only part of its components.
pub struct EntityTemplate {
    pub position: Option<Position>,
    pub velocity: Option<Velocity>,
    pub sprite: Option<Sprite>,
    pub tint: Option<Tint>,
    pub camera_follow: bool,
}

impl EntityTemplate {
    pub open spec fn kinds(self) -> KindSet {
        KindSet {
            position: self.position is Some,
            velocity: self.velocity is Some,
            sprite: self.sprite is Some,
            tint: self.tint is Some,
            camera_follow: self.camera_follow,
        }
    }

    pub open spec fn wf(self) -> bool {
        self.sprite matches Some(sp) ==> sp.wf()
    }

    /// A template with no components at all.
    pub fn empty() -> (r: EntityTemplate)
        ensures
            r.position is None,
            r.velocity is None,
            r.sprite is None,
            r.tint is None,
            r.camera_follow == false,
    {
        EntityTemplate {
            position: None,
            velocity: None,
            sprite: None,
            tint: None,
            camera_follow: false,
        }
    }
}

/// The order list after every occurrence of one entity is dropped.
pub open spec fn remove_entity(s: Seq<Entity>, e: Entity) -> Seq<Entity>
    decreases s.len(),
{
    if s.len() == 0 {
        Seq::empty()
    } else if s.last() == e {
        remove_entity(s.drop_last(), e)
    } else {
        remove_entity(s.drop_last(), e).push(s.last())
    }
}

/// The entity registry: slot generations and liveness, the free-slot list,
/// the live entities in insertion order, and the component stores.
pub struct Registry {
    pub generations: Vec<u64>,
    pub alive: Vec<bool>,
    pub free: Vec<usize>,
    pub order: Vec<Entity>,
    pub components: Components,
}

impl Registry {
    pub open spec fn slot_count(self) -> nat {
        self.alive@.len()
    }

    /// The component kinds present on a slot.
    pub open spec fn kinds_at(self, slot: int) -> KindSet {
        KindSet {
            position: self.components.positions@[slot] is Some,
            velocity: self.components.velocities@[slot] is Some,
            sprite: self.components.sprites@[slot] is Some,
            tint: self.components.tints@[slot] is Some,
            camera_follow: self.components.camera_follows@[slot],
        }
    }

    /// Whether a handle names a live entity: its slot is alive and still on
    /// the generation the handle was created with.
    pub open spec fn live(self, e: Entity) -> bool {
        &&& e.index < self.slot_count()
        &&& self.alive@[e.index as int]
        &&& self.generations@[e.index as int] == e.generation
    }

    /// Nothing at one slot differs between two registries.
    pub open spec fn slot_unchanged(self, other: Registry, s: int) -> bool {
        &&& self.alive@[s] == other.alive@[s]
        &&& self.generations@[s] == other.generations@[s]
        &&& self.components.positions@[s] == other.components.positions@[s]
        &&& self.components.velocities@[s] == other.components.velocities@[s]
        &&& self.components.sprites@[s] == other.components.sprites@[s]
        &&& self.components.tints@[s] == other.components.tints@[s]
        &&& self.components.camera_follows@[s] == other.components.camera_follows@[s]
    }

    /// Every store covers every slot; free slots are in range, dead,
    /// and listed once; the order list holds only live entities; dead slots
    /// hold no components; and every stored sprite is well formed.
    pub open spec fn wf(self) -> bool {
        let n = self.slot_count();
        &&& self.generations@.len() == n
        &&& self.components.positions@.len() == n
        &&& self.components.velocities@.len() == n
        &&& self.components.sprites@.len() == n
        &&& self.components.tints@.len() == n
        &&& self.components.camera_follows@.len() == n
        &&& forall|k: int|
            0 <= k < self.free@.len() ==> (#[trigger] self.free@[k]) < n
                && !self.alive@[self.free@[k] as int]
        &&& forall|k1: int, k2: int|
            0 <= k1 < k2 < self.free@.len() ==> self.free@[k1] != self.free@[k2]
        &&& forall|k: int| 0 <= k < self.order@.len() ==> self.live(#[trigger] self.order@[k])
        &&& forall|s: int| 0 <= s < n && !self.alive@[s] ==> self.kinds_at(s) == no_kinds()
        &&& forall|s: int|
            0 <= s < n ==> (#[trigger] self.components.sprites@[s] matches Some(sp) ==> sp.wf())
    }

    /// An empty registry.
    pub fn new() -> (r: Registry)
        ensures
            r.wf(),
            r.slot_count() == 0,
            r.order@.len() == 0,
            r.free@.len() == 0,
    {
        Registry {
            generations: Vec::new(),
            alive: Vec::new(),
            free: Vec::new(),
            order: Vec::new(),
            components: Components {
                positions: Vec::new(),
                velocities: Vec::new(),
                sprites: Vec::new(),
                tints: Vec::new(),
                camera_follows: Vec::new(),
            },
        }
    }

    /// Creates one entity carrying exactly the template's components,
    /// reusing a free slot when one exists, and appends it to the insertion
    /// order.
    pub fn create(&mut self, template: EntityTemplate) -> (e: Entity)
        requires
            old(self).wf(),
            template.wf(),
        ensures
            final(self).wf(),
            final(self).live(e),
            !old(self).live(e),
            final(self).order@ == old(self).order@.push(e),
            final(self).kinds_at(e.index as int) == template.kinds(),
            final(self).components.positions@[e.index as int] == template.position,
            final(self).components.velocities@[e.index as int] == template.velocity,
            final(self).components.sprites@[e.index as int] == template.sprite,
            final(self).components.tints@[e.index as int] == template.tint,
            final(self).components.camera_follows@[e.index as int] == template.camera_follow,
            old(self).slot_count() <= final(self).slot_count() <= old(self).slot_count() + 1,
            forall|s: int|
                0 <= s < old(self).slot_count() && s != e.index ==> final(self).slot_unchanged(
                    *old(self),
                    s,
                ),
            forall|ent: Entity|
                old(self).live(ent) ==> #[trigger] final(self).live(ent) && ent.index != e.index,
    {
        let slot: usize = match self.free.pop() {
            Some(s) => {
                proof {
                    assert(old(self).free@[old(self).free@.len() - 1] == s);
                    assert(!self.alive@[s as int]);
                }
                s
            },
            None => {
                let s = self.alive.len();
                self.generations.push(0);
                self.alive.push(false);
                self.components.positions.push(None);
                self.components.velocities.push(None);
                self.components.sprites.push(None);
                self.components.tints.push(None);
                self.components.camera_follows.push(false);
                s
            },
        };
        self.alive[slot] = true;
        self.components.positions[slot] = template.position;
        self.components.velocities[slot] = template.velocity;
        self.components.sprites[slot] = template.sprite;
        self.components.tints[slot] = template.tint;
        self.components.camera_follows[slot] = template.camera_follow;
        let e = Entity { index: slot, generation: self.generations[slot] };
        self.order.push(e);
        proof {
            assert forall|s: int|
                0 <= s < self.slot_count() && !self.alive@[s] implies self.kinds_at(s)
                == no_kinds() by {
                assert(s != slot);
                assert(old(self).kinds_at(s) == no_kinds());
            }
            assert forall|s: int|
                0 <= s < self.slot_count() implies (#[trigger] self.components.sprites@[s] matches Some(
                sp,
            ) ==> sp.wf()) by {
                if s != slot {
                    assert(old(self).components.sprites@[s] matches Some(sp) ==> sp.wf());
                }
            }
        }
        e
    }

    /// Destroys the entity a handle names, freeing its slot, dropping all
    /// its components, advancing the slot's generation and removing it from
    /// the insertion order; a stale or unknown handle changes nothing.
    pub fn destroy(&mut self, e: Entity) -> (removed: bool)
        requires
            old(self).wf(),
        ensures
            final(self).wf(),
            removed == old(self).live(e),
            final(self).slot_count() == old(self).slot_count(),
            !removed ==> *final(self) == *old(self),
            removed ==> {
                &&& !final(self).live(e)
                &&& !final(self).alive@[e.index as int]
                &&& final(self).kinds_at(e.index as int) == no_kinds()
                &&& final(self).order@ == remove_entity(old(self).order@, e)
                &&& forall|s: int|
                    0 <= s < old(self).slot_count() && s != e.index
                        ==> final(self).slot_unchanged(*old(self), s)
                &&& forall|ent: Entity|
                    old(self).live(ent) && ent != e ==> #[trigger] final(self).live(ent)
            },
    {
        let n = self.alive.len();
        if !(e.index < n && self.alive[e.index] && self.generations[e.index] == e.generation) {
            proof {
                assert(self.order@ =~= old(self).order@);
            }
            return false;
        }
        self.alive[e.index] = false;
        self.components.positions[e.index] = None;
        self.components.velocities[e.index] = None;
        self.components.sprites[e.index] = None;
        self.components.tints[e.index] = None;
        self.components.camera_follows[e.index] = false;
        let g = self.generations[e.index];
        if g < u64::MAX {
            // the slot can be reused under a fresh generation
            self.generations[e.index] = g + 1;
            self.free.push(e.index);
        }
        let ghost old_order = self.order@;
        let mut kept: Vec<Entity> = Vec::new();
        let len = self.order.len();
        let mut k: usize = 0;
        while k < len
            invariant
                0 <= k <= len,
                len == old_order.len(),
                self.order@ == old_order,
                kept@ == remove_entity(old_order.take(k as int), e),
            decreases len - k,
        {
            let cur = self.order[k];
            if !(cur.index == e.index && cur.generation == e.generation) {
                kept.push(cur);
            }
            proof {
                assert(old_order.take(k + 1).drop_last() =~= old_order.take(k as int));
                assert(old_order.take(k + 1).last() == old_order[k as int]);
            }
            k = k + 1;
        }
        proof {
            assert(old_order.take(len as int) =~= old_order);
        }
        self.order = kept;
        proof {
            lemma_remove_entity_live(*old(self), *self, old_order, e);
            assert forall|s: int|
                0 <= s < self.slot_count() && !self.alive@[s] implies self.kinds_at(s)
                == no_kinds() by {
                if s != e.index {
                    assert(old(self).kinds_at(s) == no_kinds());
                }
            }
            assert forall|s: int|
                0 <= s < self.slot_count() implies (#[trigger] self.components.sprites@[s] matches Some(
                sp,
            ) ==> sp.wf()) by {
                if s != e.index {
                    assert(old(self).components.sprites@[s] matches Some(sp) ==> sp.wf());
                }
            }
        }
        true
    }

    /// Whether a handle still names a live entity.
    pub fn is_alive(&self, e: Entity) -> (r: bool)
        requires
            self.wf(),
        ensures
            r == self.live(e),
    {
        e.index < self.alive.len() && self.alive[e.index] && self.generations[e.index]
            == e.generation
    }

    /// The component kinds present on a live entity's slot.
    pub fn kinds_of(&self, slot: usize) -> (r: KindSet)
        requires
            self.wf(),
            slot < self.slot_count(),
        ensures
            r == self.kinds_at(slot as int),
    {
        KindSet {
            position: self.components.positions[slot].is_some(),
            velocity: self.components.velocities[slot].is_some(),
            sprite: self.components.sprites[slot].is_some(),
            tint: self.components.tints[slot].is_some(),
            camera_follow: self.components.camera_follows[slot],
        }
    }

    /// The entity's position, when the handle is live and the component
    /// present.
    pub fn position(&self, e: Entity) -> (r: Option<Position>)
        requires
            self.wf(),
        ensures
            r == if self.live(e) {
                self.components.positions@[e.index as int]
            } else {
                None::<Position>
            },
    {
        if self.is_alive(e) {
            self.components.positions[e.index]
        } else {
            None
        }
    }

    /// The entity's sprite, when the handle is live and the component
    /// present.
    pub fn sprite(&self, e: Entity) -> (r: Option<Sprite>)
        requires
            self.wf(),
        ensures
            r == if self.live(e) {
                self.components.sprites@[e.index as int]
            } else {
                None::<Sprite>
            },
    {
        if self.is_alive(e) {
            self.components.sprites[e.index]
        } else {
            None
        }
    }

    /// The entity's tint, when the handle is live and the component
    /// present.
    pub fn tint(&self, e: Entity) -> (r: Option<Tint>)
        requires
            self.wf(),
        ensures
            r == if self.live(e) {
                self.components.tints@[e.index as int]
            } else {
                None::<Tint>
            },
    {
        if self.is_alive(e) {
            self.components.tints[e.index]
        } else {
            None
        }
    }

    /// The live entities matching an aspect, in insertion order.
    pub fn iter_matching(&self, aspect: Aspect) -> (r: Vec<Entity>)
        requires
            self.wf(),
        ensures
            r@ == matching_entities(*self, aspect),
            forall|k: int|
                0 <= k < r@.len() ==> self.live(#[trigger] r@[k]) && aspect_matches(
                    aspect,
                    self.kinds_at(r@[k].index as int),
                ),
    {
        let mut out: Vec<Entity> = Vec::new();
        let len = self.order.len();
        let mut k: usize = 0;
        while k < len
            invariant
                0 <= k <= len,
                self.wf(),
                len == self.order@.len(),
                out@ == matching_from(*self, aspect, self.order@.take(k as int)),
                forall|j: int|
                    0 <= j < out@.len() ==> self.live(#[trigger] out@[j]) && aspect_matches(
                        aspect,
                        self.kinds_at(out@[j].index as int),
                    ),
            decreases len - k,
        {
            let cur = self.order[k];
            let kinds = self.kinds_of(cur.index);
            if aspect.matches(kinds) {
                out.push(cur);
            }
            proof {
                assert(self.order@.take(k + 1).drop_last() =~= self.order@.take(k as int));
                assert(self.order@.take(k + 1).last() == self.order@[k as int]);
            }
            k = k + 1;
        }
        proof {
            assert(self.order@.take(len as int) =~= self.order@);
        }
        out
    }
}

/// The subsequence of `s` whose entities match the aspect in `r`.
pub open spec fn matching_from(r: Registry, aspect: Aspect, s: Seq<Entity>) -> Seq<Entity>
    decreases s.len(),
{
    if s.len() == 0 {
        Seq::empty()
    } else {
        let rest = matching_from(r, aspect, s.drop_last());
        if aspect_matches(aspect, r.kinds_at(s.last().index as int)) {
            rest.push(s.last())
        } else {
            rest
        }
    }
}

/// The live entities of a registry that match an aspect, in insertion
/// order.
pub open spec fn matching_entities(r: Registry, aspect: Aspect) -> Seq<Entity> {
    matching_from(r, aspect, r.order@)
}

/// After a destroy, every entity kept in the rebuilt order list is live:
/// each kept entry differs from the removed handle, and an entry on the
/// removed slot with a matching generation would have been the handle
/// itself.
proof fn lemma_remove_entity_live(before: Registry, after: Registry, order: Seq<Entity>, e: Entity)
    requires
        before.wf(),
        order == before.order@,
        before.live(e),
        after.slot_count() == before.slot_count(),
        after.generations@.len() == before.generations@.len(),
        !after.alive@[e.index as int],
        forall|s: int|
            0 <= s < before.slot_count() && s != e.index ==> after.alive@[s] == before.alive@[s]
                && after.generations@[s] == before.generations@[s],
        after.order@ == remove_entity(order, e),
    ensures
        forall|k: int| 0 <= k < after.order@.len() ==> after.live(#[trigger] after.order@[k]),
{
    lemma_remove_entity_prefix(before, after, order, e);
}

/// The same statement over any prefix of the order list.
proof fn lemma_remove_entity_prefix(
    before: Registry,
    after: Registry,
    order: Seq<Entity>,
    e: Entity,
)
    requires
        before.wf(),
        forall|k: int| 0 <= k < order.len() ==> before.live(#[trigger] order[k]),
        before.live(e),
        after.slot_count() == before.slot_count(),
        after.generations@.len() == before.generations@.len(),
        !after.alive@[e.index as int],
        forall|s: int|
            0 <= s < before.slot_count() && s != e.index ==> after.alive@[s] == before.alive@[s]
                && after.generations@[s] == before.generations@[s],
    ensures
        forall|k: int|
            0 <= k < remove_entity(order, e).len() ==> after.live(
                #[trigger] remove_entity(order, e)[k],
            ),
    decreases order.len(),
{
    if order.len() > 0 {
        let prefix = order.drop_last();
        let last = order.last();
        assert(forall|k: int| 0 <= k < prefix.len() ==> prefix[k] == order[k]);
        lemma_remove_entity_prefix(before, after, prefix, e);
        if last != e {
            if last.index == e.index {
                assert(before.generations@[e.index as int] == e.generation);
                assert(false);
            }
            assert(after.live(last));
            assert(forall|k: int|
                0 <= k < remove_entity(prefix, e).len() ==> remove_entity(order, e)[k]
                    == remove_entity(prefix, e)[k]);
        }
    }
}

} // verus!
