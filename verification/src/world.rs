//! The entity store: an arena of slots keyed by identifier.
//!
//! An identifier is the index of a slot and is never reused. A child is
//! always younger than its parent, so every walk towards the root ends.

use crate::collision_detection::CollisionDamage;
use crate::health::Health;
use crate::movement::Transform;
use crate::physics::Collider;
use crate::vector::Vec3;
use vstd::prelude::*;

verus! {

/// Names an entity. Identifiers are handed out in ascending order.
pub type EntityId = usize;

/// The kind of body an entity is. Bodies of one kind never damage each other.
#[derive(Clone, Copy, PartialEq, Eq, Structural, Debug)]
pub enum Category {
    Spaceship,
    SpaceshipMissile,
    Asteroid,
    AsteroidParticle,
}

/// Everything that can be attached to an entity. Each part is independent
/// of the others.
#[derive(Clone, Copy, PartialEq, Eq, Debug)]
pub struct Components {
    pub category: Option<Category>,
    /// Eligible for removal by distance and for the bulk wipe.
    pub disposable: bool,
    /// Carries renderable geometry.
    pub geometry: bool,
    /// Handle of the model to draw, never inspected here.
    pub scene: Option<u64>,
    pub transform: Option<Transform>,
    pub velocity: Option<Vec3>,
    pub acceleration: Option<Vec3>,
    pub collider: Option<Collider>,
    pub health: Option<Health>,
    pub collision_damage: Option<CollisionDamage>,
}

/// An entity with nothing attached.
pub open spec fn no_components() -> Components {
    Components {
        category: None,
        disposable: false,
        geometry: false,
        scene: None,
        transform: None,
        velocity: None,
        acceleration: None,
        collider: None,
        health: None,
        collision_damage: None,
    }
}

impl Components {
    /// An entity with nothing attached.
    pub fn empty() -> (c: Components)
        ensures
            c == no_components(),
    {
        Components {
            category: None,
            disposable: false,
            geometry: false,
            scene: None,
            transform: None,
            velocity: None,
            acceleration: None,
            collider: None,
            health: None,
            collision_damage: None,
        }
    }
}

/// One place in the arena.
#[derive(Clone, Copy, PartialEq, Eq, Debug)]
pub struct Slot {
    pub alive: bool,
    pub parent: Option<EntityId>,
    pub components: Components,
}

/// The slot of an entity that has been removed.
pub open spec fn vacant() -> Slot {
    Slot { alive: false, parent: None, components: no_components() }
}

/// A live, parentless entity.
pub open spec fn root_slot(components: Components) -> Slot {
    Slot { alive: true, parent: None, components }
}

/// A live entity under `parent`.
pub open spec fn child_slot(parent: EntityId, components: Components) -> Slot {
    Slot { alive: true, parent: Some(parent), components }
}

/// Whether `id` names a live entity.
pub open spec fn alive_at(s: Seq<Slot>, id: int) -> bool {
    0 <= id < s.len() && s[id].alive
}

/// A live slot's parent is older and alive; a dead slot is vacant.
pub open spec fn slot_wf(s: Seq<Slot>, i: int) -> bool {
    if s[i].alive {
        s[i].parent matches Some(p) ==> p < i && s[p as int].alive
    } else {
        s[i] == vacant()
    }
}

/// Every slot is well formed.
pub open spec fn hierarchy_wf(s: Seq<Slot>) -> bool {
    forall|i: int| 0 <= i < s.len() ==> #[trigger] slot_wf(s, i)
}

/// Whether `anc` lies on the chain of parents above `id`.
pub open spec fn has_ancestor(s: Seq<Slot>, id: int, anc: int) -> bool
    decreases id,
{
    if 0 <= id < s.len() {
        match s[id].parent {
            Some(p) => p < id && (p == anc || has_ancestor(s, p as int, anc)),
            None => false,
        }
    } else {
        false
    }
}

/// Whether `id` is `root` or one of its descendants.
pub open spec fn in_subtree(s: Seq<Slot>, id: int, root: int) -> bool {
    id == root || has_ancestor(s, id, root)
}

/// The arena after `root` and all its descendants have been removed.
pub open spec fn without_subtree(s: Seq<Slot>, root: int) -> Seq<Slot> {
    Seq::new(
        s.len(),
        |j: int|
            if in_subtree(s, j, root) {
                vacant()
            } else {
                s[j]
            },
    )
}

/// Whether `id` is a live entity of kind `category`.
pub open spec fn is_member(s: Seq<Slot>, id: int, category: Category) -> bool {
    alive_at(s, id) && s[id].components.category == Some(category)
}

/// Whether at least one live entity is of kind `category`.
pub open spec fn has_member(s: Seq<Slot>, category: Category) -> bool {
    exists|id: int| #[trigger] is_member(s, id, category)
}

/// The live entities of kind `category` below `n`, in ascending order.
pub open spec fn members_below(s: Seq<Slot>, category: Category, n: int) -> Seq<EntityId>
    decreases n,
{
    if n <= 0 {
        Seq::empty()
    } else if alive_at(s, n - 1) && s[n - 1].components.category == Some(category) {
        members_below(s, category, n - 1).push((n - 1) as usize)
    } else {
        members_below(s, category, n - 1)
    }
}

/// Every listed member is below `n`, alive and of kind `category`, and the
/// list ascends.
pub proof fn lemma_members_below(s: Seq<Slot>, category: Category, n: int)
    requires
        n <= s.len() <= usize::MAX,
    ensures
        forall|k: int|
            0 <= k < members_below(s, category, n).len() ==> {
                let id = #[trigger] members_below(s, category, n)[k];
                id < n && alive_at(s, id as int) && s[id as int].components.category == Some(
                    category,
                )
            },
    decreases n,
{
    if n > 0 {
        lemma_members_below(s, category, n - 1);
        let earlier = members_below(s, category, n - 1);
        let all = members_below(s, category, n);
        assert forall|k: int| 0 <= k < all.len() implies {
            let id = #[trigger] all[k];
            id < n && alive_at(s, id as int) && s[id as int].components.category == Some(category)
        } by {
            if k < earlier.len() {
                assert(all[k] == earlier[k]);
            }
        }
    }
}

/// The one live entity of kind `category`; `None` when there is none or
/// more than one.
pub open spec fn single_member(s: Seq<Slot>, category: Category) -> Option<EntityId> {
    let members = members_below(s, category, s.len() as int);
    if members.len() == 1 {
        Some(members[0])
    } else {
        None
    }
}

/// Whether `id` is removed when the marked entities go: it is alive and it,
/// or one of its ancestors, is marked.
pub open spec fn condemned(s: Seq<Slot>, marks: Seq<bool>, id: int) -> bool
    decreases id,
{
    if 0 <= id < s.len() && s[id].alive {
        (id < marks.len() && marks[id]) || match s[id].parent {
            Some(p) => p < id && condemned(s, marks, p as int),
            None => false,
        }
    } else {
        false
    }
}

/// The arena after every marked entity has been removed with its
/// descendants.
pub open spec fn without_marked(s: Seq<Slot>, marks: Seq<bool>) -> Seq<Slot> {
    Seq::new(
        s.len(),
        |j: int|
            if condemned(s, marks, j) {
                vacant()
            } else {
                s[j]
            },
    )
}

/// Removing marked entities leaves a well-formed arena.
pub proof fn lemma_without_marked_wf(s: Seq<Slot>, marks: Seq<bool>)
    requires
        hierarchy_wf(s),
    ensures
        hierarchy_wf(without_marked(s, marks)),
{
    let t = without_marked(s, marks);
    assert forall|i: int| 0 <= i < t.len() implies #[trigger] slot_wf(t, i) by {
        assert(slot_wf(s, i));
        if t[i].alive {
            if let Some(p) = t[i].parent {
                assert(!condemned(s, marks, i));
                assert(!condemned(s, marks, p as int));
            }
        }
    }
}

/// An ancestor is older than its descendants.
pub proof fn lemma_ancestor_is_older(s: Seq<Slot>, id: int, anc: int)
    requires
        has_ancestor(s, id, anc),
    ensures
        0 <= anc < id,
    decreases id,
{
    let p = s[id].parent->Some_0;
    if p != anc {
        lemma_ancestor_is_older(s, p as int, anc);
    }
}

/// Removing a subtree leaves a well-formed arena.
pub proof fn lemma_without_subtree_wf(s: Seq<Slot>, root: int)
    requires
        hierarchy_wf(s),
    ensures
        hierarchy_wf(without_subtree(s, root)),
{
    let t = without_subtree(s, root);
    assert forall|i: int| 0 <= i < t.len() implies #[trigger] slot_wf(t, i) by {
        assert(slot_wf(s, i));
        if t[i].alive {
            if let Some(p) = t[i].parent {
                assert(!in_subtree(s, i, root));
                assert(!in_subtree(s, p as int, root));
            }
        }
    }
}

/// Once removed, an entity is not alive, so removing it again changes
/// nothing.
pub proof fn lemma_despawn_is_idempotent(s: Seq<Slot>, root: int)
    requires
        0 <= root < s.len(),
    ensures
        !alive_at(without_subtree(s, root), root),
{
}

/// The entities of the simulation with what is attached to them, and for
/// each entity the entities it overlapped when contacts were last computed.
pub struct World {
    slots: Vec<Slot>,
    overlaps: Vec<Vec<EntityId>>,
}

impl View for World {
    type V = Seq<Slot>;

    closed spec fn view(&self) -> Seq<Slot> {
        self.slots@
    }
}

impl World {
    /// For each identifier, the entities found overlapping it, in ascending
    /// order of identifier.
    pub closed spec fn overlap_sets(&self) -> Seq<Seq<EntityId>> {
        Seq::new(self.overlaps@.len(), |i: int| self.overlaps@[i]@)
    }

    /// The invariant of the store.
    pub open spec fn wf(&self) -> bool {
        &&& hierarchy_wf(self@)
        &&& self.overlap_sets().len() == self@.len()
    }

    /// A world without entities.
    pub fn new() -> (world: World)
        ensures
            world.wf(),
            world@.len() == 0,
    {
        World { slots: Vec::new(), overlaps: Vec::new() }
    }

    /// The number of identifiers handed out so far.
    pub fn len(&self) -> (n: usize)
        ensures
            n == self@.len(),
    {
        self.slots.len()
    }

    /// Whether `id` names a live entity.
    pub fn is_alive(&self, id: EntityId) -> (alive: bool)
        ensures
            alive == alive_at(self@, id as int),
    {
        id < self.slots.len() && self.slots[id].alive
    }

    /// The slot at `id`; the slot of an identifier that was never handed
    /// out is vacant.
    pub fn slot(&self, id: EntityId) -> (slot: Slot)
        ensures
            slot == (if id < self@.len() {
                self@[id as int]
            } else {
                vacant()
            }),
    {
        if id < self.slots.len() {
            self.slots[id]
        } else {
            Slot { alive: false, parent: None, components: Components::empty() }
        }
    }

    /// What is attached to `id`, if it is alive.
    pub fn get(&self, id: EntityId) -> (found: Option<Components>)
        ensures
            found == (if alive_at(self@, id as int) {
                Some(self@[id as int].components)
            } else {
                None
            }),
    {
        if id < self.slots.len() && self.slots[id].alive {
            Some(self.slots[id].components)
        } else {
            None
        }
    }

    /// The parent of `id`, if it is alive and has one.
    pub fn parent(&self, id: EntityId) -> (found: Option<EntityId>)
        ensures
            found == (if alive_at(self@, id as int) {
                self@[id as int].parent
            } else {
                None
            }),
    {
        if id < self.slots.len() && self.slots[id].alive {
            self.slots[id].parent
        } else {
            None
        }
    }

    /// The entities that `id` overlapped when contacts were last computed;
    /// empty for an identifier that was never handed out.
    pub fn overlaps(&self, id: EntityId) -> (list: Vec<EntityId>)
        requires
            self.wf(),
        ensures
            list@ == (if id < self@.len() {
                self.overlap_sets()[id as int]
            } else {
                Seq::empty()
            }),
    {
        let mut list: Vec<EntityId> = Vec::new();
        if id < self.overlaps.len() {
            let source = &self.overlaps[id];
            let mut k: usize = 0;
            while k < source.len()
                invariant
                    k <= source@.len(),
                    list@ == source@.take(k as int),
                decreases source@.len() - k,
            {
                list.push(source[k]);
                assert(source@.take(k + 1) == source@.take(k as int).push(source@[k as int]));
                k += 1;
            }
            assert(source@.take(k as int) == source@);
        }
        list
    }

    /// Records, for each identifier, the entities that overlap it. A table
    /// that does not have one entry per identifier is refused and nothing
    /// changes; returns whether the table was taken.
    pub fn set_overlaps(&mut self, table: Vec<Vec<EntityId>>) -> (taken: bool)
        requires
            old(self).wf(),
        ensures
            final(self).wf(),
            final(self)@ == old(self)@,
            taken == (table@.len() == old(self)@.len()),
            taken ==> final(self).overlap_sets().len() == table@.len() && forall|i: int|
                0 <= i < table@.len() ==> #[trigger] final(self).overlap_sets()[i] == table@[i]@,
            !taken ==> final(self).overlap_sets() == old(self).overlap_sets(),
    {
        if table.len() != self.slots.len() {
            return false;
        }
        self.overlaps = table;
        true
    }

    /// Adds a parentless entity and returns its identifier.
    pub fn spawn(&mut self, components: Components) -> (id: EntityId)
        requires
            old(self).wf(),
        ensures
            final(self).wf(),
            id == old(self)@.len(),
            final(self)@ == old(self)@.push(root_slot(components)),
            final(self).overlap_sets() == old(self).overlap_sets().push(Seq::empty()),
    {
        let id: usize = self.slots.len();
        self.slots.push(Slot { alive: true, parent: None, components });
        self.overlaps.push(Vec::new());
        proof {
            let s = self.slots@;
            assert forall|i: int| 0 <= i < s.len() implies #[trigger] slot_wf(s, i) by {
                if i < old(self)@.len() {
                    assert(slot_wf(old(self)@, i));
                }
            }
            assert(self.overlap_sets() =~= old(self).overlap_sets().push(Seq::empty()));
        }
        id
    }

    /// Adds an entity under `parent`; `None`, and nothing changes, when
    /// `parent` is not alive.
    pub fn spawn_child(&mut self, parent: EntityId, components: Components) -> (id: Option<
        EntityId,
    >)
        requires
            old(self).wf(),
        ensures
            final(self).wf(),
            id is Some <==> alive_at(old(self)@, parent as int),
            id matches Some(child) ==> {
                &&& child == old(self)@.len()
                &&& final(self)@ == old(self)@.push(child_slot(parent, components))
                &&& final(self).overlap_sets() == old(self).overlap_sets().push(Seq::empty())
            },
            id is None ==> final(self)@ == old(self)@ && final(self).overlap_sets() == old(
                self,
            ).overlap_sets(),
    {
        if !self.is_alive(parent) {
            return None;
        }
        let id: usize = self.slots.len();
        self.slots.push(Slot { alive: true, parent: Some(parent), components });
        self.overlaps.push(Vec::new());
        proof {
            let s = self.slots@;
            assert forall|i: int| 0 <= i < s.len() implies #[trigger] slot_wf(s, i) by {
                if i < old(self)@.len() {
                    assert(slot_wf(old(self)@, i));
                }
            }
            assert(self.overlap_sets() =~= old(self).overlap_sets().push(Seq::empty()));
        }
        Some(id)
    }

    /// Replaces what is attached to `id`; returns whether `id` was alive.
    /// A dead or unknown identifier changes nothing.
    pub fn insert(&mut self, id: EntityId, components: Components) -> (done: bool)
        requires
            old(self).wf(),
        ensures
            final(self).wf(),
            done == alive_at(old(self)@, id as int),
            final(self).overlap_sets() == old(self).overlap_sets(),
            final(self)@ == (if done {
                old(self)@.update(
                    id as int,
                    Slot { alive: true, parent: old(self)@[id as int].parent, components },
                )
            } else {
                old(self)@
            }),
    {
        if !self.is_alive(id) {
            return false;
        }
        let slot = self.slots[id];
        self.slots.set(id, Slot { alive: true, parent: slot.parent, components });
        proof {
            let s = self.slots@;
            assert forall|i: int| 0 <= i < s.len() implies #[trigger] slot_wf(s, i) by {
                assert(slot_wf(old(self)@, i));
            }
            assert(self.overlap_sets() =~= old(self).overlap_sets());
        }
        true
    }

    /// Detaches `id` from its parent. A dead or unknown identifier changes
    /// nothing.
    pub fn remove_parent(&mut self, id: EntityId)
        requires
            old(self).wf(),
        ensures
            final(self).wf(),
            final(self).overlap_sets() == old(self).overlap_sets(),
            final(self)@ == (if alive_at(old(self)@, id as int) {
                old(self)@.update(
                    id as int,
                    root_slot(old(self)@[id as int].components),
                )
            } else {
                old(self)@
            }),
    {
        if !self.is_alive(id) {
            return;
        }
        let slot = self.slots[id];
        self.slots.set(id, Slot { alive: true, parent: None, components: slot.components });
        proof {
            let s = self.slots@;
            assert forall|i: int| 0 <= i < s.len() implies #[trigger] slot_wf(s, i) by {
                assert(slot_wf(old(self)@, i));
            }
            assert(self.overlap_sets() =~= old(self).overlap_sets());
        }
    }

    /// Whether at least one live entity is of kind `category`.
    pub fn has(&self, category: Category) -> (found: bool)
        ensures
            found == has_member(self@, category),
    {
        let n: usize = self.slots.len();
        let mut i: usize = 0;
        while i < n
            invariant
                i <= n,
                n == self.slots@.len(),
                forall|j: int| 0 <= j < i ==> !is_member(self@, j, category),
            decreases n - i,
        {
            let slot = self.slots[i];
            let member = slot.alive && match slot.components.category {
                Some(kind) => kind == category,
                None => false,
            };
            if member {
                assert(is_member(self@, i as int, category));
                return true;
            }
            i += 1;
        }
        false
    }

    /// The one live entity of kind `category`; `None` when there is none or
    /// more than one.
    pub fn single(&self, category: Category) -> (found: Option<EntityId>)
        ensures
            found == single_member(self@, category),
            found matches Some(id) ==> alive_at(self@, id as int) && self@[id as int].components.category
                == Some(category),
    {
        let n: usize = self.slots.len();
        let mut first: Option<EntityId> = None;
        let mut count: usize = 0;
        let mut i: usize = 0;
        while i < n
            invariant
                i <= n,
                n == self.slots@.len(),
                count <= i,
                count == members_below(self@, category, i as int).len(),
                count >= 1 ==> first == Some(members_below(self@, category, i as int)[0]),
            decreases n - i,
        {
            let slot = self.slots[i];
            let member = slot.alive && match slot.components.category {
                Some(kind) => kind == category,
                None => false,
            };
            if member {
                if count == 0 {
                    first = Some(i);
                }
                count += 1;
            }
            i += 1;
        }
        proof {
            lemma_members_below(self@, category, n as int);
        }
        if count == 1 {
            first
        } else {
            None
        }
    }

    /// Whether `root` lies on the chain of parents above `id`.
    pub fn is_descendant(&self, id: EntityId, root: EntityId) -> (found: bool)
        requires
            self.wf(),
        ensures
            found == has_ancestor(self@, id as int, root as int),
    {
        let mut current: EntityId = id;
        loop
            invariant
                self.wf(),
                has_ancestor(self@, current as int, root as int) == has_ancestor(
                    self@,
                    id as int,
                    root as int,
                ),
            decreases current,
        {
            if current >= self.slots.len() {
                return false;
            }
            proof {
                assert(slot_wf(self@, current as int));
            }
            match self.slots[current].parent {
                None => {
                    return false;
                },
                Some(p) => {
                    if p == root {
                        return true;
                    }
                    current = p;
                },
            }
        }
    }

    /// Removes, in one batch, every live entity whose mark is set, each with
    /// all its descendants. Marks beyond the last identifier, and marks on
    /// dead entities, mean nothing.
    pub fn despawn_marked(&mut self, marks: &Vec<bool>)
        requires
            old(self).wf(),
        ensures
            final(self).wf(),
            final(self).overlap_sets() == old(self).overlap_sets(),
            final(self)@ == without_marked(old(self)@, marks@),
    {
        let n: usize = self.slots.len();
        let gone = Slot { alive: false, parent: None, components: Components::empty() };
        let mut i: usize = 0;
        while i < n
            invariant
                i <= n,
                n == self.slots@.len(),
                n == old(self)@.len(),
                hierarchy_wf(old(self)@),
                gone == vacant(),
                self.overlaps == old(self).overlaps,
                forall|j: int|
                    0 <= j < i ==> self.slots@[j] == (if condemned(old(self)@, marks@, j) {
                        vacant()
                    } else {
                        old(self)@[j]
                    }),
                forall|j: int| i <= j < n ==> self.slots@[j] == old(self)@[j],
            decreases n - i,
        {
            let slot = self.slots[i];
            proof {
                assert(slot_wf(old(self)@, i as int));
            }
            if slot.alive {
                let mut doomed = i < marks.len() && marks[i];
                if let Some(p) = slot.parent {
                    proof {
                        assert(slot_wf(old(self)@, p as int));
                    }
                    if !self.slots[p].alive {
                        doomed = true;
                    }
                }
                if doomed {
                    self.slots.set(i, gone);
                }
            }
            i += 1;
        }
        proof {
            assert(self.slots@ =~= without_marked(old(self)@, marks@));
            lemma_without_marked_wf(old(self)@, marks@);
            assert(self.overlap_sets() =~= old(self).overlap_sets());
        }
    }

    /// Removes `id` together with all its descendants. A dead or unknown
    /// identifier changes nothing, so removing twice is the same as once.
    pub fn despawn_recursive(&mut self, id: EntityId)
        requires
            old(self).wf(),
        ensures
            final(self).wf(),
            final(self).overlap_sets() == old(self).overlap_sets(),
            final(self)@ == (if alive_at(old(self)@, id as int) {
                without_subtree(old(self)@, id as int)
            } else {
                old(self)@
            }),
    {
        if !self.is_alive(id) {
            return;
        }
        let n: usize = self.slots.len();
        let gone = Slot { alive: false, parent: None, components: Components::empty() };
        self.slots.set(id, gone);
        proof {
            assert forall|j: int| 0 <= j < id implies !in_subtree(old(self)@, j, id as int) by {
                if has_ancestor(old(self)@, j, id as int) {
                    lemma_ancestor_is_older(old(self)@, j, id as int);
                }
            }
        }
        let mut i: usize = id + 1;
        while i < n
            invariant
                id < i <= n,
                n == self.slots@.len(),
                n == old(self)@.len(),
                hierarchy_wf(old(self)@),
                gone == vacant(),
                self.overlaps == old(self).overlaps,
                forall|j: int|
                    0 <= j < i ==> self.slots@[j] == (if in_subtree(old(self)@, j, id as int) {
                        vacant()
                    } else {
                        old(self)@[j]
                    }),
                forall|j: int| i <= j < n ==> self.slots@[j] == old(self)@[j],
            decreases n - i,
        {
            let slot = self.slots[i];
            proof {
                assert(slot_wf(old(self)@, i as int));
            }
            let mut orphaned = false;
            if slot.alive {
                if let Some(p) = slot.parent {
                    orphaned = !self.slots[p].alive;
                    proof {
                        assert(slot_wf(old(self)@, p as int));
                    }
                }
            }
            if orphaned {
                self.slots.set(i, gone);
            }
            i += 1;
        }
        proof {
            assert(self.slots@ =~= without_subtree(old(self)@, id as int));
            lemma_without_subtree_wf(old(self)@, id as int);
            assert(self.overlap_sets() =~= old(self).overlap_sets());
        }
    }
}

} // verus!
