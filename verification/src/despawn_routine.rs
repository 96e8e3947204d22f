//! Retiring entities: those that strayed too far, those that died, and,
//! when a round ends, all of them.

use crate::vector::length_squared;
use crate::world::{without_marked, Category, Components, Slot, World};
use vstd::prelude::*;

verus! {

/// Distance from the origin beyond which a disposable entity is removed.
pub const DESPAWN_DISTANCE: i32 = 100_000;

/// Whether an entity with these parts has strayed too far: it is disposable
/// and placed strictly farther from the origin than `DESPAWN_DISTANCE`.
pub open spec fn is_far_away(c: Components) -> bool {
    &&& c.disposable
    &&& c.transform matches Some(t)
    &&& length_squared(t.translation) > DESPAWN_DISTANCE * DESPAWN_DISTANCE
}

/// Whether an entity with these parts is removed for being dead: it is
/// disposable and its hit points are zero or less. An asteroid is left to
/// explode instead.
pub open spec fn is_dead_disposable(c: Components) -> bool {
    &&& c.disposable
    &&& c.category != Some(Category::Asteroid)
    &&& c.health matches Some(h)
    &&& h.value <= 0
}

/// Whether an entity with these parts goes when a round ends: it has hit
/// points or is disposable.
pub open spec fn is_wiped(c: Components) -> bool {
    c.health is Some || c.disposable
}

/// The marks that single out the live entities satisfying `rule`.
pub open spec fn marks_where(s: Seq<Slot>, rule: spec_fn(Components) -> bool) -> Seq<bool> {
    Seq::new(s.len(), |i: int| s[i].alive && rule(s[i].components))
}

/// Whether an entity with these parts has strayed too far.
pub fn far_away(c: &Components) -> (far: bool)
    ensures
        far == is_far_away(*c),
{
    match c.transform {
        Some(t) => {
            let bound: u128 = DESPAWN_DISTANCE as u128;
            c.disposable && t.translation.length_squared() > bound * bound
        },
        None => false,
    }
}

/// Whether an entity with these parts is removed for being dead.
pub fn dead_disposable(c: &Components) -> (dead: bool)
    ensures
        dead == is_dead_disposable(*c),
{
    let asteroid = match c.category {
        Some(kind) => kind == Category::Asteroid,
        None => false,
    };
    match c.health {
        Some(h) => c.disposable && !asteroid && h.is_dead(),
        None => false,
    }
}

/// Whether an entity with these parts goes when a round ends.
pub fn wiped(c: &Components) -> (goes: bool)
    ensures
        goes == is_wiped(*c),
{
    c.health.is_some() || c.disposable
}

/// Removes every disposable entity that is farther from the origin than
/// `DESPAWN_DISTANCE`, each with its descendants.
pub fn despawn_far_away_entities(world: &mut World)
    requires
        old(world).wf(),
    ensures
        final(world).wf(),
        final(world).overlap_sets() == old(world).overlap_sets(),
        final(world)@ == without_marked(
            old(world)@,
            marks_where(old(world)@, |c: Components| is_far_away(c)),
        ),
{
    let n: usize = world.len();
    let mut marks: Vec<bool> = Vec::new();
    let mut i: usize = 0;
    while i < n
        invariant
            i <= n,
            n == world@.len(),
            marks@ == marks_where(world@, |c: Components| is_far_away(c)).take(i as int),
        decreases n - i,
    {
        let slot = world.slot(i);
        marks.push(slot.alive && far_away(&slot.components));
        assert(marks@ =~= marks_where(world@, |c: Components| is_far_away(c)).take(i + 1));
        i += 1;
    }
    assert(marks@ =~= marks_where(world@, |c: Components| is_far_away(c)));
    world.despawn_marked(&marks);
}

/// Removes every disposable entity whose hit points are zero or less, each
/// with its descendants. Asteroids are left to explode.
pub fn despawn_dead_entities(world: &mut World)
    requires
        old(world).wf(),
    ensures
        final(world).wf(),
        final(world).overlap_sets() == old(world).overlap_sets(),
        final(world)@ == without_marked(
            old(world)@,
            marks_where(old(world)@, |c: Components| is_dead_disposable(c)),
        ),
{
    let n: usize = world.len();
    let mut marks: Vec<bool> = Vec::new();
    let mut i: usize = 0;
    while i < n
        invariant
            i <= n,
            n == world@.len(),
            marks@ == marks_where(world@, |c: Components| is_dead_disposable(c)).take(i as int),
        decreases n - i,
    {
        let slot = world.slot(i);
        marks.push(slot.alive && dead_disposable(&slot.components));
        assert(marks@ =~= marks_where(world@, |c: Components| is_dead_disposable(c)).take(i + 1));
        i += 1;
    }
    assert(marks@ =~= marks_where(world@, |c: Components| is_dead_disposable(c)));
    world.despawn_marked(&marks);
}

/// Removes every entity that has hit points or is disposable, each with its
/// descendants, whatever its state.
pub fn despawn_all_entities(world: &mut World)
    requires
        old(world).wf(),
    ensures
        final(world).wf(),
        final(world).overlap_sets() == old(world).overlap_sets(),
        final(world)@ == without_marked(
            old(world)@,
            marks_where(old(world)@, |c: Components| is_wiped(c)),
        ),
{
    let n: usize = world.len();
    let mut marks: Vec<bool> = Vec::new();
    let mut i: usize = 0;
    while i < n
        invariant
            i <= n,
            n == world@.len(),
            marks@ == marks_where(world@, |c: Components| is_wiped(c)).take(i as int),
        decreases n - i,
    {
        let slot = world.slot(i);
        marks.push(slot.alive && wiped(&slot.components));
        assert(marks@ =~= marks_where(world@, |c: Components| is_wiped(c)).take(i + 1));
        i += 1;
    }
    assert(marks@ =~= marks_where(world@, |c: Components| is_wiped(c)));
    world.despawn_marked(&marks);
}

} // verus!
