//! The frame: its stages, their order, and the state in which they run.
//!
//! Within a duty the set of entities is stable: each duty judges the world
//! as it stands when the duty begins, and makes its additions and removals
//! in one batch when it ends. The removals of the despawn stage are
//! therefore complete before the controls are read, and what a stage adds
//! or removes is seen by the stages after it.

use crate::asset_loader::SceneAssets;
use crate::asteroids::{
    asteroid_spawned, asteroid_spawner, asteroids_exploded, explode_dead_asteroids,
    rotate_asteroids, spawn_asteroid, spawner_ticked, spun, SpawnTimer, SPAWN_PERIOD,
};
use crate::collision_detection::{
    after_events, apply_collision_damage, collision_events, generate_collision_events,
};
use crate::despawn_routine::{
    despawn_all_entities, despawn_dead_entities, despawn_far_away_entities, is_dead_disposable,
    is_far_away, is_wiped, marks_where,
};
use crate::hud::{
    clear_game_score, clearing_event, score_after, update_game_score, GameScore,
    GameScoreChangeEvent,
};
use crate::input::ControlInput;
use crate::physics::{
    after_position_pass, after_velocity_pass, apply_kinematics, detect_overlaps, map_alive,
    overlaps_of,
};
use crate::spaceship::{
    after_steering, check_spaceship, cooled, missile_fired, ship_present, spaceship_movement_controls,
    spaceship_spawned, spaceship_weapon_controls, spawn_spaceship, SpaceshipMissileCooldownTimer,
    MISSILE_COOLDOWN,
};
use crate::state::{
    entered, game_state_input_events, leave_menu, requested_state, transition_to_in_game, GameState,
};
use crate::timer::RepeatingTimer;
use crate::vector::Vec3;
use crate::world::{without_marked, Components, EntityId, Slot, World};
use vstd::prelude::*;

verus! {

/// The stages of gameplay within a frame.
#[derive(Clone, Copy, PartialEq, Eq, Structural, Hash, Debug)]
pub enum InGameSet {
    UserInput,
    EntityUpdates,
    CollisionDetection,
    DespawnEntities,
}

/// The stages in the order in which a frame runs them. Removals come
/// first, so that every later stage sees the entities that remain.
pub open spec fn frame_order() -> Seq<InGameSet> {
    seq![
        InGameSet::DespawnEntities,
        InGameSet::UserInput,
        InGameSet::EntityUpdates,
        InGameSet::CollisionDetection,
    ]
}

/// The stages in the order in which a frame runs them.
pub fn stage_order() -> (order: Vec<InGameSet>)
    ensures
        order@ == frame_order(),
{
    let mut order: Vec<InGameSet> = Vec::new();
    order.push(InGameSet::DespawnEntities);
    order.push(InGameSet::UserInput);
    order.push(InGameSet::EntityUpdates);
    order.push(InGameSet::CollisionDetection);
    assert(order@ =~= frame_order());
    order
}

/// Whether the stages of gameplay run in `state`.
pub open spec fn stages_run(state: GameState) -> bool {
    state == GameState::InGame
}

/// Whether the stages of gameplay run in `state`.
pub fn gameplay_runs(state: GameState) -> (runs: bool)
    ensures
        runs == stages_run(state),
{
    state == GameState::InGame
}

/// The arena after the despawn stage: first what strayed too far goes, then
/// what is dead among the rest.
pub open spec fn after_despawn_stage(s: Seq<Slot>) -> Seq<Slot> {
    let near = without_marked(s, marks_where(s, |c: Components| is_far_away(c)));
    without_marked(near, marks_where(near, |c: Components| is_dead_disposable(c)))
}

/// Runs the despawn stage.
pub fn despawn_stage(world: &mut World)
    requires
        old(world).wf(),
    ensures
        final(world).wf(),
        final(world).overlap_sets() == old(world).overlap_sets(),
        final(world)@ == after_despawn_stage(old(world)@),
{
    despawn_far_away_entities(world);
    despawn_dead_entities(world);
}

/// The overlap sets after `count` entities have been added: each starts
/// with an empty set.
pub open spec fn with_fresh_sets(overlaps: Seq<Seq<EntityId>>, count: int) -> Seq<Seq<EntityId>> {
    overlaps + Seq::new(count as nat, |i: int| Seq::<EntityId>::empty())
}

/// Runs the stage that reacts to the controls: the ship steers, then fires.
pub fn user_input_stage(
    world: &mut World,
    input: &ControlInput,
    cd_timer: &mut SpaceshipMissileCooldownTimer,
    dt: u32,
    scene_assets: &SceneAssets,
    heading: Vec3,
)
    requires
        old(world).wf(),
    ensures
        final(world).wf(),
        final(cd_timer).timer == cooled(old(cd_timer).timer, input.fire, dt),
        final(world)@.len() >= old(world)@.len(),
        final(world).overlap_sets() == with_fresh_sets(
            old(world).overlap_sets(),
            final(world)@.len() - old(world)@.len(),
        ),
        missile_fired(
            after_steering(old(world)@, *input, dt, heading),
            final(world)@,
            old(cd_timer).timer,
            *input,
            dt,
            heading,
            scene_assets.bullet@,
        ),
{
    spaceship_movement_controls(world, input, dt, heading);
    spaceship_weapon_controls(world, input, cd_timer, dt, scene_assets, heading);
    assert(world.overlap_sets() =~= with_fresh_sets(
        old(world).overlap_sets(),
        world@.len() - old(world)@.len(),
    ));
}

/// The arena after one step of motion.
pub open spec fn after_kinematics(s: Seq<Slot>, dt: u32) -> Seq<Slot> {
    after_position_pass(after_velocity_pass(s, dt), dt)
}

/// Whether `post` and `queue_after` are a fair outcome of the update stage
/// on `pre` and `queue_before`: everything moves, an asteroid may appear,
/// asteroids and fragments spin, and dead asteroids explode.
pub open spec fn entities_updated(
    pre: Seq<Slot>,
    post: Seq<Slot>,
    timer: SpawnTimer,
    dt: u32,
    models: Seq<u64>,
    queue_before: Seq<GameScoreChangeEvent>,
    queue_after: Seq<GameScoreChangeEvent>,
) -> bool {
    exists|spawned: Seq<Slot>|
        #[trigger] asteroid_spawned(after_kinematics(pre, dt), spawned, timer, dt, models)
            && asteroids_exploded(
            map_alive(spawned, |c: Components| spun(c, dt)),
            post,
            queue_before,
            queue_after,
        )
}

/// The score and the queue after the queue has been applied: with a score
/// counter the queue is used up, without one it waits.
pub open spec fn scored(score: Option<GameScore>, queue: Seq<GameScoreChangeEvent>) -> (
    Option<GameScore>,
    Seq<GameScoreChangeEvent>,
) {
    match score {
        Some(s) => (Some(GameScore { value: score_after(s.value, queue) }), Seq::empty()),
        None => (None, queue),
    }
}

/// Runs the update stage: motion, the asteroid spawner, spin, explosions,
/// and the score.
pub fn entity_updates_stage(
    world: &mut World,
    spawn_timer: &mut SpawnTimer,
    score: &mut Option<GameScore>,
    score_events: &mut Vec<GameScoreChangeEvent>,
    dt: u32,
    scene_assets: &SceneAssets,
)
    requires
        old(world).wf(),
    ensures
        final(world).wf(),
        *final(spawn_timer) == spawner_ticked(*old(spawn_timer), dt),
        final(world)@.len() >= old(world)@.len(),
        final(world).overlap_sets() == with_fresh_sets(
            old(world).overlap_sets(),
            final(world)@.len() - old(world)@.len(),
        ),
        exists|queue: Seq<GameScoreChangeEvent>|
            #[trigger] entities_updated(
                old(world)@,
                final(world)@,
                *old(spawn_timer),
                dt,
                scene_assets.asteroid@,
                old(score_events)@,
                queue,
            ) && (*final(score), final(score_events)@) == scored(*old(score), queue),
{
    apply_kinematics(world, dt);
    spawn_asteroid(world, spawn_timer, dt, scene_assets);
    let ghost spawned = world@;
    rotate_asteroids(world, dt);
    explode_dead_asteroids(world, score_events);
    let ghost queue = score_events@;
    update_game_score(score, score_events);
    proof {
        assert(asteroid_spawned(
            after_kinematics(old(world)@, dt),
            spawned,
            *old(spawn_timer),
            dt,
            scene_assets.asteroid@,
        ));
        assert(entities_updated(
            old(world)@,
            world@,
            *old(spawn_timer),
            dt,
            scene_assets.asteroid@,
            old(score_events)@,
            queue,
        ));
        assert(score_events@ =~= scored(*old(score), queue).1);
        assert(world.overlap_sets() =~= with_fresh_sets(
            old(world).overlap_sets(),
            world@.len() - old(world)@.len(),
        ));
    }
}

/// For each entity, the entities that touch it.
pub open spec fn overlap_table(s: Seq<Slot>) -> Seq<Seq<EntityId>> {
    Seq::new(s.len(), |a: int| overlaps_of(s, a))
}

/// The arena after the collision stage: overlaps are found afresh, turned
/// into events, and the events into damage.
pub open spec fn after_collision_stage(s: Seq<Slot>) -> Seq<Slot> {
    after_events(s, collision_events(s, overlap_table(s)))
}

/// Runs the collision stage.
pub fn collision_stage(world: &mut World)
    requires
        old(world).wf(),
    ensures
        final(world).wf(),
        final(world).overlap_sets() == overlap_table(old(world)@),
        final(world)@ == after_collision_stage(old(world)@),
{
    detect_overlaps(world);
    assert(world.overlap_sets() =~= overlap_table(old(world)@));
    let events = generate_collision_events(world);
    apply_collision_damage(world, &events);
}

/// The whole simulation: the state of the game, the entities, the score
/// and the countdowns. One value is made when the program starts and handed
/// to every frame.
pub struct Simulation {
    pub state: GameState,
    /// The move asked for in the last frame, made when the next one begins.
    pub next_state: Option<GameState>,
    pub world: World,
    pub score: Option<GameScore>,
    pub score_events: Vec<GameScoreChangeEvent>,
    pub spawn_timer: SpawnTimer,
    pub missile_timer: SpaceshipMissileCooldownTimer,
    pub scene_assets: SceneAssets,
}

/// What a simulation holds, as plain values.
pub struct Snapshot {
    pub state: GameState,
    pub next_state: Option<GameState>,
    pub world: Seq<Slot>,
    pub overlaps: Seq<Seq<EntityId>>,
    pub score: Option<GameScore>,
    pub score_events: Seq<GameScoreChangeEvent>,
    pub spawn_timer: SpawnTimer,
    pub missile_timer: RepeatingTimer,
    pub spaceship_models: Seq<u64>,
    pub asteroid_models: Seq<u64>,
    pub bullet_models: Seq<u64>,
}

impl View for Simulation {
    type V = Snapshot;

    open spec fn view(&self) -> Snapshot {
        Snapshot {
            state: self.state,
            next_state: self.next_state,
            world: self.world@,
            overlaps: self.world.overlap_sets(),
            score: self.score,
            score_events: self.score_events@,
            spawn_timer: self.spawn_timer,
            missile_timer: self.missile_timer.timer,
            spaceship_models: self.scene_assets.spaceship@,
            asteroid_models: self.scene_assets.asteroid@,
            bullet_models: self.scene_assets.bullet@,
        }
    }
}

/// Whether a move is due when the frame begins: one was asked for, and it
/// leads to another state.
pub open spec fn move_due(pre: Snapshot) -> bool {
    pre.next_state matches Some(next) && next != pre.state
}

/// Whether the moves between `pre`, `launched` and `post` are what entering
/// the requested state does to the entities and to the score queue. Leaving
/// the menu launches the ship. Entering `GameOver` then removes every
/// entity that has hit points or is disposable, queues the reset of the
/// score and launches the ship for the next round.
pub open spec fn hooks_ran(pre: Snapshot, launched: Seq<Slot>, post: Snapshot) -> bool {
    &&& if move_due(pre) && pre.state == GameState::Menu {
        spaceship_spawned(pre.world, launched, pre.spaceship_models)
    } else {
        launched == pre.world
    }
    &&& if move_due(pre) && pre.next_state == Some(GameState::GameOver) {
        &&& spaceship_spawned(
            without_marked(launched, marks_where(launched, |c: Components| is_wiped(c))),
            post.world,
            pre.spaceship_models,
        )
        &&& post.score_events == pre.score_events.push(clearing_event())
    } else {
        &&& post.world == launched
        &&& post.score_events == pre.score_events
    }
}

/// Whether `post` is a fair outcome of entering the requested state from
/// `pre`.
pub open spec fn state_entered(pre: Snapshot, post: Snapshot) -> bool {
    &&& post.state == entered(pre.state, pre.next_state)
    &&& post.next_state is None
    &&& post.score == pre.score
    &&& post.spawn_timer == pre.spawn_timer
    &&& post.missile_timer == pre.missile_timer
    &&& post.spaceship_models == pre.spaceship_models
    &&& post.asteroid_models == pre.asteroid_models
    &&& post.bullet_models == pre.bullet_models
    &&& post.world.len() >= pre.world.len()
    &&& post.overlaps == with_fresh_sets(pre.overlaps, post.world.len() - pre.world.len())
    &&& exists|launched: Seq<Slot>| #[trigger] hooks_ran(pre, launched, post)
}

/// Whether the stages of gameplay lead from `pre` through `fired` and
/// `updated` to `post`, the update stage leaving `queue` for the score.
pub open spec fn stages_ran(
    pre: Snapshot,
    fired: Seq<Slot>,
    updated: Seq<Slot>,
    queue: Seq<GameScoreChangeEvent>,
    post: Snapshot,
    input: ControlInput,
    dt: u32,
    heading: Vec3,
) -> bool {
    &&& missile_fired(
        after_steering(after_despawn_stage(pre.world), input, dt, heading),
        fired,
        pre.missile_timer,
        input,
        dt,
        heading,
        pre.bullet_models,
    )
    &&& entities_updated(
        fired,
        updated,
        pre.spawn_timer,
        dt,
        pre.asteroid_models,
        pre.score_events,
        queue,
    )
    &&& (post.score, post.score_events) == scored(pre.score, queue)
    &&& post.world == after_collision_stage(updated)
    &&& post.overlaps == overlap_table(updated)
    &&& post.missile_timer == cooled(pre.missile_timer, input.fire, dt)
    &&& post.spawn_timer == spawner_ticked(pre.spawn_timer, dt)
}

/// Whether `post` is a fair outcome of one frame's updates on `pre`. The
/// state stays; the move to make next is the one that the frame asks for.
/// Outside `InGame` nothing else changes. In `InGame` the stages run in
/// their order.
pub open spec fn frame_updated(
    pre: Snapshot,
    post: Snapshot,
    input: ControlInput,
    dt: u32,
    heading: Vec3,
) -> bool {
    &&& post.state == pre.state
    &&& post.next_state == requested_state(pre.state, input, ship_present(post.world))
    &&& post.spaceship_models == pre.spaceship_models
    &&& post.asteroid_models == pre.asteroid_models
    &&& post.bullet_models == pre.bullet_models
    &&& if stages_run(pre.state) {
        exists|fired: Seq<Slot>, updated: Seq<Slot>, queue: Seq<GameScoreChangeEvent>|
            #[trigger] stages_ran(pre, fired, updated, queue, post, input, dt, heading)
    } else {
        &&& post.world == pre.world
        &&& post.overlaps == pre.overlaps
        &&& post.score == pre.score
        &&& post.score_events == pre.score_events
        &&& post.spawn_timer == pre.spawn_timer
        &&& post.missile_timer == pre.missile_timer
    }
}

impl Simulation {
    /// The invariant of the simulation.
    pub open spec fn wf(&self) -> bool {
        self.world.wf()
    }

    /// A simulation in the menu, with an empty world, a score of zero and
    /// the given models.
    pub fn new(scene_assets: SceneAssets) -> (sim: Simulation)
        ensures
            sim.wf(),
            sim@.state == GameState::Menu,
            sim@.next_state is None,
            sim@.world.len() == 0,
            sim@.score == Some(GameScore { value: 0 }),
            sim@.score_events.len() == 0,
            sim@.spawn_timer == asteroid_spawner(SPAWN_PERIOD),
            sim@.missile_timer == (RepeatingTimer {
                period: MISSILE_COOLDOWN,
                elapsed: 0,
                finished: false,
            }),
            sim.scene_assets == scene_assets,
    {
        Simulation {
            state: GameState::Menu,
            next_state: None,
            world: World::new(),
            score: Some(GameScore { value: 0 }),
            score_events: Vec::new(),
            spawn_timer: SpawnTimer::new(SPAWN_PERIOD),
            missile_timer: SpaceshipMissileCooldownTimer::new(MISSILE_COOLDOWN),
            scene_assets,
        }
    }

    /// Makes the move that the last frame asked for, with what leaving the
    /// old state and entering the new one entail.
    pub fn enter_requested_state(&mut self)
        requires
            old(self).wf(),
        ensures
            final(self).wf(),
            state_entered(old(self)@, final(self)@),
    {
        let request = self.next_state;
        self.next_state = None;
        let ghost mut launched = self.world@;
        if let Some(next) = request {
            if next != self.state {
                if self.state == GameState::Menu {
                    spawn_spaceship(&mut self.world, &self.scene_assets);
                }
                proof {
                    launched = self.world@;
                }
                self.state = next;
                if next == GameState::GameOver {
                    despawn_all_entities(&mut self.world);
                    clear_game_score(&mut self.score_events);
                    spawn_spaceship(&mut self.world, &self.scene_assets);
                }
            }
        }
        proof {
            assert(hooks_ran(old(self)@, launched, self@));
            assert(self@.overlaps =~= with_fresh_sets(
                old(self)@.overlaps,
                self@.world.len() - old(self)@.world.len(),
            ));
        }
    }

    /// Runs the stages of gameplay in their order.
    pub fn run_stages(&mut self, input: &ControlInput, dt: u32, heading: Vec3)
        requires
            old(self).wf(),
        ensures
            final(self).wf(),
            final(self).state == old(self).state,
            final(self).next_state == old(self).next_state,
            final(self).scene_assets == old(self).scene_assets,
            exists|fired: Seq<Slot>, updated: Seq<Slot>, queue: Seq<GameScoreChangeEvent>|
                #[trigger] stages_ran(
                    old(self)@,
                    fired,
                    updated,
                    queue,
                    final(self)@,
                    *input,
                    dt,
                    heading,
                ),
    {
        despawn_stage(&mut self.world);
        user_input_stage(
            &mut self.world,
            input,
            &mut self.missile_timer,
            dt,
            &self.scene_assets,
            heading,
        );
        let ghost fired = self.world@;
        entity_updates_stage(
            &mut self.world,
            &mut self.spawn_timer,
            &mut self.score,
            &mut self.score_events,
            dt,
            &self.scene_assets,
        );
        let ghost updated = self.world@;
        let ghost queue = choose|queue: Seq<GameScoreChangeEvent>|
            #[trigger] entities_updated(
                fired,
                updated,
                old(self)@.spawn_timer,
                dt,
                self.scene_assets.asteroid@,
                old(self)@.score_events,
                queue,
            ) && (self.score, self.score_events@) == scored(old(self)@.score, queue);
        collision_stage(&mut self.world);
        proof {
            assert(stages_ran(old(self)@, fired, updated, queue, self@, *input, dt, heading));
        }
    }

    /// Runs one frame's updates in the state in force: the reactions to the
    /// pause and start controls, the restart after `GameOver`, and, in
    /// `InGame` only, the stages of gameplay in their order.
    pub fn update(&mut self, input: &ControlInput, dt: u32, heading: Vec3)
        requires
            old(self).wf(),
        ensures
            final(self).wf(),
            frame_updated(old(self)@, final(self)@, *input, dt, heading),
    {
        let mut request = game_state_input_events(self.state, input);
        if let Some(next) = leave_menu(self.state, input) {
            request = Some(next);
        }
        if let Some(next) = transition_to_in_game(self.state) {
            request = Some(next);
        }
        if gameplay_runs(self.state) {
            self.run_stages(input, dt, heading);
            if let Some(next) = check_spaceship(&self.world) {
                request = Some(next);
            }
        }
        let ghost ran = self@;
        self.next_state = request;
        proof {
            if stages_run(old(self)@.state) {
                let (fired, updated, queue) = choose|
                    fired: Seq<Slot>,
                    updated: Seq<Slot>,
                    queue: Seq<GameScoreChangeEvent>,
                |
                    #[trigger] stages_ran(
                        old(self)@,
                        fired,
                        updated,
                        queue,
                        ran,
                        *input,
                        dt,
                        heading,
                    );
                assert(stages_ran(old(self)@, fired, updated, queue, self@, *input, dt, heading));
            }
        }
    }

    /// Runs one frame of `dt` milliseconds: the move that the last frame
    /// asked for is made, then the frame's updates run. `heading` is the
    /// direction of the ship's nose.
    pub fn step(&mut self, input: &ControlInput, dt: u32, heading: Vec3)
        requires
            old(self).wf(),
        ensures
            final(self).wf(),
            exists|begun: Snapshot|
                #[trigger] state_entered(old(self)@, begun) && frame_updated(
                    begun,
                    final(self)@,
                    *input,
                    dt,
                    heading,
                ),
    {
        self.enter_requested_state();
        let ghost begun = self@;
        self.update(input, dt, heading);
        assert(state_entered(old(self)@, begun) && frame_updated(
            begun,
            self@,
            *input,
            dt,
            heading,
        ));
    }
}

} // verus!
