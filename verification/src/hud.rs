//! The score, the events that change it, and what the display reads.

use crate::vector::{clamp_i32, saturate};
use crate::world::{single_member, Category, World};
use vstd::prelude::*;

verus! {

/// The score of the running round.
#[derive(Clone, Copy, PartialEq, Eq, Debug)]
pub struct GameScore {
    pub value: i32,
}

impl Default for GameScore {
    fn default() -> (score: GameScore)
        ensures
            score.value == 0,
    {
        GameScore { value: 0 }
    }
}

/// A request to change the score: first reset it if `clear_score` is set,
/// then add `score_delta`.
#[derive(Clone, Copy, PartialEq, Eq, Debug)]
pub struct GameScoreChangeEvent {
    pub score_delta: i32,
    pub clear_score: bool,
}

/// The score after one event. The sum saturates.
pub open spec fn score_after_event(value: i32, e: GameScoreChangeEvent) -> i32 {
    clamp_i32(
        (if e.clear_score {
            0
        } else {
            value as int
        }) + e.score_delta,
    ) as i32
}

/// The score after the events have been applied in order of arrival.
pub open spec fn score_after(value: i32, events: Seq<GameScoreChangeEvent>) -> i32
    decreases events.len(),
{
    if events.len() == 0 {
        value
    } else {
        score_after_event(score_after(value, events.drop_last()), events.last())
    }
}

/// The event that resets the score for the next round.
pub open spec fn clearing_event() -> GameScoreChangeEvent {
    GameScoreChangeEvent { score_delta: 0, clear_score: true }
}

/// Applying two queues one after the other is applying them joined.
pub proof fn lemma_score_after_joined(
    value: i32,
    first: Seq<GameScoreChangeEvent>,
    second: Seq<GameScoreChangeEvent>,
)
    ensures
        score_after(value, first + second) == score_after(score_after(value, first), second),
    decreases second.len(),
{
    if second.len() == 0 {
        assert(first + second =~= first);
    } else {
        lemma_score_after_joined(value, first, second.drop_last());
        assert((first + second).drop_last() =~= first + second.drop_last());
        assert((first + second).last() == second.last());
    }
}

/// The reset discards what came before it: after a reset, the score is what
/// the later events make of zero.
pub proof fn lemma_clear_discards_earlier(
    value: i32,
    earlier: Seq<GameScoreChangeEvent>,
    later: Seq<GameScoreChangeEvent>,
)
    ensures
        score_after(value, earlier.push(clearing_event()) + later) == score_after(0, later),
{
    lemma_score_after_joined(value, earlier.push(clearing_event()), later);
    assert(earlier.push(clearing_event()).drop_last() =~= earlier);
}

/// The plain sum of the deltas.
pub open spec fn sum_of_deltas(events: Seq<GameScoreChangeEvent>) -> int
    decreases events.len(),
{
    if events.len() == 0 {
        0
    } else {
        sum_of_deltas(events.drop_last()) + events.last().score_delta
    }
}

/// Whether no event resets the score and the sum of the deltas stays
/// within `i32` all the way through.
pub open spec fn sums_plainly(events: Seq<GameScoreChangeEvent>) -> bool
    decreases events.len(),
{
    if events.len() == 0 {
        true
    } else {
        &&& sums_plainly(events.drop_last())
        &&& !events.last().clear_score
        &&& i32::MIN <= sum_of_deltas(events) <= i32::MAX
    }
}

/// Starting from zero, events that never reset and never leave the range
/// of `i32` add up to the sum of their deltas.
pub proof fn lemma_score_is_sum(events: Seq<GameScoreChangeEvent>)
    requires
        sums_plainly(events),
    ensures
        score_after(0, events) == sum_of_deltas(events),
    decreases events.len(),
{
    if events.len() > 0 {
        lemma_score_is_sum(events.drop_last());
    }
}

/// After the reset that entering `GameOver` queues, the score is the sum of
/// the deltas that follow it, whatever came before.
pub proof fn lemma_score_after_reset(
    value: i32,
    earlier: Seq<GameScoreChangeEvent>,
    later: Seq<GameScoreChangeEvent>,
)
    requires
        sums_plainly(later),
    ensures
        score_after(value, earlier.push(clearing_event()) + later) == sum_of_deltas(later),
{
    lemma_clear_discards_earlier(value, earlier, later);
    lemma_score_is_sum(later);
}

/// Applies the queued events to the score in order of arrival and empties
/// the queue. Without a score counter nothing is applied and the queue is
/// left as it is.
pub fn update_game_score(score: &mut Option<GameScore>, events: &mut Vec<GameScoreChangeEvent>)
    ensures
        match *old(score) {
            Some(s) => *final(score) == Some(
                GameScore { value: score_after(s.value, old(events)@) },
            ) && final(events)@.len() == 0,
            None => *final(score) == None::<GameScore> && final(events)@ == old(events)@,
        },
{
    let start: i32 = match *score {
        Some(s) => s.value,
        None => {
            return;
        },
    };
    let mut value: i32 = start;
    let mut i: usize = 0;
    while i < events.len()
        invariant
            i <= events@.len(),
            value == score_after(start, events@.take(i as int)),
        decreases events@.len() - i,
    {
        let e = events[i];
        let base: i64 = if e.clear_score {
            0
        } else {
            value as i64
        };
        value = saturate(base + e.score_delta as i64);
        assert(events@.take(i + 1).drop_last() == events@.take(i as int));
        i += 1;
    }
    assert(events@.take(i as int) == events@);
    *score = Some(GameScore { value });
    events.clear();
}

/// Queues the event that resets the score.
pub fn clear_game_score(events: &mut Vec<GameScoreChangeEvent>)
    ensures
        final(events)@ == old(events)@.push(clearing_event()),
{
    events.push(GameScoreChangeEvent { score_delta: 0, clear_score: true });
}

/// The hit points of the player's ship.
pub open spec fn player_health(world: &World) -> Option<i32> {
    match single_member(world@, Category::Spaceship) {
        Some(ship) => match world@[ship as int].components.health {
            Some(h) => Some(h.value),
            None => None,
        },
        None => None,
    }
}

/// What the hit-point display shows: the hit points of the one spaceship.
/// `None`, and the display stays as it is, when there is not exactly one
/// spaceship or it has no hit points.
pub fn update_hp_in_hud(world: &World) -> (shown: Option<i32>)
    ensures
        shown == player_health(world),
{
    match world.single(Category::Spaceship) {
        Some(ship) => match world.get(ship) {
            Some(c) => match c.health {
                Some(h) => Some(h.value),
                None => None,
            },
            None => None,
        },
        None => None,
    }
}

/// What the score display shows; `None`, and the display stays as it is,
/// when there is no score counter.
pub fn update_game_score_in_hud(score: &Option<GameScore>) -> (shown: Option<i32>)
    ensures
        shown == (match *score {
            Some(s) => Some(s.value),
            None => None,
        }),
{
    match score {
        Some(s) => Some(s.value),
        None => None,
    }
}

} // verus!
