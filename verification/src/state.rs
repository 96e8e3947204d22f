//! The state of the game and the moves between its states.

use crate::input::ControlInput;
use vstd::prelude::*;

verus! {

/// What the game is doing. Gameplay runs only in `InGame`.
#[derive(Clone, Copy, PartialEq, Eq, Structural, Hash, Debug)]
pub enum GameState {
    Menu,
    InGame,
    Paused,
    GameOver,
}

impl Default for GameState {
    fn default() -> (state: GameState)
        ensures
            state == GameState::Menu,
    {
        GameState::Menu
    }
}

/// The move that a newly pressed pause control asks for: it toggles between
/// `InGame` and `Paused` and means nothing elsewhere.
pub open spec fn pause_request(state: GameState, pause: bool) -> Option<GameState> {
    if pause {
        match state {
            GameState::InGame => Some(GameState::Paused),
            GameState::Paused => Some(GameState::InGame),
            _ => None,
        }
    } else {
        None
    }
}

/// The move that a newly pressed start control asks for: it leaves the menu.
pub open spec fn start_request(state: GameState, start: bool) -> Option<GameState> {
    if start && state == GameState::Menu {
        Some(GameState::InGame)
    } else {
        None
    }
}

/// The move out of `GameOver`, which is taken without condition.
pub open spec fn restart_request(state: GameState) -> Option<GameState> {
    if state == GameState::GameOver {
        Some(GameState::InGame)
    } else {
        None
    }
}

/// `later` where it asks for a move, else `earlier`.
pub open spec fn overriding(earlier: Option<GameState>, later: Option<GameState>) -> Option<
    GameState,
> {
    match later {
        Some(s) => Some(s),
        None => earlier,
    }
}

/// The move asked for in one frame, in which a later rule overrides an
/// earlier one: the pause control, the start control, the restart after
/// `GameOver`, and last the loss of the player's ship, which counts only
/// while `InGame`.
pub open spec fn requested_state(
    state: GameState,
    input: ControlInput,
    ship_present: bool,
) -> Option<GameState> {
    overriding(
        overriding(
            overriding(pause_request(state, input.pause), start_request(state, input.start)),
            restart_request(state),
        ),
        if state == GameState::InGame && !ship_present {
            Some(GameState::GameOver)
        } else {
            None
        },
    )
}

/// The state in force once the requested move, if any, has been made.
pub open spec fn entered(state: GameState, request: Option<GameState>) -> GameState {
    match request {
        Some(next) => next,
        None => state,
    }
}

/// The state that follows `state` after a frame with the given input.
pub open spec fn next_state(state: GameState, input: ControlInput, ship_present: bool) -> GameState {
    entered(state, requested_state(state, input, ship_present))
}

/// Reacts to the pause control.
pub fn game_state_input_events(state: GameState, input: &ControlInput) -> (request: Option<
    GameState,
>)
    ensures
        request == pause_request(state, input.pause),
{
    if input.pause {
        match state {
            GameState::InGame => Some(GameState::Paused),
            GameState::Paused => Some(GameState::InGame),
            _ => None,
        }
    } else {
        None
    }
}

/// Reacts to the start control.
pub fn leave_menu(state: GameState, input: &ControlInput) -> (request: Option<GameState>)
    ensures
        request == start_request(state, input.start),
{
    if input.start && state == GameState::Menu {
        Some(GameState::InGame)
    } else {
        None
    }
}

/// Starts the next round as soon as the game is over.
pub fn transition_to_in_game(state: GameState) -> (request: Option<GameState>)
    ensures
        request == restart_request(state),
{
    if state == GameState::GameOver {
        Some(GameState::InGame)
    } else {
        None
    }
}

/// Two presses of the pause control lead from `InGame` to `Paused` and
/// back, as long as the player's ship is there; the frame after `GameOver`
/// is always `InGame`.
pub proof fn lemma_state_machine(input: ControlInput, ship_present: bool)
    ensures
        input.pause && ship_present ==> next_state(GameState::InGame, input, ship_present)
            == GameState::Paused,
        input.pause ==> next_state(GameState::Paused, input, ship_present) == GameState::InGame,
        !input.pause ==> next_state(GameState::Paused, input, ship_present) == GameState::Paused,
        !input.pause && ship_present ==> next_state(GameState::InGame, input, ship_present)
            == GameState::InGame,
        !ship_present ==> next_state(GameState::InGame, input, ship_present)
            == GameState::GameOver,
        next_state(GameState::GameOver, input, ship_present) == GameState::InGame,
        next_state(GameState::Menu, input, ship_present) == (if input.start {
            GameState::InGame
        } else {
            GameState::Menu
        }),
{
}

} // verus!
