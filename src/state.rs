use vstd::prelude::*;

verus! {

/// The phases of the application.
#[derive(Debug, Clone, Copy, PartialEq, Eq, Structural, Hash)]
pub enum GameState {
    Loading,
    Running,
    Starting,
    GameOver,
}

impl Default for GameState {
    /// The application starts in `Loading`.
    fn default() -> (r: GameState)
        ensures
            r == GameState::Loading,
    {
        GameState::Loading
    }
}

/// The transitions the application may take: assets loaded, score board
/// built, game lost, game restarted.
pub open spec fn can_transition(from: GameState, to: GameState) -> bool {
    ||| from == GameState::Loading && to == GameState::Starting
    ||| from == GameState::Starting && to == GameState::Running
    ||| from == GameState::Running && to == GameState::GameOver
    ||| from == GameState::GameOver && to == GameState::Running
}

/// A transition that the state machine does not allow.
#[derive(Debug, Clone, Copy, PartialEq, Eq, Structural)]
pub struct TransitionError {
    pub from: GameState,
    pub to: GameState,
}

impl GameState {
    /// Whether the state machine allows going from `self` to `to`.
    pub fn can_transition(self, to: GameState) -> (r: bool)
        ensures
            r == can_transition(self, to),
    {
        match (self, to) {
            (GameState::Loading, GameState::Starting) => true,
            (GameState::Starting, GameState::Running) => true,
            (GameState::Running, GameState::GameOver) => true,
            (GameState::GameOver, GameState::Running) => true,
            _ => false,
        }
    }
}

} // verus!
