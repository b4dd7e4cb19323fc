//! The two phases of a game.
use vstd::prelude::*;

verus! {

/// Whether the snake is alive and moving or the game has ended.
#[derive(Clone, Copy, Debug, PartialEq, Eq, Structural)]
pub enum GameState {
    Playing,
    GameOver,
}

impl Default for GameState {
    /// A game starts in the `Playing` phase.
    fn default() -> (s: GameState)
        ensures
            s == GameState::Playing,
    {
        GameState::Playing
    }
}

} // verus!
