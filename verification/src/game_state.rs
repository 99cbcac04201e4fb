//! The top-level game states, and which of them freeze every agent's action
//! queue. Entering a freezing state pauses all queues uniformly; leaving one
//! resumes them — a single broadcast decision, never a per-agent one.

use vstd::prelude::*;

verus! {

/// All the game's possible states.
#[derive(Clone, Copy, Debug, PartialEq, Eq, Hash, Structural)]
pub enum GameState {
    AssetLoading,
    StartMenu,
    Paused,
    Gameplay,
    GameOver,
}

impl Default for GameState {
    fn default() -> (r: Self)
        ensures
            r == GameState::AssetLoading,
    {
        GameState::AssetLoading
    }
}

impl GameState {
    /// Whether this state holds every agent's action queue frozen.
    pub open spec fn freezes_queues(self) -> bool {
        self == GameState::Paused || self == GameState::GameOver
    }

    /// Decides `freezes_queues` exactly.
    pub fn is_freezing(&self) -> (r: bool)
        ensures
            r == self.freezes_queues(),
    {
        matches!(self, GameState::Paused | GameState::GameOver)
    }
}

} // verus!
