//! The messages that pass between the engine and what drives it.

use vstd::prelude::*;
use crate::types::{GameResult, Player};

verus! {

/// A request to mark the cell at `position`, given as `(row, col)`, for the
/// player whose turn it is.
#[derive(Debug, Clone, Copy)]
pub struct PlayerMoveEvent {
    pub position: (usize, usize),
}

/// The news that the game has ended, with the winner if there is one.
#[derive(Debug, Clone, Copy, PartialEq, Eq, Structural)]
pub struct GameOverEvent {
    pub winner: Option<Player>,
}

impl GameOverEvent {
    /// The event that announces `outcome`: none while the game is in
    /// progress, else one that names the winner, or nobody for a draw.
    pub fn for_outcome(outcome: GameResult) -> (event: Option<GameOverEvent>)
        ensures
            event == (match outcome {
                GameResult::Win(p) => Some(GameOverEvent { winner: Some(p) }),
                GameResult::Draw => Some(GameOverEvent { winner: None }),
                GameResult::InProgress => None,
            }),
    {
        match outcome {
            GameResult::Win(p) => Some(GameOverEvent { winner: Some(p) }),
            GameResult::Draw => Some(GameOverEvent { winner: None }),
            GameResult::InProgress => None,
        }
    }
}

} // verus!
