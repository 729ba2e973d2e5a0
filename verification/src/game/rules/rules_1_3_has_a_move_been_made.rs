//! A player is said to 'have the move' when his opponent's move has been
//! 'made'.
//!
//! Nothing in a game records yet whether a move has been made, so this rule
//! accepts every move.

use vstd::prelude::*;
use super::rule::Rule;
use crate::game::game::{Game, GameView};
use crate::game::moving::MoveError;

verus! {

/// The rule of having the move.
pub struct Implementation {}

impl Implementation {
    /// The rule. It holds nothing, so any two are alike.
    pub fn new() -> (r: Implementation)
        ensures
            r == (Implementation {  }),
    {
        Implementation {  }
    }
}

impl Rule for Implementation {
    open spec fn verdict(&self, game: GameView, next_move: Seq<char>) -> Option<Seq<char>> {
        None
    }

    fn validate(&self, game: &Game, next_move: String) -> (r: Result<(), MoveError>) {
        Ok(())
    }
}

} // verus!
