//! The player with the light-coloured pieces (White) makes the first move,
//! then the players move alternately, with the player with the dark-coloured
//! pieces (Black) making the next move.
//!
//! Whose turn it is cannot be told from a game's state and its moves alone
//! yet, so this rule accepts every move.

use vstd::prelude::*;
use super::rule::Rule;
use crate::game::game::{Game, GameView};
use crate::game::moving::MoveError;

verus! {

/// Accepts the move, whoever makes it.
pub fn validate(game: &Game, next_move: String) -> (r: Result<(), MoveError>)
    ensures
        r is Ok,
{
    Ok(())
}

/// The rule of whose go it is.
pub struct Implementation {}

impl Implementation {
    /// The rule. It holds nothing, so any two are alike.
    pub fn new() -> (r: Implementation)
        ensures
            r == (Implementation {  }),
    {
        Implementation {  }
    }
}

impl Rule for Implementation {
    open spec fn verdict(&self, game: GameView, next_move: Seq<char>) -> Option<Seq<char>> {
        None
    }

    fn validate(&self, game: &Game, next_move: String) -> (r: Result<(), MoveError>) {
        validate(game, next_move)
    }
}

} // verus!
