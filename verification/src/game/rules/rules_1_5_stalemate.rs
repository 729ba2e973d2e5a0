//! If the position is such that neither player can possibly checkmate the
//! opponent's king, the game is drawn.
//!
//! A game that has been drawn is over: no move may follow.

use vstd::prelude::*;
use vstd::string::*;
use super::rule::Rule;
use crate::game::game::{Game, GameView};
use crate::game::moving::MoveError;

verus! {

/// The rule that no move follows a draw, nor any other end of a game.
pub struct Implementation {}

impl Implementation {
    /// The rule. It holds nothing, so any two are alike.
    pub fn new() -> (r: Implementation)
        ensures
            r == (Implementation {  }),
    {
        Implementation {  }
    }
}

impl Rule for Implementation {
    /// Refuses every move once the game has ended, whatever the move, and
    /// accepts every move before that.
    open spec fn verdict(&self, game: GameView, next_move: Seq<char>) -> Option<Seq<char>> {
        if game.state.is_ended() {
            Some("Attempt to move after stalemate"@)
        } else {
            None
        }
    }

    fn validate(&self, game: &Game, next_move: String) -> (r: Result<(), MoveError>) {
        if game.state.is_ended() {
            Err(MoveError { reason: String::from_str("Attempt to move after stalemate") })
        } else {
            Ok(())
        }
    }
}

} // verus!
