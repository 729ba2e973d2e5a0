//! The chessboard is composed of an 8 x 8 grid of 64 equal squares.
//!
//! A move must name a square of that grid: its text must decode.

use vstd::prelude::*;
use vstd::string::*;
use super::rule::Rule;
use crate::game::game::{Game, GameView};
use crate::game::moving::MoveError;
use crate::game::notation::{decode, decoded};

verus! {

/// The rule of the board's confines.
pub struct Implementation {}

impl Implementation {
    /// The rule. It holds nothing, so any two are alike.
    pub fn new() -> (r: Implementation)
        ensures
            r == (Implementation {  }),
    {
        Implementation {  }
    }
}

impl Rule for Implementation {
    /// Accepts exactly the moves whose text decodes, whatever the game. The
    /// decoder's own reason is not passed on.
    open spec fn verdict(&self, game: GameView, next_move: Seq<char>) -> Option<Seq<char>> {
        if decoded(next_move) is Ok {
            None
        } else {
            Some("Move is outside the confines of the chess board"@)
        }
    }

    fn validate(&self, game: &Game, next_move: String) -> (r: Result<(), MoveError>) {
        match decode(next_move) {
            Ok(_) => Ok(()),
            Err(_) => Err(
                MoveError {
                    reason: String::from_str("Move is outside the confines of the chess board"),
                },
            ),
        }
    }
}

} // verus!
