//! What every rule has in common.

use vstd::prelude::*;
use crate::game::game::{Game, GameView};
use crate::game::moving::MoveError;

verus! {

/// A rule looks at a game and at the text of the next move and accepts the
/// move or refuses it with a reason. It keeps no state of its own, so one
/// value serves every move of every game.
pub trait Rule {
    /// The rule's judgement: `None` where it accepts, else the reason for
    /// which it refuses.
    spec fn verdict(&self, game: GameView, next_move: Seq<char>) -> Option<Seq<char>>;

    /// Judges `next_move` in `game`: `Ok` where the verdict is to accept,
    /// else the error with the verdict's reason.
    fn validate(&self, game: &Game, next_move: String) -> (r: Result<(), MoveError>)
        ensures
            match self.verdict(game@, next_move@) {
                None => r is Ok,
                Some(reason) => r is Err && r.unwrap_err().reason@ == reason,
            },
    ;
}

} // verus!
