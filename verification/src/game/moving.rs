//! Making a move: the error a refused move carries, and the step from one
//! game to the next.

use vstd::prelude::*;
use vstd::string::*;
use super::game::Game;

verus! {

/// Why a move may not be made.
#[derive(Debug, PartialEq)]
pub struct MoveError {
    pub reason: String,
}

/// Adds `next_move` to the moves of `game` and gives the game that results.
///
/// The move is taken as it is written and the state of the game stays as it
/// was: a game is a value, and the one handed in is left untouched.
pub fn make_move_internal(game: &Game, next_move: String) -> (r: Result<Game, MoveError>)
    ensures
        r is Ok,
        r.unwrap()@.state == game@.state,
        r.unwrap()@.moves == game@.moves.push(next_move@),
{
    let mut moves: Vec<String> = Vec::new();
    let mut i: usize = 0;
    while i < game.moves.len()
        invariant
            i <= game.moves.len(),
            moves.len() == i,
            forall|j: int| 0 <= j < i ==> moves[j]@ == game.moves[j]@,
        decreases game.moves.len() - i,
    {
        moves.push(game.moves[i].clone());
        i += 1;
    }
    moves.push(next_move);
    let next = Game { state: game.state, moves };
    assert(next@.moves =~= game@.moves.push(next_move@));
    Ok(next)
}

} // verus!
