//! A game as a value: its state and the moves made so far.

use vstd::prelude::*;
use super::game_state::GameState;
use super::moving::{make_move_internal, MoveError};

verus! {

/// A game of chess: where it stands, and the moves that led there, oldest
/// first, each as it was written.
pub struct Game {
    pub state: GameState,
    pub moves: Vec<String>,
}

/// What a `Game` holds, with each move as a sequence of characters.
pub struct GameView {
    pub state: GameState,
    pub moves: Seq<Seq<char>>,
}

impl View for Game {
    type V = GameView;

    open spec fn view(&self) -> GameView {
        GameView { state: self.state, moves: Seq::new(self.moves.len() as nat, |i: int| self.moves[i]@) }
    }
}

impl Game {
    /// A game that has not started, with no move made.
    pub fn new() -> (r: Game)
        ensures
            r@.state == GameState::NotStarted,
            r@.moves == Seq::<Seq<char>>::empty(),
    {
        let r = Game { state: GameState::NotStarted, moves: Vec::new() };
        assert(r@.moves =~= Seq::<Seq<char>>::empty());
        r
    }

    /// The game after `next_move`: the same state, and the moves with
    /// `next_move` added at their end.
    pub fn make_move(&self, next_move: String) -> (r: Result<Game, MoveError>)
        ensures
            r is Ok,
            r.unwrap()@.state == self@.state,
            r.unwrap()@.moves == self@.moves.push(next_move@),
    {
        match make_move_internal(self, next_move) {
            Ok(game) => Ok(game),
            Err(e) => Err(e),
        }
    }
}

} // verus!
