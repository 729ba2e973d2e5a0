use vstd::prelude::*;

verus! {

/// What stands on a square. `Pawn` is what a move means when it names no piece.
#[derive(Clone, Copy, Debug, PartialEq, Eq, Structural, PartialOrd, Ord)]
pub enum PieceType {
    Empty,
    King,
    Queen,
    Rook,
    Bishop,
    Knight,
    Pawn,
}

impl PieceType {
    /// The place of a piece type in the order of its declaration.
    pub open spec fn spec_order(self) -> int {
        match self {
            PieceType::Empty => 0,
            PieceType::King => 1,
            PieceType::Queen => 2,
            PieceType::Rook => 3,
            PieceType::Bishop => 4,
            PieceType::Knight => 5,
            PieceType::Pawn => 6,
        }
    }

    /// The place of a piece type in the order of its declaration, from 0 for
    /// `Empty` to 6 for `Pawn`.
    pub fn order(self) -> (r: u8)
        ensures
            r == self.spec_order(),
    {
        match self {
            PieceType::Empty => 0,
            PieceType::King => 1,
            PieceType::Queen => 2,
            PieceType::Rook => 3,
            PieceType::Bishop => 4,
            PieceType::Knight => 5,
            PieceType::Pawn => 6,
        }
    }
}

} // verus!
