//! Where a piece may go from a square, by the way it moves alone: no other
//! piece is looked at. Only the pawn is done.

use vstd::prelude::*;
use super::piece_type::PieceType;

verus! {

/// A square of the board: rank and file both in `0..8`.
pub open spec fn on_board(m: (u8, u8)) -> bool {
    m.0 < 8 && m.1 < 8
}

/// The squares of `moves` that lie on the board, in their order.
pub open spec fn only_on_board(moves: Seq<(u8, u8)>) -> Seq<(u8, u8)>
    decreases moves.len(),
{
    if moves.len() == 0 {
        Seq::empty()
    } else if on_board(moves.last()) {
        only_on_board(moves.drop_last()).push(moves.last())
    } else {
        only_on_board(moves.drop_last())
    }
}

/// Adding a square at the end adds it to the squares kept, if it is on the
/// board.
pub proof fn lemma_only_on_board_push(moves: Seq<(u8, u8)>, m: (u8, u8))
    ensures
        only_on_board(moves.push(m)) == if on_board(m) {
            only_on_board(moves).push(m)
        } else {
            only_on_board(moves)
        },
{
    assert(moves.push(m).drop_last() =~= moves);
}

/// Keeps the squares that lie on the board, in their order.
pub fn validate_moves(moves: Vec<(u8, u8)>) -> (r: Vec<(u8, u8)>)
    ensures
        r@ == only_on_board(moves@),
{
    let mut valid_moves: Vec<(u8, u8)> = Vec::new();
    let mut i: usize = 0;
    while i < moves.len()
        invariant
            i <= moves.len(),
            valid_moves@ == only_on_board(moves@.take(i as int)),
        decreases moves.len() - i,
    {
        let (m1, m2) = moves[i];
        proof {
            lemma_only_on_board_push(moves@.take(i as int), moves@[i as int]);
            assert(moves@.take(i + 1) =~= moves@.take(i as int).push(moves@[i as int]));
        }
        if m1 < 8 && m2 < 8 {
            valid_moves.push((m1, m2));
        }
        i += 1;
    }
    assert(moves@.take(i as int) =~= moves@);
    valid_moves
}

/// The square at `rank` and `file` if that is one of the board, else nothing.
pub open spec fn square(rank: int, file: int) -> Seq<(u8, u8)> {
    if 0 <= rank < 8 && 0 <= file < 8 {
        seq![(rank as u8, file as u8)]
    } else {
        Seq::empty()
    }
}

/// The squares a pawn may go to from `start`, given as rank and file.
///
/// White moves up the ranks and Black down. In this order: one step ahead;
/// one step ahead and one file up; two steps ahead, from the rank on which
/// the pawns of that colour begin; one step ahead and one file down. Squares
/// off the board are left out. A white pawn on rank 0 and a black pawn on
/// rank 7 or above have nowhere to go: no pawn of theirs can stand there.
pub open spec fn pawn_moves(start: (u8, u8), is_white: bool) -> Seq<(u8, u8)> {
    let rank = start.0 as int;
    let file = start.1 as int;
    let step: int = if is_white {
        1
    } else {
        -1
    };
    let home: int = if is_white {
        1
    } else {
        6
    };
    if (is_white && rank > 0) || (!is_white && rank < 7) {
        square(rank + step, file) + square(rank + step, file + 1) + (if rank == home {
            square(rank + 2 * step, file)
        } else {
            Seq::empty()
        }) + square(rank + step, file - 1)
    } else {
        Seq::empty()
    }
}

/// Every square that a pawn may go to lies on the board, one or two ranks
/// ahead of it and at most one file aside.
pub proof fn lemma_pawn_moves_on_board(start: (u8, u8), is_white: bool)
    ensures
        forall|i: int|
            0 <= i < pawn_moves(start, is_white).len() ==> {
                let m = #[trigger] pawn_moves(start, is_white)[i];
                &&& on_board(m)
                &&& is_white ==> start.0 < m.0 <= start.0 + 2
                &&& !is_white ==> start.0 - 2 <= m.0 < start.0
                &&& start.1 - 1 <= m.1 <= start.1 + 1
            },
{
}

/// The squares a pawn may go to from `start`.
pub fn get_pawn_moves(start: (u8, u8), is_white: bool) -> (r: Vec<(u8, u8)>)
    ensures
        r@ == pawn_moves(start, is_white),
{
    let (m1, m2) = start;
    let mut possible_moves: Vec<(u8, u8)> = Vec::new();
    let ghost mut kept: Seq<(u8, u8)> = Seq::empty();
    assert(only_on_board(possible_moves@) =~= kept);
    if is_white {
        if m1 > 0 && m1 < 8 {
            proof {
                lemma_only_on_board_push(possible_moves@, ((m1 + 1) as u8, m2));
                kept = kept + square(m1 + 1, m2 as int);
            }
            possible_moves.push((m1 + 1, m2));
            assert(only_on_board(possible_moves@) =~= kept);
            if m2 < 8 {
                proof {
                    lemma_only_on_board_push(possible_moves@, ((m1 + 1) as u8, (m2 + 1) as u8));
                }
                possible_moves.push((m1 + 1, m2 + 1));
            }
            proof {
                kept = kept + square(m1 + 1, m2 + 1);
            }
            assert(only_on_board(possible_moves@) =~= kept);
            if m1 == 1 {
                proof {
                    lemma_only_on_board_push(possible_moves@, ((m1 + 2) as u8, m2));
                    kept = kept + square(m1 + 2, m2 as int);
                }
                possible_moves.push((m1 + 2, m2));
            }
            assert(only_on_board(possible_moves@) =~= kept);
            if m2 > 0 {
                proof {
                    lemma_only_on_board_push(possible_moves@, ((m1 + 1) as u8, (m2 - 1) as u8));
                }
                possible_moves.push((m1 + 1, m2 - 1));
            }
            proof {
                kept = kept + square(m1 + 1, m2 - 1);
            }
            assert(only_on_board(possible_moves@) =~= kept);
        }
    } else {
        if m1 < 7 && m1 > 0 {
            proof {
                lemma_only_on_board_push(possible_moves@, ((m1 - 1) as u8, m2));
                kept = kept + square(m1 - 1, m2 as int);
            }
            possible_moves.push((m1 - 1, m2));
            assert(only_on_board(possible_moves@) =~= kept);
            if m2 < 8 {
                proof {
                    lemma_only_on_board_push(possible_moves@, ((m1 - 1) as u8, (m2 + 1) as u8));
                }
                possible_moves.push((m1 - 1, m2 + 1));
            }
            proof {
                kept = kept + square(m1 - 1, m2 + 1);
            }
            assert(only_on_board(possible_moves@) =~= kept);
            if m1 == 6 {
                proof {
                    lemma_only_on_board_push(possible_moves@, ((m1 - 2) as u8, m2));
                    kept = kept + square(m1 - 2, m2 as int);
                }
                possible_moves.push((m1 - 2, m2));
            }
            assert(only_on_board(possible_moves@) =~= kept);
            if m2 > 0 {
                proof {
                    lemma_only_on_board_push(possible_moves@, ((m1 - 1) as u8, (m2 - 1) as u8));
                }
                possible_moves.push((m1 - 1, m2 - 1));
            }
            proof {
                kept = kept + square(m1 - 1, m2 - 1);
            }
            assert(only_on_board(possible_moves@) =~= kept);
        }
    }
    assert(kept =~= pawn_moves(start, is_white));
    validate_moves(possible_moves)
}

/// The squares a piece may go to from `start`. Only the pawn's moves are
/// known, so `piece_type` must be `Pawn`.
pub fn get_moves(is_white: bool, start: (u8, u8), piece_type: PieceType) -> (r: Vec<(u8, u8)>)
    requires
        piece_type == PieceType::Pawn,
    ensures
        r@ == pawn_moves(start, is_white),
{
    get_pawn_moves(start, is_white)
}

} // verus!
