//! The pieces on the board, for drawing it.

use vstd::prelude::*;
use vstd::relations::{sorted_by, total_ordering};
use vstd::seq_lib::{lemma_sorted_unique, to_multiset_update};
use super::piece_type::PieceType;

verus! {

/// A piece on a square.
#[derive(Debug, Clone, Copy, PartialEq, Eq, Structural, PartialOrd, Ord)]
pub struct Position {
    pub rank: u8,
    pub file: u8,
    pub piece_type: PieceType,
    pub is_white: bool,
}

/// The order of positions: by rank, then by file, then by the piece's place
/// among the piece types, and last Black before White.
pub open spec fn precedes(a: Position, b: Position) -> bool {
    ||| a.rank < b.rank
    ||| a.rank == b.rank && a.file < b.file
    ||| a.rank == b.rank && a.file == b.file && a.piece_type.spec_order()
        < b.piece_type.spec_order()
    ||| a.rank == b.rank && a.file == b.file && a.piece_type == b.piece_type && (!a.is_white
        || b.is_white)
}

/// Each position precedes every later one.
pub open spec fn in_order(s: Seq<Position>) -> bool {
    forall|i: int, j: int| 0 <= i < j < s.len() ==> precedes(s[i], s[j])
}

/// `precedes` orders the positions in a line: any two compare, and only a
/// position itself both precedes and follows it.
pub proof fn lemma_precedes_is_total_order()
    ensures
        total_ordering(|a: Position, b: Position| precedes(a, b)),
{
    let leq = |a: Position, b: Position| precedes(a, b);
    assert forall|x: Position, y: Position| #[trigger] leq(x, y) && #[trigger] leq(y, x) implies x
        == y by {
        assert(x.piece_type.spec_order() == y.piece_type.spec_order());
    }
    assert forall|x: Position, y: Position| #[trigger] leq(x, y) || #[trigger] leq(y, x) by {
        if x.piece_type.spec_order() == y.piece_type.spec_order() {
            assert(x.piece_type == y.piece_type);
        }
    }
    assert forall|x: Position, y: Position, z: Position| #[trigger]
        leq(x, y) && #[trigger] leq(y, z) implies leq(x, z) by {
        if x.piece_type.spec_order() == z.piece_type.spec_order() {
            assert(x.piece_type == z.piece_type);
        }
    }
}

/// Whether `a` comes strictly before `b` in the order of positions.
pub fn comes_before(a: &Position, b: &Position) -> (r: bool)
    ensures
        r == (precedes(*a, *b) && *a != *b),
        !r ==> precedes(*b, *a),
{
    if a.rank != b.rank {
        a.rank < b.rank
    } else if a.file != b.file {
        a.file < b.file
    } else if a.piece_type.order() != b.piece_type.order() {
        a.piece_type.order() < b.piece_type.order()
    } else {
        !a.is_white && b.is_white
    }
}

/// Puts the positions in order. The result holds what `positions` held, each
/// as often.
pub fn sort_positions(positions: Vec<Position>) -> (r: Vec<Position>)
    ensures
        in_order(r@),
        r@.to_multiset() == positions@.to_multiset(),
{
    let mut v: Vec<Position> = positions;
    let n: usize = v.len();
    if n < 2 {
        return v;
    }
    let mut i: usize = 1;
    while i < n
        invariant
            v.len() == n,
            1 <= i <= n,
            in_order(v@.take(i as int)),
            v@.to_multiset() == positions@.to_multiset(),
        decreases n - i,
    {
        let mut j: usize = i;
        assert forall|a: int, b: int| 0 <= a < b <= i && a != j && b != j implies precedes(
            #[trigger] v@[a],
            #[trigger] v@[b],
        ) by {
            assert(precedes(v@.take(i as int)[a], v@.take(i as int)[b]));
        }
        while j > 0 && comes_before(&v[j], &v[j - 1])
            invariant
                v.len() == n,
                j <= i < n,
                v@.to_multiset() == positions@.to_multiset(),
                forall|a: int, b: int|
                    0 <= a < b <= i && a != j && b != j ==> precedes(
                        #[trigger] v@[a],
                        #[trigger] v@[b],
                    ),
                forall|b: int| j < b <= i ==> precedes(v@[j as int], #[trigger] v@[b]),
            decreases j,
        {
            let lower: Position = v[j - 1];
            let upper: Position = v[j];
            let ghost before = v@;
            v.set(j - 1, upper);
            v.set(j, lower);
            proof {
                broadcast use vstd::multiset::group_multiset_axioms;

                let middle = before.update(j - 1, upper);
                to_multiset_update(before, j - 1, upper);
                to_multiset_update(middle, j as int, lower);
                before.to_multiset_ensures();
                middle.to_multiset_ensures();
                assert(before.contains(before[j - 1]));
                assert(middle.contains(middle[j as int]));
                assert(v@ == middle.update(j as int, lower));
                assert(v@.to_multiset() =~= before.to_multiset());
            }
            j -= 1;
        }
        let ghost prefix = v@.take(i + 1);
        assert(in_order(prefix)) by {
            assert forall|a: int, b: int| 0 <= a < b < prefix.len() implies precedes(
                #[trigger] prefix[a],
                #[trigger] prefix[b],
            ) by {
                if b == j && j > 0 {
                    if a < j - 1 {
                        assert(precedes(v@[a], v@[j - 1]));
                    }
                }
            }
        }
        i += 1;
    }
    assert(v@.take(n as int) =~= v@);
    v
}

/// The piece that begins the game on `file` of a back rank.
pub open spec fn back_rank_piece(file: int) -> PieceType {
    if file == 0 || file == 7 {
        PieceType::Rook
    } else if file == 1 || file == 6 {
        PieceType::Knight
    } else if file == 2 || file == 5 {
        PieceType::Bishop
    } else if file == 3 {
        PieceType::Queen
    } else {
        PieceType::King
    }
}

/// The `i`-th position at the beginning of a game, row by row: rank 0, rank
/// 1, rank 6 and rank 7, each from file 0 to file 7. The back ranks hold the
/// pieces and the ranks before them the pawns. Everything on ranks 0 and 1 is
/// marked white, and so is the rook at rank 7, file 7.
pub open spec fn initial_position(i: int) -> Position {
    let row = i / 8;
    let file = i % 8;
    Position {
        rank: if row == 0 {
            0u8
        } else if row == 1 {
            1u8
        } else if row == 2 {
            6u8
        } else {
            7u8
        },
        file: file as u8,
        piece_type: if row == 0 || row == 3 {
            back_rank_piece(file)
        } else {
            PieceType::Pawn
        },
        is_white: row < 2 || i == 31,
    }
}

/// The thirty-two positions at the beginning of a game.
pub open spec fn initial_layout() -> Seq<Position> {
    Seq::new(32, |i: int| initial_position(i))
}

/// The beginning of a game is in order already.
pub proof fn lemma_initial_layout_in_order()
    ensures
        in_order(initial_layout()),
{
    assert forall|i: int, j: int| 0 <= i < j < initial_layout().len() implies precedes(
        initial_layout()[i],
        initial_layout()[j],
    ) by {
        assert(i / 8 < j / 8 || (i / 8 == j / 8 && i % 8 < j % 8));
    }
}

/// Sets one row of the beginning of a game: pawns, or the pieces of a back
/// rank.
fn push_row(positions: &mut Vec<Position>, rank: u8, pawns: bool, is_white: bool)
    ensures
        final(positions)@.len() == old(positions)@.len() + 8,
        forall|k: int| 0 <= k < old(positions)@.len() ==> final(positions)@[k] == old(positions)@[k],
        forall|f: int|
            0 <= f < 8 ==> #[trigger] final(positions)@[old(positions)@.len() + f] == (Position {
                rank,
                file: f as u8,
                piece_type: if pawns {
                    PieceType::Pawn
                } else {
                    back_rank_piece(f)
                },
                is_white,
            }),
{
    let back: [PieceType; 8] = [
        PieceType::Rook,
        PieceType::Knight,
        PieceType::Bishop,
        PieceType::Queen,
        PieceType::King,
        PieceType::Bishop,
        PieceType::Knight,
        PieceType::Rook,
    ];
    let ghost before = positions@;
    let mut file: u8 = 0;
    while file < 8
        invariant
            file <= 8,
            positions@.len() == before.len() + file,
            forall|k: int| 0 <= k < before.len() ==> positions@[k] == before[k],
            forall|f: int| 0 <= f < 8 ==> #[trigger] back@[f] == back_rank_piece(f),
            forall|f: int|
                0 <= f < file ==> #[trigger] positions@[before.len() + f] == (Position {
                    rank,
                    file: f as u8,
                    piece_type: if pawns {
                        PieceType::Pawn
                    } else {
                        back_rank_piece(f)
                    },
                    is_white,
                }),
        decreases 8 - file,
    {
        let piece_type: PieceType = if pawns {
            PieceType::Pawn
        } else {
            back[file as usize]
        };
        positions.push(Position { rank, file, piece_type, is_white });
        file += 1;
    }
}

/// The thirty-two positions at the beginning of a game.
pub fn initial_positions() -> (r: Vec<Position>)
    ensures
        r@ == initial_layout(),
{
    let mut positions: Vec<Position> = Vec::new();
    push_row(&mut positions, 0, false, true);
    push_row(&mut positions, 1, true, true);
    push_row(&mut positions, 6, true, false);
    push_row(&mut positions, 7, false, false);
    let corner: Position = positions[31];
    positions.set(31, Position { is_white: true, ..corner });
    assert(positions@ =~= initial_layout()) by {
        assert forall|i: int| 0 <= i < 32 implies positions@[i] == initial_layout()[i] by {
            let f = i % 8;
            if i < 8 {
                assert(i == 0 + f);
            } else if i < 16 {
                assert(i == 8 + f);
            } else if i < 24 {
                assert(i == 16 + f);
            } else {
                assert(i == 24 + f);
            }
        }
    }
    positions
}

/// The positions after `next_move`. No move changes them yet.
pub fn calculate_next_positions(prior_positions: Vec<Position>, next_move: &String) -> (r: Vec<
    Position,
>)
    ensures
        r@ == prior_positions@,
{
    prior_positions
}

/// The positions to draw after `moves`, in the order of positions.
///
/// No move changes the positions yet, so these are the positions at the
/// beginning of a game, whatever the moves.
pub fn calculate_positions(moves: Vec<String>) -> (r: Vec<Position>)
    ensures
        r@ == initial_layout(),
        in_order(r@),
{
    let mut positions: Vec<Position> = initial_positions();
    let mut i: usize = 0;
    while i < moves.len()
        invariant
            i <= moves.len(),
            positions@ == initial_layout(),
        decreases moves.len() - i,
    {
        positions = calculate_next_positions(positions, &moves[i]);
        i += 1;
    }
    let sorted: Vec<Position> = sort_positions(positions);
    proof {
        let leq = |a: Position, b: Position| precedes(a, b);
        lemma_precedes_is_total_order();
        lemma_initial_layout_in_order();
        assert(sorted_by(sorted@, leq));
        assert(sorted_by(initial_layout(), leq));
        lemma_sorted_unique(sorted@, initial_layout(), leq);
    }
    sorted
}

} // verus!
