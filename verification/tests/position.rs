use chess_notation::game::piece_type::PieceType;
use chess_notation::game::position::{
    calculate_next_positions, calculate_positions, comes_before, initial_positions,
    sort_positions, Position,
};

fn at(rank: u8, file: u8, piece_type: PieceType, is_white: bool) -> Position {
    Position {
        rank,
        file,
        piece_type,
        is_white,
    }
}

#[test]
fn initial_positions_are_thirty_two() {
    let positions = initial_positions();
    assert_eq!(positions.len(), 32);
    assert_eq!(positions[0], at(0, 0, PieceType::Rook, true));
    assert_eq!(positions[3], at(0, 3, PieceType::Queen, true));
    assert_eq!(positions[4], at(0, 4, PieceType::King, true));
    assert_eq!(positions[8], at(1, 0, PieceType::Pawn, true));
    assert_eq!(positions[15], at(1, 7, PieceType::Pawn, true));
    assert_eq!(positions[16], at(6, 0, PieceType::Pawn, false));
    assert_eq!(positions[24], at(7, 0, PieceType::Rook, false));
    assert_eq!(positions[25], at(7, 1, PieceType::Knight, false));
    assert_eq!(positions[26], at(7, 2, PieceType::Bishop, false));
    assert_eq!(positions[28], at(7, 4, PieceType::King, false));
    assert_eq!(positions[31], at(7, 7, PieceType::Rook, true));
}

#[test]
fn initial_positions_hold_each_square_once() {
    let positions = initial_positions();
    for (i, p) in positions.iter().enumerate() {
        assert_eq!(p.file as usize, i % 8);
        assert_eq!(p.rank, [0, 1, 6, 7][i / 8]);
    }
}

#[test]
fn calculate_positions_gives_the_beginning_whatever_the_moves() {
    assert_eq!(calculate_positions(vec![]), initial_positions());
    assert_eq!(
        calculate_positions(vec!["e4".to_string(), "e5".to_string(), "i9".to_string()]),
        initial_positions()
    );
}

#[test]
fn calculate_positions_are_in_order() {
    let positions = calculate_positions(vec!["e4".to_string()]);
    let mut by_std = positions.clone();
    by_std.sort();
    assert_eq!(positions, by_std);
}

#[test]
fn calculate_next_positions_changes_nothing() {
    let prior = vec![at(3, 4, PieceType::Pawn, true), at(0, 0, PieceType::Rook, false)];
    assert_eq!(
        calculate_next_positions(prior.clone(), &"e5".to_string()),
        prior
    );
}

#[test]
fn sort_positions_orders_as_the_derived_order_does() {
    let positions = vec![
        at(7, 0, PieceType::Rook, false),
        at(0, 1, PieceType::Knight, true),
        at(0, 1, PieceType::Knight, false),
        at(0, 1, PieceType::King, true),
        at(0, 1, PieceType::Empty, true),
        at(0, 1, PieceType::Pawn, false),
        at(0, 0, PieceType::Pawn, true),
        at(3, 200, PieceType::Queen, true),
        at(3, 2, PieceType::Bishop, true),
        at(7, 0, PieceType::Rook, false),
        at(255, 0, PieceType::Queen, false),
    ];
    let mut expected = positions.clone();
    expected.sort();
    assert_eq!(sort_positions(positions), expected);
    assert_eq!(
        expected,
        vec![
            at(0, 0, PieceType::Pawn, true),
            at(0, 1, PieceType::Empty, true),
            at(0, 1, PieceType::King, true),
            at(0, 1, PieceType::Knight, false),
            at(0, 1, PieceType::Knight, true),
            at(0, 1, PieceType::Pawn, false),
            at(3, 2, PieceType::Bishop, true),
            at(3, 200, PieceType::Queen, true),
            at(7, 0, PieceType::Rook, false),
            at(7, 0, PieceType::Rook, false),
            at(255, 0, PieceType::Queen, false),
        ]
    );
}

#[test]
fn sort_positions_of_nothing_and_of_one() {
    assert_eq!(sort_positions(vec![]), vec![]);
    assert_eq!(
        sort_positions(vec![at(1, 1, PieceType::Pawn, true)]),
        vec![at(1, 1, PieceType::Pawn, true)]
    );
}

#[test]
fn sort_positions_reverses_a_list_in_falling_order() {
    let falling: Vec<Position> = (0..8u8)
        .rev()
        .map(|r| at(r, 7 - r, PieceType::Pawn, r % 2 == 0))
        .collect();
    let rising: Vec<Position> = (0..8u8)
        .map(|r| at(r, 7 - r, PieceType::Pawn, r % 2 == 0))
        .collect();
    assert_eq!(sort_positions(falling), rising);
}

#[test]
fn comes_before_is_strict_and_agrees_with_the_derived_order() {
    let samples = [
        at(0, 0, PieceType::Rook, true),
        at(0, 0, PieceType::Rook, false),
        at(0, 0, PieceType::King, true),
        at(0, 1, PieceType::Empty, false),
        at(1, 0, PieceType::Empty, false),
        at(1, 0, PieceType::Pawn, false),
        at(1, 0, PieceType::Knight, true),
        at(1, 0, PieceType::Bishop, true),
        at(1, 0, PieceType::Queen, true),
    ];
    for a in samples.iter() {
        for b in samples.iter() {
            assert_eq!(comes_before(a, b), a < b);
        }
    }
}

#[test]
fn piece_types_are_numbered_in_the_order_of_their_declaration() {
    assert_eq!(PieceType::Empty.order(), 0);
    assert_eq!(PieceType::King.order(), 1);
    assert_eq!(PieceType::Queen.order(), 2);
    assert_eq!(PieceType::Rook.order(), 3);
    assert_eq!(PieceType::Bishop.order(), 4);
    assert_eq!(PieceType::Knight.order(), 5);
    assert_eq!(PieceType::Pawn.order(), 6);
}
