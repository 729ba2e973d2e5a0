//! What the decoder accepts, stated over whole tokens.
//!
//! `decoded` is defined step by step, from the right. The statements here say
//! what that comes to for tokens written in the usual way, and what holds of
//! every token.

use vstd::prelude::*;
use super::end_of_game_type::EndOfGameType;
use super::notation::{
    black_win_token, castling, decoded, draw_token, en_passant_marker, end_of_game, file_of,
    invalid_reason, king_side_letters, king_side_zeros, peel_capture, peel_coordinates,
    peel_piece, peel_promotion, piece_of_letter, queen_side_letters, queen_side_zeros, rank_of,
    special_record, strip_suffixes, white_win_token, NotationView,
};
use super::piece_type::PieceType;
use super::text::{ends_with_seq, without_last};

verus! {

/// The letter of a file: `a` for file 0 up to `h` for file 7.
pub open spec fn file_letter(file: u8) -> char
    recommends
        file < 8,
{
    ('a' as u8 + file) as char
}

/// The digit of a rank: `1` for rank 0 up to `8` for rank 7.
pub open spec fn rank_digit(rank: u8) -> char
    recommends
        rank < 8,
{
    ('1' as u8 + rank) as char
}

/// The record of a pawn that moves to a square, with nothing else noted.
pub open spec fn pawn_to(text: Seq<char>, rank: u8, file: u8) -> NotationView {
    NotationView {
        to_rank: Some(rank),
        to_file: Some(file),
        piece_type: Some(PieceType::Pawn),
        ..NotationView::blank(text)
    }
}

/// A file letter is read back as its file, and as no rank.
pub proof fn lemma_file_letter(file: u8)
    requires
        file < 8,
    ensures
        file_of(file_letter(file)) == Some(file),
        rank_of(file_letter(file)) is None,
        piece_of_letter(file_letter(file)) is None,
{
}

/// A rank digit is read back as its rank, and as no file.
pub proof fn lemma_rank_digit(rank: u8)
    requires
        rank < 8,
    ensures
        rank_of(rank_digit(rank)) == Some(rank),
        file_of(rank_digit(rank)) is None,
        piece_of_letter(rank_digit(rank)) is None,
{
}

/// A file letter followed by a rank digit decodes to a pawn's move to that
/// square: no capture, no source, no annotation, no promotion, and no special
/// form.
pub proof fn lemma_pawn_to_square(file: u8, rank: u8)
    requires
        file < 8,
        rank < 8,
    ensures
        decoded(seq![file_letter(file), rank_digit(rank)]) == Ok::<NotationView, Seq<char>>(
            pawn_to(seq![file_letter(file), rank_digit(rank)], rank, file),
        ),
{
    let s = seq![file_letter(file), rank_digit(rank)];
    lemma_file_letter(file);
    lemma_rank_digit(rank);
    assert(s.len() == 2);
    assert(s.last() == rank_digit(rank));
    assert(castling(s) == (false, false));
    assert(end_of_game(s) is None);
    assert(!ends_with_seq(s, en_passant_marker()));
    assert(!ends_with_seq(s, seq!['+'])) by {
        if ends_with_seq(s, seq!['+']) {
            assert(s.subrange(1, 2)[0] == seq!['+'][0]);
        }
    }
    assert(!ends_with_seq(s, seq!['#'])) by {
        if ends_with_seq(s, seq!['#']) {
            assert(s.subrange(1, 2)[0] == seq!['#'][0]);
        }
    }
    assert(strip_suffixes(s) == (false, false, false, s));
    assert(peel_promotion(s) == (None::<PieceType>, s));
    let t = without_last(s, 1);
    assert(t =~= seq![file_letter(file)]);
    assert(t.last() == file_letter(file));
    let e = without_last(t, 1);
    assert(e =~= Seq::<char>::empty());
    assert(peel_coordinates(s) == (Some(rank), Some(file), e));
    assert(peel_capture(e) == (false, e));
    assert(peel_piece(e) == (Some(PieceType::Pawn), e));
    assert(peel_coordinates(e) == (None::<u8>, None::<u8>, e));
}

/// A coordinate that is read off a text lies on the board.
pub proof fn lemma_peeled_coordinates_on_board(s: Seq<char>)
    ensures
        peel_coordinates(s).0 is Some ==> peel_coordinates(s).0.unwrap() < 8,
        peel_coordinates(s).1 is Some ==> peel_coordinates(s).1.unwrap() < 8,
{
}

/// Every record that the decoder gives keeps the token as its text and is
/// well formed: a special form has no field of a move set, a move has its
/// destination and its piece, and every coordinate lies on the board.
pub proof fn lemma_decoded_well_formed(s: Seq<char>)
    requires
        decoded(s) is Ok,
    ensures
        decoded(s)->Ok_0.text == s,
        decoded(s)->Ok_0.well_formed(),
{
    let sides = castling(s);
    let result = end_of_game(s);
    if !(sides.0 || sides.1 || result is Some) {
        let suffix = strip_suffixes(s);
        let promotion = peel_promotion(suffix.3);
        let destination = peel_coordinates(promotion.1);
        let capture = peel_capture(destination.2);
        let piece = peel_piece(capture.1);
        lemma_peeled_coordinates_on_board(promotion.1);
        lemma_peeled_coordinates_on_board(piece.1);
    }
}

/// Every refusal carries one of four reasons: the token has characters that
/// no step accounts for, or its destination lacks the rank, the file or
/// both.
pub proof fn lemma_decoded_reasons(s: Seq<char>)
    requires
        decoded(s) is Err,
    ensures
        ({
            let reason = decoded(s)->Err_0;
            ||| reason == invalid_reason(s)
            ||| reason == "Both rank and file are missing (or invalid)"@
            ||| reason == "Rank is missing (or invalid)"@
            ||| reason == "File is missing (or invalid)"@
        }),
{
}

/// Both ways of writing castling on the king's side decode to the record
/// with that flag and nothing else set, so the two differ in their text
/// alone.
pub proof fn lemma_king_side_castle()
    ensures
        decoded(king_side_zeros()) == Ok::<NotationView, Seq<char>>(
            special_record(king_side_zeros(), true, false, None),
        ),
        decoded(king_side_letters()) == Ok::<NotationView, Seq<char>>(
            special_record(king_side_letters(), true, false, None),
        ),
        special_record(king_side_zeros(), true, false, None).has_no_move_fields(),
{
    assert(king_side_zeros().len() == 3);
    assert(king_side_letters().len() == 3);
    assert(queen_side_zeros().len() == 5);
    assert(queen_side_letters().len() == 5);
    assert(king_side_zeros()[0] == '0' && king_side_letters()[0] == 'O');
    assert(white_win_token()[0] == '1' && black_win_token()[2] == '1' && draw_token()[0] == '½');
}

/// Both ways of writing castling on the queen's side decode to the record
/// with that flag and nothing else set.
pub proof fn lemma_queen_side_castle()
    ensures
        decoded(queen_side_zeros()) == Ok::<NotationView, Seq<char>>(
            special_record(queen_side_zeros(), false, true, None),
        ),
        decoded(queen_side_letters()) == Ok::<NotationView, Seq<char>>(
            special_record(queen_side_letters(), false, true, None),
        ),
        special_record(queen_side_zeros(), false, true, None).has_no_move_fields(),
{
    assert(queen_side_zeros().len() == 5);
    assert(queen_side_letters().len() == 5);
    assert(white_win_token().len() == 3);
    assert(black_win_token().len() == 3);
    assert(draw_token().len() == 3);
}

/// The three result tokens decode to the record with that result and nothing
/// else set.
pub proof fn lemma_results()
    ensures
        decoded(white_win_token()) == Ok::<NotationView, Seq<char>>(
            special_record(white_win_token(), false, false, Some(EndOfGameType::WhiteWin)),
        ),
        decoded(black_win_token()) == Ok::<NotationView, Seq<char>>(
            special_record(black_win_token(), false, false, Some(EndOfGameType::BlackWin)),
        ),
        decoded(draw_token()) == Ok::<NotationView, Seq<char>>(
            special_record(draw_token(), false, false, Some(EndOfGameType::Draw)),
        ),
{
    assert(queen_side_zeros().len() == 5);
    assert(queen_side_letters().len() == 5);
    assert(white_win_token().len() == 3);
    assert(white_win_token()[0] == '1');
    assert(black_win_token()[2] == '1');
    assert(draw_token()[0] == '½');
    assert(king_side_zeros()[0] == '0' && king_side_zeros()[2] == '0');
    assert(king_side_letters()[0] == 'O');
}

/// A token is castling on one side at most, and castling is no result.
pub proof fn lemma_special_forms_exclusive(s: Seq<char>)
    ensures
        !(castling(s).0 && castling(s).1),
        (castling(s).0 || castling(s).1) ==> end_of_game(s) is None,
{
    assert(queen_side_zeros().len() == 5);
    assert(queen_side_letters().len() == 5);
    assert(white_win_token()[0] == '1');
    assert(black_win_token()[2] == '1');
    assert(draw_token()[0] == '½');
    assert(king_side_zeros()[0] == '0' && king_side_zeros()[2] == '0');
    assert(king_side_letters()[0] == 'O');
    assert(white_win_token().len() == 3 && black_win_token().len() == 3 && draw_token().len() == 3);
}

// ---------------------------------------------------------------------------
// A move as it is written
// ---------------------------------------------------------------------------

/// A mark after a move.
pub enum Annotation {
    Check,
    Checkmate,
    EnPassant,
}

/// How a mark is written.
pub open spec fn annotation_text(a: Annotation) -> Seq<char> {
    match a {
        Annotation::Check => seq!['+'],
        Annotation::Checkmate => seq!['#'],
        Annotation::EnPassant => en_passant_marker(),
    }
}

/// Marks written one after the other.
pub open spec fn annotations_text(marks: Seq<Annotation>) -> Seq<char>
    decreases marks.len(),
{
    if marks.len() == 0 {
        Seq::empty()
    } else {
        annotations_text(marks.drop_last()) + annotation_text(marks.last())
    }
}

/// The letter of a piece, as a text. A pawn has none.
pub open spec fn piece_text(piece: PieceType) -> Seq<char> {
    match piece {
        PieceType::King => seq!['K'],
        PieceType::Queen => seq!['Q'],
        PieceType::Bishop => seq!['B'],
        PieceType::Rook => seq!['R'],
        PieceType::Knight => seq!['N'],
        _ => Seq::empty(),
    }
}

/// A piece with a letter of its own: any but the pawn and the empty square.
pub open spec fn has_letter(piece: PieceType) -> bool {
    piece != PieceType::Pawn && piece != PieceType::Empty
}

/// The parts of a move to a square.
pub struct WrittenMove {
    /// The file from which the piece comes, where the move says so.
    pub from_file: Option<u8>,
    /// The rank from which the piece comes, where the move says so.
    pub from_rank: Option<u8>,
    /// The piece that moves.
    pub piece: PieceType,
    /// Whether the move takes a piece.
    pub capture: bool,
    pub to_file: u8,
    pub to_rank: u8,
    /// The piece that a pawn becomes on the last rank.
    pub promotion: Option<PieceType>,
    /// The marks after the move, in the order in which they are written.
    pub annotations: Seq<Annotation>,
}

impl WrittenMove {
    /// The squares lie on the board, a piece moves, and a promotion is to a
    /// piece with a letter.
    pub open spec fn valid(self) -> bool {
        &&& self.to_file < 8
        &&& self.to_rank < 8
        &&& self.from_file is Some ==> self.from_file.unwrap() < 8
        &&& self.from_rank is Some ==> self.from_rank.unwrap() < 8
        &&& self.piece != PieceType::Empty
        &&& self.promotion is Some ==> has_letter(self.promotion.unwrap())
    }

    /// The source as far as it is given: file letter, then rank digit.
    pub open spec fn source_text(self) -> Seq<char> {
        (match self.from_file {
            Some(f) => seq![file_letter(f)],
            None => Seq::empty(),
        }) + (match self.from_rank {
            Some(r) => seq![rank_digit(r)],
            None => Seq::empty(),
        })
    }

    /// The promotion, where there is one: `=` and the letter of the piece.
    pub open spec fn promotion_text(self) -> Seq<char> {
        match self.promotion {
            Some(p) => seq!['='] + piece_text(p),
            None => Seq::empty(),
        }
    }

    /// The move as it is written: source, piece, capture marker, destination,
    /// promotion, marks.
    pub open spec fn text(self) -> Seq<char> {
        self.source_text() + piece_text(self.piece) + (if self.capture {
            seq!['x']
        } else {
            Seq::empty()
        }) + seq![file_letter(self.to_file), rank_digit(self.to_rank)] + self.promotion_text()
            + annotations_text(self.annotations)
    }

    /// The record that holds these parts.
    pub open spec fn record(self) -> NotationView {
        NotationView {
            text: self.text(),
            to_rank: Some(self.to_rank),
            to_file: Some(self.to_file),
            piece_type: Some(self.piece),
            capture: self.capture,
            from_file: self.from_file,
            from_rank: self.from_rank,
            check: self.annotations.contains(Annotation::Check),
            checkmate: self.annotations.contains(Annotation::Checkmate),
            enpassant: self.annotations.contains(Annotation::EnPassant),
            queen_side_castle: false,
            king_side_castle: false,
            promoted_to_piece_type: self.promotion,
            end_of_game: None,
        }
    }
}

/// Marks written after a text that ends in none of their characters are all
/// taken off again, and each sets its flag.
pub proof fn lemma_strip_annotations(core: Seq<char>, marks: Seq<Annotation>)
    requires
        core.len() > 0,
        core.last() != '+',
        core.last() != '#',
        core.last() != '.',
    ensures
        strip_suffixes(core + annotations_text(marks)) == (
            marks.contains(Annotation::Checkmate),
            marks.contains(Annotation::Check),
            marks.contains(Annotation::EnPassant),
            core,
        ),
    decreases marks.len(),
{
    let ep = en_passant_marker();
    if marks.len() == 0 {
        assert(core + annotations_text(marks) =~= core);
        assert(!ends_with_seq(core, ep)) by {
            if ends_with_seq(core, ep) {
                assert(core.subrange(core.len() - 4, core.len() as int)[3] == ep[3]);
            }
        }
        assert(!ends_with_seq(core, seq!['+'])) by {
            if ends_with_seq(core, seq!['+']) {
                assert(core.subrange(core.len() - 1, core.len() as int)[0] == seq!['+'][0]);
            }
        }
        assert(!ends_with_seq(core, seq!['#'])) by {
            if ends_with_seq(core, seq!['#']) {
                assert(core.subrange(core.len() - 1, core.len() as int)[0] == seq!['#'][0]);
            }
        }
    } else {
        let init = marks.drop_last();
        let a = marks.last();
        let t = core + annotations_text(init);
        let s = t + annotation_text(a);
        assert(core + annotations_text(marks) =~= s);
        lemma_strip_annotations(core, init);
        assert(marks =~= init.push(a));
        assert forall|x: Annotation| marks.contains(x) <==> (init.contains(x) || a == x) by {
            if init.contains(x) {
                let i = choose|i: int| 0 <= i < init.len() && init[i] == x;
                assert(marks[i] == x);
            }
            if a == x {
                assert(marks[marks.len() - 1] == x);
            }
        }
        let n = s.len() as int;
        match a {
            Annotation::EnPassant => {
                assert(s.subrange(n - 4, n) =~= ep);
                assert(without_last(s, 4) =~= t);
            },
            Annotation::Check => {
                assert(s.last() == '+');
                assert(!ends_with_seq(s, ep)) by {
                    if ends_with_seq(s, ep) {
                        assert(s.subrange(n - 4, n)[3] == ep[3]);
                    }
                }
                assert(s.subrange(n - 1, n) =~= seq!['+']);
                assert(without_last(s, 1) =~= t);
            },
            Annotation::Checkmate => {
                assert(s.last() == '#');
                assert(!ends_with_seq(s, ep)) by {
                    if ends_with_seq(s, ep) {
                        assert(s.subrange(n - 4, n)[3] == ep[3]);
                    }
                }
                assert(!ends_with_seq(s, seq!['+'])) by {
                    if ends_with_seq(s, seq!['+']) {
                        assert(s.subrange(n - 1, n)[0] == seq!['+'][0]);
                    }
                }
                assert(s.subrange(n - 1, n) =~= seq!['#']);
                assert(without_last(s, 1) =~= t);
            },
        }
    }
}

/// Marks, where there are any, end in `+`, `#` or a full stop.
pub proof fn lemma_annotations_end(marks: Seq<Annotation>)
    requires
        marks.len() > 0,
    ensures
        annotations_text(marks).len() > 0,
        ({
            let last = annotations_text(marks).last();
            last == '+' || last == '#' || last == '.'
        }),
{
    let t = annotations_text(marks.drop_last());
    let a = annotation_text(marks.last());
    assert(a.len() > 0);
    assert((t + a).last() == a.last());
}

/// The letter of a piece is read back as that piece.
pub proof fn lemma_piece_text(piece: PieceType)
    requires
        has_letter(piece),
    ensures
        piece_text(piece).len() == 1,
        piece_of_letter(piece_text(piece)[0]) == Some(piece),
        rank_of(piece_text(piece)[0]) is None,
        piece_text(piece)[0] != 'x',
        piece_text(piece)[0] != '=',
        piece_text(piece)[0] != '+',
        piece_text(piece)[0] != '#',
        piece_text(piece)[0] != '.',
        piece_text(piece)[0] != '0',
        piece_text(piece)[0] != 'O',
        piece_text(piece)[0] != '1',
        piece_text(piece)[0] != '½',
{
}

/// The source of a move is read back as it was given, and nothing of it is
/// left. Where it is not empty, it ends in no capture marker and no piece
/// letter.
pub proof fn lemma_source_read_back(m: WrittenMove)
    requires
        m.valid(),
    ensures
        peel_coordinates(m.source_text()) == (m.from_rank, m.from_file, Seq::<char>::empty()),
        m.source_text().len() > 0 ==> m.source_text().last() != 'x' && piece_of_letter(
            m.source_text().last(),
        ) is None,
{
    let src = m.source_text();
    match (m.from_file, m.from_rank) {
        (Some(f), Some(r)) => {
            lemma_file_letter(f);
            lemma_rank_digit(r);
            assert(src =~= seq![file_letter(f), rank_digit(r)]);
            assert(src.last() == rank_digit(r));
            let t = without_last(src, 1);
            assert(t =~= seq![file_letter(f)]);
            assert(t.last() == file_letter(f));
            assert(without_last(t, 1) =~= Seq::<char>::empty());
        },
        (Some(f), None) => {
            lemma_file_letter(f);
            assert(src =~= seq![file_letter(f)]);
            assert(src.last() == file_letter(f));
            assert(without_last(src, 1) =~= Seq::<char>::empty());
        },
        (None, Some(r)) => {
            lemma_rank_digit(r);
            assert(src =~= seq![rank_digit(r)]);
            assert(src.last() == rank_digit(r));
            assert(without_last(src, 1) =~= Seq::<char>::empty());
        },
        (None, None) => {
            assert(src =~= Seq::<char>::empty());
        },
    }
}

/// A promotion written after a destination is read back, and the text before
/// it is left.
pub proof fn lemma_promotion_read_back(base: Seq<char>, m: WrittenMove)
    requires
        m.valid(),
        base.len() >= 2,
        base[base.len() - 2] != '=',
    ensures
        peel_promotion(base + m.promotion_text()) == (m.promotion, base),
{
    let core = base + m.promotion_text();
    match m.promotion {
        Some(p) => {
            lemma_piece_text(p);
            let l = piece_text(p)[0];
            assert(m.promotion_text() =~= seq!['=', l]);
            assert(core[core.len() - 2] == '=');
            assert(core.last() == l);
            assert(without_last(core, 2) =~= base);
        },
        None => {
            assert(core =~= base);
        },
    }
}

/// A destination written after a text is read back, and the text is left.
pub proof fn lemma_destination_read_back(pre: Seq<char>, file: u8, rank: u8)
    requires
        file < 8,
        rank < 8,
    ensures
        peel_coordinates(pre + seq![file_letter(file), rank_digit(rank)]) == (
            Some(rank),
            Some(file),
            pre,
        ),
{
    let base = pre + seq![file_letter(file), rank_digit(rank)];
    lemma_file_letter(file);
    lemma_rank_digit(rank);
    assert(base.last() == rank_digit(rank));
    let t = without_last(base, 1);
    assert(t =~= pre + seq![file_letter(file)]);
    assert(t.last() == file_letter(file));
    assert(without_last(t, 1) =~= pre);
}

/// A capture marker written after a text is read back, and the text is left;
/// without the marker, a text that ends in no `x` is left whole.
pub proof fn lemma_capture_read_back(sp: Seq<char>, capture: bool)
    requires
        sp.len() > 0 ==> sp.last() != 'x',
    ensures
        peel_capture(
            sp + (if capture {
                seq!['x']
            } else {
                Seq::<char>::empty()
            }),
        ) == (capture, sp),
{
    if capture {
        let pre = sp + seq!['x'];
        assert(pre.last() == 'x');
        assert(without_last(pre, 1) =~= sp);
    } else {
        assert(sp + Seq::<char>::empty() =~= sp);
    }
}

/// The letter of a piece written after a text is read back as the piece, and
/// the text is left; a pawn is read where the text ends in no piece letter.
/// Neither way does the whole end in a capture marker, if the text did not.
pub proof fn lemma_piece_read_back(src: Seq<char>, piece: PieceType)
    requires
        piece != PieceType::Empty,
        src.len() > 0 ==> piece_of_letter(src.last()) is None && src.last() != 'x',
    ensures
        peel_piece(src + piece_text(piece)) == (Some(piece), src),
        (src + piece_text(piece)).len() > 0 ==> (src + piece_text(piece)).last() != 'x',
{
    let sp = src + piece_text(piece);
    if has_letter(piece) {
        lemma_piece_text(piece);
        assert(sp.last() == piece_text(piece)[0]);
        assert(without_last(sp, 1) =~= src);
    } else {
        assert(sp =~= src);
    }
}

/// A text that ends in a small file letter and then a rank digit, a piece
/// letter or a mark is no special form.
pub proof fn lemma_no_special_form(s: Seq<char>)
    requires
        s.len() >= 2,
        s.last() != '0',
        s.last() != 'O',
        s.last() != '½',
        s.last() == '1' ==> s[s.len() - 2] != '-',
    ensures
        castling(s) == (false, false),
        end_of_game(s) is None,
{
    assert(king_side_zeros().last() == '0');
    assert(king_side_letters().last() == 'O');
    assert(queen_side_zeros().last() == '0');
    assert(queen_side_letters().last() == 'O');
    assert(white_win_token().last() == '0');
    assert(draw_token().last() == '½');
    assert(black_win_token().last() == '1');
    assert(black_win_token()[black_win_token().len() - 2] == '-');
}

/// A move that is written in the usual way decodes to its parts.
///
/// The usual way is: the file and the rank from which the piece comes, as far
/// as they are given; the letter of the piece, none for a pawn; `x` for a
/// capture; the file and the rank of the destination; `=` and a letter for a
/// promotion; then any number of marks, in any order. Files are written in
/// small letters.
pub proof fn lemma_written_move_decodes(m: WrittenMove)
    requires
        m.valid(),
    ensures
        decoded(m.text()) == Ok::<NotationView, Seq<char>>(m.record()),
{
    let src = m.source_text();
    let cap: Seq<char> = if m.capture {
        seq!['x']
    } else {
        Seq::empty()
    };
    let fl = file_letter(m.to_file);
    let rd = rank_digit(m.to_rank);
    let sp = src + piece_text(m.piece);
    let pre = sp + cap;
    let base = pre + seq![fl, rd];
    let core = base + m.promotion_text();
    let marks = annotations_text(m.annotations);
    let s = core + marks;
    assert(m.text() == s);
    lemma_file_letter(m.to_file);
    lemma_rank_digit(m.to_rank);
    assert(base.last() == rd);
    assert(base[base.len() - 2] == fl);

    lemma_source_read_back(m);
    lemma_piece_read_back(src, m.piece);
    lemma_capture_read_back(sp, m.capture);
    lemma_destination_read_back(pre, m.to_file, m.to_rank);
    lemma_promotion_read_back(base, m);

    // how the text before the marks ends
    assert(core.len() >= 2 && core.last() != '+' && core.last() != '#' && core.last() != '.'
        && core.last() != '0' && core.last() != 'O' && core.last() != '½' && (core.last() == '1'
        ==> core[core.len() - 2] != '-')) by {
        match m.promotion {
            Some(p) => {
                lemma_piece_text(p);
                assert(m.promotion_text() =~= seq!['=', piece_text(p)[0]]);
                assert(core.last() == piece_text(p)[0]);
            },
            None => {
                assert(core =~= base);
            },
        }
    }
    lemma_strip_annotations(core, m.annotations);

    // how the whole text ends
    assert(s.len() >= 2 && s.last() != '0' && s.last() != 'O' && s.last() != '½' && (s.last()
        == '1' ==> s[s.len() - 2] != '-')) by {
        if m.annotations.len() > 0 {
            lemma_annotations_end(m.annotations);
            assert(s.last() == marks.last());
        } else {
            assert(s =~= core);
        }
    }
    lemma_no_special_form(s);
}

} // verus!
