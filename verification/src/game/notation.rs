//! The decoder for one ply in algebraic notation.
//!
//! A token is read from the right: annotations, a promotion, the destination
//! square, a capture marker, the moving piece and, last, what tells two like
//! pieces apart. Castling and results are whole tokens of their own. Every
//! step has a model over `Seq<char>`, and `decode` is proved to return what
//! the composition of those models, `decoded`, says.

use vstd::prelude::*;
use vstd::string::*;
use super::end_of_game_type::EndOfGameType;
use super::piece_type::PieceType;
use super::text::{
    char_len, ends_with, ends_with_seq, last_char, same_text, trim_last, without_last,
};

verus! {

/// Why a token could not be decoded.
#[derive(Debug)]
pub struct NotationError {
    /// The reason, one of a fixed set of messages.
    pub reason: String,
    /// The token that was refused.
    pub text: String,
}

/// A decoded ply.
///
/// Either a move to a square, or castling, or the result of the game: see
/// `NotationView::well_formed`.
#[derive(Debug, PartialEq)]
pub struct Notation {
    pub text: String,
    pub to_rank: Option<u8>,
    pub to_file: Option<u8>,
    pub piece_type: Option<PieceType>,
    pub capture: bool,
    pub from_file: Option<u8>,
    pub from_rank: Option<u8>,
    pub check: bool,
    pub checkmate: bool,
    pub enpassant: bool,
    pub queen_side_castle: bool,
    pub king_side_castle: bool,
    pub promoted_to_piece_type: Option<PieceType>,
    pub end_of_game: Option<EndOfGameType>,
}

/// What a `Notation` holds, with its text as a sequence of characters.
pub struct NotationView {
    pub text: Seq<char>,
    pub to_rank: Option<u8>,
    pub to_file: Option<u8>,
    pub piece_type: Option<PieceType>,
    pub capture: bool,
    pub from_file: Option<u8>,
    pub from_rank: Option<u8>,
    pub check: bool,
    pub checkmate: bool,
    pub enpassant: bool,
    pub queen_side_castle: bool,
    pub king_side_castle: bool,
    pub promoted_to_piece_type: Option<PieceType>,
    pub end_of_game: Option<EndOfGameType>,
}

impl View for Notation {
    type V = NotationView;

    open spec fn view(&self) -> NotationView {
        NotationView {
            text: self.text@,
            to_rank: self.to_rank,
            to_file: self.to_file,
            piece_type: self.piece_type,
            capture: self.capture,
            from_file: self.from_file,
            from_rank: self.from_rank,
            check: self.check,
            checkmate: self.checkmate,
            enpassant: self.enpassant,
            queen_side_castle: self.queen_side_castle,
            king_side_castle: self.king_side_castle,
            promoted_to_piece_type: self.promoted_to_piece_type,
            end_of_game: self.end_of_game,
        }
    }
}

impl NotationView {
    /// Castling or a result: a token that names no square.
    pub open spec fn is_special(self) -> bool {
        self.king_side_castle || self.queen_side_castle || self.end_of_game is Some
    }

    /// No field of a move to a square is set.
    pub open spec fn has_no_move_fields(self) -> bool {
        &&& self.to_rank is None
        &&& self.to_file is None
        &&& self.piece_type is None
        &&& !self.capture
        &&& self.from_rank is None
        &&& self.from_file is None
        &&& self.promoted_to_piece_type is None
    }

    /// The two kinds of record exclude each other: a special form carries no
    /// field of a move, and a move has its destination square and a piece.
    /// Every coordinate lies on the board.
    pub open spec fn well_formed(self) -> bool {
        &&& self.is_special() ==> self.has_no_move_fields()
        &&& !self.is_special() ==> self.to_rank is Some && self.to_file is Some
                && self.piece_type is Some
        &&& !(self.king_side_castle && self.queen_side_castle)
        &&& self.to_rank is Some ==> self.to_rank.unwrap() < 8
        &&& self.to_file is Some ==> self.to_file.unwrap() < 8
        &&& self.from_rank is Some ==> self.from_rank.unwrap() < 8
        &&& self.from_file is Some ==> self.from_file.unwrap() < 8
    }

    /// A record with its text and nothing else set.
    pub open spec fn blank(text: Seq<char>) -> NotationView {
        NotationView {
            text,
            to_rank: None,
            to_file: None,
            piece_type: None,
            capture: false,
            from_file: None,
            from_rank: None,
            check: false,
            checkmate: false,
            enpassant: false,
            queen_side_castle: false,
            king_side_castle: false,
            promoted_to_piece_type: None,
            end_of_game: None,
        }
    }
}

// ---------------------------------------------------------------------------
// Coordinates
// ---------------------------------------------------------------------------

/// The value of `c` as a digit, before any radix is applied: `0` to `9` for
/// the decimal digits, `10` to `35` for the letters of either case, and `36`
/// for any other character.
pub open spec fn digit_weight(c: char) -> u32 {
    if '0' <= c && c <= '9' {
        (c as u32 - '0' as u32) as u32
    } else if 'a' <= c && c <= 'z' {
        (c as u32 - 'a' as u32 + 10) as u32
    } else if 'A' <= c && c <= 'Z' {
        (c as u32 - 'A' as u32 + 10) as u32
    } else {
        36
    }
}

/// The value of `c` as a digit in `radix`, where it is one.
pub open spec fn digit_value(c: char, radix: u32) -> Option<u32> {
    if digit_weight(c) < radix {
        Some(digit_weight(c))
    } else {
        None
    }
}

/// `char::to_digit` of the standard library: the digits are `0-9`, `a-z` and
/// `A-Z` and nothing else, a letter counts from ten whatever its case, and the
/// result is `None` where the character is no digit in the radix. It panics
/// on a radix below 2 or above 36, which `requires` leaves out.
pub assume_specification[ char::to_digit ](c: char, radix: u32) -> (r: Option<u32>)
    requires
        2 <= radix <= 36,
    ensures
        r == digit_value(c, radix),
;

/// The board coordinate that `c` denotes: its digit value in `radix`, less
/// `offset`, where that lies in `0..=7`.
pub open spec fn coordinate(c: char, radix: u32, offset: u32) -> Option<u8> {
    match digit_value(c, radix) {
        Some(d) => if offset <= d && d <= offset + 7 {
            Some((d - offset) as u8)
        } else {
            None
        },
        None => None,
    }
}

/// The rank that a character denotes: `'1'` to `'8'` are ranks 0 to 7.
pub open spec fn rank_of(c: char) -> Option<u8> {
    coordinate(c, 10, 1)
}

/// The file that a character denotes: `'a'` to `'h'` are files 0 to 7, and so
/// are the capitals.
pub open spec fn file_of(c: char) -> Option<u8> {
    coordinate(c, 18, 10)
}

/// Reads one character as a board coordinate.
pub fn parse_coordinate(c: char, parse_radix: u32, parse_offset: u32) -> (r: Option<u8>)
    requires
        2 <= parse_radix <= 36,
    ensures
        r == coordinate(c, parse_radix, parse_offset),
        r is Some ==> r.unwrap() < 8,
{
    match c.to_digit(parse_radix) {
        None => None,
        Some(digit) => {
            if digit < parse_offset || digit - parse_offset > 7 {
                None
            } else {
                Some((digit - parse_offset) as u8)
            }
        },
    }
}

// ---------------------------------------------------------------------------
// Pieces
// ---------------------------------------------------------------------------

/// The piece that a letter names. A pawn has no letter.
pub open spec fn piece_of_letter(c: char) -> Option<PieceType> {
    if c == 'K' {
        Some(PieceType::King)
    } else if c == 'Q' {
        Some(PieceType::Queen)
    } else if c == 'B' {
        Some(PieceType::Bishop)
    } else if c == 'R' {
        Some(PieceType::Rook)
    } else if c == 'N' {
        Some(PieceType::Knight)
    } else {
        None
    }
}

/// The piece that a text of exactly one letter names.
pub open spec fn piece_of_text(s: Seq<char>) -> Option<PieceType> {
    if s.len() == 1 {
        piece_of_letter(s[0])
    } else {
        None
    }
}

/// Reads a text of one letter as a piece.
pub fn decode_piecetype(piecetype_character: &str) -> (r: Option<PieceType>)
    ensures
        r == piece_of_text(piecetype_character@),
{
    if char_len(piecetype_character) != 1 {
        return None;
    }
    let c: char = piecetype_character.get_char(0);
    if c == 'K' {
        Some(PieceType::King)
    } else if c == 'Q' {
        Some(PieceType::Queen)
    } else if c == 'B' {
        Some(PieceType::Bishop)
    } else if c == 'R' {
        Some(PieceType::Rook)
    } else if c == 'N' {
        Some(PieceType::Knight)
    } else {
        None
    }
}

/// The moving piece and the text before its letter: the piece that the last
/// character names, or a pawn and the whole text where it names none.
pub open spec fn peel_piece(s: Seq<char>) -> (Option<PieceType>, Seq<char>) {
    if s.len() > 0 && piece_of_letter(s.last()) is Some {
        (piece_of_letter(s.last()), without_last(s, 1))
    } else {
        (Some(PieceType::Pawn), s)
    }
}

/// Takes the moving piece's letter off the end of the text.
pub fn process_piece_type<'a>(notation: &'a str) -> (r: (Option<PieceType>, &'a str))
    ensures
        r.0 == peel_piece(notation@).0,
        r.1@ == peel_piece(notation@).1,
{
    let n: usize = char_len(notation);
    if n == 0 {
        return (Some(PieceType::Pawn), notation);
    }
    let letter: &str = notation.substring_char(n - 1, n);
    assert(letter@ =~= seq![notation@.last()]);
    match decode_piecetype(letter) {
        None => (Some(PieceType::Pawn), notation),
        Some(piece) => (Some(piece), trim_last(notation, 1)),
    }
}

// ---------------------------------------------------------------------------
// Capture marker
// ---------------------------------------------------------------------------

/// Whether the text ends with the capture marker, and the text before it.
pub open spec fn peel_capture(s: Seq<char>) -> (bool, Seq<char>) {
    if s.len() > 0 && s.last() == 'x' {
        (true, without_last(s, 1))
    } else {
        (false, s)
    }
}

/// Takes a capture marker off the end of the text.
pub fn process_capture<'a>(notation: &'a str) -> (r: (bool, &'a str))
    ensures
        r.0 == peel_capture(notation@).0,
        r.1@ == peel_capture(notation@).1,
{
    match last_char(notation) {
        Some(c) => {
            if c == 'x' {
                (true, trim_last(notation, 1))
            } else {
                (false, notation)
            }
        },
        None => (false, notation),
    }
}

// ---------------------------------------------------------------------------
// A pair of coordinates
// ---------------------------------------------------------------------------

/// What one step of the pair extractor yields: the coordinate that `c`
/// denotes, and the text with its last character taken off where there is one.
pub open spec fn peel_one(last: Option<char>, s: Seq<char>, radix: u32, offset: u32) -> (
    Option<u8>,
    Seq<char>,
) {
    match last {
        Some(c) => match coordinate(c, radix, offset) {
            Some(v) => (Some(v), without_last(s, 1)),
            None => (None, s),
        },
        None => (None, s),
    }
}

/// Reads `last_char` as a coordinate and, where it is one, takes one character
/// off the end of the text.
pub fn parse_and_trim_coordinate_suffix<'a>(
    last_char: Option<char>,
    notation: &'a str,
    parse_radix: u32,
    parse_offset: u32,
) -> (r: (Option<u8>, &'a str))
    requires
        2 <= parse_radix <= 36,
        last_char is Some ==> notation@.len() > 0,
    ensures
        r.0 == peel_one(last_char, notation@, parse_radix, parse_offset).0,
        r.1@ == peel_one(last_char, notation@, parse_radix, parse_offset).1,
        r.0 is Some ==> r.0.unwrap() < 8,
{
    match last_char {
        Some(x) => match parse_coordinate(x, parse_radix, parse_offset) {
            None => (None, notation),
            Some(v) => (Some(v), trim_last(notation, 1)),
        },
        None => (None, notation),
    }
}

/// The rank and file at the end of a text, and the text before them.
///
/// With a rank digit at the end, the character before it is read as a file
/// letter; without one, the last character itself is. So the text may end in
/// a file and a rank, in a rank alone, in a file alone or in neither, and
/// loses two, one, one or no characters.
pub open spec fn peel_coordinates(s: Seq<char>) -> (Option<u8>, Option<u8>, Seq<char>) {
    if s.len() == 0 {
        (None, None, s)
    } else if rank_of(s.last()) is Some {
        let t = without_last(s, 1);
        if t.len() > 0 && file_of(t.last()) is Some {
            (rank_of(s.last()), file_of(t.last()), without_last(t, 1))
        } else {
            (rank_of(s.last()), None, t)
        }
    } else if file_of(s.last()) is Some {
        (None, file_of(s.last()), without_last(s, 1))
    } else {
        (None, None, s)
    }
}

/// Takes a rank, a file or both off the end of the text.
pub fn process_coordinates<'a>(notation: &'a str) -> (r: (Option<u8>, Option<u8>, &'a str))
    ensures
        r.0 == peel_coordinates(notation@).0,
        r.1 == peel_coordinates(notation@).1,
        r.2@ == peel_coordinates(notation@).2,
        r.0 is Some ==> r.0.unwrap() < 8,
        r.1 is Some ==> r.1.unwrap() < 8,
{
    let rank_char: Option<char> = last_char(notation);
    let (rank, without_rank) = parse_and_trim_coordinate_suffix(rank_char, notation, 10, 1);
    let file_char: Option<char> = if rank.is_some() {
        last_char(without_rank)
    } else {
        rank_char
    };
    let (file, without_file_and_rank) = parse_and_trim_coordinate_suffix(
        file_char,
        without_rank,
        18,
        10,
    );
    (rank, file, without_file_and_rank)
}

// ---------------------------------------------------------------------------
// Promotion
// ---------------------------------------------------------------------------

/// The piece that a pawn is promoted to, and the text before the promotion:
/// where the text ends with `=` and a piece letter, that piece and the text
/// without the two; otherwise no piece and the whole text.
pub open spec fn peel_promotion(s: Seq<char>) -> (Option<PieceType>, Seq<char>) {
    if s.len() >= 2 && s[s.len() - 2] == '=' && piece_of_letter(s.last()) is Some {
        (piece_of_letter(s.last()), without_last(s, 2))
    } else {
        (None, s)
    }
}

/// Takes a promotion off the end of the text.
pub fn process_promotion<'a>(notation: &'a str) -> (r: (Option<PieceType>, &'a str))
    ensures
        r.0 == peel_promotion(notation@).0,
        r.1@ == peel_promotion(notation@).1,
{
    let len: usize = char_len(notation);
    if len < 2 {
        return (None, notation);
    }
    if notation.get_char(len - 2) != '=' {
        return (None, notation);
    }
    let letter: &str = notation.substring_char(len - 1, len);
    assert(letter@ =~= seq![notation@.last()]);
    match decode_piecetype(letter) {
        None => (None, notation),
        Some(piece) => (Some(piece), trim_last(notation, 2)),
    }
}

// ---------------------------------------------------------------------------
// Special forms
// ---------------------------------------------------------------------------

/// The token for castling on the king's side, written with zeros.
pub open spec fn king_side_zeros() -> Seq<char> {
    seq!['0', '-', '0']
}

/// The token for castling on the king's side, written with capital letters.
pub open spec fn king_side_letters() -> Seq<char> {
    seq!['O', '-', 'O']
}

/// The token for castling on the queen's side, written with zeros.
pub open spec fn queen_side_zeros() -> Seq<char> {
    seq!['0', '-', '0', '-', '0']
}

/// The token for castling on the queen's side, written with capital letters.
pub open spec fn queen_side_letters() -> Seq<char> {
    seq!['O', '-', 'O', '-', 'O']
}

/// The token for a game that White won.
pub open spec fn white_win_token() -> Seq<char> {
    seq!['1', '-', '0']
}

/// The token for a game that Black won.
pub open spec fn black_win_token() -> Seq<char> {
    seq!['0', '-', '1']
}

/// The token for a drawn game: a half, an en dash, a half.
pub open spec fn draw_token() -> Seq<char> {
    seq!['½', '–', '½']
}

/// Whether the whole token is castling: on the king's side first, on the
/// queen's side second.
pub open spec fn castling(s: Seq<char>) -> (bool, bool) {
    if s == queen_side_zeros() || s == queen_side_letters() {
        (false, true)
    } else if s == king_side_zeros() || s == king_side_letters() {
        (true, false)
    } else {
        (false, false)
    }
}

/// The result that the whole token records, if it is one.
pub open spec fn end_of_game(s: Seq<char>) -> Option<EndOfGameType> {
    if s == white_win_token() {
        Some(EndOfGameType::WhiteWin)
    } else if s == black_win_token() {
        Some(EndOfGameType::BlackWin)
    } else if s == draw_token() {
        Some(EndOfGameType::Draw)
    } else {
        None
    }
}

/// What the special tokens are, character by character.
pub proof fn lemma_special_tokens()
    ensures
        "0-0"@ == king_side_zeros(),
        "O-O"@ == king_side_letters(),
        "0-0-0"@ == queen_side_zeros(),
        "O-O-O"@ == queen_side_letters(),
        "1-0"@ == white_win_token(),
        "0-1"@ == black_win_token(),
        "½–½"@ == draw_token(),
{
    reveal_strlit("0-0");
    reveal_strlit("O-O");
    reveal_strlit("0-0-0");
    reveal_strlit("O-O-O");
    reveal_strlit("1-0");
    reveal_strlit("0-1");
    reveal_strlit("½–½");
    assert("0-0"@ =~= king_side_zeros());
    assert("O-O"@ =~= king_side_letters());
    assert("0-0-0"@ =~= queen_side_zeros());
    assert("O-O-O"@ =~= queen_side_letters());
    assert("1-0"@ =~= white_win_token());
    assert("0-1"@ =~= black_win_token());
    assert("½–½"@ =~= draw_token());
}

/// Tells whether the whole token is castling, and on which side.
pub fn process_castling(notation: &str) -> (r: (bool, bool))
    ensures
        r == castling(notation@),
{
    proof {
        lemma_special_tokens();
    }
    if same_text(notation, "0-0-0") || same_text(notation, "O-O-O") {
        (false, true)
    } else if same_text(notation, "0-0") || same_text(notation, "O-O") {
        (true, false)
    } else {
        (false, false)
    }
}

/// Tells whether the whole token is the result of a game, and which.
pub fn process_end_of_game(notation: &str) -> (r: Option<EndOfGameType>)
    ensures
        r == end_of_game(notation@),
{
    proof {
        lemma_special_tokens();
    }
    if same_text(notation, "1-0") {
        Some(EndOfGameType::WhiteWin)
    } else if same_text(notation, "0-1") {
        Some(EndOfGameType::BlackWin)
    } else if same_text(notation, "½–½") {
        Some(EndOfGameType::Draw)
    } else {
        None
    }
}

// ---------------------------------------------------------------------------
// Annotations
// ---------------------------------------------------------------------------

/// The marker of a capture en passant.
pub open spec fn en_passant_marker() -> Seq<char> {
    seq!['e', '.', 'p', '.']
}

/// The annotations at the end of a text and the text before them, in the
/// order checkmate, check, en passant, rest.
///
/// As long as the text ends with the en passant marker, a `+` or a `#`, tried
/// in that order, the marker is taken off and its flag set.
pub open spec fn strip_suffixes(s: Seq<char>) -> (bool, bool, bool, Seq<char>)
    decreases s.len(),
{
    if ends_with_seq(s, en_passant_marker()) {
        let r = strip_suffixes(without_last(s, 4));
        (r.0, r.1, true, r.3)
    } else if ends_with_seq(s, seq!['+']) {
        let r = strip_suffixes(without_last(s, 1));
        (r.0, true, r.2, r.3)
    } else if ends_with_seq(s, seq!['#']) {
        let r = strip_suffixes(without_last(s, 1));
        (true, r.1, r.2, r.3)
    } else {
        (false, false, false, s)
    }
}

/// What the annotation markers are, character by character.
pub proof fn lemma_annotation_tokens()
    ensures
        "e.p."@ == en_passant_marker(),
        "+"@ == seq!['+'],
        "#"@ == seq!['#'],
{
    reveal_strlit("e.p.");
    reveal_strlit("+");
    reveal_strlit("#");
    assert("e.p."@ =~= en_passant_marker());
    assert("+"@ =~= seq!['+']);
    assert("#"@ =~= seq!['#']);
}

/// Takes the annotations off the end of the text. The result holds the flags
/// for checkmate, check and en passant, in that order, and the rest.
pub fn process_suffix<'a>(notation: &'a str) -> (r: (bool, bool, bool, &'a str))
    ensures
        r.0 == strip_suffixes(notation@).0,
        r.1 == strip_suffixes(notation@).1,
        r.2 == strip_suffixes(notation@).2,
        r.3@ == strip_suffixes(notation@).3,
{
    let mut check: bool = false;
    let mut checkmate: bool = false;
    let mut enpassant: bool = false;
    let mut working: &'a str = notation;
    let mut complete: bool = false;
    proof {
        lemma_annotation_tokens();
    }
    while !complete
        invariant
            "e.p."@ == en_passant_marker(),
            "+"@ == seq!['+'],
            "#"@ == seq!['#'],
            strip_suffixes(notation@).0 == (checkmate || strip_suffixes(working@).0),
            strip_suffixes(notation@).1 == (check || strip_suffixes(working@).1),
            strip_suffixes(notation@).2 == (enpassant || strip_suffixes(working@).2),
            strip_suffixes(notation@).3 == strip_suffixes(working@).3,
            complete ==> strip_suffixes(working@) == (false, false, false, working@),
        decreases working@.len() + (if complete { 0int } else { 1int }),
    {
        if ends_with(working, "e.p.") {
            enpassant = true;
            working = trim_last(working, 4);
        } else if ends_with(working, "+") {
            check = true;
            working = trim_last(working, 1);
        } else if ends_with(working, "#") {
            checkmate = true;
            working = trim_last(working, 1);
        } else {
            complete = true;
        }
    }
    (checkmate, check, enpassant, working)
}

// ---------------------------------------------------------------------------
// The whole token
// ---------------------------------------------------------------------------

/// Why a record is refused for want of a destination: nothing for a special
/// form or a record with both coordinates, else which of them is missing.
pub open spec fn missing_reason(v: NotationView) -> Option<Seq<char>> {
    if v.is_special() {
        None
    } else if v.to_rank is None && v.to_file is None {
        Some("Both rank and file are missing (or invalid)"@)
    } else if v.to_rank is None {
        Some("Rank is missing (or invalid)"@)
    } else if v.to_file is None {
        Some("File is missing (or invalid)"@)
    } else {
        None
    }
}

/// The reason given for a token with characters that no step accounts for.
pub open spec fn invalid_reason(s: Seq<char>) -> Seq<char> {
    "Invalid notation: "@ + s
}

/// The record for a special form: only the castling flags and the result.
pub open spec fn special_record(
    s: Seq<char>,
    king_side: bool,
    queen_side: bool,
    result: Option<EndOfGameType>,
) -> NotationView {
    NotationView {
        king_side_castle: king_side,
        queen_side_castle: queen_side,
        end_of_game: result,
        ..NotationView::blank(s)
    }
}

/// What a token decodes to: a record, or the reason for which it is refused.
///
/// A special form is taken whole. Any other token is peeled from the right:
/// annotations, promotion, destination, capture marker, piece, source. What
/// is then left must be empty, and the destination must be complete.
pub open spec fn decoded(s: Seq<char>) -> Result<NotationView, Seq<char>> {
    let sides = castling(s);
    let result = end_of_game(s);
    if sides.0 || sides.1 || result is Some {
        Ok(special_record(s, sides.0, sides.1, result))
    } else {
        let suffix = strip_suffixes(s);
        let promotion = peel_promotion(suffix.3);
        let destination = peel_coordinates(promotion.1);
        let capture = peel_capture(destination.2);
        let piece = peel_piece(capture.1);
        let source = peel_coordinates(piece.1);
        let record = NotationView {
            text: s,
            to_rank: destination.0,
            to_file: destination.1,
            piece_type: piece.0,
            capture: capture.0,
            from_rank: source.0,
            from_file: source.1,
            check: suffix.1,
            checkmate: suffix.0,
            enpassant: suffix.2,
            queen_side_castle: false,
            king_side_castle: false,
            promoted_to_piece_type: promotion.0,
            end_of_game: None,
        };
        if source.2.len() != 0 {
            Err(invalid_reason(s))
        } else {
            match missing_reason(record) {
                Some(reason) => Err(reason),
                None => Ok(record),
            }
        }
    }
}

impl NotationError {
    /// The reason together with the token it is about, for display.
    pub fn describe(&self) -> (r: String)
        ensures
            r@ == self.reason@ + " in notation: "@ + self.text@,
    {
        let r: String = self.reason.clone();
        let r: String = r.concat(" in notation: ");
        r.concat(self.text.as_str())
    }
}

impl Notation {
    /// A refusal of this record's token for the reason `why`.
    pub fn invalid(&self, why: &str) -> (r: Result<(), NotationError>)
        ensures
            r is Err,
            r.unwrap_err().reason@ == why@,
            r.unwrap_err().text@ == self.text@,
    {
        Err(NotationError { reason: String::from_str(why), text: self.text.clone() })
    }

    /// Accepts a special form, and a move whose destination is complete.
    pub fn validate_parsing(&self) -> (r: Result<(), NotationError>)
        ensures
            match missing_reason(self@) {
                Some(reason) => r is Err && r.unwrap_err().reason@ == reason
                    && r.unwrap_err().text@ == self.text@,
                None => r is Ok,
            },
    {
        if !(self.queen_side_castle || self.king_side_castle || self.end_of_game.is_some()) {
            if self.to_rank.is_none() && self.to_file.is_none() {
                self.invalid("Both rank and file are missing (or invalid)")
            } else if self.to_rank.is_none() {
                self.invalid("Rank is missing (or invalid)")
            } else if self.to_file.is_none() {
                self.invalid("File is missing (or invalid)")
            } else {
                Ok(())
            }
        } else {
            Ok(())
        }
    }
}

/// Decodes one ply.
///
/// Returns the record that `decoded` gives for the token, or the error with
/// the reason that `decoded` gives and the token itself.
pub fn decode(notation: String) -> (r: Result<Notation, NotationError>)
    ensures
        match decoded(notation@) {
            Ok(record) => r is Ok && r.unwrap()@ == record,
            Err(reason) => r is Err && r.unwrap_err().reason@ == reason
                && r.unwrap_err().text@ == notation@,
        },
        r is Ok ==> r.unwrap()@.well_formed(),
{
    let mut parsed = Notation {
        text: String::new(),
        to_rank: None,
        to_file: None,
        piece_type: None,
        capture: false,
        from_rank: None,
        from_file: None,
        check: false,
        checkmate: false,
        enpassant: false,
        queen_side_castle: false,
        king_side_castle: false,
        promoted_to_piece_type: None,
        end_of_game: None,
    };
    let (king_side_castle, queen_side_castle) = process_castling(notation.as_str());
    let end_of_game = process_end_of_game(notation.as_str());
    if king_side_castle || queen_side_castle || end_of_game.is_some() {
        parsed.king_side_castle = king_side_castle;
        parsed.queen_side_castle = queen_side_castle;
        parsed.end_of_game = end_of_game;
    } else {
        let (checkmate, check, enpassant, ex_suffix) = process_suffix(notation.as_str());
        let (promoted_to_piece_type, ex_promotion) = process_promotion(ex_suffix);
        let (rank, file, ex_destination) = process_coordinates(ex_promotion);
        let (capture, ex_capture) = process_capture(ex_destination);
        let (piece_type, ex_piece_type) = process_piece_type(ex_capture);
        let (from_rank, from_file, ex_from_coordinates) = process_coordinates(ex_piece_type);
        if char_len(ex_from_coordinates) == 0 {
            parsed.to_rank = rank;
            parsed.to_file = file;
            parsed.piece_type = piece_type;
            parsed.capture = capture;
            parsed.from_rank = from_rank;
            parsed.from_file = from_file;
            parsed.check = check;
            parsed.checkmate = checkmate;
            parsed.enpassant = enpassant;
            parsed.promoted_to_piece_type = promoted_to_piece_type;
        } else {
            let reason: String = String::from_str("Invalid notation: ").concat(notation.as_str());
            return Err(NotationError { reason, text: notation });
        }
    }
    parsed.text = notation;
    match parsed.validate_parsing() {
        Ok(()) => Ok(parsed),
        Err(err) => Err(err),
    }
}

} // verus!
