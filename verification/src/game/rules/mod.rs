//! The rules that a move must pass before it is attempted, and their
//! application in a fixed order.

use vstd::prelude::*;
use crate::game::game::{Game, GameView};
use crate::game::game_state::GameState;
use crate::game::moving::MoveError;
use crate::game::notation::decoded;
use crate::game::rules::rule::Rule;

pub mod rule;
pub mod rules_1_2_who_s_go_is_it;
pub mod rules_1_3_has_a_move_been_made;
pub mod rules_1_4_cant_move_after_check;
pub mod rules_1_4_cant_move_after_checkmate;
pub mod rules_1_5_stalemate;
pub mod rules_2_1_the_board;

verus! {

/// Any one of the rules, so that rules of different kinds can stand in one
/// list.
pub enum AnyRule {
    WhoseGo(rules_1_2_who_s_go_is_it::Implementation),
    MoveMade(rules_1_3_has_a_move_been_made::Implementation),
    GameEnded(rules_1_4_cant_move_after_check::Implementation),
    Checkmate(rules_1_4_cant_move_after_checkmate::Implementation),
    Stalemate(rules_1_5_stalemate::Implementation),
    Board(rules_2_1_the_board::Implementation),
}

impl Rule for AnyRule {
    /// The verdict of the rule that the value holds.
    open spec fn verdict(&self, game: GameView, next_move: Seq<char>) -> Option<Seq<char>> {
        match self {
            AnyRule::WhoseGo(rule) => rule.verdict(game, next_move),
            AnyRule::MoveMade(rule) => rule.verdict(game, next_move),
            AnyRule::GameEnded(rule) => rule.verdict(game, next_move),
            AnyRule::Checkmate(rule) => rule.verdict(game, next_move),
            AnyRule::Stalemate(rule) => rule.verdict(game, next_move),
            AnyRule::Board(rule) => rule.verdict(game, next_move),
        }
    }

    fn validate(&self, game: &Game, next_move: String) -> (r: Result<(), MoveError>) {
        match self {
            AnyRule::WhoseGo(rule) => rule.validate(game, next_move),
            AnyRule::MoveMade(rule) => rule.validate(game, next_move),
            AnyRule::GameEnded(rule) => rule.validate(game, next_move),
            AnyRule::Checkmate(rule) => rule.validate(game, next_move),
            AnyRule::Stalemate(rule) => rule.validate(game, next_move),
            AnyRule::Board(rule) => rule.validate(game, next_move),
        }
    }
}

/// The rules in the order in which they are applied: whose go it is, whether
/// a move has been made, no move after checkmate, no move after a draw, and
/// the confines of the board.
pub open spec fn standard_rules() -> Seq<AnyRule> {
    seq![
        AnyRule::WhoseGo(rules_1_2_who_s_go_is_it::Implementation {  }),
        AnyRule::MoveMade(rules_1_3_has_a_move_been_made::Implementation {  }),
        AnyRule::Checkmate(rules_1_4_cant_move_after_checkmate::Implementation {  }),
        AnyRule::Stalemate(rules_1_5_stalemate::Implementation {  }),
        AnyRule::Board(rules_2_1_the_board::Implementation {  }),
    ]
}

/// The rules in the order in which they are applied.
pub fn build_rules() -> (r: Vec<AnyRule>)
    ensures
        r@ == standard_rules(),
{
    let mut rules: Vec<AnyRule> = Vec::new();
    rules.push(AnyRule::WhoseGo(rules_1_2_who_s_go_is_it::Implementation::new()));
    rules.push(AnyRule::MoveMade(rules_1_3_has_a_move_been_made::Implementation::new()));
    rules.push(AnyRule::Checkmate(rules_1_4_cant_move_after_checkmate::Implementation::new()));
    rules.push(AnyRule::Stalemate(rules_1_5_stalemate::Implementation::new()));
    rules.push(AnyRule::Board(rules_2_1_the_board::Implementation::new()));
    assert(rules@ =~= standard_rules());
    rules
}

/// Every rule of the list accepts the move.
pub open spec fn all_accept(rules: Seq<AnyRule>, game: GameView, next_move: Seq<char>) -> bool {
    forall|i: int| 0 <= i < rules.len() ==> (#[trigger] rules[i]).verdict(game, next_move) is None
}

/// The rule at `at` is the first of the list to refuse the move.
pub open spec fn first_refusal(
    rules: Seq<AnyRule>,
    game: GameView,
    next_move: Seq<char>,
    at: int,
) -> bool {
    &&& 0 <= at < rules.len()
    &&& rules[at].verdict(game, next_move) is Some
    &&& all_accept(rules.take(at), game, next_move)
}

/// Applies the rules in their order and stops at the first that refuses.
///
/// The move passes where every rule accepts it. Otherwise the error carries
/// the reason of the first rule that refuses, whatever the later rules say.
pub fn validate_all(rules: &Vec<AnyRule>, game: &Game, next_move: String) -> (r: Result<
    (),
    MoveError,
>)
    ensures
        r is Ok <==> all_accept(rules@, game@, next_move@),
        r is Err ==> exists|at: int|
            first_refusal(rules@, game@, next_move@, at) && rules@[at].verdict(
                game@,
                next_move@,
            ) == Some(r.unwrap_err().reason@),
{
    let mut i: usize = 0;
    while i < rules.len()
        invariant
            i <= rules.len(),
            all_accept(rules@.take(i as int), game@, next_move@),
        decreases rules.len() - i,
    {
        match rules[i].validate(game, next_move.clone()) {
            Ok(()) => {},
            Err(e) => {
                assert(first_refusal(rules@, game@, next_move@, i as int));
                assert(!all_accept(rules@, game@, next_move@));
                return Err(e);
            },
        }
        assert(all_accept(rules@.take(i + 1), game@, next_move@)) by {
            assert forall|j: int| 0 <= j < i + 1 implies (#[trigger] rules@.take(i + 1)[j]).verdict(
                game@,
                next_move@,
            ) is None by {
                if j < i {
                    assert(rules@.take(i + 1)[j] == rules@.take(i as int)[j]);
                }
            }
        }
        i += 1;
    }
    assert(rules@.take(i as int) =~= rules@);
    Ok(())
}

/// What the standard rules come to: no move once the game has ended, and
/// before that exactly the moves whose text decodes.
pub open spec fn standard_verdict(game: GameView, next_move: Seq<char>) -> Option<Seq<char>> {
    if game.state.is_ended() {
        Some("Attempt to move after checkmate"@)
    } else if decoded(next_move) is Err {
        Some("Move is outside the confines of the chess board"@)
    } else {
        None
    }
}

/// Judges a move by the standard rules, in their order.
pub fn validate_move(game: &Game, next_move: String) -> (r: Result<(), MoveError>)
    ensures
        match standard_verdict(game@, next_move@) {
            None => r is Ok,
            Some(reason) => r is Err && r.unwrap_err().reason@ == reason,
        },
{
    let rules = build_rules();
    let r = validate_all(&rules, game, next_move);
    proof {
        let rs = standard_rules();
        assert(rs.len() == 5);
        assert(rs[0].verdict(game@, next_move@) is None);
        assert(rs[1].verdict(game@, next_move@) is None);
        if r is Err {
            let at = choose|at: int|
                first_refusal(rs, game@, next_move@, at) && rs[at].verdict(game@, next_move@)
                    == Some(r.unwrap_err().reason@);
            if at == 3 {
                assert(rs.take(3)[2] == rs[2]);
            }
            if at == 4 {
                assert(rs.take(4)[2] == rs[2]);
            }
        } else {
            assert(rs[2].verdict(game@, next_move@) is None);
            assert(rs[4].verdict(game@, next_move@) is None);
        }
    }
    r
}

/// The three rules on a game that has ended refuse every move in each of the
/// five states that end a game, each with its own fixed reason, and accept
/// every move in a game that has not started or is under way. The text of the
/// move plays no part.
pub proof fn lemma_no_move_after_the_end(game: GameView, next_move: Seq<char>)
    ensures
        (game.state == GameState::Stalemate || game.state == GameState::WhiteResigned || game.state
            == GameState::BlackResigned || game.state == GameState::WhiteCheckmate || game.state
            == GameState::BlackCheckmate) ==> {
            &&& (rules_1_4_cant_move_after_check::Implementation {  }).verdict(game, next_move)
                == Some("Attempt to move when game is ended"@)
            &&& (rules_1_4_cant_move_after_checkmate::Implementation {  }).verdict(game, next_move)
                == Some("Attempt to move after checkmate"@)
            &&& (rules_1_5_stalemate::Implementation {  }).verdict(game, next_move) == Some(
                "Attempt to move after stalemate"@,
            )
        },
        (game.state == GameState::NotStarted || game.state == GameState::Started) ==> {
            &&& (rules_1_4_cant_move_after_check::Implementation {  }).verdict(game, next_move)
                is None
            &&& (rules_1_4_cant_move_after_checkmate::Implementation {  }).verdict(game, next_move)
                is None
            &&& (rules_1_5_stalemate::Implementation {  }).verdict(game, next_move) is None
        },
{
}

/// The rule of the board accepts a move exactly where its text decodes, and
/// refuses every other with one fixed reason, whatever the decoder's own
/// reason and whatever the game.
pub proof fn lemma_board_rule_follows_decoder(game: GameView, next_move: Seq<char>)
    ensures
        (rules_2_1_the_board::Implementation {  }).verdict(game, next_move) is None <==> decoded(
            next_move,
        ) is Ok,
        decoded(next_move) is Err ==> (rules_2_1_the_board::Implementation {  }).verdict(
            game,
            next_move,
        ) == Some("Move is outside the confines of the chess board"@),
{
}

} // verus!
