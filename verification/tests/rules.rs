use chess_notation::game::game::Game;
use chess_notation::game::game_state::GameState;
use chess_notation::game::moving::MoveError;
use chess_notation::game::notation::decode;
use chess_notation::game::rules::rule::Rule;
use chess_notation::game::rules::{
    build_rules, rules_1_2_who_s_go_is_it, rules_1_3_has_a_move_been_made,
    rules_1_4_cant_move_after_check, rules_1_4_cant_move_after_checkmate, rules_1_5_stalemate,
    rules_2_1_the_board, validate_all, validate_move, AnyRule,
};

const ALL_STATES: [GameState; 7] = [
    GameState::NotStarted,
    GameState::Started,
    GameState::BlackCheckmate,
    GameState::WhiteCheckmate,
    GameState::Stalemate,
    GameState::BlackResigned,
    GameState::WhiteResigned,
];

fn game_in(state: GameState) -> Game {
    Game {
        moves: [].to_vec(),
        state,
    }
}

fn validate_for_game(configure_expected: impl Fn(&mut Game)) -> Result<(), MoveError> {
    let mut expected = Game {
        moves: [].to_vec(),
        state: GameState::NotStarted,
    };
    configure_expected(&mut expected);
    (rules_1_4_cant_move_after_check::Implementation {}).validate(&expected, "".to_string())
}

#[test]
fn white_can_go_first() {
    let game = Game::new();
    let actual = rules_1_2_who_s_go_is_it::validate(&game, "e4".to_string());
    assert_eq!(actual.ok(), Some(()));
}

#[test]
fn rules_1_4_cant_move_after_check_move_test() {
    for state in ALL_STATES.iter() {
        let actual = validate_for_game(|game| {
            game.state = *state;
        });
        match *state {
            GameState::NotStarted | GameState::Started => assert!(actual.is_ok()),
            GameState::BlackCheckmate
            | GameState::WhiteCheckmate
            | GameState::Stalemate
            | GameState::WhiteResigned
            | GameState::BlackResigned => {
                assert!(
                    actual.is_err(),
                    "Failed to return an error for {:?}",
                    *state
                );
                assert_eq!(
                    actual.err().unwrap().reason,
                    "Attempt to move when game is ended"
                );
            }
        }
    }
}

#[test]
fn cant_move_after_white_checkmate() {
    let game = Game {
        moves: [].to_vec(),
        state: GameState::WhiteCheckmate,
    };
    let actual =
        (rules_1_4_cant_move_after_checkmate::Implementation {}).validate(&game, "".to_string());
    assert_eq!(
        actual.err().unwrap().reason,
        "Attempt to move after checkmate"
    );
}

#[test]
fn cant_move_after_black_checkmate() {
    let game = Game {
        moves: [].to_vec(),
        state: GameState::BlackCheckmate,
    };
    let actual =
        (rules_1_4_cant_move_after_checkmate::Implementation {}).validate(&game, "".to_string());
    assert_eq!(
        actual.err().unwrap().reason,
        "Attempt to move after checkmate"
    );
}

#[test]
fn rules_1_5_stalemate_move_test() {
    let game = Game {
        moves: [].to_vec(),
        state: GameState::Stalemate,
    };
    let actual = (rules_1_5_stalemate::Implementation {}).validate(&game, "".to_string());
    assert_eq!(
        actual.err().unwrap().reason,
        "Attempt to move after stalemate"
    );
}

#[test]
fn a_move_must_be_valid_within_the_confines_of_the_board() {
    let game = Game {
        moves: [].to_vec(),
        state: GameState::Stalemate,
    };
    let illegal_move = "i9".to_string(); // pawn to i9
    let actual = (rules_2_1_the_board::Implementation {}).validate(&game, illegal_move);
    assert_eq!(
        actual.err().unwrap().reason,
        "Move is outside the confines of the chess board"
    );
}

// every state, every rule on a game that has ended, whatever the move

#[test]
fn no_rule_on_an_ended_game_lets_a_move_follow_the_end() {
    for state in ALL_STATES.iter() {
        for text in ["", "e4", "i9", "O-O"].iter() {
            let game = game_in(*state);
            let ended = rules_1_4_cant_move_after_check::Implementation::new()
                .validate(&game, text.to_string());
            let checkmate = rules_1_4_cant_move_after_checkmate::Implementation::new()
                .validate(&game, text.to_string());
            let stalemate =
                rules_1_5_stalemate::Implementation::new().validate(&game, text.to_string());
            match *state {
                GameState::NotStarted | GameState::Started => {
                    assert_eq!(ended, Ok(()));
                    assert_eq!(checkmate, Ok(()));
                    assert_eq!(stalemate, Ok(()));
                }
                _ => {
                    assert_eq!(
                        ended.err().unwrap().reason,
                        "Attempt to move when game is ended"
                    );
                    assert_eq!(
                        checkmate.err().unwrap().reason,
                        "Attempt to move after checkmate"
                    );
                    assert_eq!(
                        stalemate.err().unwrap().reason,
                        "Attempt to move after stalemate"
                    );
                }
            }
        }
    }
}

#[test]
fn game_state_tells_whether_the_game_has_ended() {
    assert!(!GameState::NotStarted.is_ended());
    assert!(!GameState::Started.is_ended());
    assert!(GameState::Stalemate.is_ended());
    assert!(GameState::WhiteResigned.is_ended());
    assert!(GameState::BlackResigned.is_ended());
    assert!(GameState::WhiteCheckmate.is_ended());
    assert!(GameState::BlackCheckmate.is_ended());
}

#[test]
fn placeholder_rules_accept_in_every_state() {
    for state in ALL_STATES.iter() {
        let game = game_in(*state);
        assert_eq!(
            rules_1_2_who_s_go_is_it::Implementation::new().validate(&game, "i9".to_string()),
            Ok(())
        );
        assert_eq!(
            rules_1_2_who_s_go_is_it::validate(&game, "".to_string()),
            Ok(())
        );
        assert_eq!(
            rules_1_3_has_a_move_been_made::Implementation::new()
                .validate(&game, "i9".to_string()),
            Ok(())
        );
    }
}

// the rule of the board against the decoder, text by text

const TEXTS: [&str; 30] = [
    "", "4", "a", "q", "9", "0", "!4", "94", "i4", "i9", "Se4", "iRa1", "9Ra1", "i9Ra1", "xO-O-O",
    "e8=X", "e4", "a1", "h8", "Kxa1", "c2Qa1", "e8=Q", "a1+", "a1#", "a2e.p.", "O-O", "0-0-0",
    "1-0", "0-1", "½–½",
];

#[test]
fn board_rule_accepts_exactly_what_decodes() {
    for state in ALL_STATES.iter() {
        let game = game_in(*state);
        for text in TEXTS.iter() {
            let decoded = decode(text.to_string());
            let verdict =
                rules_2_1_the_board::Implementation::new().validate(&game, text.to_string());
            match decoded {
                Ok(_) => assert_eq!(verdict, Ok(())),
                Err(_) => assert_eq!(
                    verdict,
                    Err(MoveError {
                        reason: "Move is outside the confines of the chess board".to_string()
                    })
                ),
            }
        }
    }
}

#[test]
fn board_rule_refuses_each_text_that_the_decoder_refuses() {
    let game = Game::new();
    for text in [
        "", "4", "a", "q", "9", "0", "!4", "94", "i4", "Se4", "iRa1", "9Ra1", "i9Ra1", "xO-O-O",
    ]
    .iter()
    {
        assert!(decode(text.to_string()).is_err());
        let verdict = rules_2_1_the_board::Implementation::new().validate(&game, text.to_string());
        assert_eq!(
            verdict.err().unwrap().reason,
            "Move is outside the confines of the chess board"
        );
    }
}

// the rules in their order

#[test]
fn build_rules_gives_the_five_rules_in_order() {
    let rules = build_rules();
    assert_eq!(rules.len(), 5);
    assert!(matches!(rules[0], AnyRule::WhoseGo(_)));
    assert!(matches!(rules[1], AnyRule::MoveMade(_)));
    assert!(matches!(rules[2], AnyRule::Checkmate(_)));
    assert!(matches!(rules[3], AnyRule::Stalemate(_)));
    assert!(matches!(rules[4], AnyRule::Board(_)));
}

#[test]
fn validate_all_passes_a_move_that_every_rule_accepts() {
    let rules = build_rules();
    assert_eq!(validate_all(&rules, &Game::new(), "e4".to_string()), Ok(()));
    assert_eq!(
        validate_all(&rules, &game_in(GameState::Started), "O-O".to_string()),
        Ok(())
    );
}

#[test]
fn validate_all_with_no_rule_passes_everything() {
    let rules: Vec<AnyRule> = vec![];
    assert_eq!(
        validate_all(&rules, &game_in(GameState::Stalemate), "i9".to_string()),
        Ok(())
    );
}

#[test]
fn validate_all_gives_the_reason_of_the_first_rule_that_refuses() {
    let game = game_in(GameState::Stalemate);
    let rules = vec![
        AnyRule::MoveMade(rules_1_3_has_a_move_been_made::Implementation::new()),
        AnyRule::Board(rules_2_1_the_board::Implementation::new()),
        AnyRule::Stalemate(rules_1_5_stalemate::Implementation::new()),
        AnyRule::GameEnded(rules_1_4_cant_move_after_check::Implementation::new()),
    ];
    assert_eq!(
        validate_all(&rules, &game, "i9".to_string()).err().unwrap().reason,
        "Move is outside the confines of the chess board"
    );
    assert_eq!(
        validate_all(&rules, &game, "e4".to_string()).err().unwrap().reason,
        "Attempt to move after stalemate"
    );
    let rules = vec![
        AnyRule::GameEnded(rules_1_4_cant_move_after_check::Implementation::new()),
        AnyRule::Stalemate(rules_1_5_stalemate::Implementation::new()),
    ];
    assert_eq!(
        validate_all(&rules, &game, "e4".to_string()).err().unwrap().reason,
        "Attempt to move when game is ended"
    );
}

#[test]
fn any_rule_judges_as_the_rule_it_holds() {
    let game = game_in(GameState::WhiteResigned);
    assert_eq!(
        AnyRule::WhoseGo(rules_1_2_who_s_go_is_it::Implementation::new())
            .validate(&game, "e4".to_string()),
        Ok(())
    );
    assert_eq!(
        AnyRule::Checkmate(rules_1_4_cant_move_after_checkmate::Implementation::new())
            .validate(&game, "e4".to_string())
            .err()
            .unwrap()
            .reason,
        "Attempt to move after checkmate"
    );
    assert_eq!(
        AnyRule::Board(rules_2_1_the_board::Implementation::new())
            .validate(&Game::new(), "i9".to_string())
            .err()
            .unwrap()
            .reason,
        "Move is outside the confines of the chess board"
    );
}

#[test]
fn validate_move_applies_the_standard_rules() {
    assert_eq!(validate_move(&Game::new(), "e4".to_string()), Ok(()));
    assert_eq!(
        validate_move(&Game::new(), "i9".to_string()).err().unwrap().reason,
        "Move is outside the confines of the chess board"
    );
    for state in ALL_STATES.iter() {
        let verdict = validate_move(&game_in(*state), "i9".to_string());
        match *state {
            GameState::NotStarted | GameState::Started => assert_eq!(
                verdict.err().unwrap().reason,
                "Move is outside the confines of the chess board"
            ),
            _ => assert_eq!(
                verdict.err().unwrap().reason,
                "Attempt to move after checkmate"
            ),
        }
    }
}

// a game as a value

#[test]
fn new_game_has_not_started_and_has_no_moves() {
    let game = Game::new();
    assert_eq!(game.state, GameState::NotStarted);
    assert!(game.moves.is_empty());
}

#[test]
fn make_move_adds_the_move_and_leaves_the_game_as_it_was() {
    let game = Game::new();
    let after_one = game.make_move("e4".to_string()).unwrap();
    let after_two = after_one.make_move("e5".to_string()).unwrap();
    assert!(game.moves.is_empty());
    assert_eq!(after_one.moves, vec!["e4".to_string()]);
    assert_eq!(after_two.moves, vec!["e4".to_string(), "e5".to_string()]);
    assert_eq!(after_two.state, GameState::NotStarted);
}

#[test]
fn make_move_keeps_the_state() {
    let game = game_in(GameState::Stalemate);
    let next = game.make_move("not a move".to_string()).unwrap();
    assert_eq!(next.state, GameState::Stalemate);
    assert_eq!(next.moves, vec!["not a move".to_string()]);
}
