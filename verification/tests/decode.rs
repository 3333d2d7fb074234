use arena_codec::{Action, Board, Bot, DecodeError, Direction, ErrorKind, Game, Position, Team};

fn failure<T: std::fmt::Debug>(r: Result<T, DecodeError>) -> (ErrorKind, String) {
    let e = r.unwrap_err();
    (e.kind, e.text)
}

#[test]
fn direction_letters_decode_in_pairs() {
    assert_eq!(Direction::decode("U"), Ok(Direction::Up));
    assert_eq!(Direction::decode("N"), Ok(Direction::Up));
    assert_eq!(Direction::decode("D"), Ok(Direction::Down));
    assert_eq!(Direction::decode("S"), Ok(Direction::Down));
    assert_eq!(Direction::decode("L"), Ok(Direction::Left));
    assert_eq!(Direction::decode("W"), Ok(Direction::Left));
    assert_eq!(Direction::decode("R"), Ok(Direction::Right));
    assert_eq!(Direction::decode("E"), Ok(Direction::Right));
}

#[test]
fn direction_rejects_other_tokens() {
    assert_eq!(failure(Direction::decode("X")), (ErrorKind::UnknownDirection, "X".to_string()));
    assert_eq!(failure(Direction::decode("")), (ErrorKind::UnknownDirection, "".to_string()));
    assert_eq!(failure(Direction::decode("u")), (ErrorKind::UnknownDirection, "u".to_string()));
    assert_eq!(failure(Direction::decode("UP")), (ErrorKind::UnknownDirection, "UP".to_string()));
}

#[test]
fn action_decodes_every_form() {
    assert_eq!(Action::decode("D"), Ok(Action::Defend));
    assert_eq!(Action::decode("S"), Ok(Action::SelfDestruct));
    assert_eq!(Action::decode("A-U"), Ok(Action::Attack(Direction::Up)));
    assert_eq!(Action::decode("A-S"), Ok(Action::Attack(Direction::Down)));
    assert_eq!(Action::decode("M-E"), Ok(Action::Move(Direction::Right)));
    assert_eq!(Action::decode("M-L"), Ok(Action::Move(Direction::Left)));
}

#[test]
fn action_with_wrong_number_of_parts_is_malformed() {
    assert_eq!(failure(Action::decode("A")), (ErrorKind::MalformedAction, "A".to_string()));
    assert_eq!(failure(Action::decode("M")), (ErrorKind::MalformedAction, "M".to_string()));
    assert_eq!(failure(Action::decode("A-U-U")), (ErrorKind::MalformedAction, "A-U-U".to_string()));
    assert_eq!(failure(Action::decode("D-U")), (ErrorKind::MalformedAction, "D-U".to_string()));
    assert_eq!(failure(Action::decode("S-")), (ErrorKind::MalformedAction, "S-".to_string()));
}

#[test]
fn action_with_unknown_tag_is_unknown() {
    assert_eq!(failure(Action::decode("X")), (ErrorKind::UnknownAction, "X".to_string()));
    assert_eq!(failure(Action::decode("X-U")), (ErrorKind::UnknownAction, "X-U".to_string()));
    assert_eq!(failure(Action::decode("")), (ErrorKind::UnknownAction, "".to_string()));
    assert_eq!(failure(Action::decode("AU")), (ErrorKind::UnknownAction, "AU".to_string()));
}

#[test]
fn action_reports_a_bad_direction() {
    assert_eq!(failure(Action::decode("A-X")), (ErrorKind::UnknownDirection, "X".to_string()));
    assert_eq!(failure(Action::decode("M-")), (ErrorKind::UnknownDirection, "".to_string()));
}

#[test]
fn position_accepts_what_an_unsigned_parse_accepts() {
    assert_eq!(Position::decode("0:0"), Ok(Position { x: 0, y: 0 }));
    assert_eq!(Position::decode("007:1"), Ok(Position { x: 7, y: 1 }));
    assert_eq!(Position::decode("+5:+3"), Ok(Position { x: 5, y: 3 }));
    assert_eq!(Position::decode("1000:20"), Ok(Position { x: 1000, y: 20 }));
}

#[test]
fn position_takes_the_whole_range() {
    let token = format!("{}:{}", usize::MAX, usize::MAX - 1);
    assert_eq!(Position::decode(&token), Ok(Position { x: usize::MAX, y: usize::MAX - 1 }));
}

#[test]
fn position_rejects_a_number_too_large() {
    let token = format!("{}0:1", usize::MAX);
    assert_eq!(failure(Position::decode(&token)), (ErrorKind::InvalidPosition, token.clone()));
    let token = "1:340282366920938463463374607431768211456";
    assert_eq!(failure(Position::decode(token)), (ErrorKind::InvalidPosition, token.to_string()));
}

#[test]
fn position_rejects_malformed_tokens() {
    for token in ["", ":", "1", "1:", ":1", "1:2:3", "-1:2", "1:-2", "a:b", "1 :2", "1:2 ", "+:1", "1:+", "1;2", "1:2x"] {
        assert_eq!(
            failure(Position::decode(token)),
            (ErrorKind::InvalidPosition, token.to_string()),
            "token {:?}",
            token
        );
    }
}

#[test]
fn bot_with_invalid_health_names_the_health() {
    assert_eq!(failure(Bot::decode("F-12:6-xx")), (ErrorKind::InvalidHealth, "xx".to_string()));
    assert_eq!(failure(Bot::decode("F-12:6-256")), (ErrorKind::InvalidHealth, "256".to_string()));
    assert_eq!(failure(Bot::decode("F-12:6-")), (ErrorKind::InvalidHealth, "".to_string()));
    assert_eq!(failure(Bot::decode("F-12:6-1.5")), (ErrorKind::InvalidHealth, "1.5".to_string()));
}

#[test]
fn bot_without_health_is_malformed() {
    assert!(Bot::decode("F-12:6").is_err());
    assert_eq!(failure(Bot::decode("F-12:6")), (ErrorKind::MalformedBot, "F-12:6".to_string()));
}

#[test]
fn bot_with_other_than_three_parts_is_malformed() {
    for token in ["", "F", "F-1:1-1-1", "F-1:1-1-", "F--1:1-1", "F-1:-1-1", "X", "X-1:1-1-1"] {
        assert_eq!(
            failure(Bot::decode(token)),
            (ErrorKind::MalformedBot, token.to_string()),
            "token {:?}",
            token
        );
    }
}

#[test]
fn bot_with_unknown_team_names_the_marker() {
    assert_eq!(failure(Bot::decode("X-1:1-1")), (ErrorKind::UnknownTeam, "X".to_string()));
    assert_eq!(failure(Bot::decode("f-1:1-1")), (ErrorKind::UnknownTeam, "f".to_string()));
    assert_eq!(failure(Bot::decode("-1:1-1")), (ErrorKind::UnknownTeam, "".to_string()));
    assert_eq!(failure(Bot::decode("FE-1:1-1")), (ErrorKind::UnknownTeam, "FE".to_string()));
}

#[test]
fn bot_with_invalid_position_names_the_position() {
    assert_eq!(failure(Bot::decode("F-11-1")), (ErrorKind::InvalidPosition, "11".to_string()));
    assert_eq!(failure(Bot::decode("E-1:2:3-5")), (ErrorKind::InvalidPosition, "1:2:3".to_string()));
    assert_eq!(failure(Bot::decode("E-a:2-5")), (ErrorKind::InvalidPosition, "a:2".to_string()));
}

#[test]
fn bot_failures_are_reported_team_first() {
    assert_eq!(failure(Bot::decode("X-bad-bad")), (ErrorKind::UnknownTeam, "X".to_string()));
    assert_eq!(failure(Bot::decode("F-bad-bad")), (ErrorKind::InvalidPosition, "bad".to_string()));
}

#[test]
fn bot_health_bounds() {
    assert_eq!(Bot::decode("E-1:1-0").unwrap().health, 0);
    assert_eq!(Bot::decode("E-1:1-255").unwrap().health, 255);
    assert_eq!(Bot::decode("E-1:1-+7").unwrap().health, 7);
    assert_eq!(Bot::decode("E-1:1-0000255").unwrap().health, 255);
}

#[test]
fn decoded_bots_carry_no_action() {
    let board = Board::decode("F-1:1-1,E-2:2-2,F-3:3-3").unwrap();
    assert_eq!(board.0.len(), 3);
    for bot in &board.0 {
        assert_eq!(bot.action, None);
    }
}

#[test]
fn board_keeps_order_and_duplicates() {
    let board = Board::decode("F-1:1-1,F-1:1-1,E-1:1-9").unwrap();
    let twin = Bot { team: Team::Friendly, position: Position { x: 1, y: 1 }, health: 1, action: None };
    let foe = Bot { team: Team::Enemy, position: Position { x: 1, y: 1 }, health: 9, action: None };
    assert_eq!(board, Board(vec![twin, twin, foe]));
}

#[test]
fn board_fails_with_the_first_bad_record() {
    assert_eq!(
        failure(Board::decode("F-1:1-1,X-2:2-2,F-3:3-zz")),
        (ErrorKind::UnknownTeam, "X".to_string())
    );
    assert_eq!(
        failure(Board::decode("F-1:1-1,F-2:2-2,F-3:3-zz")),
        (ErrorKind::InvalidHealth, "zz".to_string())
    );
}

#[test]
fn board_has_no_empty_record() {
    assert_eq!(failure(Board::decode("")), (ErrorKind::MalformedBot, "".to_string()));
    assert_eq!(failure(Board::decode("F-1:1-1,")), (ErrorKind::MalformedBot, "".to_string()));
    assert_eq!(failure(Board::decode(",F-1:1-1")), (ErrorKind::MalformedBot, "".to_string()));
}

#[test]
fn game_decodes_the_documented_line() {
    let game = Game::decode("3,100,2#F-12:6-100,E-9:12-90#123").unwrap();
    assert_eq!(game.turn, (3, 100));
    assert_eq!(game.player_num, 2);
    assert_eq!(game.user_data, "123");
    assert_eq!(game.board.0.len(), 2);
    assert_eq!(
        game.board.0[0],
        Bot { team: Team::Friendly, position: Position { x: 12, y: 6 }, health: 100, action: None }
    );
    assert_eq!(
        game.board.0[1],
        Bot { team: Team::Enemy, position: Position { x: 9, y: 12 }, health: 90, action: None }
    );
}

#[test]
fn game_drops_segments_after_the_third() {
    let game = Game::decode("1,2,3#F-1:1-1#data#extra").unwrap();
    assert_eq!(game.user_data, "data");
    assert_eq!(game.turn, (1, 2));
    assert_eq!(game.player_num, 3);
    assert_eq!(game, Game::decode("1,2,3#F-1:1-1#data").unwrap());
    assert_eq!(game, Game::decode("1,2,3#F-1:1-1#data#extra#more#").unwrap());
}

#[test]
fn game_ignores_fields_after_the_third() {
    let game = Game::decode("1,2,3,junk,#E-0:0-0#").unwrap();
    assert_eq!(game.turn, (1, 2));
    assert_eq!(game.player_num, 3);
    assert_eq!(game.user_data, "");
}

#[test]
fn game_with_too_few_segments_is_malformed() {
    for line in ["", "1,2,3", "1,2,3#F-1:1-1", "#", "x#y"] {
        assert_eq!(
            failure(Game::decode(line)),
            (ErrorKind::MalformedGame, line.to_string()),
            "line {:?}",
            line
        );
    }
}

#[test]
fn game_reports_missing_fields() {
    assert_eq!(
        failure(Game::decode("7#F-1:1-1#x")),
        (ErrorKind::MissingTotalTurns, "7".to_string())
    );
    assert_eq!(
        failure(Game::decode("7,9#F-1:1-1#x")),
        (ErrorKind::MissingPlayerNum, "7,9".to_string())
    );
}

#[test]
fn game_reports_invalid_numbers() {
    assert_eq!(failure(Game::decode("#F-1:1-1#x")), (ErrorKind::InvalidNumber, "".to_string()));
    assert_eq!(failure(Game::decode("a,2,3#F-1:1-1#x")), (ErrorKind::InvalidNumber, "a".to_string()));
    assert_eq!(failure(Game::decode("1,b,3#F-1:1-1#x")), (ErrorKind::InvalidNumber, "b".to_string()));
    assert_eq!(failure(Game::decode("1,2,c#F-1:1-1#x")), (ErrorKind::InvalidNumber, "c".to_string()));
    assert_eq!(failure(Game::decode("1,,3#F-1:1-1#x")), (ErrorKind::InvalidNumber, "".to_string()));
    assert_eq!(failure(Game::decode("-1,2,3#F-1:1-1#x")), (ErrorKind::InvalidNumber, "-1".to_string()));
    assert_eq!(
        failure(Game::decode("4294967296,2,3#F-1:1-1#x")),
        (ErrorKind::InvalidNumber, "4294967296".to_string())
    );
    assert_eq!(
        failure(Game::decode("1,2,256#F-1:1-1#x")),
        (ErrorKind::InvalidNumber, "256".to_string())
    );
}

#[test]
fn game_number_bounds() {
    let game = Game::decode("4294967295,0,255#E-0:0-0#").unwrap();
    assert_eq!(game.turn, (4294967295, 0));
    assert_eq!(game.player_num, 255);
}

#[test]
fn game_reads_a_bad_number_before_a_missing_field() {
    assert_eq!(failure(Game::decode("x#F-1:1-1#d")), (ErrorKind::InvalidNumber, "x".to_string()));
    assert_eq!(failure(Game::decode("1,y#F-1:1-1#d")), (ErrorKind::InvalidNumber, "y".to_string()));
}

#[test]
fn game_reports_game_data_before_board() {
    assert_eq!(failure(Game::decode("1,2#bad#d")), (ErrorKind::MissingPlayerNum, "1,2".to_string()));
    assert_eq!(failure(Game::decode("1,2,3#bad#d")), (ErrorKind::MalformedBot, "bad".to_string()));
    assert_eq!(failure(Game::decode("1,2,3##d")), (ErrorKind::MalformedBot, "".to_string()));
}

#[test]
fn game_propagates_board_failures() {
    assert_eq!(
        failure(Game::decode("1,2,3#F-1:1-1,Q-1:1-1#d")),
        (ErrorKind::UnknownTeam, "Q".to_string())
    );
    assert_eq!(
        failure(Game::decode("1,2,3#F-1:1-1,E-1-1#d")),
        (ErrorKind::InvalidPosition, "1".to_string())
    );
    assert_eq!(
        failure(Game::decode("1,2,3#F-1:1-999#d")),
        (ErrorKind::InvalidHealth, "999".to_string())
    );
}

#[test]
fn user_data_is_kept_as_it_stands() {
    assert_eq!(Game::decode("1,2,3#E-0:0-0#a,b-c:d e").unwrap().user_data, "a,b-c:d e");
    assert_eq!(Game::decode("1,2,3#E-0:0-0#").unwrap().user_data, "");
    assert_eq!(Game::decode("1,2,3#E-0:0-0#h\u{e9}llo \u{2713}").unwrap().user_data, "h\u{e9}llo \u{2713}");
}

#[test]
fn failures_are_cut_out_by_characters() {
    assert_eq!(
        failure(Game::decode("1,2,3#F-1:1-1,F-1:1-\u{e9}\u{2713}#\u{e9}")),
        (ErrorKind::InvalidHealth, "\u{e9}\u{2713}".to_string())
    );
    assert_eq!(
        failure(Bot::decode("\u{1F916}-1:1-1")),
        (ErrorKind::UnknownTeam, "\u{1F916}".to_string())
    );
    assert_eq!(
        failure(Position::decode("\u{661}:\u{662}")),
        (ErrorKind::InvalidPosition, "\u{661}:\u{662}".to_string())
    );
}
