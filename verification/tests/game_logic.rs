use stratego::constants::MoveType;
use stratego::game_logic::{check_move, will_violate_two_square_rule};
use stratego::models::{Cell, Game, MoveRecord, Piece, Position};

fn make_game() -> Game {
    let mut game = Game {
        id: "test".into(),
        red_hash: "red123".into(),
        blue_hash: "blu123".into(),
        join_hash: "join12".into(),
        board: Game::empty_board(),
        red_setup: None,
        blue_setup: None,
        moves: vec![],
        turn: false, // red's turn
        private: true,
        game_state: 1,
        created: String::new(),
        modified: String::new(),
    };
    game.set_blocks();
    game
}

// Use column 0 for most tests to avoid water blocks at (2,4),(3,4),(2,5),(3,5) etc.

#[test]
fn test_basic_move() {
    let mut game = make_game();
    game.board[7][0] = Cell::Piece(Piece::new("5", 0));
    let result = check_move(&game, &Position { x: 0, y: 7 }, &Position { x: 0, y: 6 });
    assert_eq!(result.unwrap(), MoveType::Move);
}

#[test]
fn test_cannot_move_bomb() {
    let mut game = make_game();
    game.board[7][0] = Cell::Piece(Piece::new("B", 0));
    let result = check_move(&game, &Position { x: 0, y: 7 }, &Position { x: 0, y: 6 });
    assert!(result.is_err());
    assert_eq!(result.unwrap_err().0, "Bombs cannot be moved.");
}

#[test]
fn test_cannot_move_flag() {
    let mut game = make_game();
    game.board[7][0] = Cell::Piece(Piece::new("F", 0));
    let result = check_move(&game, &Position { x: 0, y: 7 }, &Position { x: 0, y: 6 });
    assert!(result.is_err());
}

#[test]
fn test_attack_won() {
    let mut game = make_game();
    game.board[7][0] = Cell::Piece(Piece::new("1", 0));
    game.board[6][0] = Cell::Piece(Piece::new("5", 1));
    let result = check_move(&game, &Position { x: 0, y: 7 }, &Position { x: 0, y: 6 });
    assert_eq!(result.unwrap(), MoveType::AttackWon);
}

#[test]
fn test_attack_lost() {
    let mut game = make_game();
    game.board[7][0] = Cell::Piece(Piece::new("5", 0));
    game.board[6][0] = Cell::Piece(Piece::new("1", 1));
    let result = check_move(&game, &Position { x: 0, y: 7 }, &Position { x: 0, y: 6 });
    assert_eq!(result.unwrap(), MoveType::AttackLost);
}

#[test]
fn test_attack_draw() {
    let mut game = make_game();
    game.board[7][0] = Cell::Piece(Piece::new("5", 0));
    game.board[6][0] = Cell::Piece(Piece::new("5", 1));
    let result = check_move(&game, &Position { x: 0, y: 7 }, &Position { x: 0, y: 6 });
    assert_eq!(result.unwrap(), MoveType::AttackDraw);
}

#[test]
fn test_capture_flag() {
    let mut game = make_game();
    game.board[7][0] = Cell::Piece(Piece::new("9", 0));
    game.board[6][0] = Cell::Piece(Piece::new("F", 1));
    let result = check_move(&game, &Position { x: 0, y: 7 }, &Position { x: 0, y: 6 });
    assert_eq!(result.unwrap(), MoveType::Capture);
}

#[test]
fn test_miner_beats_bomb() {
    let mut game = make_game();
    game.board[7][0] = Cell::Piece(Piece::new("8", 0));
    game.board[6][0] = Cell::Piece(Piece::new("B", 1));
    let result = check_move(&game, &Position { x: 0, y: 7 }, &Position { x: 0, y: 6 });
    assert_eq!(result.unwrap(), MoveType::AttackWon);
}

#[test]
fn test_non_miner_loses_to_bomb() {
    let mut game = make_game();
    game.board[7][0] = Cell::Piece(Piece::new("1", 0));
    game.board[6][0] = Cell::Piece(Piece::new("B", 1));
    let result = check_move(&game, &Position { x: 0, y: 7 }, &Position { x: 0, y: 6 });
    assert_eq!(result.unwrap(), MoveType::AttackLost);
}

#[test]
fn test_spy_kills_marshal() {
    let mut game = make_game();
    game.board[7][0] = Cell::Piece(Piece::new("S", 0));
    game.board[6][0] = Cell::Piece(Piece::new("1", 1));
    let result = check_move(&game, &Position { x: 0, y: 7 }, &Position { x: 0, y: 6 });
    assert_eq!(result.unwrap(), MoveType::AttackWon);
}

#[test]
fn test_spy_loses_to_non_marshal() {
    let mut game = make_game();
    game.board[7][0] = Cell::Piece(Piece::new("S", 0));
    game.board[6][0] = Cell::Piece(Piece::new("5", 1));
    let result = check_move(&game, &Position { x: 0, y: 7 }, &Position { x: 0, y: 6 });
    assert_eq!(result.unwrap(), MoveType::AttackLost);
}

#[test]
fn test_scout_multi_square_move() {
    let mut game = make_game();
    game.board[8][0] = Cell::Piece(Piece::new("9", 0));
    let result = check_move(&game, &Position { x: 0, y: 8 }, &Position { x: 0, y: 3 });
    assert_eq!(result.unwrap(), MoveType::Move);
}

#[test]
fn test_scout_blocked() {
    let mut game = make_game();
    game.board[8][0] = Cell::Piece(Piece::new("9", 0));
    game.board[5][0] = Cell::Piece(Piece::new("5", 0));
    let result = check_move(&game, &Position { x: 0, y: 8 }, &Position { x: 0, y: 3 });
    assert!(result.is_err());
}

#[test]
fn test_diagonal_move_rejected() {
    let mut game = make_game();
    game.board[7][0] = Cell::Piece(Piece::new("5", 0));
    let result = check_move(&game, &Position { x: 0, y: 7 }, &Position { x: 1, y: 6 });
    assert!(result.is_err());
}

#[test]
fn test_cannot_move_onto_water() {
    let mut game = make_game();
    game.board[3][2] = Cell::Piece(Piece::new("5", 0));
    // board[4][2] is water
    let result = check_move(&game, &Position { x: 2, y: 3 }, &Position { x: 2, y: 4 });
    assert!(result.is_err());
}

#[test]
fn test_wrong_turn() {
    let mut game = make_game();
    game.board[7][0] = Cell::Piece(Piece::new("5", 1)); // blue piece, but red's turn
    let result = check_move(&game, &Position { x: 0, y: 7 }, &Position { x: 0, y: 6 });
    assert!(result.is_err());
}

// ----- Further cases -----

fn err_message(game: &Game, from: (usize, usize), to: (usize, usize)) -> String {
    check_move(
        game,
        &Position { x: from.0, y: from.1 },
        &Position { x: to.0, y: to.1 },
    )
    .unwrap_err()
    .0
}

#[test]
fn rejects_empty_square_with_message() {
    let game = make_game();
    assert_eq!(err_message(&game, (0, 7), (0, 6)), "No piece to move.");
}

#[test]
fn rejects_wrong_turn_with_message() {
    let mut game = make_game();
    game.board[7][0] = Cell::Piece(Piece::new("5", 1));
    assert_eq!(err_message(&game, (0, 7), (0, 6)), "Not your turn");
}

#[test]
fn rejects_water_with_message() {
    let mut game = make_game();
    game.board[3][2] = Cell::Piece(Piece::new("5", 0));
    assert_eq!(
        err_message(&game, (2, 3), (2, 4)),
        "Can not move onto an unmoveable block."
    );
}

#[test]
fn rejects_friendly_target_with_message() {
    let mut game = make_game();
    game.board[7][0] = Cell::Piece(Piece::new("5", 0));
    game.board[6][0] = Cell::Piece(Piece::new("4", 0));
    assert_eq!(
        err_message(&game, (0, 7), (0, 6)),
        "Can not move onto friendly piece."
    );
}

#[test]
fn rejects_flag_with_message() {
    let mut game = make_game();
    game.board[7][0] = Cell::Piece(Piece::new("F", 0));
    assert_eq!(err_message(&game, (0, 7), (0, 6)), "Flags cannot be moved.");
}

#[test]
fn standing_still_is_a_move_onto_a_friendly_piece() {
    let mut game = make_game();
    game.board[7][0] = Cell::Piece(Piece::new("5", 0));
    assert_eq!(
        err_message(&game, (0, 7), (0, 7)),
        "Can not move onto friendly piece."
    );
}

#[test]
fn rejects_long_move_of_non_scout() {
    let mut game = make_game();
    game.board[7][0] = Cell::Piece(Piece::new("5", 0));
    assert_eq!(err_message(&game, (0, 7), (0, 5)), "Illegal movement.");
    assert_eq!(err_message(&game, (0, 7), (1, 6)), "Illegal movement.");
}

#[test]
fn rejects_scout_jump_with_message() {
    let mut game = make_game();
    game.board[8][0] = Cell::Piece(Piece::new("9", 0));
    game.board[5][0] = Cell::Piece(Piece::new("5", 1));
    assert_eq!(err_message(&game, (0, 8), (0, 3)), "Can not jump over pieces.");
}

#[test]
fn scout_may_attack_at_distance() {
    let mut game = make_game();
    game.board[9][9] = Cell::Piece(Piece::new("9", 0));
    game.board[9][1] = Cell::Piece(Piece::new("3", 1));
    let result = check_move(&game, &Position { x: 9, y: 9 }, &Position { x: 1, y: 9 });
    assert_eq!(result.unwrap(), MoveType::AttackLost);
}

#[test]
fn blue_moves_when_turn_is_true() {
    let mut game = make_game();
    game.turn = true;
    game.board[2][0] = Cell::Piece(Piece::new("2", 1));
    game.board[3][0] = Cell::Piece(Piece::new("7", 0));
    let result = check_move(&game, &Position { x: 0, y: 2 }, &Position { x: 0, y: 3 });
    assert_eq!(result.unwrap(), MoveType::AttackWon);
}

fn record(from: (usize, usize), to: (usize, usize)) -> MoveRecord {
    MoveRecord {
        move_type: MoveType::Move,
        from: Position { x: from.0, y: from.1 },
        to: Position { x: to.0, y: to.1 },
        from_piece: None,
        to_piece: None,
    }
}

#[test]
fn two_square_rule_stops_the_fourth_shuttle() {
    let mut game = make_game();
    game.board[6][0] = Cell::Piece(Piece::new("5", 0));
    // red: (0,6)->(0,5), blue elsewhere, red back, blue, red again, blue
    game.moves = vec![
        record((0, 6), (0, 5)),
        record((9, 1), (9, 2)),
        record((0, 5), (0, 6)),
        record((9, 2), (9, 1)),
        record((0, 6), (0, 5)),
        record((9, 1), (9, 2)),
    ];
    game.board[6][0] = Cell::Empty(0);
    game.board[5][0] = Cell::Piece(Piece::new("5", 0));
    let from = Position { x: 0, y: 5 };
    let to = Position { x: 0, y: 6 };
    assert!(will_violate_two_square_rule(&game, &from, &to));
    assert_eq!(
        check_move(&game, &from, &to).unwrap_err().0,
        "That move violates the two-square rule."
    );
    // Moving on to another square is fine
    assert!(!will_violate_two_square_rule(
        &game,
        &from,
        &Position { x: 0, y: 4 }
    ));
}

#[test]
fn two_square_rule_needs_three_earlier_moves() {
    let mut game = make_game();
    game.moves = vec![record((0, 6), (0, 5)), record((9, 1), (9, 2))];
    assert!(!will_violate_two_square_rule(
        &game,
        &Position { x: 0, y: 5 },
        &Position { x: 0, y: 6 }
    ));
}

#[test]
fn two_square_rule_looks_at_blue_moves_on_blue_turn() {
    let mut game = make_game();
    game.turn = true;
    game.moves = vec![
        record((9, 1), (9, 2)),
        record((0, 3), (0, 2)),
        record((9, 2), (9, 1)),
        record((0, 2), (0, 3)),
        record((9, 1), (9, 2)),
        record((0, 3), (0, 2)),
        record((8, 8), (8, 7)),
    ];
    assert!(will_violate_two_square_rule(
        &game,
        &Position { x: 0, y: 2 },
        &Position { x: 0, y: 3 }
    ));
}

fn colours_swapped(game: &Game) -> Game {
    let mut g = game.clone();
    for row in g.board.iter_mut() {
        for cell in row.iter_mut() {
            if let Cell::Piece(p) = cell {
                p.side = 1 - p.side;
            }
        }
    }
    g.turn = !g.turn;
    g
}

#[test]
fn the_rules_treat_both_colours_alike() {
    let mut game = make_game();
    game.board[7][0] = Cell::Piece(Piece::new("9", 0));
    game.board[2][0] = Cell::Piece(Piece::new("4", 1));
    game.board[4][0] = Cell::Piece(Piece::new("B", 1));
    game.board[7][1] = Cell::Piece(Piece::new("S", 0));
    game.board[6][1] = Cell::Piece(Piece::new("1", 1));
    let swapped = colours_swapped(&game);
    let tries = [
        ((0, 7), (0, 5)),
        ((0, 7), (0, 3)),
        ((0, 7), (0, 6)),
        ((1, 7), (1, 6)),
        ((1, 6), (1, 7)),
        ((0, 2), (0, 1)),
        ((0, 7), (1, 7)),
        ((1, 7), (2, 6)),
    ];
    for ((fx, fy), (tx, ty)) in tries {
        let from = Position { x: fx, y: fy };
        let to = Position { x: tx, y: ty };
        let a = check_move(&game, &from, &to).map_err(|e| e.0);
        let b = check_move(&swapped, &from, &to).map_err(|e| e.0);
        assert_eq!(a, b);
    }
}
