use stratego::board_utils::{get_sendable_board, get_sendable_game, hide_side, reverse_position};
use stratego::constants::MoveType;
use stratego::models::{Board, Cell, Game, MoveRecord, Piece, Position};

fn piece(rank: &str, side: i32) -> Cell {
    Cell::Piece(Piece::new(rank, side))
}

fn base_game() -> Game {
    let mut game = Game {
        id: "g".into(),
        red_hash: "aaaaaa".into(),
        blue_hash: "bbbbbb".into(),
        join_hash: "cccccc".into(),
        board: Game::empty_board(),
        red_setup: None,
        blue_setup: None,
        moves: vec![],
        turn: false,
        private: true,
        game_state: 0,
        created: "t0".into(),
        modified: "t1".into(),
    };
    game.set_blocks();
    game
}

fn setup_of(rank: &str, side: i32) -> Board {
    (0..4)
        .map(|_| (0..10).map(|_| piece(rank, side)).collect())
        .collect()
}

#[test]
fn empty_board_is_ten_by_ten_empty() {
    let b = Game::empty_board();
    assert_eq!(b.len(), 10);
    for row in &b {
        assert_eq!(row.len(), 10);
        for c in row {
            assert!(c.is_empty());
            assert!(!c.is_water());
            assert!(!c.is_occupied());
            assert!(c.as_piece().is_none());
        }
    }
}

#[test]
fn set_blocks_places_eight_lakes() {
    let game = base_game();
    let mut water = 0;
    for (y, row) in game.board.iter().enumerate() {
        for (x, c) in row.iter().enumerate() {
            if c.is_water() {
                water += 1;
                assert!(matches!((x, y), (2 | 3 | 6 | 7, 4 | 5)));
            }
        }
    }
    assert_eq!(water, 8);
}

#[test]
fn piece_constructors() {
    let p = Piece::new("7", 1);
    assert_eq!(p.rank, "7");
    assert_eq!(p.side, 1);
    let u = Piece::unknown(0);
    assert_eq!(u.rank, "U");
    assert_eq!(u.side, 0);
    let c = Cell::Piece(p.clone());
    assert!(c.is_occupied());
    assert_eq!(c.as_piece(), Some(&p));
}

#[test]
fn reverse_position_turns_the_board() {
    let mut p = Position { x: 2, y: 7 };
    reverse_position(&mut p);
    assert_eq!(p, Position { x: 7, y: 2 });
    reverse_position(&mut p);
    assert_eq!(p, Position { x: 2, y: 7 });
    let mut corner = Position { x: 0, y: 9 };
    reverse_position(&mut corner);
    assert_eq!(corner, Position { x: 9, y: 0 });
}

#[test]
fn reverse_board_twice_is_identity() {
    let mut game = base_game();
    game.board[9][0] = piece("F", 0);
    game.board[0][3] = piece("2", 1);
    let r = Game::reverse_board(&game.board);
    assert_eq!(r[0][9], piece("F", 0));
    assert_eq!(r[9][6], piece("2", 1));
    assert_eq!(Game::reverse_board(&r), game.board);
}

#[test]
fn moving_and_deleting_pieces() {
    let mut game = base_game();
    game.set_piece(&Position { x: 1, y: 1 }, piece("4", 0));
    game.move_piece(&Position { x: 1, y: 1 }, &Position { x: 1, y: 2 });
    assert!(game.get_piece(&Position { x: 1, y: 1 }).is_empty());
    assert_eq!(*game.get_piece(&Position { x: 1, y: 2 }), piece("4", 0));
    game.delete_piece(&Position { x: 1, y: 2 });
    assert!(game.get_piece(&Position { x: 1, y: 2 }).is_empty());
    game.flip_turn();
    assert!(game.turn);
}

#[test]
fn last_move_and_end_of_game() {
    let mut game = base_game();
    assert!(game.get_last_move().is_none());
    assert!(!game.has_ended());
    let m = MoveRecord {
        move_type: MoveType::Move,
        from: Position { x: 0, y: 6 },
        to: Position { x: 0, y: 5 },
        from_piece: None,
        to_piece: None,
    };
    game.set_last_move(m.clone());
    assert_eq!(game.get_last_move(), Some(m));
    assert!(!game.has_ended());
    game.set_last_move(MoveRecord {
        move_type: MoveType::Capture,
        from: Position { x: 0, y: 5 },
        to: Position { x: 0, y: 4 },
        from_piece: Some(Piece::new("9", 0)),
        to_piece: Some(Piece::new("F", 1)),
    });
    assert!(game.has_ended());
}

#[test]
fn opponent_hash() {
    let game = base_game();
    assert_eq!(game.get_opponent_hash("aaaaaa"), Some("bbbbbb"));
    assert_eq!(game.get_opponent_hash("bbbbbb"), Some("aaaaaa"));
    assert_eq!(game.get_opponent_hash("cccccc"), None);
}

#[test]
fn setups_fill_their_rows() {
    let mut game = base_game();
    let mut red = setup_of("5", 0);
    red[0][0] = piece("1", 0);
    game.set_red_setup(&red);
    assert_eq!(game.board[6][0], piece("1", 0));
    assert_eq!(game.board[9][9], piece("5", 0));
    assert_eq!(game.red_setup, Some(red));

    let mut blue = setup_of("6", 1);
    blue[0][0] = piece("2", 1);
    blue[3][9] = piece("F", 1);
    game.set_blue_setup(&blue);
    // setup row 0 reversed becomes board row 3
    assert_eq!(game.board[3][9], piece("2", 1));
    // setup row 3 reversed becomes board row 0
    assert_eq!(game.board[0][0], piece("F", 1));
    assert_eq!(game.blue_setup, Some(blue));
}

#[test]
fn hide_side_masks_only_the_other_side() {
    let mut board = Game::empty_board();
    board[0][0] = piece("3", 1);
    board[9][9] = piece("3", 0);
    board[5][5] = piece("S", 3);
    hide_side(&mut board, 0);
    assert_eq!(board[0][0], Cell::Piece(Piece::unknown(1)));
    assert_eq!(board[9][9], piece("3", 0));
    assert_eq!(board[5][5], Cell::Piece(Piece::unknown(1)));
    assert!(board[1][1].is_empty());

    let mut board = Game::empty_board();
    board[0][0] = piece("3", 1);
    board[9][9] = piece("3", 0);
    hide_side(&mut board, 1);
    assert_eq!(board[0][0], piece("3", 1));
    assert_eq!(board[9][9], Cell::Piece(Piece::unknown(0)));
}

#[test]
fn red_waiting_sees_unknown_top_rows() {
    let mut game = base_game();
    game.set_red_setup(&setup_of("4", 0));
    let b = get_sendable_board(&game, 0);
    for y in 0..4 {
        for x in 0..10 {
            assert_eq!(b[y][x], Cell::Piece(Piece::unknown(1)));
        }
    }
    assert_eq!(b[6][0], piece("4", 0));
    assert!(b[4][2].is_water());
}

#[test]
fn blue_sees_turned_board_with_red_hidden() {
    let mut game = base_game();
    game.set_red_setup(&setup_of("4", 0));
    game.set_blue_setup(&setup_of("7", 1));
    game.game_state = 1;
    let b = get_sendable_board(&game, 1);
    // blue's own pieces are at the bottom of its view
    assert_eq!(b[9][0], piece("7", 1));
    // red's pieces are on top and hidden
    assert_eq!(b[0][0], Cell::Piece(Piece::unknown(0)));
    let r = get_sendable_board(&game, 0);
    assert_eq!(r[0][0], Cell::Piece(Piece::unknown(1)));
    assert_eq!(r[9][0], piece("4", 0));
}

#[test]
fn ended_game_shows_everything() {
    let mut game = base_game();
    game.set_red_setup(&setup_of("4", 0));
    game.set_blue_setup(&setup_of("7", 1));
    game.set_last_move(MoveRecord {
        move_type: MoveType::Capture,
        from: Position { x: 0, y: 6 },
        to: Position { x: 0, y: 3 },
        from_piece: Some(Piece::new("9", 0)),
        to_piece: Some(Piece::new("F", 1)),
    });
    let red = get_sendable_board(&game, 0);
    assert_eq!(red[0][0], piece("7", 1));
    let blue = get_sendable_board(&game, 1);
    assert_eq!(blue[0][0], piece("4", 0));
    assert_eq!(blue, Game::reverse_board(&game.board));
}

#[test]
fn sendable_game_fields() {
    let mut game = base_game();
    game.set_red_setup(&setup_of("4", 0));
    let red = get_sendable_game(&game, 0);
    assert_eq!(red.player_hash, "aaaaaa");
    assert_eq!(red.join_hash, Some("cccccc".to_string()));
    assert_eq!(red.side, 0);
    assert_eq!(red.created, "t0");
    assert_eq!(red.modified, "t1");
    assert!(red.last_move.is_none());

    game.set_blue_setup(&setup_of("7", 1));
    game.game_state = 1;
    game.set_last_move(MoveRecord {
        move_type: MoveType::Move,
        from: Position { x: 1, y: 6 },
        to: Position { x: 1, y: 5 },
        from_piece: None,
        to_piece: None,
    });
    let red = get_sendable_game(&game, 0);
    assert_eq!(red.join_hash, None);
    assert_eq!(red.last_move.unwrap().from, Position { x: 1, y: 6 });
    let blue = get_sendable_game(&game, 1);
    assert_eq!(blue.player_hash, "bbbbbb");
    assert_eq!(blue.join_hash, None);
    let lm = blue.last_move.unwrap();
    assert_eq!(lm.from, Position { x: 8, y: 3 });
    assert_eq!(lm.to, Position { x: 8, y: 4 });
    assert_eq!(lm.move_type, MoveType::Move);
}
