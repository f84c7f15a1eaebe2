use stratego::constants::MoveType;
use stratego::ids::{hex_prefix, hex_string_short, new_poll_id, random_uuid};
use stratego::models::{Board, Cell, Game, Piece, Position};
use stratego::play::{
    check_setup_shape, create_game, create_pool_game, index_key, join_game, play_move,
    prepare_setup, CreateError, HashKind, JoinError, MoveError, MoveForm, SetupError,
};
use stratego::pool::PendingMatch;
use stratego::text::parse_i32;

fn piece(rank: &str, side: i32) -> Cell {
    Cell::Piece(Piece::new(rank, side))
}

/// A setup of 4 rows of 10 with a flag in the corner and the given rank
/// everywhere else, owned by side 3 (as the setup screen sends it).
fn setup(rank: &str) -> Board {
    let mut s: Board = (0..4)
        .map(|_| (0..10).map(|_| piece(rank, 3)).collect())
        .collect();
    s[3][9] = piece("F", 3);
    s
}

fn is_hex(s: &str, n: usize) -> bool {
    s.len() == n && s.chars().all(|c| c.is_ascii_digit() || ('a'..='f').contains(&c))
}

#[test]
fn setup_shape_is_checked() {
    assert!(check_setup_shape(&setup("5")));
    let mut short = setup("5");
    short.pop();
    assert!(!check_setup_shape(&short));
    let mut ragged = setup("5");
    ragged[2].pop();
    assert!(!check_setup_shape(&ragged));
    assert_eq!(prepare_setup(&ragged, 0).unwrap_err(), SetupError::WrongShape);
}

#[test]
fn prepare_setup_gives_pieces_to_the_side() {
    let mut s = setup("5");
    s[1][1] = Cell::Empty(0);
    let blue = prepare_setup(&s, 1).unwrap();
    assert_eq!(blue[0][0], piece("5", 1));
    assert_eq!(blue[3][9], piece("F", 1));
    assert_eq!(blue[1][1], Cell::Empty(0));
}

#[test]
fn created_game_has_red_army_and_lakes() {
    let game = create_game(&setup("5"), true).unwrap();
    assert_eq!(game.board.len(), 10);
    assert_eq!(game.board[9][9], piece("F", 0));
    assert_eq!(game.board[6][0], piece("5", 0));
    assert!(game.board[4][2].is_water());
    assert!(game.board[0][0].is_empty());
    assert!(game.red_setup.is_some());
    assert!(game.blue_setup.is_none());
    assert!(game.moves.is_empty());
    assert!(!game.turn);
    assert!(game.private);
    assert_eq!(game.game_state, 0);
    assert!(is_hex(&game.red_hash, 6));
    assert!(is_hex(&game.blue_hash, 6));
    assert!(is_hex(&game.join_hash, 6));
    assert_eq!(game.id.len(), 36);
    assert!(!game.created.is_empty());
    let mut bad = setup("5");
    bad.truncate(3);
    assert_eq!(create_game(&bad, true).unwrap_err(), CreateError::WrongShape);
}

#[test]
fn random_identifiers_have_their_shape() {
    let id = random_uuid();
    assert_eq!(id.len(), 36);
    assert_eq!(&id[8..9], "-");
    assert!(is_hex(&hex_string_short(), 6));
    assert!(is_hex(&new_poll_id(), 8));
    assert_ne!(random_uuid(), random_uuid());
}

fn ready_game() -> Game {
    let mut game = create_game(&setup("5"), true).unwrap();
    let blue = prepare_setup(&setup("6"), 1).unwrap();
    join_game(&mut game, &blue).unwrap();
    game
}

#[test]
fn join_fills_blue_rows_once() {
    let mut game = create_game(&setup("5"), true).unwrap();
    let blue = prepare_setup(&setup("6"), 1).unwrap();
    assert_eq!(join_game(&mut game, &blue), Ok(()));
    assert_eq!(game.game_state, 1);
    assert_eq!(game.board[0][0], piece("F", 1));
    assert_eq!(game.board[3][3], piece("6", 1));
    assert_eq!(join_game(&mut game, &blue), Err(JoinError::AlreadyFull));
}

#[test]
fn play_move_moves_and_flips_turn() {
    let mut game = ready_game();
    let red = game.red_hash.clone();
    let r = play_move(&mut game, &red, 0, &Position { x: 0, y: 6 }, &Position { x: 0, y: 5 });
    assert_eq!(r.unwrap(), MoveType::Move);
    assert!(game.turn);
    assert!(game.board[6][0].is_empty());
    assert_eq!(game.board[5][0], piece("5", 0));
    let last = game.get_last_move().unwrap();
    assert_eq!(last.move_type, MoveType::Move);
    assert_eq!(last.from, Position { x: 0, y: 6 });
    assert!(last.from_piece.is_none());
}

#[test]
fn play_move_refuses_out_of_turn() {
    let mut game = ready_game();
    let blue = game.blue_hash.clone();
    let r = play_move(&mut game, &blue, 1, &Position { x: 0, y: 6 }, &Position { x: 0, y: 5 });
    assert!(matches!(r, Err(MoveError::NotYourTurn)));
    assert!(!game.turn);
    assert!(game.moves.is_empty());
}

#[test]
fn blue_positions_are_turned() {
    let mut game = ready_game();
    let red = game.red_hash.clone();
    let blue = game.blue_hash.clone();
    play_move(&mut game, &red, 0, &Position { x: 0, y: 6 }, &Position { x: 0, y: 5 }).unwrap();
    // Blue, seeing its own pieces at the bottom, moves from its (9,6) to (9,5):
    // stored (0,3) to (0,4).
    let r = play_move(&mut game, &blue, 1, &Position { x: 9, y: 6 }, &Position { x: 9, y: 5 });
    assert_eq!(r.unwrap(), MoveType::Move);
    assert!(game.board[3][0].is_empty());
    assert_eq!(game.board[4][0], piece("6", 1));
    assert_eq!(game.get_last_move().unwrap().to, Position { x: 0, y: 4 });
    assert!(!game.turn);
}

#[test]
fn attacks_are_recorded_with_both_pieces() {
    let mut game = ready_game();
    let red = game.red_hash.clone();
    let blue = game.blue_hash.clone();
    play_move(&mut game, &red, 0, &Position { x: 0, y: 6 }, &Position { x: 0, y: 5 }).unwrap();
    play_move(&mut game, &blue, 1, &Position { x: 9, y: 6 }, &Position { x: 9, y: 5 }).unwrap();
    // red 5 at (0,5) attacks blue 6 at (0,4): red wins
    let r = play_move(&mut game, &red, 0, &Position { x: 0, y: 5 }, &Position { x: 0, y: 4 });
    assert_eq!(r.unwrap(), MoveType::AttackWon);
    assert_eq!(game.board[4][0], piece("5", 0));
    assert!(game.board[5][0].is_empty());
    let last = game.get_last_move().unwrap();
    assert_eq!(last.from_piece, Some(Piece::new("5", 0)));
    assert_eq!(last.to_piece, Some(Piece::new("6", 1)));
    assert!(game.turn);
}

#[test]
fn draw_removes_both_pieces() {
    let mut game = ready_game();
    let red = game.red_hash.clone();
    game.board[5][1] = piece("5", 1);
    let r = play_move(&mut game, &red, 0, &Position { x: 1, y: 6 }, &Position { x: 1, y: 5 });
    assert_eq!(r.unwrap(), MoveType::AttackDraw);
    assert!(game.board[6][1].is_empty());
    assert!(game.board[5][1].is_empty());
}

#[test]
fn losing_attacker_is_removed() {
    let mut game = ready_game();
    let red = game.red_hash.clone();
    game.board[5][1] = piece("2", 1);
    let r = play_move(&mut game, &red, 0, &Position { x: 1, y: 6 }, &Position { x: 1, y: 5 });
    assert_eq!(r.unwrap(), MoveType::AttackLost);
    assert!(game.board[6][1].is_empty());
    assert_eq!(game.board[5][1], piece("2", 1));
}

#[test]
fn capture_ends_the_game() {
    let mut game = ready_game();
    let red = game.red_hash.clone();
    let blue = game.blue_hash.clone();
    game.board[5][1] = piece("F", 1);
    let r = play_move(&mut game, &red, 0, &Position { x: 1, y: 6 }, &Position { x: 1, y: 5 });
    assert_eq!(r.unwrap(), MoveType::Capture);
    assert!(game.has_ended());
    // no flip on capture
    assert!(!game.turn);
    // the turn did not pass, so blue is still out of turn
    let r = play_move(&mut game, &blue, 1, &Position { x: 9, y: 6 }, &Position { x: 9, y: 5 });
    assert!(matches!(r, Err(MoveError::NotYourTurn)));
    let r = play_move(&mut game, &red, 0, &Position { x: 2, y: 6 }, &Position { x: 2, y: 5 });
    assert!(matches!(r, Err(MoveError::GameEnded)));
}

#[test]
fn invalid_moves_carry_the_rule_message() {
    let mut game = ready_game();
    let red = game.red_hash.clone();
    game.board[6][1] = piece("F", 0);
    let r = play_move(&mut game, &red, 0, &Position { x: 1, y: 6 }, &Position { x: 1, y: 5 });
    match r {
        Err(MoveError::Invalid(e)) => assert_eq!(e.0, "Flags cannot be moved."),
        _ => panic!("expected an invalid move"),
    }
    assert!(game.moves.is_empty());
}

#[test]
fn unranked_attack_is_reported() {
    let mut game = ready_game();
    let red = game.red_hash.clone();
    game.board[6][1] = piece("X", 0);
    game.board[5][1] = piece("4", 1);
    let r = play_move(&mut game, &red, 0, &Position { x: 1, y: 6 }, &Position { x: 1, y: 5 });
    assert!(matches!(r, Err(MoveError::Unranked)));
}

#[test]
fn pool_game_has_both_armies() {
    let pm = PendingMatch {
        red_setup: setup("5"),
        blue_setup: setup("6"),
        red_poll_id: "r".into(),
        blue_poll_id: "b".into(),
        red_confirmed: true,
        blue_confirmed: true,
        created_at: 0,
    };
    let game = create_pool_game(&pm).unwrap();
    assert_eq!(game.game_state, 1);
    assert!(!game.private);
    assert_eq!(game.board[9][9], piece("F", 0));
    assert_eq!(game.board[0][0], piece("F", 1));
    assert_eq!(game.board[5][5], Cell::Empty(0));
    assert!(game.board[5][6].is_water());
}

#[test]
fn side_field_is_parsed() {
    let form = |side: &str| MoveForm {
        player_hash: "h".into(),
        side: side.into(),
        from: String::new(),
        to: String::new(),
    };
    assert_eq!(form("1").side_value(), Some(1));
    assert_eq!(form("0").side_value(), Some(0));
    assert_eq!(form("-3").side_value(), Some(-3));
    assert_eq!(form("blue").side_value(), None);
    assert_eq!(form("").side_value(), None);
    assert_eq!(parse_i32("+12"), Some(12));
    assert_eq!(parse_i32("99999999999"), None);
}

#[test]
fn index_keys() {
    assert_eq!(index_key(HashKind::Red, "abc123"), "red_abc123");
    assert_eq!(index_key(HashKind::Blue, "x"), "blue_x");
    assert_eq!(index_key(HashKind::Join, ""), "join_");
    assert_eq!(HashKind::for_side(0), HashKind::Red);
    assert_eq!(HashKind::for_side(1), HashKind::Blue);
}

#[test]
fn games_are_stamped_in_utc() {
    let mut game = create_game(&setup("5"), true).unwrap();
    assert!(game.created.ends_with("+00:00"));
    assert!(game.modified.ends_with("+00:00"));
    assert!(game.created.len() >= 25);
    assert_eq!(game.touch(), Ok(()));
    assert!(game.modified.ends_with("+00:00"));
    assert!(game.modified.as_str() >= game.created.as_str());
}

#[test]
fn short_hashes_are_prefixes_of_the_drawn_identifier() {
    let full = "0123456789abcdef0123456789abcdef";
    assert_eq!(hex_prefix(full, 6), "012345");
    assert_eq!(hex_prefix(full, 8), "01234567");
    assert_eq!(hex_prefix(full, 0), "");
    assert_eq!(hex_prefix(full, 32), full);
    let a = hex_string_short();
    let b = hex_string_short();
    let c = hex_string_short();
    assert!(a != b || b != c);
}
