use stratego::channels::{classify_message, ChannelCommand, Subscriptions};
use stratego::constants::RANKS;
use stratego::display::{default_setup, display_rank, setup_or_default, swap_setup_cells, RankStyle};
use stratego::models::{Cell, Piece};

#[test]
fn european_ranks_are_shown_as_they_are() {
    for r in ["1", "2", "3", "4", "5", "6", "7", "8", "9", "S", "B", "F"] {
        assert_eq!(display_rank(r, RankStyle::European), r);
    }
    assert_eq!(display_rank("U", RankStyle::European), "U");
    assert_eq!(display_rank("10", RankStyle::European), "U");
}

#[test]
fn american_ranks_count_up() {
    let expected = [
        ("1", "10"),
        ("2", "9"),
        ("3", "8"),
        ("4", "7"),
        ("5", "6"),
        ("6", "5"),
        ("7", "4"),
        ("8", "3"),
        ("9", "2"),
        ("S", "1"),
        ("B", "B"),
        ("F", "F"),
        ("U", "U"),
        ("", "U"),
    ];
    for (r, shown) in expected {
        assert_eq!(display_rank(r, RankStyle::American), shown);
    }
}

#[test]
fn default_setup_is_a_full_army() {
    let b = default_setup();
    assert_eq!(b.len(), 4);
    assert!(b.iter().all(|row| row.len() == 10));
    for &(rank, amount) in RANKS.iter() {
        let n = b
            .iter()
            .flatten()
            .filter(|c| matches!(c, Cell::Piece(p) if p.rank == rank && p.side == 3))
            .count();
        assert_eq!(n as u32, amount);
    }
    assert_eq!(b[0][0], Cell::Piece(Piece::new("1", 3)));
    assert_eq!(b[3][9], Cell::Piece(Piece::new("F", 3)));
}

#[test]
fn swapping_setup_cells() {
    let mut b = default_setup();
    swap_setup_cells(&mut b, 0, 0, 9, 3);
    assert_eq!(b[0][0], Cell::Piece(Piece::new("F", 3)));
    assert_eq!(b[3][9], Cell::Piece(Piece::new("1", 3)));
    let before = b.clone();
    swap_setup_cells(&mut b, 0, 4, 0, 0);
    assert_eq!(b, before);
    swap_setup_cells(&mut b, 2, 1, 2, 1);
    assert_eq!(b, before);
}

#[test]
fn websocket_messages_are_classified() {
    assert!(matches!(
        classify_message(Some("subscribe"), Some("game-1")),
        ChannelCommand::Subscribe(c) if c == "game-1"
    ));
    assert!(matches!(
        classify_message(Some("unsubscribe"), Some("game-1")),
        ChannelCommand::Unsubscribe(c) if c == "game-1"
    ));
    assert!(matches!(classify_message(Some("subscribe"), None), ChannelCommand::Ignore));
    assert!(matches!(classify_message(Some("ping"), Some("x")), ChannelCommand::Ignore));
    assert!(matches!(classify_message(None, Some("x")), ChannelCommand::Ignore));
}

#[test]
fn subscriptions_are_removed_by_name() {
    let mut subs = Subscriptions::new();
    subs.add("a".to_string());
    subs.add("b".to_string());
    subs.add("a".to_string());
    subs.remove("a");
    assert_eq!(subs.channels, vec!["b".to_string()]);
}

#[test]
fn rank_styles_are_remembered_by_name() {
    assert_eq!(RankStyle::European.stored_name(), "european");
    assert_eq!(RankStyle::American.stored_name(), "american");
    for style in [RankStyle::European, RankStyle::American] {
        assert_eq!(RankStyle::from_stored(Some(style.stored_name())), style);
    }
    assert_eq!(RankStyle::from_stored(None), RankStyle::European);
    assert_eq!(RankStyle::from_stored(Some("American")), RankStyle::European);
    assert_eq!(RankStyle::from_stored(Some("")), RankStyle::European);
}

#[test]
fn rank_styles_toggle_and_are_labelled() {
    assert_eq!(RankStyle::European.toggled(), RankStyle::American);
    assert_eq!(RankStyle::American.toggled(), RankStyle::European);
    assert_eq!(RankStyle::European.label(), "European (1 = Marshal)");
    assert_eq!(RankStyle::American.label(), "American (10 = Marshal)");
}

#[test]
fn a_remembered_setup_is_used_when_it_has_the_right_shape() {
    let mut custom = default_setup();
    swap_setup_cells(&mut custom, 0, 0, 9, 3);
    assert_eq!(setup_or_default(Some(custom.clone())), custom);
    assert_eq!(setup_or_default(None), default_setup());
    let short: Vec<Vec<Cell>> = custom[..3].to_vec();
    assert_eq!(setup_or_default(Some(short)), default_setup());
    let mut ragged = custom.clone();
    ragged[2].pop();
    assert_eq!(setup_or_default(Some(ragged)), default_setup());
}

#[test]
fn swapping_twice_restores_the_setup() {
    let arranged = default_setup();
    let mut board = arranged.clone();
    swap_setup_cells(&mut board, 1, 0, 7, 3);
    assert_ne!(board, arranged);
    swap_setup_cells(&mut board, 1, 0, 7, 3);
    assert_eq!(board, arranged);
}

#[test]
fn swaps_rearrange_the_setup() {
    let arranged = default_setup();
    let mut board = arranged.clone();
    for (fx, fy, tx, ty) in [(0, 0, 9, 3), (4, 1, 4, 1), (2, 2, 7, 0), (9, 3, 0, 3), (3, 0, 12, 1)] {
        swap_setup_cells(&mut board, fx, fy, tx, ty);
    }
    let key = |c: &Cell| format!("{:?}", c);
    let mut before: Vec<String> = arranged.iter().flatten().map(key).collect();
    let mut after: Vec<String> = board.iter().flatten().map(key).collect();
    before.sort();
    after.sort();
    assert_eq!(before, after);
}
