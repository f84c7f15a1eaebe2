use stratego::models::{Cell, Piece, Position};
use stratego::display::RankStyle;
use stratego::view::{
    pool_match,    PageAction, PageEvent, PlayPage,
    api_base_url, can_select, cell_classes, cell_content, color_of, dead_piece_class,
    decimal_text, failure_message, last_commit, commit_label, commit_link, version_label,
    is_own_piece, join_link, piece_class, play_path, pool_setup, rank_class,
    reconnect_base_delay, setup_mode, waiting_message, CellContent, LastMoveInfo, PollStep,
    Poller, Pointer, PoolPoller, SetupMode,
};

fn piece(rank: &str, side: i32) -> Piece {
    Piece::new(rank, side)
}

fn at(x: usize, y: usize) -> Position {
    Position { x, y }
}

fn last(kind: &str, from: Option<Piece>, to: Option<Piece>) -> Option<LastMoveInfo> {
    Some(LastMoveInfo {
        from_x: 2,
        from_y: 3,
        to_x: 2,
        to_y: 4,
        move_type: kind.to_string(),
        from_piece: from,
        to_piece: to,
    })
}

#[test]
fn the_api_base_defaults_to_same_origin() {
    assert_eq!(api_base_url(None), "");
    assert_eq!(api_base_url(Some("https://api.example")), "https://api.example");
}

#[test]
fn pieces_are_drawn_in_their_side_colour() {
    assert_eq!(color_of(0), "red");
    assert_eq!(color_of(1), "blue");
    assert_eq!(color_of(3), "black");
    assert_eq!(piece_class(&piece("9", 0), false), "piece image-9-red");
    assert_eq!(piece_class(&piece("S", 1), true), "piece image-S-blue phantom");
    assert_eq!(piece_class(&piece("U", 3), false), "piece image-U-black");
}

#[test]
fn rank_marks_follow_the_rank_style() {
    assert_eq!(
        rank_class(&piece("9", 1), RankStyle::European, false),
        Some("piece-rank image-rank-9-blue".to_string())
    );
    assert_eq!(
        rank_class(&piece("9", 1), RankStyle::American, true),
        Some("piece-rank image-rank-2-blue phantom".to_string())
    );
    assert_eq!(
        rank_class(&piece("S", 0), RankStyle::American, false),
        Some("piece-rank image-rank-1-red".to_string())
    );
    assert_eq!(rank_class(&piece("B", 0), RankStyle::European, false), None);
    assert_eq!(rank_class(&piece("F", 0), RankStyle::European, false), None);
    assert_eq!(rank_class(&piece("U", 1), RankStyle::European, false), None);
}

#[test]
fn beaten_pieces_are_marked() {
    assert_eq!(
        dead_piece_class(&piece("B", 0), RankStyle::European),
        "dead-piece-rank image-B-red"
    );
    assert_eq!(
        dead_piece_class(&piece("1", 1), RankStyle::American),
        "dead-piece-rank image-rank-10-blue"
    );
    assert_eq!(
        dead_piece_class(&piece("F", 3), RankStyle::European),
        "dead-piece-rank image-F-blue"
    );
}

#[test]
fn cells_carry_their_highlights() {
    let lm = last("move", None, None);
    assert_eq!(
        cell_classes(2, 3, Some(at(2, 3)), Some(at(2, 3)), &lm),
        "cell selected hover last-move-from"
    );
    assert_eq!(cell_classes(2, 4, Some(at(2, 3)), None, &lm), "cell last-move-to");
    assert_eq!(cell_classes(0, 0, Some(at(2, 3)), Some(at(1, 0)), &lm), "cell");
    assert_eq!(cell_classes(0, 0, None, None, &None), "cell");
}

#[test]
fn the_last_move_shows_ghosts_and_victors() {
    let red = piece("5", 0);
    let blue = piece("3", 1);
    let plain = Cell::Piece(piece("7", 0));
    let empty = Cell::Empty(0);

    // A lost attack: the attacker's ghost where it stood, the defender where it stands.
    let lm = last("lost", Some(red.clone()), Some(blue.clone()));
    assert_eq!(cell_content(&empty, 2, 3, &lm), CellContent::Phantom(red.clone()));
    assert_eq!(cell_content(&plain, 2, 4, &lm), CellContent::Piece(blue.clone()));

    // A draw: both ghosts.
    let lm = last("draw", Some(red.clone()), Some(blue.clone()));
    assert_eq!(cell_content(&empty, 2, 3, &lm), CellContent::Phantom(red.clone()));
    assert_eq!(cell_content(&empty, 2, 4, &lm), CellContent::Phantom(blue.clone()));

    // A won attack or a capture: the winner over the beaten piece's mark.
    for kind in ["won", "capture"] {
        let lm = last(kind, Some(red.clone()), Some(blue.clone()));
        assert_eq!(cell_content(&plain, 2, 3, &lm), CellContent::Piece(piece("7", 0)));
        assert_eq!(
            cell_content(&plain, 2, 4, &lm),
            CellContent::Victor(red.clone(), blue.clone())
        );
    }
    let lm = last("won", None, Some(blue.clone()));
    assert_eq!(cell_content(&plain, 2, 4, &lm), CellContent::Piece(piece("7", 0)));

    // Unknown pieces of a draw show nothing.
    let lm = last("draw", None, None);
    assert_eq!(cell_content(&plain, 2, 3, &lm), CellContent::Nothing);

    // A plain move, and cells away from the move.
    let lm = last("move", Some(red.clone()), None);
    assert_eq!(cell_content(&empty, 2, 3, &lm), CellContent::Nothing);
    assert_eq!(cell_content(&plain, 5, 5, &lm), CellContent::Piece(piece("7", 0)));
    assert_eq!(cell_content(&Cell::Empty(1), 5, 5, &None), CellContent::Nothing);
}

#[test]
fn only_own_visible_pieces_are_selectable() {
    let own = Cell::Piece(piece("4", 1));
    let setup_box = Cell::Piece(piece("4", 3));
    let theirs = Cell::Piece(piece("U", 0));
    assert!(is_own_piece(&own, 1));
    assert!(is_own_piece(&setup_box, 1));
    assert!(!is_own_piece(&theirs, 1));
    assert!(!is_own_piece(&Cell::Empty(0), 1));
    assert!(can_select(&own));
    assert!(!can_select(&theirs));
    assert!(!can_select(&Cell::Empty(1)));
}

#[test]
fn two_clicks_make_a_move() {
    let own = Cell::Piece(piece("4", 0));
    let theirs = Cell::Piece(piece("U", 1));
    let mut p = Pointer::new();

    // Clicking the opponent's piece selects nothing.
    assert_eq!(p.click(5, 5, &theirs, 0), None);
    assert_eq!(p.selected, None);

    // Clicking an own piece selects it; hovering then highlights anywhere.
    assert_eq!(p.click(1, 6, &own, 0), None);
    assert_eq!(p.selected, Some(at(1, 6)));
    p.mouse_over(1, 5, &Cell::Empty(0), 0);
    assert_eq!(p.hover, Some(at(1, 5)));

    // The second click is the move, and clears the pointer.
    assert_eq!(p.click(1, 5, &Cell::Empty(0), 0), Some((1, 6, 1, 5)));
    assert_eq!(p.selected, None);
    assert_eq!(p.hover, None);

    // Without a selection only own pieces light up.
    p.mouse_over(3, 3, &Cell::Empty(0), 0);
    assert_eq!(p.hover, None);
    p.mouse_over(3, 3, &own, 0);
    assert_eq!(p.hover, Some(at(3, 3)));
    p.leave(4, 4);
    assert_eq!(p.hover, Some(at(3, 3)));
    p.leave(3, 3);
    assert_eq!(p.hover, None);
}

#[test]
fn dragging_makes_a_move() {
    let mut p = Pointer::new();
    p.drag_start(0, 6);
    assert_eq!(p.selected, Some(at(0, 6)));
    p.drag_over(0, 5);
    assert_eq!(p.hover, Some(at(0, 5)));
    assert_eq!(p.drop_on(0, 5, Some(at(0, 6))), Some((0, 6, 0, 5)));
    assert_eq!(p.selected, None);
    assert_eq!(p.hover, None);
    assert_eq!(p.drop_on(0, 5, None), None);
}

#[test]
fn the_game_poller_reports_changes_until_stopped() {
    let mut poller = Poller::new(3000);
    assert_eq!(poller.next_step(true), PollStep::Fetch);
    assert_eq!(poller.next_step(false), PollStep::Wait(1000));
    assert!(poller.observe("2024-01-01T00:00:00Z"));
    assert!(!poller.observe("2024-01-01T00:00:00Z"));
    assert!(poller.observe("2024-01-01T00:00:05Z"));
    assert!(poller.observe(""));
    assert!(!Poller::new(3000).observe(""));
    poller.stop();
    assert_eq!(poller.next_step(true), PollStep::Finish);
}

#[test]
fn the_pool_poller_stops_once_matched() {
    let mut poller = PoolPoller::new(2000);
    assert_eq!(poller.next_step(true), PollStep::Fetch);
    assert!(!poller.observe(&None));
    assert_eq!(poller.next_step(false), PollStep::Wait(1000));
    assert!(poller.observe(&Some("abc".to_string())));
    assert_eq!(poller.next_step(true), PollStep::Finish);
    let mut stopped = PoolPoller::new(2000);
    stopped.stop();
    assert_eq!(stopped.next_step(true), PollStep::Finish);
}

#[test]
fn reconnection_backs_off_to_thirty_seconds() {
    assert_eq!(reconnect_base_delay(1), 1000);
    assert_eq!(reconnect_base_delay(2), 2000);
    assert_eq!(reconnect_base_delay(5), 16000);
    assert_eq!(reconnect_base_delay(6), 30000);
    assert_eq!(reconnect_base_delay(23), 30000);
    assert_eq!(reconnect_base_delay(29), 30000);
    assert_eq!(reconnect_base_delay(30), 30000);
    assert_eq!(reconnect_base_delay(32), 30000);
    assert_eq!(reconnect_base_delay(33), 30000);
    assert_eq!(reconnect_base_delay(u32::MAX), 30000);
}

#[test]
fn setup_modes_are_read_from_the_address() {
    assert_eq!(setup_mode("create"), SetupMode::Create);
    assert_eq!(setup_mode("join"), SetupMode::Join);
    assert_eq!(setup_mode("pool"), SetupMode::Pool);
    assert_eq!(setup_mode("Pool"), SetupMode::Unknown);
    assert_eq!(setup_mode(""), SetupMode::Unknown);
}

#[test]
fn the_pool_needs_a_remembered_setup() {
    assert_eq!(pool_setup(None), None);
    assert_eq!(pool_setup(Some(String::new())), None);
    assert_eq!(pool_setup(Some("[]".to_string())), None);
    assert_eq!(pool_setup(Some("[[1]]".to_string())), Some("[[1]]".to_string()));
}

#[test]
fn links_and_messages_are_spelled_out() {
    let link = join_link("https:", "stratego.io", "abc123");
    assert_eq!(link, "https://stratego.io/setup/join/abc123");
    assert_eq!(
        waiting_message(&link),
        "Waiting for opponent...<br /><br /> https://stratego.io/setup/join/abc123"
    );
    assert_eq!(play_path("ff00"), "/play/ff00");
}

#[test]
fn failed_requests_report_the_answer_or_the_status() {
    assert_eq!(failure_message(404, ""), "Request failed (404)");
    assert_eq!(failure_message(500, "Game not found"), "Game not found");
    assert_eq!(failure_message(0, ""), "Request failed (0)");
    assert_eq!(decimal_text(0), "0");
    assert_eq!(decimal_text(7), "7");
    assert_eq!(decimal_text(10), "10");
    assert_eq!(decimal_text(65535), "65535");
    assert_eq!(decimal_text(u32::MAX), "4294967295");
}

#[test]
fn the_last_commit_is_the_first_entry_of_the_list() {
    let pair = |h: &str, m: &str| Some((h.to_string(), m.to_string()));
    assert_eq!(last_commit("abc123 Fix board||def456 Old"), pair("abc123", "Fix board"));
    assert_eq!(last_commit("a b c"), pair("a", "b c"));
    assert_eq!(last_commit("a "), pair("a", ""));
    assert_eq!(last_commit(""), None);
    assert_eq!(last_commit("nospace"), None);
    assert_eq!(last_commit("x||y z"), None);
    assert_eq!(last_commit("|"), None);
    assert_eq!(last_commit("h m|x"), pair("h", "m|x"));
}

#[test]
fn version_and_commit_are_labelled() {
    assert_eq!(version_label("0.1.0"), "v0.1.0");
    assert_eq!(
        commit_link("https://github.com/benletchford/stratego.io", "abc123"),
        "https://github.com/benletchford/stratego.io/commit/abc123"
    );
    assert_eq!(commit_label("abc123", "Fix board"), "(abc123) Fix board");
}

#[test]
fn pollers_wait_their_interval_after_each_answer() {
    let poller = Poller::new(3000);
    assert_eq!(poller.after_fetch(), PollStep::Wait(3000));
    let mut pool = PoolPoller::new(2000);
    assert_eq!(pool.after_fetch(&None), PollStep::Wait(2000));
    assert_eq!(pool.next_step(true), PollStep::Fetch);
    assert_eq!(pool.after_fetch(&Some("h".to_string())), PollStep::Finish);
    assert_eq!(pool.next_step(true), PollStep::Finish);
}

#[test]
fn the_play_page_joins_the_pool_or_loads_the_game() {
    let mut page = PlayPage::new();
    assert_eq!(
        page.step(PageEvent::Opened { hash: "pool".to_string(), saved_setup: Some("[]".to_string()) }),
        PageAction::Navigate("/setup/pool".to_string())
    );
    assert_eq!(page.message, "Joining pool...");
    assert_eq!(
        page.step(PageEvent::Opened { hash: "pool".to_string(), saved_setup: Some("[[1]]".to_string()) }),
        PageAction::JoinPool("[[1]]".to_string())
    );
    assert_eq!(
        page.step(PageEvent::PoolJoined { player_hash: None, poll_id: "ab12cd34".to_string() }),
        PageAction::StartPoolPoller("ab12cd34".to_string(), 2000)
    );
    assert_eq!(page.message, "In pool, waiting for an opponent...");
    assert_eq!(
        page.step(PageEvent::Matched("ff00aa".to_string())),
        PageAction::Navigate("/play/ff00aa".to_string())
    );
    assert_eq!(
        page.step(PageEvent::PoolJoined { player_hash: Some("123abc".to_string()), poll_id: String::new() }),
        PageAction::Navigate("/play/123abc".to_string())
    );
    assert_eq!(page.step(PageEvent::PoolJoinFailed("boom".to_string())), PageAction::Nothing);
    assert_eq!(page.message, "Failed to join pool: boom");
    assert!(page.loading);

    let mut page = PlayPage::new();
    assert_eq!(
        page.step(PageEvent::Opened { hash: "abc123".to_string(), saved_setup: None }),
        PageAction::LoadGame("abc123".to_string())
    );
    assert_eq!(
        page.step(PageEvent::GameLoaded {
            player_hash: "abc123".to_string(),
            game_state: 0,
            join_link: "https://x/setup/join/j1".to_string(),
        }),
        PageAction::StartGamePoller("abc123".to_string(), 3000)
    );
    assert!(page.loading);
    assert_eq!(page.message, "Waiting for opponent...<br /><br /> https://x/setup/join/j1");
    assert_eq!(page.step(PageEvent::Polled { game_state: 0 }), PageAction::Nothing);
    assert!(page.loading);
    page.step(PageEvent::Polled { game_state: 1 });
    assert!(!page.loading);
    assert_eq!(
        page.step(PageEvent::MoveChosen { player_hash: "abc123".to_string(), side: 0, mv: (1, 6, 1, 5) }),
        PageAction::SendMove("abc123".to_string(), 0, (1, 6, 1, 5))
    );

    let mut page = PlayPage::new();
    page.step(PageEvent::GameLoadFailed("Game not found".to_string()));
    assert_eq!(page.message, "Game not found");
    page.step(PageEvent::GameLoaded { player_hash: "h".to_string(), game_state: 1, join_link: String::new() });
    assert!(!page.loading);
}

#[test]
fn only_a_true_match_gives_the_player_hash() {
    assert_eq!(pool_match(Some(true), Some("abc123")), Some("abc123".to_string()));
    assert_eq!(pool_match(Some(true), None), None);
    assert_eq!(pool_match(Some(false), Some("abc123")), None);
    assert_eq!(pool_match(None, Some("abc123")), None);
}
