use stratego::models::{Board, Cell, Piece};
use stratego::pool::{PendingMatch, PoolState};

fn setup(rank: &str) -> Board {
    (0..4)
        .map(|_| (0..10).map(|_| Cell::Piece(Piece::new(rank, 3))).collect())
        .collect()
}

fn ids(ps: &PoolState) -> Vec<String> {
    ps.entries.iter().map(|e| e.poll_id.clone()).collect()
}

#[test]
fn first_player_waits_second_is_paired() {
    let mut ps = PoolState::new();
    ps.join(setup("5"), "aaaa".into(), &vec![], 1000);
    assert_eq!(ids(&ps), vec!["aaaa".to_string()]);
    assert!(ps.pending.is_empty());
    ps.join(setup("6"), "bbbb".into(), &vec![Some(1500)], 2000);
    assert!(ps.entries.is_empty());
    assert_eq!(ps.pending.len(), 1);
    let pm = &ps.pending[0];
    assert_eq!(pm.red_poll_id, "aaaa");
    assert_eq!(pm.blue_poll_id, "bbbb");
    assert_eq!(pm.red_setup, setup("5"));
    assert_eq!(pm.blue_setup, setup("6"));
    assert!(!pm.red_confirmed && !pm.blue_confirmed);
    assert_eq!(pm.created_at, 2000);
}

#[test]
fn stale_entries_are_dropped_on_join() {
    let mut ps = PoolState::new();
    ps.join(setup("5"), "old".into(), &vec![], 0);
    // never polled, 10 s later: stale
    ps.join(setup("6"), "new".into(), &vec![None], 10_000);
    assert_eq!(ids(&ps), vec!["new".to_string()]);
    assert!(ps.pending.is_empty());
    // polled recently: kept and paired
    ps.join(setup("7"), "third".into(), &vec![Some(15_000)], 20_000);
    assert!(ps.entries.is_empty());
    assert_eq!(ps.pending[0].red_poll_id, "new");
}

#[test]
fn both_players_must_confirm() {
    let mut ps = PoolState::new();
    ps.join(setup("5"), "red".into(), &vec![], 0);
    ps.join(setup("6"), "blue".into(), &vec![Some(0)], 100);
    // red polls first: confirmation noted, no game yet
    assert!(ps.poll(&"red".to_string(), 200).is_none());
    assert!(ps.pending[0].red_confirmed);
    assert!(!ps.pending[0].blue_confirmed);
    // a stranger changes nothing
    assert!(ps.poll(&"zzz".to_string(), 250).is_none());
    assert_eq!(ps.pending.len(), 1);
    // blue polls: the pairing is complete
    let pm: PendingMatch = ps.poll(&"blue".to_string(), 300).unwrap();
    assert_eq!(pm.red_poll_id, "red");
    assert!(ps.pending.is_empty());
}

#[test]
fn expired_pairing_requeues_the_confirmed_player() {
    let mut ps = PoolState::new();
    ps.join(setup("5"), "red".into(), &vec![], 0);
    ps.join(setup("6"), "blue".into(), &vec![Some(0)], 100);
    assert!(ps.poll(&"blue".to_string(), 200).is_none());
    // 5 s after the pairing, red never confirmed
    assert!(ps.poll(&"red".to_string(), 5_100).is_none());
    assert!(ps.pending.is_empty());
    assert_eq!(ids(&ps), vec!["blue".to_string()]);
    assert_eq!(ps.entries[0].created_at, 5_100);
    assert_eq!(ps.entries[0].setup, setup("6"));
}

#[test]
fn expired_pairing_without_confirmation_is_dropped() {
    let mut ps = PoolState::new();
    ps.join(setup("5"), "red".into(), &vec![], 0);
    ps.join(setup("6"), "blue".into(), &vec![Some(0)], 100);
    assert!(ps.poll(&"x".to_string(), 6_000).is_none());
    assert!(ps.pending.is_empty());
    assert!(ps.entries.is_empty());
}

#[test]
fn leaving_forgets_the_player() {
    let mut ps = PoolState::new();
    ps.join(setup("5"), "a".into(), &vec![], 0);
    ps.leave(&"a".to_string());
    assert!(ps.entries.is_empty());
    ps.join(setup("5"), "b".into(), &vec![], 0);
    ps.join(setup("6"), "c".into(), &vec![Some(0)], 0);
    ps.join(setup("7"), "d".into(), &vec![], 0);
    ps.leave(&"c".to_string());
    assert!(ps.pending.is_empty());
    assert_eq!(ids(&ps), vec!["d".to_string()]);
}
