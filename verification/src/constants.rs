use vstd::prelude::*;

verus! {

/// Outcome of a legal move.
#[derive(Debug, Clone, Copy, PartialEq, Eq, Structural)]
pub enum MoveType {
    Move,
    AttackDraw,
    AttackWon,
    AttackLost,
    Capture,
}

/// Whether a game still waits for its second player.
#[derive(Debug, Clone, Copy, PartialEq, Eq, Structural)]
pub enum GameState {
    WaitingForOpponent,
    Ready,
}

/// Width and height of the board.
pub const BOARD_SIZE: usize = 10;

/// The eight lake squares, as (x, y).
pub const WATER_POSITIONS: [(usize, usize); 8] = [
    (2, 4),
    (2, 5),
    (3, 4),
    (3, 5),
    (6, 4),
    (6, 5),
    (7, 4),
    (7, 5),
];


/// (rank, amount) for each piece type
pub const RANKS: [(&'static str, u32); 12] = [
    ("1", 1),
    ("2", 1),
    ("3", 2),
    ("4", 3),
    ("5", 4),
    ("6", 4),
    ("7", 4),
    ("8", 5),
    ("9", 8),
    ("S", 1),
    ("B", 6),
    ("F", 1),
];

} // verus!
