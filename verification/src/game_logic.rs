use vstd::prelude::*;

use crate::constants::MoveType;
use crate::models::{
    board_view, is_full_board, Board, Cell, CellModel, Game, MoveRecord, Piece, Position,
};
use crate::text::{is_single_char, parse_i32, parsed_i32};

verus! {

/// A move refused by the rules, with the message shown to the player.
#[derive(Debug)]
pub struct InvalidMove(pub String);

/// Why a move is refused.
#[derive(Debug, Clone, Copy, PartialEq, Eq, Structural)]
pub enum Rejection {
    NoPiece,
    NotYourTurn,
    OntoWater,
    OntoFriendly,
    BombMoved,
    FlagMoved,
    NotMoved,
    TwoSquareRule,
    IllegalMovement,
    JumpOverPieces,
}

/// The message shown to the player for each refusal.
pub open spec fn rejection_message(r: Rejection) -> Seq<char> {
    match r {
        Rejection::NoPiece => "No piece to move."@,
        Rejection::NotYourTurn => "Not your turn"@,
        Rejection::OntoWater => "Can not move onto an unmoveable block."@,
        Rejection::OntoFriendly => "Can not move onto friendly piece."@,
        Rejection::BombMoved => "Bombs cannot be moved."@,
        Rejection::FlagMoved => "Flags cannot be moved."@,
        Rejection::NotMoved => "Position has not changed."@,
        Rejection::TwoSquareRule => "That move violates the two-square rule."@,
        Rejection::IllegalMovement => "Illegal movement."@,
        Rejection::JumpOverPieces => "Can not jump over pieces."@,
    }
}

impl Rejection {
    /// The refusal with its message.
    pub fn to_invalid_move(self) -> (res: InvalidMove)
        ensures
            res.0@ == rejection_message(self),
    {
        let text = match self {
            Rejection::NoPiece => "No piece to move.",
            Rejection::NotYourTurn => "Not your turn",
            Rejection::OntoWater => "Can not move onto an unmoveable block.",
            Rejection::OntoFriendly => "Can not move onto friendly piece.",
            Rejection::BombMoved => "Bombs cannot be moved.",
            Rejection::FlagMoved => "Flags cannot be moved.",
            Rejection::NotMoved => "Position has not changed.",
            Rejection::TwoSquareRule => "That move violates the two-square rule.",
            Rejection::IllegalMovement => "Illegal movement.",
            Rejection::JumpOverPieces => "Can not jump over pieces.",
        };
        InvalidMove(text.to_string())
    }
}

/// The outcome of an attack by a piece of rank `a` on a piece of rank `d`;
/// `None` where the ranks cannot be compared (a rank that is not a number
/// where numbers are compared).
pub open spec fn attack_result(a: Seq<char>, d: Seq<char>) -> Option<MoveType> {
    if a == d {
        Some(MoveType::AttackDraw)
    } else if d == seq!['F'] {
        Some(MoveType::Capture)
    } else if d == seq!['B'] {
        if a == seq!['8'] {
            Some(MoveType::AttackWon)
        } else {
            Some(MoveType::AttackLost)
        }
    } else if d == seq!['S'] {
        Some(MoveType::AttackWon)
    } else if a == seq!['S'] {
        if d == seq!['1'] {
            Some(MoveType::AttackWon)
        } else {
            Some(MoveType::AttackLost)
        }
    } else {
        match (parsed_i32(a), parsed_i32(d)) {
            (Some(x), Some(y)) => if y > x {
                Some(MoveType::AttackWon)
            } else {
                Some(MoveType::AttackLost)
            },
            _ => None,
        }
    }
}

/// The outcome of an attack, or `None` where the ranks cannot be compared.
pub fn attack_outcome(from_piece: &Piece, to_piece: &Piece) -> (res: Option<MoveType>)
    ensures
        res == attack_result(from_piece.rank@, to_piece.rank@),
{
    let a = from_piece.rank.as_str();
    let d = to_piece.rank.as_str();
    // Draw: same rank
    if from_piece.rank == to_piece.rank {
        return Some(MoveType::AttackDraw);
    }
    // Any movable piece captures the flag
    if is_single_char(d, 'F') {
        return Some(MoveType::Capture);
    }
    // Attacking a bomb: only a miner defuses it
    if is_single_char(d, 'B') {
        if is_single_char(a, '8') {
            return Some(MoveType::AttackWon);
        } else {
            return Some(MoveType::AttackLost);
        }
    }
    // Everything wins against the spy
    if is_single_char(d, 'S') {
        return Some(MoveType::AttackWon);
    }
    // The spy only beats the marshal
    if is_single_char(a, 'S') {
        if is_single_char(d, '1') {
            return Some(MoveType::AttackWon);
        } else {
            return Some(MoveType::AttackLost);
        }
    }
    // Lower rank number = higher rank = wins
    let from_rank = parse_i32(a);
    let to_rank = parse_i32(d);
    match (from_rank, to_rank) {
        (Some(x), Some(y)) => if y > x {
            Some(MoveType::AttackWon)
        } else {
            Some(MoveType::AttackLost)
        },
        _ => None,
    }
}

/// The outcome of an attack by `from_piece` on `to_piece`, for ranks that
/// can be compared.
pub fn check_attack(from_piece: &Piece, to_piece: &Piece) -> (res: MoveType)
    requires
        attack_result(from_piece.rank@, to_piece.rank@) is Some,
    ensures
        attack_result(from_piece.rank@, to_piece.rank@) == Some(res),
{
    match attack_outcome(from_piece, to_piece) {
        Some(t) => t,
        None => MoveType::AttackLost,
    }
}

/// Smaller of two numbers.
pub open spec fn min_of(a: int, b: int) -> int {
    if a < b {
        a
    } else {
        b
    }
}

/// Larger of two numbers.
pub open spec fn max_of(a: int, b: int) -> int {
    if a < b {
        b
    } else {
        a
    }
}

/// Some cell strictly between `from` and `to` is not empty: along the row
/// when both are on the same row, otherwise along the column of `from`.
pub open spec fn blocked(b: Seq<Seq<CellModel>>, from: Position, to: Position) -> bool {
    if from.y == to.y {
        exists|x: int|
            min_of(from.x as int, to.x as int) < x < max_of(from.x as int, to.x as int)
                && #[trigger] b[from.y as int][x] != CellModel::Empty(0)
    } else {
        exists|y: int|
            min_of(from.y as int, to.y as int) < y < max_of(from.y as int, to.y as int)
                && #[trigger] b[y][from.x as int] != CellModel::Empty(0)
    }
}

/// Check if any piece exists between from and to positions (for scout moves).
fn is_piece_between(board: &Board, from: &Position, to: &Position) -> (res: bool)
    requires
        is_full_board(board@),
        from.x < 10 && from.y < 10 && to.x < 10 && to.y < 10,
    ensures
        res == blocked(board_view(board@), *from, *to),
{
    let ghost b = board_view(board@);
    if from.y == to.y {
        let lo = if from.x < to.x { from.x } else { to.x };
        let hi = if from.x < to.x { to.x } else { from.x };
        let mut x = lo + 1;
        while x < hi
            invariant
                is_full_board(board@),
                b == board_view(board@),
                from.y < 10,
                from.y == to.y,
                lo < x <= hi || (x == lo + 1 && hi <= lo + 1),
                hi < 10,
                lo as int == min_of(from.x as int, to.x as int),
                hi as int == max_of(from.x as int, to.x as int),
                forall|k: int| lo < k < x ==> #[trigger] b[from.y as int][k] == CellModel::Empty(0),
            decreases hi - x,
        {
            match &board[from.y][x] {
                Cell::Empty(n) => {
                    if *n != 0 {
                        assert(b[from.y as int][x as int] != CellModel::Empty(0));
                        return true;
                    }
                },
                Cell::Piece(_) => {
                    assert(b[from.y as int][x as int] != CellModel::Empty(0));
                    return true;
                },
            }
            x = x + 1;
        }
        false
    } else {
        let lo = if from.y < to.y { from.y } else { to.y };
        let hi = if from.y < to.y { to.y } else { from.y };
        let mut y = lo + 1;
        while y < hi
            invariant
                is_full_board(board@),
                b == board_view(board@),
                from.x < 10,
                from.y != to.y,
                lo < y <= hi || (y == lo + 1 && hi <= lo + 1),
                hi < 10,
                lo as int == min_of(from.y as int, to.y as int),
                hi as int == max_of(from.y as int, to.y as int),
                forall|k: int| lo < k < y ==> #[trigger] b[k][from.x as int] == CellModel::Empty(0),
            decreases hi - y,
        {
            match &board[y][from.x] {
                Cell::Empty(n) => {
                    if *n != 0 {
                        assert(b[y as int][from.x as int] != CellModel::Empty(0));
                        return true;
                    }
                },
                Cell::Piece(_) => {
                    assert(b[y as int][from.x as int] != CellModel::Empty(0));
                    return true;
                },
            }
            y = y + 1;
        }
        false
    }
}


/// The moves of one player: every second move of the history, starting at
/// index `start` (0 for red, 1 for blue).
pub open spec fn player_moves(moves: Seq<MoveRecord>, start: int) -> Seq<MoveRecord> {
    let n = if moves.len() > start {
        ((moves.len() - start + 1) / 2) as nat
    } else {
        0nat
    };
    Seq::new(n, |k: int| moves[start + 2 * k])
}

/// The cells from `from` to `to`, both included: along the column when
/// both are on the same column, otherwise along the row of `from`.
pub open spec fn cells_between(from: Position, to: Position) -> Seq<Position> {
    if from.x == to.x {
        let lo = min_of(from.y as int, to.y as int);
        let hi = max_of(from.y as int, to.y as int);
        Seq::new((hi - lo + 1) as nat, |k: int| Position { x: from.x, y: (lo + k) as usize })
    } else {
        let lo = min_of(from.x as int, to.x as int);
        let hi = max_of(from.x as int, to.x as int);
        Seq::new((hi - lo + 1) as nat, |k: int| Position { x: (lo + k) as usize, y: from.y })
    }
}

/// How many times `p` occurs in `s`.
pub open spec fn occurrences(s: Seq<Position>, p: Position) -> nat
    decreases s.len(),
{
    if s.len() == 0 {
        0
    } else {
        occurrences(s.drop_last(), p) + if s.last() == p {
            1nat
        } else {
            0nat
        }
    }
}

/// How many cells of `cells` occur exactly four times in `all`.
pub open spec fn fourfold(cells: Seq<Position>, all: Seq<Position>) -> nat
    decreases cells.len(),
{
    if cells.len() == 0 {
        0
    } else {
        fourfold(cells.drop_last(), all) + if occurrences(all, cells.last()) == 4 {
            1nat
        } else {
            0nat
        }
    }
}

/// The two-square rule: the mover's last three moves and the proposed one are
/// made by the same piece (each starts where the previous one ended), and
/// more than one cell of the proposed path occurs four times among the four
/// paths.
pub open spec fn violates_two_square(
    moves: Seq<MoveRecord>,
    turn: bool,
    from: Position,
    to: Position,
) -> bool {
    let pm = player_moves(moves, if turn { 1 } else { 0 });
    let n = pm.len();
    if n < 3 {
        false
    } else {
        let m1 = pm[n - 3];
        let m2 = pm[n - 2];
        let m3 = pm[n - 1];
        let all = cells_between(m1.from, m1.to) + cells_between(m2.from, m2.to) + cells_between(
            m3.from,
            m3.to,
        ) + cells_between(from, to);
        &&& m2.from == m1.to
        &&& m3.from == m2.to
        &&& from == m3.to
        &&& fourfold(cells_between(from, to), all) > 1
    }
}

/// Get all cells between two positions (inclusive), moving on a single axis.
fn get_cells_between_inclusive(from: &Position, to: &Position) -> (res: Vec<Position>)
    ensures
        res@ == cells_between(*from, *to),
{
    let mut cells: Vec<Position> = Vec::new();
    if from.x == to.x {
        let lo = if from.y < to.y { from.y } else { to.y };
        let hi = if from.y < to.y { to.y } else { from.y };
        let mut y = lo;
        loop
            invariant_except_break
                cells@ == cells_between(*from, *to).subrange(0, y - lo),
            invariant
                from.x == to.x,
                lo <= y <= hi,
                lo as int == min_of(from.y as int, to.y as int),
                hi as int == max_of(from.y as int, to.y as int),
            ensures
                cells@ == cells_between(*from, *to),
            decreases hi - y,
        {
            cells.push(Position { x: from.x, y });
            assert(cells@ =~= cells_between(*from, *to).subrange(0, y - lo + 1));
            if y == hi {
                assert(cells@ =~= cells_between(*from, *to));
                break;
            }
            y = y + 1;
        }
    } else {
        let lo = if from.x < to.x { from.x } else { to.x };
        let hi = if from.x < to.x { to.x } else { from.x };
        let mut x = lo;
        loop
            invariant_except_break
                cells@ == cells_between(*from, *to).subrange(0, x - lo),
            invariant
                from.x != to.x,
                lo <= x <= hi,
                lo as int == min_of(from.x as int, to.x as int),
                hi as int == max_of(from.x as int, to.x as int),
            ensures
                cells@ == cells_between(*from, *to),
            decreases hi - x,
        {
            cells.push(Position { x, y: from.y });
            assert(cells@ =~= cells_between(*from, *to).subrange(0, x - lo + 1));
            if x == hi {
                assert(cells@ =~= cells_between(*from, *to));
                break;
            }
            x = x + 1;
        }
    }
    cells
}

/// How many times `p` occurs in `all`.
fn count_occurrences(all: &Vec<Position>, p: &Position) -> (res: usize)
    ensures
        res == occurrences(all@, *p),
{
    let mut count: usize = 0;
    let mut i: usize = 0;
    while i < all.len()
        invariant
            i <= all@.len(),
            count == occurrences(all@.subrange(0, i as int), *p),
            count <= i,
        decreases all@.len() - i,
    {
        assert(all@.subrange(0, i + 1).drop_last() =~= all@.subrange(0, i as int));
        if all[i] == *p {
            count = count + 1;
        }
        i = i + 1;
    }
    assert(all@.subrange(0, all@.len() as int) =~= all@);
    count
}

/// Check if 4 consecutive moves involve the same piece.
fn check_moves_are_same_piece(moves: &[(Position, Position)]) -> (res: bool)
    ensures
        res == (moves@.len() >= 4 && moves@[1].0 == moves@[0].1 && moves@[2].0 == moves@[1].1
            && moves@[3].0 == moves@[2].1),
{
    if moves.len() < 4 {
        return false;
    }
    // Each move's from must equal the previous move's to
    moves[1].0 == moves[0].1 && moves[2].0 == moves[1].1 && moves[3].0 == moves[2].1
}

/// Check if the proposed move violates the two-square rule.
pub fn will_violate_two_square_rule(game: &Game, from_pos: &Position, to_pos: &Position) -> (res:
    bool)
    ensures
        res == violates_two_square(game.moves@, game.turn, *from_pos, *to_pos),
{
    // The current player's moves are every second move from `start`
    let start: usize = if game.turn { 1 } else { 0 };
    let total = game.moves.len();
    let len: usize = if total > start { (total - start) / 2 + (total - start) % 2 } else { 0 };
    let ghost pm = player_moves(game.moves@, start as int);
    assert(pm.len() == len);

    if len < 3 {
        return false;
    }

    let i1 = start + 2 * (len - 3);
    let i2 = start + 2 * (len - 2);
    let i3 = start + 2 * (len - 1);
    let move1 = (game.moves[i1].from, game.moves[i1].to);
    let move2 = (game.moves[i2].from, game.moves[i2].to);
    let move3 = (game.moves[i3].from, game.moves[i3].to);
    assert(pm[len - 3] == game.moves@[i1 as int]);
    assert(pm[len - 2] == game.moves@[i2 as int]);
    assert(pm[len - 1] == game.moves@[i3 as int]);

    let moves_chain = [move1, move2, move3, (*from_pos, *to_pos)];

    // Check if all 4 moves are the same piece (each move's from == previous move's to)
    if !check_moves_are_same_piece(moves_chain.as_slice()) {
        return false;
    }

    // Get all cells traversed in each move
    let cells1 = get_cells_between_inclusive(&move1.0, &move1.1);
    let cells2 = get_cells_between_inclusive(&move2.0, &move2.1);
    let cells3 = get_cells_between_inclusive(&move3.0, &move3.1);
    let cells4 = get_cells_between_inclusive(from_pos, to_pos);

    let mut all_cells: Vec<Position> = Vec::new();
    append_cells(&mut all_cells, &cells1);
    append_cells(&mut all_cells, &cells2);
    append_cells(&mut all_cells, &cells3);
    append_cells(&mut all_cells, &cells4);

    let mut duplicate_cells: usize = 0;
    let mut i: usize = 0;
    while i < cells4.len()
        invariant
            i <= cells4@.len(),
            duplicate_cells == fourfold(cells4@.subrange(0, i as int), all_cells@),
            duplicate_cells <= i,
        decreases cells4@.len() - i,
    {
        assert(cells4@.subrange(0, i + 1).drop_last() =~= cells4@.subrange(0, i as int));
        let count = count_occurrences(&all_cells, &cells4[i]);
        if count == 4 {
            duplicate_cells = duplicate_cells + 1;
        }
        i = i + 1;
    }
    assert(cells4@.subrange(0, cells4@.len() as int) =~= cells4@);

    duplicate_cells > 1
}

/// Append copies of `more` to `cells`.
fn append_cells(cells: &mut Vec<Position>, more: &Vec<Position>)
    ensures
        final(cells)@ == old(cells)@ + more@,
{
    let mut i: usize = 0;
    while i < more.len()
        invariant
            i <= more@.len(),
            cells@ == old(cells)@ + more@.subrange(0, i as int),
        decreases more@.len() - i,
    {
        cells.push(more[i]);
        i = i + 1;
    }
    assert(more@.subrange(0, more@.len() as int) =~= more@);
}


/// Distance between two coordinates.
pub open spec fn dist(a: usize, b: usize) -> int {
    if a < b {
        b - a
    } else {
        a - b
    }
}

/// The ruling on a move from `from` to `to` on `board`, whose player to move
/// is given by `turn` (false = red, side 0; true = blue, side 1) and whose
/// history is `moves`. `None` where the ranks of an attack cannot be compared.
pub open spec fn move_verdict(
    board: Seq<Seq<CellModel>>,
    turn: bool,
    moves: Seq<MoveRecord>,
    from: Position,
    to: Position,
) -> Option<Result<MoveType, Rejection>> {
    let to_cell = board[to.y as int][to.x as int];
    match board[from.y as int][from.x as int] {
        CellModel::Empty(_) => Some(Err(Rejection::NoPiece)),
        CellModel::Piece(rank, side) => {
            if side != (if turn { 1i32 } else { 0i32 }) {
                Some(Err(Rejection::NotYourTurn))
            } else if to_cell == CellModel::Empty(1) {
                Some(Err(Rejection::OntoWater))
            } else if (to_cell matches CellModel::Piece(_, s) && s == side) {
                Some(Err(Rejection::OntoFriendly))
            } else if rank == seq!['B'] {
                Some(Err(Rejection::BombMoved))
            } else if rank == seq!['F'] {
                Some(Err(Rejection::FlagMoved))
            } else if from == to {
                Some(Err(Rejection::NotMoved))
            } else if violates_two_square(moves, turn, from, to) {
                Some(Err(Rejection::TwoSquareRule))
            } else if from.x != to.x && from.y != to.y {
                Some(Err(Rejection::IllegalMovement))
            } else if dist(from.x, to.x) + dist(from.y, to.y) != 1 && rank != seq!['9'] {
                Some(Err(Rejection::IllegalMovement))
            } else if rank == seq!['9'] && blocked(board, from, to) {
                Some(Err(Rejection::JumpOverPieces))
            } else {
                match to_cell {
                    CellModel::Piece(to_rank, _) => match attack_result(rank, to_rank) {
                        Some(t) => Some(Ok(t)),
                        None => None,
                    },
                    CellModel::Empty(_) => Some(Ok(MoveType::Move)),
                }
            }
        },
    }
}

/// The ruling of `move_verdict` on a move in `game`.
pub open spec fn game_verdict(game: Game, from: Position, to: Position) -> Option<
    Result<MoveType, Rejection>,
> {
    move_verdict(game.board_model(), game.turn, game.moves@, from, to)
}

/// Both positions lie on a 10 by 10 board.
pub open spec fn positions_on_board(from: Position, to: Position) -> bool {
    from.x < 10 && from.y < 10 && to.x < 10 && to.y < 10
}

/// Judge a move: its outcome, or why it is refused.
/// `None` where the ranks of an attack cannot be compared.
pub fn judge_move(game: &Game, from: &Position, to: &Position) -> (res: Option<
    Result<MoveType, Rejection>,
>)
    requires
        is_full_board(game.board@),
        positions_on_board(*from, *to),
    ensures
        res == game_verdict(*game, *from, *to),
{
    let from_cell = game.get_piece(from);
    let to_cell = game.get_piece(to);

    let from_piece = match from_cell {
        Cell::Empty(_) => return Some(Err(Rejection::NoPiece)),
        Cell::Piece(p) => p,
    };

    // Red (side 0) moves when turn == false, blue (side 1) when turn == true
    let expected_side: i32 = if game.turn { 1 } else { 0 };
    if from_piece.side != expected_side {
        return Some(Err(Rejection::NotYourTurn));
    }

    // Water blocks cannot be entered
    if to_cell.is_water() {
        return Some(Err(Rejection::OntoWater));
    }

    if let Cell::Piece(to_piece) = to_cell {
        if from_piece.side == to_piece.side {
            return Some(Err(Rejection::OntoFriendly));
        }
    }

    let rank = from_piece.rank.as_str();
    if is_single_char(rank, 'B') {
        return Some(Err(Rejection::BombMoved));
    }
    if is_single_char(rank, 'F') {
        return Some(Err(Rejection::FlagMoved));
    }

    let diff_x = if from.x < to.x { to.x - from.x } else { from.x - to.x };
    let diff_y = if from.y < to.y { to.y - from.y } else { from.y - to.y };

    if diff_x == 0 && diff_y == 0 {
        return Some(Err(Rejection::NotMoved));
    }

    if will_violate_two_square_rule(game, from, to) {
        return Some(Err(Rejection::TwoSquareRule));
    }

    // Must move in exactly one axis (no diagonal)
    let single_axis = (diff_x == 0) != (diff_y == 0);
    if !single_axis {
        return Some(Err(Rejection::IllegalMovement));
    }

    // Normal piece: exactly 1 square. Scout: any distance in a straight line.
    let is_one_square = (diff_x == 1 && diff_y == 0) || (diff_x == 0 && diff_y == 1);
    let is_scout = is_single_char(rank, '9');

    if !is_one_square && !is_scout {
        return Some(Err(Rejection::IllegalMovement));
    }

    // Scout: verify no pieces between from and to
    if is_scout && is_piece_between(&game.board, from, to) {
        return Some(Err(Rejection::JumpOverPieces));
    }

    match to_cell {
        Cell::Piece(to_piece) => match attack_outcome(from_piece, to_piece) {
            Some(t) => Some(Ok(t)),
            None => None,
        },
        Cell::Empty(_) => Some(Ok(MoveType::Move)),
    }
}

/// Validate a move and return the move type.
pub fn check_move(game: &Game, from: &Position, to: &Position) -> (res: Result<MoveType, InvalidMove>)
    requires
        is_full_board(game.board@),
        positions_on_board(*from, *to),
        game_verdict(*game, *from, *to) is Some,
    ensures
        match game_verdict(*game, *from, *to) {
            Some(Ok(t)) => res matches Ok(u) && u == t,
            Some(Err(r)) => res matches Err(e) && e.0@ == rejection_message(r),
            None => false,
        },
{
    match judge_move(game, from, to) {
        Some(Ok(t)) => Ok(t),
        Some(Err(r)) => Err(r.to_invalid_move()),
        None => Ok(MoveType::AttackLost),
    }
}

} // verus!
