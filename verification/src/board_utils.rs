use vstd::prelude::*;

use crate::models::{
    board_view, copy_row, ended, reversed, rotated, row_view, Board, Cell, CellModel, Game,
    MoveRecord, Piece, Position,
};

verus! {

const FLIPPED: [usize; 10] = [9, 8, 7, 6, 5, 4, 3, 2, 1, 0];

/// A position seen from the other side of the board: (x, y) -> (9 - x, 9 - y).
pub open spec fn flipped(pos: Position) -> Position {
    Position { x: (9 - pos.x) as usize, y: (9 - pos.y) as usize }
}

fn flip_coordinate(c: usize) -> (res: usize)
    requires
        c < 10,
    ensures
        res == 9 - c,
{
    let table = FLIPPED;
    assert(table@ =~= seq![9usize, 8, 7, 6, 5, 4, 3, 2, 1, 0]);
    table[c]
}

/// Reverse a position for blue perspective: (x,y) → (9-x, 9-y).
pub fn reverse_position(pos: &mut Position)
    requires
        old(pos).x < 10,
        old(pos).y < 10,
    ensures
        *final(pos) == flipped(*old(pos)),
{
    pos.x = flip_coordinate(pos.x);
    pos.y = flip_coordinate(pos.y);
}

/// The other side: 1 for 0, and 0 for every other value.
pub open spec fn opposite(side: i32) -> i32 {
    if side == 0 {
        1
    } else {
        0
    }
}

fn opposite_side(side: i32) -> (res: i32)
    ensures
        res == opposite(side),
{
    if side == 0 {
        1
    } else {
        0
    }
}

/// A cell as `side` may see it: a piece of any other side becomes an
/// unknown piece ("U") of the opposite side.
pub open spec fn hidden_cell(c: CellModel, side: i32) -> CellModel {
    match c {
        CellModel::Piece(_, s) => if s != side {
            CellModel::Piece(seq!['U'], opposite(side))
        } else {
            c
        },
        CellModel::Empty(_) => c,
    }
}

/// A board as `side` may see it, cell by cell.
pub open spec fn hidden_board(b: Seq<Seq<CellModel>>, side: i32) -> Seq<Seq<CellModel>> {
    Seq::new(b.len(), |i: int| Seq::new(b[i].len(), |j: int| hidden_cell(b[i][j], side)))
}

fn hide_row(row: &Vec<Cell>, side: i32) -> (res: Vec<Cell>)
    ensures
        row_view(res@) == Seq::new(row@.len(), |j: int| hidden_cell(row@[j]@, side)),
{
    let opp = opposite_side(side);
    let mut res: Vec<Cell> = Vec::new();
    let mut j: usize = 0;
    while j < row.len()
        invariant
            j <= row@.len(),
            opp == opposite(side),
            res@.len() == j,
            forall|k: int| 0 <= k < j ==> #[trigger] res@[k]@ == hidden_cell(row@[k]@, side),
        decreases row@.len() - j,
    {
        let cell = match &row[j] {
            Cell::Piece(p) => if p.side != side {
                Cell::Piece(Piece::unknown(opp))
            } else {
                Cell::Piece(p.clone())
            },
            Cell::Empty(n) => Cell::Empty(*n),
        };
        res.push(cell);
        j = j + 1;
    }
    assert(row_view(res@) =~= Seq::new(row@.len(), |j: int| hidden_cell(row@[j]@, side)));
    res
}

/// Replace opponent pieces with unknown markers.
pub fn hide_side(board: &mut Board, side: i32)
    ensures
        board_view(final(board)@) == hidden_board(board_view(old(board)@), side),
{
    let mut i: usize = 0;
    while i < board.len()
        invariant
            i <= board@.len(),
            board@.len() == old(board)@.len(),
            forall|k: int|
                0 <= k < i ==> #[trigger] row_view(board@[k]@) == hidden_board(
                    board_view(old(board)@),
                    side,
                )[k],
            forall|k: int| i <= k < board@.len() ==> #[trigger] board@[k] == old(board)@[k],
        decreases board@.len() - i,
    {
        let row = hide_row(&board[i], side);
        board.set(i, row);
        proof {
            assert(hidden_board(board_view(old(board)@), side)[i as int] =~= Seq::new(
                old(board)@[i as int]@.len(),
                |j: int| hidden_cell(old(board)@[i as int]@[j]@, side),
            ));
        }
        i = i + 1;
    }
    proof {
        assert forall|k: int| 0 <= k < board@.len() implies #[trigger] board_view(board@)[k]
            == hidden_board(board_view(old(board)@), side)[k] by {
            assert(row_view(board@[k]@) == hidden_board(board_view(old(board)@), side)[k]);
        }
    }
    assert(board_view(board@) =~= hidden_board(board_view(old(board)@), side));
}

/// A row of ten unknown pieces of the given side.
pub open spec fn unknown_row_model(side: i32) -> Seq<CellModel> {
    Seq::new(10, |j: int| CellModel::Piece(seq!['U'], side))
}

fn unknown_row(opponent_side: i32) -> (res: Vec<Cell>)
    ensures
        row_view(res@) == unknown_row_model(opponent_side),
{
    let mut res: Vec<Cell> = Vec::new();
    let mut j: usize = 0;
    while j < 10
        invariant
            j <= 10,
            res@.len() == j,
            forall|k: int| 0 <= k < j ==> #[trigger] res@[k]@ == CellModel::Piece(seq!['U'], opponent_side),
        decreases 10 - j,
    {
        res.push(Cell::Piece(Piece::unknown(opponent_side)));
        j = j + 1;
    }
    assert(row_view(res@) =~= unknown_row_model(opponent_side));
    res
}

/// The board that `side` is shown:
/// - once the game has ended, the whole board (turned for blue);
/// - while red waits for blue, red's view with the top four rows shown as
///   unknown blue pieces;
/// - otherwise the board with the other side's pieces hidden (turned for blue).
pub open spec fn sendable_board(game: Game, side: i32) -> Seq<Seq<CellModel>> {
    let b = game.board_model();
    if ended(game.moves@) {
        if side == 1 {
            rotated(b)
        } else {
            b
        }
    } else if side == 0 && game.blue_setup is None {
        Seq::new(
            b.len(),
            |i: int|
                if i < 4 {
                    unknown_row_model(opposite(side))
                } else {
                    b[i]
                },
        )
    } else if side == 1 {
        rotated(hidden_board(b, side))
    } else {
        hidden_board(b, side)
    }
}

fn copy_board(board: &Board) -> (res: Board)
    ensures
        res@.len() == board@.len(),
        forall|i: int| 0 <= i < board@.len() ==> #[trigger] res@[i]@ == board@[i]@,
        board_view(res@) == board_view(board@),
{
    let mut res: Board = Vec::new();
    let mut i: usize = 0;
    while i < board.len()
        invariant
            i <= board@.len(),
            res@.len() == i,
            forall|k: int| 0 <= k < i ==> #[trigger] res@[k]@ == board@[k]@,
        decreases board@.len() - i,
    {
        res.push(copy_row(&board[i]));
        i = i + 1;
    }
    assert(board_view(res@) =~= board_view(board@));
    res
}

/// Build the board to send to a player, hiding opponent pieces.
pub fn get_sendable_board(game: &Game, side: i32) -> (res: Board)
    requires
        !ended(game.moves@) && side == 0 && game.blue_setup is None ==> game.board@.len() >= 4,
    ensures
        board_view(res@) == sendable_board(*game, side),
{
    let mut board = copy_board(&game.board);

    // If game has ended, show full board (rotated for blue)
    if game.has_ended() {
        if side == 1 {
            return Game::reverse_board(&board);
        }
        return board;
    }

    // Red waiting for blue: hide top rows as unknown
    if side == 0 && game.blue_setup.is_none() {
        let opp = opposite_side(side);
        board.set(0, unknown_row(opp));
        board.set(1, unknown_row(opp));
        board.set(2, unknown_row(opp));
        board.set(3, unknown_row(opp));
        proof {
            let b = game.board_model();
            let expect = Seq::new(
                b.len(),
                |i: int|
                    if i < 4 {
                        unknown_row_model(opposite(side))
                    } else {
                        b[i]
                    },
            );
            assert(board_view(board@) =~= expect);
        }
        return board;
    }

    // Normal: hide opponent pieces
    hide_side(&mut board, side);

    if side == 1 {
        Game::reverse_board(&board)
    } else {
        board
    }
}


/// What a player is sent about a game: the board as that player may see it,
/// whose turn it is, the game state, the player's side and hash, the join
/// hash (only for red while waiting for an opponent), the timestamps, and the
/// last move (positions turned for blue).
#[derive(Debug)]
pub struct SendableGame {
    pub board: Board,
    pub turn: bool,
    pub game_state: i32,
    pub side: i32,
    pub created: String,
    pub modified: String,
    pub player_hash: String,
    pub join_hash: Option<String>,
    pub last_move: Option<MoveRecord>,
}

/// A recorded move as `side` sees it: for blue both positions are turned.
pub open spec fn move_for_side(m: MoveRecord, side: i32) -> MoveRecord {
    if side == 1 {
        MoveRecord { from: flipped(m.from), to: flipped(m.to), ..m }
    } else {
        m
    }
}

/// Both positions of a recorded move lie on the 10 by 10 board.
pub open spec fn move_on_board(m: MoveRecord) -> bool {
    m.from.x < 10 && m.from.y < 10 && m.to.x < 10 && m.to.y < 10
}

/// Build the game to send to a player, hiding what that player may not see.
pub fn get_sendable_game(game: &Game, side: i32) -> (res: SendableGame)
    requires
        !ended(game.moves@) && side == 0 && game.blue_setup is None ==> game.board@.len() >= 4,
        side == 1 && game.moves@.len() > 0 ==> move_on_board(game.moves@.last()),
    ensures
        board_view(res.board@) == sendable_board(*game, side),
        res.turn == game.turn,
        res.game_state == game.game_state,
        res.side == side,
        res.created == game.created,
        res.modified == game.modified,
        res.player_hash == if side == 0 {
            game.red_hash
        } else {
            game.blue_hash
        },
        res.join_hash == if side == 0 && game.game_state == 0 {
            Some(game.join_hash)
        } else {
            None::<String>
        },
        res.last_move == if game.moves@.len() > 0 {
            Some(move_for_side(game.moves@.last(), side))
        } else {
            None::<MoveRecord>
        },
{
    let board = get_sendable_board(game, side);

    // Set player_hash based on side
    let player_hash = if side == 0 {
        game.red_hash.clone()
    } else {
        game.blue_hash.clone()
    };

    // Include join_hash for the creator (red) when waiting for opponent
    let join_hash = if side == 0 && game.game_state == 0 {
        Some(game.join_hash.clone())
    } else {
        None
    };

    // Set last_move (with position reversal for blue)
    let last_move = match game.get_last_move() {
        Some(m) => {
            let mut m = m;
            if side == 1 {
                proof {
                    assert(game.moves@.last() == game.moves@[game.moves@.len() - 1]);
                }
                reverse_position(&mut m.to);
                reverse_position(&mut m.from);
            }
            Some(m)
        },
        None => None,
    };

    SendableGame {
        board,
        turn: game.turn,
        game_state: game.game_state,
        side,
        created: game.created.clone(),
        modified: game.modified.clone(),
        player_hash,
        join_hash,
        last_move,
    }
}

} // verus!
