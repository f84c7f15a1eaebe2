use vstd::prelude::*;

use crate::constants::{MoveType, WATER_POSITIONS};
use crate::text::str_eq;

verus! {

/// A playing piece: its rank ("1".."9", "S", "B", "F", or "U" when hidden)
/// and the side that owns it (0 = red, 1 = blue).
#[derive(Debug, PartialEq)]
pub struct Piece {
    pub rank: String,
    pub side: i32,
}

/// Abstract value of a board cell: `Empty(0)` is an empty square,
/// `Empty(1)` is water, `Piece(rank, side)` is an occupied square.
pub enum CellModel {
    Empty(i32),
    Piece(Seq<char>, i32),
}

/// A cell on the board: either empty (0), water (1), or occupied by a piece.
#[derive(Debug, PartialEq)]
pub enum Cell {
    Empty(i32),
    Piece(Piece),
}

impl View for Cell {
    type V = CellModel;

    open spec fn view(&self) -> CellModel {
        match self {
            Cell::Empty(n) => CellModel::Empty(*n),
            Cell::Piece(p) => CellModel::Piece(p.rank@, p.side),
        }
    }
}

impl Clone for Piece {
    fn clone(&self) -> (res: Self)
        ensures
            res == *self,
    {
        Piece { rank: self.rank.clone(), side: self.side }
    }
}

impl Clone for Cell {
    fn clone(&self) -> (res: Self)
        ensures
            res == *self,
    {
        match self {
            Cell::Empty(n) => Cell::Empty(*n),
            Cell::Piece(p) => Cell::Piece(p.clone()),
        }
    }
}

impl Cell {
    pub fn is_empty(&self) -> (res: bool)
        ensures
            res == (self@ == CellModel::Empty(0)),
    {
        match self {
            Cell::Empty(n) => *n == 0,
            Cell::Piece(_) => false,
        }
    }

    pub fn is_water(&self) -> (res: bool)
        ensures
            res == (self@ == CellModel::Empty(1)),
    {
        match self {
            Cell::Empty(n) => *n == 1,
            Cell::Piece(_) => false,
        }
    }

    pub fn is_occupied(&self) -> (res: bool)
        ensures
            res == (self@ is Piece),
    {
        match self {
            Cell::Empty(_) => false,
            Cell::Piece(_) => true,
        }
    }

    pub fn as_piece(&self) -> (res: Option<&Piece>)
        ensures
            match self {
                Cell::Piece(p) => res == Some(p),
                Cell::Empty(_) => res is None,
            },
    {
        match self {
            Cell::Piece(p) => Some(p),
            _ => None,
        }
    }
}

impl Piece {
    pub fn new(rank: &str, side: i32) -> (res: Self)
        ensures
            res.rank@ == rank@,
            res.side == side,
    {
        Piece { rank: rank.to_string(), side }
    }

    pub fn unknown(opponent_side: i32) -> (res: Self)
        ensures
            res.rank@ == seq!['U'],
            res.side == opponent_side,
    {
        let rank = "U";
        proof {
            reveal_strlit("U");
        }
        Piece { rank: rank.to_string(), side: opponent_side }
    }
}


/// A square of the board, by column `x` and row `y`.
#[derive(Debug, Clone, Copy, PartialEq, Eq, Structural)]
pub struct Position {
    pub x: usize,
    pub y: usize,
}

/// Rows of cells, indexed `board[y][x]`.
pub type Board = Vec<Vec<Cell>>;

/// The abstract value of a row of cells.
pub open spec fn row_view(row: Seq<Cell>) -> Seq<CellModel> {
    Seq::new(row.len(), |i: int| row[i]@)
}

/// The abstract value of a board: `board_view(b)[y][x]` is the cell at (x, y).
pub open spec fn board_view(board: Seq<Vec<Cell>>) -> Seq<Seq<CellModel>> {
    Seq::new(board.len(), |i: int| row_view(board[i]@))
}

/// A board of 10 rows of 10 cells.
pub open spec fn is_full_board(board: Seq<Vec<Cell>>) -> bool {
    &&& board.len() == 10
    &&& forall|i: int| 0 <= i < 10 ==> #[trigger] board[i]@.len() == 10
}

/// `pos` names a cell that exists on `board`.
pub open spec fn on_board(board: Seq<Vec<Cell>>, pos: Position) -> bool {
    &&& pos.y < board.len()
    &&& pos.x < board[pos.y as int]@.len()
}

/// The board after the cell at `pos` is replaced by `c`.
pub open spec fn board_with(board: Seq<Seq<CellModel>>, pos: Position, c: CellModel) -> Seq<
    Seq<CellModel>,
> {
    board.update(pos.y as int, board[pos.y as int].update(pos.x as int, c))
}

/// Copy of a row, cell by cell.
pub fn copy_row(row: &Vec<Cell>) -> (res: Vec<Cell>)
    ensures
        res@ == row@,
{
    let mut res: Vec<Cell> = Vec::new();
    let mut i: usize = 0;
    while i < row.len()
        invariant
            i <= row@.len(),
            res@ == row@.subrange(0, i as int),
        decreases row@.len() - i,
    {
        res.push(row[i].clone());
        i = i + 1;
    }
    assert(res@ =~= row@);
    res
}

/// Copy of a sequence of rows.
pub fn copy_rows(rows: &[Vec<Cell>]) -> (res: Vec<Vec<Cell>>)
    ensures
        res@.len() == rows@.len(),
        forall|i: int| 0 <= i < rows@.len() ==> #[trigger] res@[i]@ == rows@[i]@,
{
    let mut res: Vec<Vec<Cell>> = Vec::new();
    let mut i: usize = 0;
    while i < rows.len()
        invariant
            i <= rows@.len(),
            res@.len() == i,
            forall|k: int| 0 <= k < i ==> #[trigger] res@[k]@ == rows@[k]@,
        decreases rows@.len() - i,
    {
        res.push(copy_row(&rows[i]));
        i = i + 1;
    }
    res
}

/// Two boards have the same number of rows, of the same lengths.
pub open spec fn same_shape(a: Seq<Vec<Cell>>, b: Seq<Vec<Cell>>) -> bool {
    &&& a.len() == b.len()
    &&& forall|i: int| 0 <= i < a.len() ==> #[trigger] a[i]@.len() == b[i]@.len()
}

/// Replace the cell at `pos`.
pub fn write_cell(board: &mut Board, pos: &Position, cell: Cell)
    requires
        on_board(old(board)@, *pos),
    ensures
        same_shape(final(board)@, old(board)@),
        forall|i: int| 0 <= i < old(board)@.len() && i != pos.y ==> #[trigger] final(board)@[i] == old(board)@[i],
        final(board)@[pos.y as int]@ == old(board)@[pos.y as int]@.update(pos.x as int, cell),
        board_view(final(board)@) == board_with(board_view(old(board)@), *pos, cell@),
{
    let mut row: Vec<Cell> = Vec::new();
    board.set_and_swap(pos.y, &mut row);
    row.set(pos.x, cell);
    board.set(pos.y, row);
    proof {
        let nb = board_view(board@);
        let wb = board_with(board_view(old(board)@), *pos, cell@);
        assert forall|i: int| 0 <= i < nb.len() implies #[trigger] nb[i] == wb[i] by {
            if i == pos.y {
                assert(nb[i] =~= wb[i]);
            }
        }
        assert(nb =~= wb);
    }
}


/// A move as it is recorded in a game's history: its outcome, where it went
/// from and to, and, for attacks, the two pieces involved.
#[derive(Debug, PartialEq)]
pub struct MoveRecord {
    pub move_type: MoveType,
    pub from: Position,
    pub to: Position,
    pub from_piece: Option<Piece>,
    pub to_piece: Option<Piece>,
}

fn copy_piece_option(p: &Option<Piece>) -> (res: Option<Piece>)
    ensures
        res == *p,
{
    match p {
        Some(q) => Some(q.clone()),
        None => None,
    }
}

impl Clone for MoveRecord {
    fn clone(&self) -> (res: Self)
        ensures
            res == *self,
    {
        MoveRecord {
            move_type: self.move_type,
            from: self.from,
            to: self.to,
            from_piece: copy_piece_option(&self.from_piece),
            to_piece: copy_piece_option(&self.to_piece),
        }
    }
}

/// A game: the players' secret hashes, the board, the initial setups, the
/// history of moves, whose turn it is (false = red, true = blue) and whether
/// the second player has joined (`game_state` 0 = waiting, 1 = ready).
#[derive(Debug, Clone)]
pub struct Game {
    pub id: String,
    pub red_hash: String,
    pub blue_hash: String,
    pub join_hash: String,
    pub board: Board,
    pub red_setup: Option<Vec<Vec<Cell>>>,
    pub blue_setup: Option<Vec<Vec<Cell>>>,
    pub moves: Vec<MoveRecord>,
    pub turn: bool,
    pub private: bool,
    pub game_state: i32,
    pub created: String,
    pub modified: String,
}

/// A sequence reversed.
pub open spec fn reversed<T>(s: Seq<T>) -> Seq<T> {
    Seq::new(s.len(), |j: int| s[s.len() - 1 - j])
}

/// A board turned by 180 degrees: rows in reverse order, each row reversed.
pub open spec fn rotated(b: Seq<Seq<CellModel>>) -> Seq<Seq<CellModel>> {
    Seq::new(b.len(), |i: int| reversed(b[b.len() - 1 - i]))
}

/// The last recorded move was the capture of a flag.
pub open spec fn ended(moves: Seq<MoveRecord>) -> bool {
    moves.len() > 0 && moves.last().move_type == MoveType::Capture
}

/// `water[y][x]` after the lakes have been placed on `b`.
pub open spec fn is_water_square(x: int, y: int) -> bool {
    (x == 2 || x == 3 || x == 6 || x == 7) && (y == 4 || y == 5)
}

/// The lake squares in the order of `WATER_POSITIONS`.
pub open spec fn water_positions() -> Seq<(usize, usize)> {
    seq![(2usize, 4usize), (2, 5), (3, 4), (3, 5), (6, 4), (6, 5), (7, 4), (7, 5)]
}

/// (x, y) is one of the first `k` lake squares.
pub open spec fn water_among(k: int, x: int, y: int) -> bool {
    exists|j: int| 0 <= j < k && #[trigger] water_positions()[j].0 == x && water_positions()[j].1 == y
}

proof fn lemma_water_bounds(k: int)
    requires
        0 <= k < 8,
    ensures
        water_positions()[k].0 <= 7,
        water_positions()[k].1 == 4 || water_positions()[k].1 == 5,
{
    let w = water_positions();
    assert(w[0] == (2usize, 4usize) && w[1] == (2usize, 5usize) && w[2] == (3usize, 4usize) && w[3] == (
    3usize, 5usize) && w[4] == (6usize, 4usize) && w[5] == (6usize, 5usize) && w[6] == (7usize, 4usize)
        && w[7] == (7usize, 5usize));
}

proof fn lemma_water_among(x: int, y: int)
    ensures
        water_among(8, x, y) == is_water_square(x, y),
{
    let w = water_positions();
    assert(w[0] == (2usize, 4usize) && w[1] == (2usize, 5usize) && w[2] == (3usize, 4usize) && w[3] == (
    3usize, 5usize) && w[4] == (6usize, 4usize) && w[5] == (6usize, 5usize) && w[6] == (7usize, 4usize)
        && w[7] == (7usize, 5usize));
    if is_water_square(x, y) {
        if x == 2 && y == 4 { assert(w[0].0 == x && w[0].1 == y); }
        if x == 2 && y == 5 { assert(w[1].0 == x && w[1].1 == y); }
        if x == 3 && y == 4 { assert(w[2].0 == x && w[2].1 == y); }
        if x == 3 && y == 5 { assert(w[3].0 == x && w[3].1 == y); }
        if x == 6 && y == 4 { assert(w[4].0 == x && w[4].1 == y); }
        if x == 6 && y == 5 { assert(w[5].0 == x && w[5].1 == y); }
        if x == 7 && y == 4 { assert(w[6].0 == x && w[6].1 == y); }
        if x == 7 && y == 5 { assert(w[7].0 == x && w[7].1 == y); }
    }
}

impl Game {
    /// Every field but the board is the same in `self` and `other`.
    pub open spec fn same_except_board(self, other: Game) -> bool {
        &&& self.id == other.id
        &&& self.red_hash == other.red_hash
        &&& self.blue_hash == other.blue_hash
        &&& self.join_hash == other.join_hash
        &&& self.red_setup == other.red_setup
        &&& self.blue_setup == other.blue_setup
        &&& self.moves == other.moves
        &&& self.turn == other.turn
        &&& self.private == other.private
        &&& self.game_state == other.game_state
        &&& self.created == other.created
        &&& self.modified == other.modified
    }

    /// The board as rows of abstract cells.
    pub open spec fn board_model(self) -> Seq<Seq<CellModel>> {
        board_view(self.board@)
    }

    /// A board of 10 by 10 empty cells.
    pub fn empty_board() -> (res: Board)
        ensures
            is_full_board(res@),
            forall|y: int, x: int|
                0 <= y < 10 && 0 <= x < 10 ==> #[trigger] board_view(res@)[y][x] == CellModel::Empty(0),
    {
        let mut res: Board = Vec::new();
        let mut i: usize = 0;
        while i < 10
            invariant
                i <= 10,
                res@.len() == i,
                forall|k: int| 0 <= k < i ==> #[trigger] res@[k]@.len() == 10,
                forall|k: int, x: int|
                    0 <= k < i && 0 <= x < 10 ==> #[trigger] res@[k]@[x] == Cell::Empty(0),
            decreases 10 - i,
        {
            let mut row: Vec<Cell> = Vec::new();
            let mut j: usize = 0;
            while j < 10
                invariant
                    j <= 10,
                    row@.len() == j,
                    forall|x: int| 0 <= x < j ==> #[trigger] row@[x] == Cell::Empty(0),
                decreases 10 - j,
            {
                row.push(Cell::Empty(0));
                j = j + 1;
            }
            res.push(row);
            i = i + 1;
        }
        res
    }

    /// The cell at `pos`.
    pub fn get_piece(&self, pos: &Position) -> (res: &Cell)
        requires
            on_board(self.board@, *pos),
        ensures
            *res == self.board@[pos.y as int]@[pos.x as int],
    {
        &self.board[pos.y][pos.x]
    }

    /// Put `cell` at `pos`.
    pub fn set_piece(&mut self, pos: &Position, cell: Cell)
        requires
            on_board(old(self).board@, *pos),
        ensures
            final(self).same_except_board(*old(self)),
            final(self).board_model() == board_with(old(self).board_model(), *pos, cell@),
            same_shape(final(self).board@, old(self).board@),
    {
        write_cell(&mut self.board, pos, cell);
    }

    /// Move whatever stands at `from` to `to`, leaving `from` empty.
    pub fn move_piece(&mut self, from: &Position, to: &Position)
        requires
            on_board(old(self).board@, *from),
            on_board(old(self).board@, *to),
        ensures
            final(self).same_except_board(*old(self)),
            final(self).board_model() == board_with(
                board_with(old(self).board_model(), *from, CellModel::Empty(0)),
                *to,
                old(self).board_model()[from.y as int][from.x as int],
            ),
            same_shape(final(self).board@, old(self).board@),
    {
        let piece = self.board[from.y][from.x].clone();
        self.set_piece(from, Cell::Empty(0));
        self.set_piece(to, piece);
    }

    /// Empty the cell at `pos`.
    pub fn delete_piece(&mut self, pos: &Position)
        requires
            on_board(old(self).board@, *pos),
        ensures
            final(self).same_except_board(*old(self)),
            final(self).board_model() == board_with(old(self).board_model(), *pos, CellModel::Empty(0)),
            same_shape(final(self).board@, old(self).board@),
    {
        self.set_piece(pos, Cell::Empty(0));
    }

    /// Hand the turn to the other player.
    pub fn flip_turn(&mut self)
        ensures
            *final(self) == (Game { turn: !old(self).turn, ..*old(self) }),
    {
        self.turn = !self.turn;
    }

    /// The most recent move, if any.
    pub fn get_last_move(&self) -> (res: Option<MoveRecord>)
        ensures
            res == (if self.moves@.len() > 0 { Some(self.moves@.last()) } else { None::<MoveRecord> }),
    {
        let n = self.moves.len();
        if n > 0 {
            Some(self.moves[n - 1].clone())
        } else {
            None
        }
    }

    /// Append `last_move` to the history.
    pub fn set_last_move(&mut self, last_move: MoveRecord)
        ensures
            final(self).moves@ == old(self).moves@.push(last_move),
            *final(self) == (Game { moves: final(self).moves, ..*old(self) }),
    {
        self.moves.push(last_move);
    }

    /// The game is over: the last move captured a flag.
    pub fn has_ended(&self) -> (res: bool)
        ensures
            res == ended(self.moves@),
    {
        let n = self.moves.len();
        n > 0 && self.moves[n - 1].move_type == MoveType::Capture
    }

    /// The hash of the other player, or `None` if `player_hash` is neither
    /// player's.
    pub fn get_opponent_hash(&self, player_hash: &str) -> (res: Option<&str>)
        ensures
            player_hash@ == self.blue_hash@ ==> (res matches Some(h) && h@ == self.red_hash@),
            player_hash@ != self.blue_hash@ && player_hash@ == self.red_hash@ ==> (res matches Some(h)
                && h@ == self.blue_hash@),
            player_hash@ != self.blue_hash@ && player_hash@ != self.red_hash@ ==> res is None,
    {
        if str_eq(player_hash, self.blue_hash.as_str()) {
            Some(self.red_hash.as_str())
        } else if str_eq(player_hash, self.red_hash.as_str()) {
            Some(self.blue_hash.as_str())
        } else {
            None
        }
    }

    /// Set red's initial piece setup into rows 6-9.
    pub fn set_red_setup(&mut self, setup: &[Vec<Cell>])
        requires
            setup@.len() >= 4,
            old(self).board@.len() >= 10,
        ensures
            final(self).board@.len() == old(self).board@.len(),
            forall|i: int|
                0 <= i < old(self).board@.len() ==> #[trigger] final(self).board@[i]@ == if 6 <= i < 10 {
                    setup@[i - 6]@
                } else {
                    old(self).board@[i]@
                },
            final(self).red_setup matches Some(s) && s@.len() == setup@.len() && forall|i: int|
                0 <= i < setup@.len() ==> #[trigger] s@[i]@ == setup@[i]@,
            *final(self) == (Game {
                board: final(self).board,
                red_setup: final(self).red_setup,
                ..*old(self)
            }),
    {
        self.board.set(6, copy_row(&setup[0]));
        self.board.set(7, copy_row(&setup[1]));
        self.board.set(8, copy_row(&setup[2]));
        self.board.set(9, copy_row(&setup[3]));
        self.red_setup = Some(copy_rows(setup));
    }

    /// Set blue's initial piece setup into rows 0-3, turned by 180 degrees:
    /// setup row k, reversed, becomes board row 3 - k.
    pub fn set_blue_setup(&mut self, setup: &[Vec<Cell>])
        requires
            setup@.len() >= 4,
            old(self).board@.len() >= 4,
        ensures
            final(self).board@.len() == old(self).board@.len(),
            forall|i: int|
                0 <= i < old(self).board@.len() ==> #[trigger] final(self).board@[i]@ == if 0 <= i < 4 {
                    reversed(setup@[3 - i]@)
                } else {
                    old(self).board@[i]@
                },
            final(self).blue_setup matches Some(s) && s@.len() == setup@.len() && forall|i: int|
                0 <= i < setup@.len() ==> #[trigger] s@[i]@ == setup@[i]@,
            *final(self) == (Game {
                board: final(self).board,
                blue_setup: final(self).blue_setup,
                ..*old(self)
            }),
    {
        let row0 = reverse_row(&setup[0]);
        let row1 = reverse_row(&setup[1]);
        let row2 = reverse_row(&setup[2]);
        let row3 = reverse_row(&setup[3]);
        self.board.set(3, row0);
        self.board.set(2, row1);
        self.board.set(1, row2);
        self.board.set(0, row3);
        self.blue_setup = Some(copy_rows(setup));
    }

    /// Place water blocks on the board.
    pub fn set_blocks(&mut self)
        requires
            old(self).board@.len() > 5,
            old(self).board@[4]@.len() > 7,
            old(self).board@[5]@.len() > 7,
        ensures
            final(self).same_except_board(*old(self)),
            same_shape(final(self).board@, old(self).board@),
            forall|y: int, x: int|
                0 <= y < old(self).board@.len() && 0 <= x < old(self).board@[y]@.len()
                    ==> #[trigger] final(self).board@[y]@[x] == if is_water_square(x, y) {
                    Cell::Empty(1)
                } else {
                    old(self).board@[y]@[x]
                },
    {
        let water = WATER_POSITIONS;
        assert(water@ =~= water_positions());
        let mut k: usize = 0;
        while k < 8
            invariant
                k <= 8,
                water@ == water_positions(),
                old(self).board@.len() > 5,
                old(self).board@[4]@.len() > 7,
                old(self).board@[5]@.len() > 7,
                self.same_except_board(*old(self)),
                same_shape(self.board@, old(self).board@),
                forall|y: int, x: int|
                    0 <= y < old(self).board@.len() && 0 <= x < old(self).board@[y]@.len()
                        ==> #[trigger] self.board@[y]@[x] == if water_among(k as int, x, y) {
                        Cell::Empty(1)
                    } else {
                        old(self).board@[y]@[x]
                    },
            decreases 8 - k,
        {
            let (x, y) = water[k];
            proof {
                lemma_water_bounds(k as int);
            }
            let ghost before = self.board@;
            write_cell(&mut self.board, &Position { x, y }, Cell::Empty(1));
            proof {
                assert forall|yy: int, xx: int|
                    0 <= yy < old(self).board@.len() && 0 <= xx < old(self).board@[yy]@.len()
                        implies #[trigger] self.board@[yy]@[xx] == if water_among(k + 1, xx, yy) {
                        Cell::Empty(1)
                    } else {
                        old(self).board@[yy]@[xx]
                    } by {
                    if xx == x && yy == y {
                        assert(water_positions()[k as int].0 == xx && water_positions()[k as int].1 == yy);
                    } else {
                        if water_among(k + 1, xx, yy) {
                            let j = choose|j: int| 0 <= j < k + 1 && #[trigger] water_positions()[j].0 == xx
                                && water_positions()[j].1 == yy;
                            assert(j != k);
                            assert(water_among(k as int, xx, yy));
                        }
                        assert(self.board@[yy]@[xx] == before[yy]@[xx]);
                    }
                }
            }
            k = k + 1;
        }
        proof {
            assert forall|y: int, x: int| #![trigger is_water_square(x, y)]
                0 <= y < old(self).board@.len() && 0 <= x < old(self).board@[y]@.len()
                implies water_among(8, x, y) == is_water_square(x, y) by {
                lemma_water_among(x, y);
            }
        }
    }

    /// Reverse the entire board 180 degrees.
    pub fn reverse_board(board: &Board) -> (res: Board)
        ensures
            board_view(res@) == rotated(board_view(board@)),
    {
        let n = board.len();
        let mut res: Board = Vec::new();
        let mut i: usize = 0;
        while i < n
            invariant
                n == board@.len(),
                i <= n,
                res@.len() == i,
                forall|k: int| 0 <= k < i ==> #[trigger] res@[k]@ == reversed(board@[n - 1 - k]@),
            decreases n - i,
        {
            res.push(reverse_row(&board[n - 1 - i]));
            i = i + 1;
        }
        proof {
            assert forall|k: int| 0 <= k < n implies #[trigger] board_view(res@)[k] == rotated(board_view(board@))[k] by {
                assert(row_view(res@[k]@) =~= reversed(row_view(board@[n - 1 - k]@)));
            }
        }
        assert(board_view(res@) =~= rotated(board_view(board@)));
        res
    }
}

/// Copy of a row in reverse order.
pub fn reverse_row(row: &Vec<Cell>) -> (res: Vec<Cell>)
    ensures
        res@ == reversed(row@),
{
    let n = row.len();
    let mut res: Vec<Cell> = Vec::new();
    let mut i: usize = 0;
    while i < n
        invariant
            n == row@.len(),
            i <= n,
            res@ == reversed(row@).subrange(0, i as int),
        decreases n - i,
    {
        res.push(row[n - 1 - i].clone());
        i = i + 1;
    }
    assert(res@ =~= reversed(row@));
    res
}

} // verus!
