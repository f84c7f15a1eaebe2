use vstd::prelude::*;

use crate::board_utils::flipped;
use crate::pool::PendingMatch;
use crate::constants::MoveType;
use crate::game_logic::{
    game_verdict, judge_move, positions_on_board, rejection_message, InvalidMove,
};
use crate::ids::{
    hex_string_short, is_hex_of_len, is_hyphenated_uuid, is_utc_stamp, now_rfc3339, random_uuid,
    ClockError,
};
use crate::text::{parse_i32, parsed_i32};
use crate::models::{
    board_view, board_with, ended, is_full_board, is_water_square, row_view, Board, Cell,
    CellModel, Game, MoveRecord, Piece, Position,
};

verus! {

/// Form of a request to create a private game.
pub struct CreateForm {
    pub board: String,
}

/// Form of a request to join a private game.
pub struct JoinForm {
    pub join_hash: String,
    pub board: String,
}

/// Form of a request to make a move.
pub struct MoveForm {
    pub player_hash: String,
    pub side: String,
    pub from: String,
    pub to: String,
}

/// Query of a request for the current state of a game.
pub struct GameQuery {
    pub player_hash: String,
}

/// Form of a request to enter the matchmaking pool.
pub struct PoolJoinForm {
    pub board: String,
}

/// Query of a request for the state of a place in the pool.
pub struct PoolStatusQuery {
    pub poll_id: String,
}

/// Form of a request to leave the pool.
pub struct PoolLeaveForm {
    pub poll_id: String,
}

/// A game cannot be created.
#[derive(Debug, Clone, Copy, PartialEq, Eq, Structural)]
pub enum CreateError {
    /// The setup is not 4 rows of 10 cells.
    WrongShape,
    /// The clock cannot be read to stamp the game.
    NoClock,
}

/// A setup is refused: it is not 4 rows of 10 cells.
#[derive(Debug, Clone, Copy, PartialEq, Eq, Structural)]
pub enum SetupError {
    WrongShape,
}

/// A setup of 4 rows of 10 cells.
pub open spec fn is_setup_shape(setup: Seq<Vec<Cell>>) -> bool {
    &&& setup.len() == 4
    &&& forall|i: int| 0 <= i < 4 ==> #[trigger] setup[i]@.len() == 10
}

/// Check that a setup has 4 rows of 10 cells.
pub fn check_setup_shape(setup: &Vec<Vec<Cell>>) -> (res: bool)
    ensures
        res == is_setup_shape(setup@),
{
    if setup.len() != 4 {
        return false;
    }
    let mut i: usize = 0;
    while i < 4
        invariant
            setup@.len() == 4,
            i <= 4,
            forall|k: int| 0 <= k < i ==> #[trigger] setup@[k]@.len() == 10,
        decreases 4 - i,
    {
        if setup[i].len() != 10 {
            return false;
        }
        i = i + 1;
    }
    true
}

/// A cell with its piece, if any, given to `side`.
pub open spec fn with_side(c: CellModel, side: i32) -> CellModel {
    match c {
        CellModel::Piece(rank, _) => CellModel::Piece(rank, side),
        CellModel::Empty(_) => c,
    }
}

/// Rows of cells with every piece given to `side`.
pub open spec fn rows_with_side(rows: Seq<Seq<CellModel>>, side: i32) -> Seq<Seq<CellModel>> {
    Seq::new(rows.len(), |i: int| Seq::new(rows[i].len(), |j: int| with_side(rows[i][j], side)))
}

fn row_with_side(row: &Vec<Cell>, side: i32) -> (res: Vec<Cell>)
    ensures
        row_view(res@) == Seq::new(row@.len(), |j: int| with_side(row@[j]@, side)),
{
    let mut res: Vec<Cell> = Vec::new();
    let mut j: usize = 0;
    while j < row.len()
        invariant
            j <= row@.len(),
            res@.len() == j,
            forall|k: int| 0 <= k < j ==> #[trigger] res@[k]@ == with_side(row@[k]@, side),
        decreases row@.len() - j,
    {
        let cell = match &row[j] {
            Cell::Piece(p) => Cell::Piece(Piece { rank: p.rank.clone(), side }),
            Cell::Empty(n) => Cell::Empty(*n),
        };
        res.push(cell);
        j = j + 1;
    }
    assert(row_view(res@) =~= Seq::new(row@.len(), |j: int| with_side(row@[j]@, side)));
    res
}

/// Give every piece of a setup to `side`.
pub fn assign_side(setup: &Vec<Vec<Cell>>, side: i32) -> (res: Vec<Vec<Cell>>)
    ensures
        board_view(res@) == rows_with_side(board_view(setup@), side),
{
    let mut res: Vec<Vec<Cell>> = Vec::new();
    let mut i: usize = 0;
    while i < setup.len()
        invariant
            i <= setup@.len(),
            res@.len() == i,
            forall|k: int|
                0 <= k < i ==> #[trigger] row_view(res@[k]@) == rows_with_side(
                    board_view(setup@),
                    side,
                )[k],
        decreases setup@.len() - i,
    {
        let row = row_with_side(&setup[i], side);
        proof {
            assert(rows_with_side(board_view(setup@), side)[i as int] =~= Seq::new(
                setup@[i as int]@.len(),
                |j: int| with_side(setup@[i as int]@[j]@, side),
            ));
        }
        res.push(row);
        i = i + 1;
    }
    assert(board_view(res@) =~= rows_with_side(board_view(setup@), side));
    res
}

/// Check a setup's shape, then give its pieces to `side`.
pub fn prepare_setup(setup: &Vec<Vec<Cell>>, side: i32) -> (res: Result<Vec<Vec<Cell>>, SetupError>)
    ensures
        is_setup_shape(setup@) ==> (res matches Ok(s) && is_setup_shape(s@) && board_view(s@)
            == rows_with_side(board_view(setup@), side)),
        !is_setup_shape(setup@) ==> res == Err::<Vec<Vec<Cell>>, SetupError>(SetupError::WrongShape),
{
    if !check_setup_shape(setup) {
        return Err(SetupError::WrongShape);
    }
    let s = assign_side(setup, side);
    proof {
        assert(board_view(s@).len() == s@.len());
        assert(rows_with_side(board_view(setup@), side).len() == 4);
        assert forall|i: int| 0 <= i < 4 implies #[trigger] s@[i]@.len() == 10 by {
            assert(board_view(s@)[i] == row_view(s@[i]@));
            assert(board_view(setup@)[i] == row_view(setup@[i]@));
            assert(board_view(s@)[i].len() == rows_with_side(board_view(setup@), side)[i].len());
        }
    }
    Ok(s)
}


/// Check that a board has 10 rows of 10 cells.
pub fn has_full_board(board: &Board) -> (res: bool)
    ensures
        res == is_full_board(board@),
{
    if board.len() != 10 {
        return false;
    }
    let mut i: usize = 0;
    while i < 10
        invariant
            board@.len() == 10,
            i <= 10,
            forall|k: int| 0 <= k < i ==> #[trigger] board@[k]@.len() == 10,
        decreases 10 - i,
    {
        if board[i].len() != 10 {
            return false;
        }
        i = i + 1;
    }
    true
}

/// The board of a new game whose red player set up `red`: red's rows 6-9,
/// the lakes, and empty cells elsewhere.
pub open spec fn initial_board(red: Seq<Seq<CellModel>>) -> Seq<Seq<CellModel>> {
    Seq::new(
        10,
        |y: int|
            Seq::new(
                10,
                |x: int|
                    if 6 <= y < 10 {
                        red[y - 6][x]
                    } else if is_water_square(x, y) {
                        CellModel::Empty(1)
                    } else {
                        CellModel::Empty(0)
                    },
            ),
    )
}

/// A game just created by its red player.
pub open spec fn is_new_game(game: Game, red_setup: Seq<Vec<Cell>>, private: bool) -> bool {
    &&& is_full_board(game.board@)
    &&& game.board_model() == initial_board(board_view(red_setup))
    &&& game.red_setup matches Some(s) && board_view(s@) == board_view(red_setup)
    &&& game.blue_setup is None
    &&& game.moves@.len() == 0
    &&& !game.turn
    &&& game.private == private
    &&& game.game_state == 0
}

impl Game {
    /// Start a game from red's setup; red moves first.
    pub fn start(
        id: String,
        red_hash: String,
        blue_hash: String,
        join_hash: String,
        red_setup: &Vec<Vec<Cell>>,
        created: String,
        modified: String,
        private: bool,
    ) -> (res: Game)
        requires
            is_setup_shape(red_setup@),
        ensures
            is_new_game(res, red_setup@, private),
            res.id == id,
            res.red_hash == red_hash,
            res.blue_hash == blue_hash,
            res.join_hash == join_hash,
            res.created == created,
            res.modified == modified,
    {
        let mut game = Game {
            id,
            red_hash,
            blue_hash,
            join_hash,
            board: Game::empty_board(),
            red_setup: None,
            blue_setup: None,
            moves: Vec::new(),
            turn: false,
            private,
            game_state: 0,
            created,
            modified,
        };
        let ghost b0 = game.board@;
        game.set_red_setup(red_setup.as_slice());
        let ghost mid = game.board@;
        game.set_blocks();
        proof {
            let b = game.board_model();
            let expect = initial_board(board_view(red_setup@));
            assert forall|y: int| 0 <= y < 10 implies #[trigger] game.board@[y]@.len() == 10 by {
                if 6 <= y < 10 {
                    assert(red_setup@[y - 6]@.len() == 10);
                }
            }
            assert forall|y: int| 0 <= y < 10 implies #[trigger] b[y] == expect[y] by {
                assert forall|x: int| 0 <= x < 10 implies #[trigger] b[y][x] == expect[y][x] by {
                    assert(b[y][x] == game.board@[y]@[x]@);
                    if 6 <= y < 10 {
                        assert(mid[y]@ == red_setup@[y - 6]@);
                        assert(board_view(red_setup@)[y - 6][x] == red_setup@[y - 6]@[x]@);
                    } else {
                        assert(mid[y]@ == b0[y]@);
                        assert(board_view(b0)[y][x] == CellModel::Empty(0));
                        assert(b0[y]@[x]@ == CellModel::Empty(0));
                    }
                }
                assert(b[y] =~= expect[y]);
            }
            assert(b =~= expect);
            let s = game.red_setup.unwrap();
            assert(board_view(s@) =~= board_view(red_setup@));
        }
        game
    }

    /// Record the current time as the moment of the last change; where the
    /// clock cannot be read, the game stays as it was.
    pub fn touch(&mut self) -> (res: Result<(), ClockError>)
        ensures
            res is Ok ==> *final(self) == (Game { modified: final(self).modified, ..*old(self) })
                && is_utc_stamp(final(self).modified@),
            res is Err ==> *final(self) == *old(self),
    {
        match now_rfc3339() {
            Some(t) => {
                self.modified = t;
                Ok(())
            },
            None => Err(ClockError::Unreadable),
        }
    }
}

/// Create a game from red's setup, with fresh random identifiers and the
/// current time. The setup is checked and its pieces are given to red.
pub fn create_game(setup: &Vec<Vec<Cell>>, private: bool) -> (res: Result<Game, CreateError>)
    ensures
        !is_setup_shape(setup@) ==> res == Err::<Game, CreateError>(CreateError::WrongShape),
        is_setup_shape(setup@) ==> match res {
            Ok(g) => {
                &&& is_full_board(g.board@)
                &&& g.board_model() == initial_board(rows_with_side(board_view(setup@), 0))
                &&& (g.red_setup matches Some(r) && board_view(r@) == rows_with_side(
                    board_view(setup@),
                    0,
                ))
                &&& g.blue_setup is None
                &&& g.moves@.len() == 0
                &&& !g.turn
                &&& g.private == private
                &&& g.game_state == 0
                &&& is_hyphenated_uuid(g.id@)
                &&& is_hex_of_len(g.red_hash@, 6)
                &&& is_hex_of_len(g.blue_hash@, 6)
                &&& is_hex_of_len(g.join_hash@, 6)
                &&& is_utc_stamp(g.created@)
                &&& is_utc_stamp(g.modified@)
            },
            Err(e) => e == CreateError::NoClock,
        },
{
    let red = match prepare_setup(setup, 0) {
        Ok(s) => s,
        Err(_) => return Err(CreateError::WrongShape),
    };
    let id = random_uuid();
    let red_hash = hex_string_short();
    let blue_hash = hex_string_short();
    let join_hash = hex_string_short();
    let created = match now_rfc3339() {
        Some(t) => t,
        None => return Err(CreateError::NoClock),
    };
    let modified = match now_rfc3339() {
        Some(t) => t,
        None => return Err(CreateError::NoClock),
    };
    Ok(Game::start(id, red_hash, blue_hash, join_hash, &red, created, modified, private))
}

/// A join is refused: the game already has two players.
#[derive(Debug, Clone, Copy, PartialEq, Eq, Structural)]
pub enum JoinError {
    AlreadyFull,
}

/// Blue joins with a setup whose pieces are already blue's: the setup fills
/// rows 0-3 turned by 180 degrees and the game becomes ready.
pub fn join_game(game: &mut Game, setup: &Vec<Vec<Cell>>) -> (res: Result<(), JoinError>)
    requires
        old(game).board@.len() >= 4,
        setup@.len() >= 4,
    ensures
        old(game).game_state != 0 ==> res == Err::<(), JoinError>(JoinError::AlreadyFull)
            && *final(game) == *old(game),
        old(game).game_state == 0 ==> res == Ok::<(), JoinError>(()) && final(game).game_state == 1
            && final(game).board@.len() == old(game).board@.len() && (forall|i: int|
            0 <= i < old(game).board@.len() ==> #[trigger] final(game).board@[i]@ == if 0 <= i < 4 {
                crate::models::reversed(setup@[3 - i]@)
            } else {
                old(game).board@[i]@
            }) && (final(game).blue_setup matches Some(s) && s@.len() == setup@.len() && forall|
            i: int,
        |
            0 <= i < setup@.len() ==> #[trigger] s@[i]@ == setup@[i]@) && *final(game) == (Game {
            board: final(game).board,
            blue_setup: final(game).blue_setup,
            game_state: 1,
            ..*old(game)
        }),
{
    if game.game_state != 0 {
        return Err(JoinError::AlreadyFull);
    }
    game.set_blue_setup(setup.as_slice());
    game.game_state = 1;
    Ok(())
}


/// A move request is refused.
#[derive(Debug)]
pub enum MoveError {
    /// The player asked to move while it is the other player's turn.
    NotYourTurn,
    /// The game is over.
    GameEnded,
    /// The rules refuse the move.
    Invalid(InvalidMove),
    /// An attack between ranks that cannot be compared as numbers.
    Unranked,
    /// A position outside the 10 by 10 board.
    OffBoard,
}

/// The player with hash `player_hash` asks to move out of turn.
pub open spec fn out_of_turn(game: Game, player_hash: Seq<char>) -> bool {
    (game.red_hash@ == player_hash && game.turn) || (game.blue_hash@ == player_hash && !game.turn)
}

/// A position sent by `side`, on the board as stored (turned for blue).
pub open spec fn oriented(pos: Position, side: i32) -> Position {
    if side == 1 {
        flipped(pos)
    } else {
        pos
    }
}

/// The board after a move of type `t` from `from` to `to`: the mover goes
/// to `to` when it moves, wins or captures; it is removed when it loses;
/// both pieces are removed on a draw.
pub open spec fn board_after(
    b: Seq<Seq<CellModel>>,
    t: MoveType,
    from: Position,
    to: Position,
) -> Seq<Seq<CellModel>> {
    match t {
        MoveType::AttackLost => board_with(b, from, CellModel::Empty(0)),
        MoveType::AttackDraw => board_with(
            board_with(b, from, CellModel::Empty(0)),
            to,
            CellModel::Empty(0),
        ),
        _ => board_with(board_with(b, from, CellModel::Empty(0)), to, b[from.y as int][from.x as int]),
    }
}

/// `rec` records a move of type `t` from `from` to `to` on `board`: a plain
/// move without pieces, an attack with the two pieces as they stood.
pub open spec fn records(
    rec: MoveRecord,
    board: Seq<Vec<Cell>>,
    t: MoveType,
    from: Position,
    to: Position,
) -> bool {
    &&& rec.move_type == t
    &&& rec.from == from
    &&& rec.to == to
    &&& if t == MoveType::Move {
        rec.from_piece is None && rec.to_piece is None
    } else {
        &&& rec.from_piece matches Some(p) && Cell::Piece(p) == board[from.y as int]@[from.x as int]
        &&& rec.to_piece matches Some(q) && Cell::Piece(q) == board[to.y as int]@[to.x as int]
    }
}

/// `after` is `before` with a legal move of type `t` played: the board
/// changed as `board_after` says, the move recorded, and the turn handed
/// over unless the move captured the flag.
pub open spec fn played(before: Game, after: Game, t: MoveType, from: Position, to: Position) -> bool {
    &&& is_full_board(after.board@)
    &&& after.board_model() == board_after(before.board_model(), t, from, to)
    &&& after.moves@.len() == before.moves@.len() + 1
    &&& after.moves@.subrange(0, before.moves@.len() as int) == before.moves@
    &&& records(after.moves@.last(), before.board@, t, from, to)
    &&& after.turn == if t == MoveType::Capture {
        before.turn
    } else {
        !before.turn
    }
    &&& after.id == before.id
    &&& after.red_hash == before.red_hash
    &&& after.blue_hash == before.blue_hash
    &&& after.join_hash == before.join_hash
    &&& after.red_setup == before.red_setup
    &&& after.blue_setup == before.blue_setup
    &&& after.private == before.private
    &&& after.game_state == before.game_state
    &&& after.created == before.created
    &&& after.modified == before.modified
}

fn piece_at(game: &Game, pos: &Position) -> (res: Option<Piece>)
    requires
        crate::models::on_board(game.board@, *pos),
    ensures
        match game.board@[pos.y as int]@[pos.x as int] {
            Cell::Piece(p) => res == Some(p),
            Cell::Empty(_) => res is None,
        },
{
    match game.get_piece(pos) {
        Cell::Piece(p) => Some(p.clone()),
        Cell::Empty(_) => None,
    }
}

/// Carry out a move that the rules accept.
fn apply_move(game: &mut Game, t: MoveType, from: &Position, to: &Position)
    requires
        is_full_board(old(game).board@),
        positions_on_board(*from, *to),
        game_verdict(*old(game), *from, *to) == Some(Ok::<MoveType, crate::game_logic::Rejection>(t)),
    ensures
        played(*old(game), *final(game), t, *from, *to),
{
    let ghost before = *game;
    match t {
        MoveType::Move => {
            game.move_piece(from, to);
            game.flip_turn();
            game.set_last_move(
                MoveRecord { move_type: t, from: *from, to: *to, from_piece: None, to_piece: None },
            );
        },
        MoveType::AttackWon | MoveType::Capture => {
            let from_piece = piece_at(game, from);
            let to_piece = piece_at(game, to);
            game.move_piece(from, to);
            if t == MoveType::AttackWon {
                game.flip_turn();
            }
            game.set_last_move(MoveRecord { move_type: t, from: *from, to: *to, from_piece, to_piece });
        },
        MoveType::AttackLost => {
            let from_piece = piece_at(game, from);
            let to_piece = piece_at(game, to);
            game.delete_piece(from);
            game.flip_turn();
            game.set_last_move(MoveRecord { move_type: t, from: *from, to: *to, from_piece, to_piece });
        },
        MoveType::AttackDraw => {
            let from_piece = piece_at(game, from);
            let to_piece = piece_at(game, to);
            game.delete_piece(from);
            game.delete_piece(to);
            game.flip_turn();
            game.set_last_move(MoveRecord { move_type: t, from: *from, to: *to, from_piece, to_piece });
        },
    }
    proof {
        assert(game.moves@.subrange(0, before.moves@.len() as int) =~= before.moves@);
    }
}

/// A player's move request: `side` is the side the player says it plays
/// (1 = blue, whose positions are turned first), `player_hash` identifies
/// the player. Refused when it is not that player's turn, when the game is
/// over, when a position is off the board, when the rules refuse the move,
/// or when an attack compares ranks that are not numbers; otherwise the move
/// is carried out.
pub fn play_move(
    game: &mut Game,
    player_hash: &String,
    side: i32,
    from: &Position,
    to: &Position,
) -> (res: Result<MoveType, MoveError>)
    requires
        is_full_board(old(game).board@),
    ensures
        out_of_turn(*old(game), player_hash@) ==> (res matches Err(MoveError::NotYourTurn))
            && *final(game) == *old(game),
        !out_of_turn(*old(game), player_hash@) && ended(old(game).moves@) ==> (res matches Err(
            MoveError::GameEnded,
        )) && *final(game) == *old(game),
        !out_of_turn(*old(game), player_hash@) && !ended(old(game).moves@) && !positions_on_board(
            *from,
            *to,
        ) ==> (res matches Err(MoveError::OffBoard)) && *final(game) == *old(game),
        !out_of_turn(*old(game), player_hash@) && !ended(old(game).moves@) && positions_on_board(
            *from,
            *to,
        ) ==> match game_verdict(
            *old(game),
            oriented(*from, side),
            oriented(*to, side),
        ) {
            None => (res matches Err(MoveError::Unranked)) && *final(game) == *old(game),
            Some(Err(r)) => (res matches Err(MoveError::Invalid(e)) && e.0@ == rejection_message(r))
                && *final(game) == *old(game),
            Some(Ok(t)) => (res matches Ok(u) && u == t) && played(
                *old(game),
                *final(game),
                t,
                oriented(*from, side),
                oriented(*to, side),
            ),
        },
{
    // Red moves when turn == false, blue when turn == true
    let is_red = game.red_hash == *player_hash;
    let is_blue = game.blue_hash == *player_hash;
    if (is_red && game.turn) || (is_blue && !game.turn) {
        return Err(MoveError::NotYourTurn);
    }

    if game.has_ended() {
        return Err(MoveError::GameEnded);
    }

    if !(from.x < 10 && from.y < 10 && to.x < 10 && to.y < 10) {
        return Err(MoveError::OffBoard);
    }

    // Positions sent by blue are turned to the stored orientation
    let mut from_pos = *from;
    let mut to_pos = *to;
    if side == 1 {
        crate::board_utils::reverse_position(&mut from_pos);
        crate::board_utils::reverse_position(&mut to_pos);
    }

    match judge_move(game, &from_pos, &to_pos) {
        None => Err(MoveError::Unranked),
        Some(Err(r)) => Err(MoveError::Invalid(r.to_invalid_move())),
        Some(Ok(t)) => {
            apply_move(game, t, &from_pos, &to_pos);
            Ok(t)
        },
    }
}


/// The board of a game whose players set up `red` and `blue`: red's rows
/// 6-9, the lakes, blue's rows turned into rows 0-3, empty cells elsewhere.
pub open spec fn starting_board(red: Seq<Seq<CellModel>>, blue: Seq<Seq<CellModel>>) -> Seq<
    Seq<CellModel>,
> {
    Seq::new(
        10,
        |y: int|
            if y < 4 {
                crate::models::reversed(blue[3 - y])
            } else {
                initial_board(red)[y]
            },
    )
}

/// Create the game of a complete pairing, with fresh random identifiers and
/// the current time: red's pieces are the first player's, blue's the
/// second's; the game is public and ready, red moves first.
pub fn create_pool_game(pm: &PendingMatch) -> (result: Result<Game, ClockError>)
    requires
        is_setup_shape(pm.red_setup@),
        is_setup_shape(pm.blue_setup@),
    ensures
        result matches Ok(res) ==> ({
            &&& is_full_board(res.board@)
            &&& res.board_model() == starting_board(
                rows_with_side(board_view(pm.red_setup@), 0),
                rows_with_side(board_view(pm.blue_setup@), 1),
            )
            &&& (res.red_setup matches Some(r) && board_view(r@) == rows_with_side(
                board_view(pm.red_setup@),
                0,
            ))
            &&& (res.blue_setup matches Some(b) && board_view(b@) == rows_with_side(
                board_view(pm.blue_setup@),
                1,
            ))
            &&& res.moves@.len() == 0
            &&& !res.turn
            &&& !res.private
            &&& res.game_state == 1
            &&& is_hyphenated_uuid(res.id@)
            &&& is_hex_of_len(res.red_hash@, 6)
            &&& is_hex_of_len(res.blue_hash@, 6)
            &&& is_hex_of_len(res.join_hash@, 6)
            &&& is_utc_stamp(res.created@)
            &&& is_utc_stamp(res.modified@)
        }),
{
    let red = match prepare_setup(&pm.red_setup, 0) {
        Ok(s) => s,
        Err(_) => Vec::new(),
    };
    let blue = match prepare_setup(&pm.blue_setup, 1) {
        Ok(s) => s,
        Err(_) => Vec::new(),
    };
    let id = random_uuid();
    let red_hash = hex_string_short();
    let blue_hash = hex_string_short();
    let join_hash = hex_string_short();
    let created = match now_rfc3339() {
        Some(t) => t,
        None => return Err(ClockError::Unreadable),
    };
    let modified = match now_rfc3339() {
        Some(t) => t,
        None => return Err(ClockError::Unreadable),
    };
    let mut game = Game::start(id, red_hash, blue_hash, join_hash, &red, created, modified, false);
    let ghost mid = game.board@;
    game.set_blue_setup(blue.as_slice());
    game.game_state = 1;
    proof {
        let b = game.board_model();
        let expect = starting_board(board_view(red@), board_view(blue@));
        assert forall|y: int| 0 <= y < 10 implies #[trigger] game.board@[y]@.len() == 10 by {
            if y < 4 {
                assert(blue@[3 - y]@.len() == 10);
            }
        }
        assert forall|y: int| 0 <= y < 10 implies #[trigger] b[y] == expect[y] by {
            if y < 4 {
                assert(b[y] =~= expect[y]);
            } else {
                assert(game.board@[y]@ == mid[y]@);
                assert(b[y] == board_view(mid)[y]);
            }
        }
        assert(b =~= expect);
    }
    Ok(game)
}


impl MoveForm {
    /// The side the player says it plays, as a number; `None` when the field
    /// is not a decimal `i32`.
    pub fn side_value(&self) -> (res: Option<i32>)
        ensures
            res == parsed_i32(self.side@),
    {
        parse_i32(self.side.as_str())
    }
}

/// Which of a game's three hashes names it.
#[derive(Debug, Clone, Copy, PartialEq, Eq, Structural)]
pub enum HashKind {
    Red,
    Blue,
    Join,
}

/// The name of a hash kind in index keys.
pub open spec fn kind_name(kind: HashKind) -> Seq<char> {
    match kind {
        HashKind::Red => seq!['r', 'e', 'd'],
        HashKind::Blue => seq!['b', 'l', 'u', 'e'],
        HashKind::Join => seq!['j', 'o', 'i', 'n'],
    }
}

impl HashKind {
    /// The kind of hash a player of `side` uses: red's for side 0, blue's
    /// otherwise.
    pub fn for_side(side: i32) -> (res: HashKind)
        ensures
            res == if side == 0 {
                HashKind::Red
            } else {
                HashKind::Blue
            },
    {
        if side == 0 {
            HashKind::Red
        } else {
            HashKind::Blue
        }
    }

    /// The name of this kind: "red", "blue" or "join".
    pub fn name(self) -> (res: &'static str)
        ensures
            res@ == kind_name(self),
    {
        match self {
            HashKind::Red => {
                proof {
                    reveal_strlit("red");
                }
                "red"
            },
            HashKind::Blue => {
                proof {
                    reveal_strlit("blue");
                }
                "blue"
            },
            HashKind::Join => {
                proof {
                    reveal_strlit("join");
                }
                "join"
            },
        }
    }
}

/// The key under which the game named by `hash` of kind `kind` is indexed:
/// the kind's name, '_', then the hash.
pub fn index_key(kind: HashKind, hash: &str) -> (res: String)
    ensures
        res@ == kind_name(kind) + seq!['_'] + hash@,
{
    let sep = "_";
    proof {
        reveal_strlit("_");
    }
    let key = String::from_str(kind.name());
    let key = key.concat(sep);
    key.concat(hash)
}

} // verus!
