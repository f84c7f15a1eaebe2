use vstd::prelude::*;

use crate::board_utils::{flipped, hidden_board, opposite, sendable_board};
use crate::constants::MoveType;
use crate::game_logic::{
    attack_result, blocked, dist, game_verdict, move_verdict, positions_on_board, Rejection,
};
use crate::models::{ended, is_full_board, rotated, row_view, CellModel, Game, Position};
use crate::play::{board_after, played};
use crate::models::board_with;
use crate::game_logic::{
    cells_between, fourfold, max_of, min_of, occurrences, player_moves, violates_two_square,
};
use crate::models::MoveRecord;
use crate::play::rows_with_side;
use crate::pool::{
    match_expired, requeued, entries_without, fresh_entries, involves, joined_entries, joined_pending, matches_without,
    PendingMatch, PoolEntry,
};
use crate::text::parsed_i32;
use crate::models::{Cell};
use crate::display::{remembered_style, style_word, swapped, RankStyle};

verus! {

/// Turning a position to the other side twice gives it back.
pub proof fn law_flip_twice(p: Position)
    requires
        p.x < 10,
        p.y < 10,
    ensures
        flipped(flipped(p)) == p,
{
}

/// Turning a board by 180 degrees twice gives it back.
pub proof fn law_rotate_twice(b: Seq<Seq<CellModel>>)
    ensures
        rotated(rotated(b)) == b,
{
    let r = rotated(rotated(b));
    assert forall|i: int| 0 <= i < b.len() implies #[trigger] r[i] == b[i] by {
        assert(r[i] =~= b[i]);
    }
    assert(r =~= b);
}

/// On a 10 by 10 board, the cell a blue player sees at `p` on the turned
/// board is the stored cell at the turned position of `p`: the board sent
/// to blue and the positions blue sends agree.
pub proof fn law_rotation_matches_flip(b: Seq<Seq<CellModel>>, p: Position)
    requires
        b.len() == 10,
        forall|i: int| 0 <= i < 10 ==> #[trigger] b[i].len() == 10,
        p.x < 10,
        p.y < 10,
    ensures
        rotated(b)[p.y as int][p.x as int] == b[flipped(p).y as int][flipped(p).x as int],
{
}


/// While a game is not over, the board a player is sent shows the rank of
/// no piece but that player's own: every other piece is an unknown ("U").
/// (While red waits for blue, rows 4-9 are sent as stored, so this needs
/// them to hold no piece of another side, as they do in a game created by
/// red.)
pub proof fn law_view_hides_opponent(game: Game, side: i32, y: int, x: int)
    requires
        !ended(game.moves@),
        side == 0 || side == 1,
        side == 0 && game.blue_setup is None ==> forall|i: int, j: int|
            4 <= i < game.board_model().len() && 0 <= j < game.board_model()[i].len()
                ==> !(#[trigger] game.board_model()[i][j] matches CellModel::Piece(_, s) && s != 0),
        0 <= y < sendable_board(game, side).len(),
        0 <= x < sendable_board(game, side)[y].len(),
    ensures
        sendable_board(game, side)[y][x] matches CellModel::Piece(r, s) ==> (s != side ==> r
            == seq!['U']),
{
    let b = game.board_model();
    if side == 1 {
        let h = hidden_board(b, side);
        assert(sendable_board(game, side) == rotated(h));
        let yy = h.len() - 1 - y;
        let xx = h[yy].len() - 1 - x;
        assert(rotated(h)[y][x] == h[yy][xx]);
    } else if game.blue_setup is None {
        if y >= 4 {
            assert(sendable_board(game, side)[y][x] == b[y][x]);
        }
    }
}

/// A move the rules accept takes a piece of the player whose turn it is,
/// never a bomb or a flag, never into water, and moves more than one square
/// only for a scout on a straight path with no piece in between.
pub proof fn law_accepted_move_is_legal(game: Game, from: Position, to: Position, t: MoveType)
    requires
        game_verdict(game, from, to) == Some(Ok::<MoveType, Rejection>(t)),
    ensures
        game.board_model()[from.y as int][from.x as int] matches CellModel::Piece(r, s) && s == (
        if game.turn {
            1i32
        } else {
            0i32
        }) && r != seq!['B'] && r != seq!['F'] && (dist(from.x, to.x) + dist(from.y, to.y) != 1
            ==> r == seq!['9'] && !blocked(game.board_model(), from, to)),
        game.board_model()[to.y as int][to.x as int] != CellModel::Empty(1),
        from.x == to.x || from.y == to.y,
        from != to,
{
}

/// A move changes at most the two squares it involves; in particular water
/// stays water and no piece ever stands in it.
pub proof fn law_move_touches_two_squares(
    before: Game,
    after: Game,
    t: MoveType,
    from: Position,
    to: Position,
    y: int,
    x: int,
)
    requires
        is_full_board(before.board@),
        positions_on_board(from, to),
        game_verdict(before, from, to) == Some(Ok::<MoveType, Rejection>(t)),
        played(before, after, t, from, to),
        0 <= y < 10,
        0 <= x < 10,
        !(y == from.y && x == from.x),
        !(y == to.y && x == to.x),
    ensures
        after.board_model()[y][x] == before.board_model()[y][x],
        before.board_model()[y][x] == CellModel::Empty(1) ==> after.board_model()[y][x]
            == CellModel::Empty(1),
        after.board_model()[to.y as int][to.x as int] != CellModel::Empty(1),
{
    let b = before.board_model();
    assert(b.len() == 10);
    assert(b[from.y as int] == row_view(before.board@[from.y as int]@));
    assert(b[to.y as int] == row_view(before.board@[to.y as int]@));
    assert(b[y] == row_view(before.board@[y]@));
}

/// Of two pieces with different numbers, exactly one wins, whichever of
/// them attacks: the lower number.
pub proof fn law_numbered_attack_is_antisymmetric(a: Seq<char>, d: Seq<char>)
    requires
        parsed_i32(a) is Some,
        parsed_i32(d) is Some,
        parsed_i32(a) != parsed_i32(d),
        a != seq!['F'] && a != seq!['B'] && a != seq!['S'],
        d != seq!['F'] && d != seq!['B'] && d != seq!['S'],
    ensures
        attack_result(a, d) == Some(MoveType::AttackWon) <==> attack_result(d, a) == Some(
            MoveType::AttackLost,
        ),
        attack_result(a, d) == Some(MoveType::AttackWon) <==> parsed_i32(a).unwrap() < parsed_i32(
            d,
        ).unwrap(),
{
}


/// A piece going back and forth between two neighbouring squares may do so
/// three times; the fourth move back is refused by the two-square rule.
pub proof fn law_shuttling_is_refused(
    moves: Seq<MoveRecord>,
    turn: bool,
    a: Position,
    b: Position,
)
    requires
        dist(a.x, b.x) + dist(a.y, b.y) == 1,
        ({
            let pm = player_moves(moves, if turn { 1 } else { 0 });
            let n = pm.len();
            &&& n >= 3
            &&& pm[n - 3].from == a && pm[n - 3].to == b
            &&& pm[n - 2].from == b && pm[n - 2].to == a
            &&& pm[n - 1].from == a && pm[n - 1].to == b
        }),
    ensures
        violates_two_square(moves, turn, b, a),
{
    let c = cells_between(a, b);
    assert(cells_between(b, a) =~= c);
    assert(c.len() == 2);
    assert(c[0] != c[1]);
    let all = c + c + c + c;
    assert(all.len() == 8);
    reveal_with_fuel(occurrences, 9);
    assert(all =~= seq![c[0], c[1], c[0], c[1], c[0], c[1], c[0], c[1]]);
    assert(occurrences(all, c[0]) == 4);
    assert(occurrences(all, c[1]) == 4);
    reveal_with_fuel(fourfold, 3);
    assert(c.drop_last() =~= seq![c[0]]);
    assert(seq![c[0]].drop_last() =~= Seq::<Position>::empty());
    assert(fourfold(c, all) == 2);
}

proof fn lemma_entries_without(entries: Seq<PoolEntry>, poll_id: Seq<char>)
    ensures
        forall|i: int|
            0 <= i < entries_without(entries, poll_id).len() ==> #[trigger] entries_without(
                entries,
                poll_id,
            )[i].poll_id@ != poll_id,
    decreases entries.len(),
{
    if entries.len() > 0 {
        lemma_entries_without(entries.drop_last(), poll_id);
        let rest = entries_without(entries.drop_last(), poll_id);
        assert forall|i: int| 0 <= i < entries_without(entries, poll_id).len() implies
            #[trigger] entries_without(entries, poll_id)[i].poll_id@ != poll_id by {
            if i < rest.len() {
                assert(entries_without(entries, poll_id)[i] == rest[i]);
            }
        }
    }
}

proof fn lemma_matches_without(pending: Seq<PendingMatch>, poll_id: Seq<char>)
    ensures
        forall|i: int|
            0 <= i < matches_without(pending, poll_id).len() ==> !involves(
                #[trigger] matches_without(pending, poll_id)[i],
                poll_id,
            ),
    decreases pending.len(),
{
    if pending.len() > 0 {
        lemma_matches_without(pending.drop_last(), poll_id);
        let rest = matches_without(pending.drop_last(), poll_id);
        assert forall|i: int| 0 <= i < matches_without(pending, poll_id).len() implies !involves(
            #[trigger] matches_without(pending, poll_id)[i],
            poll_id,
        ) by {
            if i < rest.len() {
                assert(matches_without(pending, poll_id)[i] == rest[i]);
            }
        }
    }
}

/// After a player leaves the pool, no waiting entry and no pairing mentions
/// that player's identifier.
pub proof fn law_leave_forgets(entries: Seq<PoolEntry>, pending: Seq<PendingMatch>, poll_id: Seq<char>)
    ensures
        forall|i: int|
            0 <= i < entries_without(entries, poll_id).len() ==> #[trigger] entries_without(
                entries,
                poll_id,
            )[i].poll_id@ != poll_id,
        forall|i: int|
            0 <= i < matches_without(pending, poll_id).len() ==> !involves(
                #[trigger] matches_without(pending, poll_id)[i],
                poll_id,
            ),
{
    lemma_entries_without(entries, poll_id);
    lemma_matches_without(pending, poll_id);
}

/// Entering the pool loses nobody who is still alive: the number of players
/// waiting alone plus twice the number of pairings grows by exactly one
/// (the newcomer), counted from the live entries.
pub proof fn law_join_keeps_everyone(
    entries: Seq<PoolEntry>,
    pending: Seq<PendingMatch>,
    last_polled: Seq<Option<u64>>,
    setup: Vec<Vec<Cell>>,
    poll_id: String,
    now: u64,
)
    ensures
        joined_entries(entries, last_polled, setup, poll_id, now).len() + 2 * joined_pending(
            entries,
            pending,
            last_polled,
            setup,
            poll_id,
            now,
        ).len() == fresh_entries(entries, last_polled, now).len() + 2 * pending.len() + 1,
{
}

/// Preparing a setup for a side gives every piece to that side and keeps
/// every rank and every empty cell.
pub proof fn law_setup_belongs_to_side(rows: Seq<Seq<CellModel>>, side: i32, i: int, j: int)
    requires
        0 <= i < rows.len(),
        0 <= j < rows[i].len(),
    ensures
        match rows[i][j] {
            CellModel::Piece(r, _) => rows_with_side(rows, side)[i][j] == CellModel::Piece(r, side),
            CellModel::Empty(n) => rows_with_side(rows, side)[i][j] == CellModel::Empty(n),
        },
{
}


/// 1 for a piece, 0 for an empty or water cell.
pub open spec fn piece_value(c: CellModel) -> int {
    if c is Piece {
        1
    } else {
        0
    }
}

/// Number of pieces in a row.
pub open spec fn row_pieces(r: Seq<CellModel>) -> int
    decreases r.len(),
{
    if r.len() == 0 {
        0
    } else {
        row_pieces(r.drop_last()) + piece_value(r.last())
    }
}

/// Number of pieces on a board.
pub open spec fn board_pieces(b: Seq<Seq<CellModel>>) -> int
    decreases b.len(),
{
    if b.len() == 0 {
        0
    } else {
        board_pieces(b.drop_last()) + row_pieces(b.last())
    }
}

/// How many pieces a move of type `t` takes off the board.
pub open spec fn pieces_lost(t: MoveType) -> int {
    match t {
        MoveType::Move => 0,
        MoveType::AttackDraw => 2,
        _ => 1,
    }
}

proof fn lemma_row_update(r: Seq<CellModel>, j: int, c: CellModel)
    requires
        0 <= j < r.len(),
    ensures
        row_pieces(r.update(j, c)) == row_pieces(r) - piece_value(r[j]) + piece_value(c),
    decreases r.len(),
{
    let u = r.update(j, c);
    if j == r.len() - 1 {
        assert(u.drop_last() =~= r.drop_last());
    } else {
        lemma_row_update(r.drop_last(), j, c);
        assert(u.drop_last() =~= r.drop_last().update(j, c));
    }
}

proof fn lemma_board_update(b: Seq<Seq<CellModel>>, i: int, r: Seq<CellModel>)
    requires
        0 <= i < b.len(),
    ensures
        board_pieces(b.update(i, r)) == board_pieces(b) - row_pieces(b[i]) + row_pieces(r),
    decreases b.len(),
{
    let u = b.update(i, r);
    if i == b.len() - 1 {
        assert(u.drop_last() =~= b.drop_last());
    } else {
        lemma_board_update(b.drop_last(), i, r);
        assert(u.drop_last() =~= b.drop_last().update(i, r));
    }
}

proof fn lemma_board_with(b: Seq<Seq<CellModel>>, p: Position, c: CellModel)
    requires
        p.y < b.len(),
        p.x < b[p.y as int].len(),
    ensures
        board_pieces(board_with(b, p, c)) == board_pieces(b) - piece_value(b[p.y as int][p.x as int])
            + piece_value(c),
{
    lemma_row_update(b[p.y as int], p.x as int, c);
    lemma_board_update(b, p.y as int, b[p.y as int].update(p.x as int, c));
}

/// No move ever adds a piece: a plain move keeps every piece, a win, a loss
/// or a capture takes one piece off the board, a draw takes two.
pub proof fn law_pieces_are_never_created(
    before: Game,
    after: Game,
    t: MoveType,
    from: Position,
    to: Position,
)
    requires
        is_full_board(before.board@),
        positions_on_board(from, to),
        game_verdict(before, from, to) == Some(Ok::<MoveType, Rejection>(t)),
        played(before, after, t, from, to),
    ensures
        board_pieces(after.board_model()) == board_pieces(before.board_model()) - pieces_lost(t),
{
    let b = before.board_model();
    assert(b[from.y as int] == row_view(before.board@[from.y as int]@));
    assert(b[to.y as int] == row_view(before.board@[to.y as int]@));
    let b1 = board_with(b, from, CellModel::Empty(0));
    lemma_board_with(b, from, CellModel::Empty(0));
    assert(b1[to.y as int].len() == b[to.y as int].len());
    assert(b1[to.y as int][to.x as int] == b[to.y as int][to.x as int]);
    match t {
        MoveType::AttackLost => {},
        MoveType::AttackDraw => {
            lemma_board_with(b1, to, CellModel::Empty(0));
        },
        _ => {
            lemma_board_with(b1, to, b[from.y as int][from.x as int]);
        },
    }
}

/// A rank style that is remembered and read back is the same style.
pub proof fn law_remembered_style(style: RankStyle)
    ensures
        remembered_style(style_word(style)) == style,
{
    reveal_strlit("european");
    reveal_strlit("american");
    if style == RankStyle::European {
        assert("european"@[0] != "american"@[0]);
    }
}

/// Exchanging the same two cells of a setup twice gives the setup back.
pub proof fn law_swap_twice(b: Seq<Seq<CellModel>>, f: Position, t: Position)
    requires
        f.y < b.len(),
        t.y < b.len(),
        f.x < b[f.y as int].len(),
        t.x < b[t.y as int].len(),
    ensures
        swapped(swapped(b, f, t), f, t) == b,
{
    let once = swapped(b, f, t);
    let twice = swapped(once, f, t);
    assert forall|i: int| 0 <= i < b.len() implies #[trigger] twice[i] == b[i] by {
        assert(twice[i] =~= b[i]);
    }
    assert(twice =~= b);
}

/// Capturing the flag ends the game, and nothing else does: after an
/// accepted move the game is over exactly when that move captured the flag
/// (and from then on every move is refused as the game having ended).
pub proof fn law_capture_ends_game(
    before: Game,
    after: Game,
    t: MoveType,
    from: Position,
    to: Position,
)
    requires
        played(before, after, t, from, to),
    ensures
        ended(after.moves@) <==> t == MoveType::Capture,
{
}

/// The cell with its piece (if any) given to the other side (side 0 to 1,
/// side 1 to 0).
pub open spec fn color_swapped_cell(c: CellModel) -> CellModel {
    match c {
        CellModel::Piece(rank, side) => CellModel::Piece(rank, if side == 0 { 1i32 } else { 0i32 }),
        CellModel::Empty(n) => CellModel::Empty(n),
    }
}

/// The cell holds no piece, or one of red's (0) or blue's (1).
pub open spec fn red_or_blue(c: CellModel) -> bool {
    match c {
        CellModel::Piece(_, side) => side == 0 || side == 1,
        CellModel::Empty(_) => true,
    }
}

/// The board with every piece given to the other side.
pub open spec fn color_swapped(b: Seq<Seq<CellModel>>) -> Seq<Seq<CellModel>> {
    Seq::new(b.len(), |y: int| Seq::new(b[y].len(), |x: int| color_swapped_cell(b[y][x])))
}

/// The rules are the same for both colours: with every piece given to the
/// other side and the turn handed over, every move gets the same ruling
/// (every piece being red's or blue's).
/// (The two-square rule reads the mover's earlier moves, which sit at other
/// places of the history once the turn is handed over; with at most four
/// moves played neither player has three, so it cannot apply.)
pub proof fn law_rules_are_color_symmetric(
    b: Seq<Seq<CellModel>>,
    turn: bool,
    moves: Seq<MoveRecord>,
    from: Position,
    to: Position,
)
    requires
        b.len() == 10,
        forall|y: int| 0 <= y < 10 ==> #[trigger] b[y].len() == 10,
        forall|y: int, x: int| 0 <= y < 10 && 0 <= x < 10 ==> red_or_blue(#[trigger] b[y][x]),
        positions_on_board(from, to),
        moves.len() <= 4,
    ensures
        move_verdict(color_swapped(b), !turn, moves, from, to) == move_verdict(
            b,
            turn,
            moves,
            from,
            to,
        ),
{
    let s = color_swapped(b);
    assert(player_moves(moves, 0).len() < 3);
    assert(player_moves(moves, 1).len() < 3);
    assert(!violates_two_square(moves, turn, from, to));
    assert(!violates_two_square(moves, !turn, from, to));
    assert(s[from.y as int][from.x as int] == color_swapped_cell(b[from.y as int][from.x as int]));
    assert(s[to.y as int][to.x as int] == color_swapped_cell(b[to.y as int][to.x as int]));
    if from.y == to.y {
        let lo = min_of(from.x as int, to.x as int);
        let hi = max_of(from.x as int, to.x as int);
        if blocked(b, from, to) {
            let x = choose|x: int| lo < x < hi && #[trigger] b[from.y as int][x] != CellModel::Empty(0);
            assert(s[from.y as int][x] != CellModel::Empty(0));
        }
        if blocked(s, from, to) {
            let x = choose|x: int| lo < x < hi && #[trigger] s[from.y as int][x] != CellModel::Empty(0);
            assert(b[from.y as int][x] != CellModel::Empty(0));
        }
    } else {
        let lo = min_of(from.y as int, to.y as int);
        let hi = max_of(from.y as int, to.y as int);
        if blocked(b, from, to) {
            let y = choose|y: int| lo < y < hi && #[trigger] b[y][from.x as int] != CellModel::Empty(0);
            assert(s[y][from.x as int] != CellModel::Empty(0));
        }
        if blocked(s, from, to) {
            let y = choose|y: int| lo < y < hi && #[trigger] s[y][from.x as int] != CellModel::Empty(0);
            assert(b[y][from.x as int] != CellModel::Empty(0));
        }
    }
    assert(blocked(s, from, to) == blocked(b, from, to));
}

/// 1 where the cell is `c`, else 0.
pub open spec fn is_cell(x: CellModel, c: CellModel) -> int {
    if x == c {
        1
    } else {
        0
    }
}

/// How many cells of the row are `c`.
pub open spec fn row_count(r: Seq<CellModel>, c: CellModel) -> int
    decreases r.len(),
{
    if r.len() == 0 {
        0
    } else {
        row_count(r.drop_last(), c) + is_cell(r.last(), c)
    }
}

/// How many cells of the board are `c`.
pub open spec fn board_count(b: Seq<Seq<CellModel>>, c: CellModel) -> int
    decreases b.len(),
{
    if b.len() == 0 {
        0
    } else {
        board_count(b.drop_last(), c) + row_count(b.last(), c)
    }
}

proof fn lemma_row_count_update(r: Seq<CellModel>, j: int, v: CellModel, c: CellModel)
    requires
        0 <= j < r.len(),
    ensures
        row_count(r.update(j, v), c) == row_count(r, c) - is_cell(r[j], c) + is_cell(v, c),
    decreases r.len(),
{
    let u = r.update(j, v);
    if j == r.len() - 1 {
        assert(u.drop_last() =~= r.drop_last());
    } else {
        lemma_row_count_update(r.drop_last(), j, v, c);
        assert(u.drop_last() =~= r.drop_last().update(j, v));
    }
}

proof fn lemma_board_count_update(b: Seq<Seq<CellModel>>, i: int, r: Seq<CellModel>, c: CellModel)
    requires
        0 <= i < b.len(),
    ensures
        board_count(b.update(i, r), c) == board_count(b, c) - row_count(b[i], c) + row_count(r, c),
    decreases b.len(),
{
    let u = b.update(i, r);
    if i == b.len() - 1 {
        assert(u.drop_last() =~= b.drop_last());
    } else {
        lemma_board_count_update(b.drop_last(), i, r, c);
        assert(u.drop_last() =~= b.drop_last().update(i, r));
    }
}

proof fn lemma_board_with_count(b: Seq<Seq<CellModel>>, p: Position, v: CellModel, c: CellModel)
    requires
        p.y < b.len(),
        p.x < b[p.y as int].len(),
    ensures
        board_count(board_with(b, p, v), c) == board_count(b, c) - is_cell(
            b[p.y as int][p.x as int],
            c,
        ) + is_cell(v, c),
{
    lemma_row_count_update(b[p.y as int], p.x as int, v, c);
    lemma_board_count_update(b, p.y as int, b[p.y as int].update(p.x as int, v), c);
}

/// Exchanging two cells of a setup keeps every cell: each cell value occurs
/// as often as before, so every setup reached by exchanges is a
/// rearrangement of the first.
pub proof fn law_swap_keeps_cells(b: Seq<Seq<CellModel>>, f: Position, t: Position, c: CellModel)
    requires
        f.y < b.len(),
        t.y < b.len(),
        f.x < b[f.y as int].len(),
        t.x < b[t.y as int].len(),
    ensures
        board_count(swapped(b, f, t), c) == board_count(b, c),
{
    let from_cell = b[f.y as int][f.x as int];
    let to_cell = b[t.y as int][t.x as int];
    let mid = board_with(b, f, to_cell);
    lemma_board_with_count(b, f, to_cell, c);
    assert(mid[t.y as int][t.x as int] == to_cell);
    lemma_board_with_count(mid, t, from_cell, c);
}

// ----- Attacks, targets, turns, the two-square rule, expiry -----

/// Every piece but the spy wins an attack on the spy.
pub proof fn law_spy_loses_to_every_attacker(a: Seq<char>)
    requires
        a != seq!['S'],
    ensures
        attack_result(a, seq!['S']) == Some(MoveType::AttackWon),
{
    assert(seq!['S'] != seq!['F']) by {
        assert(seq!['S'][0] != seq!['F'][0]);
    }
    assert(seq!['S'] != seq!['B']) by {
        assert(seq!['S'][0] != seq!['B'][0]);
    }
}

/// A legal attack on an enemy spy by anything but a spy is won.
pub proof fn law_attacking_the_spy_wins(game: Game, from: Position, to: Position, t: MoveType)
    requires
        game_verdict(game, from, to) == Some(Ok::<MoveType, Rejection>(t)),
        game.board_model()[to.y as int][to.x as int] matches CellModel::Piece(r, _) && r == seq![
            'S',
        ],
        !(game.board_model()[from.y as int][from.x as int] matches CellModel::Piece(r, _) && r
            == seq!['S']),
    ensures
        t == MoveType::AttackWon,
{
}

/// No accepted move lands on a piece of the mover's own side, whatever the
/// mover's rank: the target is empty or holds a piece of the other side.
pub proof fn law_no_move_onto_own_piece(game: Game, from: Position, to: Position, t: MoveType)
    requires
        game_verdict(game, from, to) == Some(Ok::<MoveType, Rejection>(t)),
    ensures
        game.board_model()[from.y as int][from.x as int] matches CellModel::Piece(_, mover) && !(
        game.board_model()[to.y as int][to.x as int] matches CellModel::Piece(_, s) && s
            == mover),
{
}

/// Every accepted move but a flag capture hands the turn to the other
/// player; a capture leaves it (the game is over).
pub proof fn law_turn_passes(before: Game, after: Game, t: MoveType, from: Position, to: Position)
    requires
        played(before, after, t, from, to),
    ensures
        t != MoveType::Capture ==> after.turn == !before.turn,
        t == MoveType::Capture ==> after.turn == before.turn,
{
}

/// The earlier moves of the player whose turn it is.
pub open spec fn mover_moves(game: Game) -> Seq<MoveRecord> {
    player_moves(game.moves@, if game.turn { 1 } else { 0 })
}

/// The cell `c` lies on the path of each of the mover's last three moves
/// (`pm` being the mover's moves, `n` their number) and on the proposed one.
pub open spec fn on_all_four_paths(
    c: Position,
    pm: Seq<MoveRecord>,
    n: int,
    from: Position,
    to: Position,
) -> bool {
    &&& cells_between(from, to).contains(c)
    &&& cells_between(pm[n - 3].from, pm[n - 3].to).contains(c)
    &&& cells_between(pm[n - 2].from, pm[n - 2].to).contains(c)
    &&& cells_between(pm[n - 1].from, pm[n - 1].to).contains(c)
}

proof fn lemma_occurrences_concat(s1: Seq<Position>, s2: Seq<Position>, p: Position)
    ensures
        occurrences(s1 + s2, p) == occurrences(s1, p) + occurrences(s2, p),
    decreases s2.len(),
{
    if s2.len() > 0 {
        lemma_occurrences_concat(s1, s2.drop_last(), p);
        assert((s1 + s2).drop_last() =~= s1 + s2.drop_last());
    } else {
        assert(s1 + s2 =~= s1);
    }
}

/// The cells of a straight path are all different.
proof fn lemma_path_distinct(from: Position, to: Position)
    ensures
        forall|i: int, j: int|
            0 <= i < j < cells_between(from, to).len() ==> #[trigger] cells_between(from, to)[i]
                != #[trigger] cells_between(from, to)[j],
{
}

proof fn lemma_occurrences_distinct(s: Seq<Position>, p: Position)
    requires
        forall|i: int, j: int| 0 <= i < j < s.len() ==> #[trigger] s[i] != #[trigger] s[j],
    ensures
        occurrences(s, p) <= 1,
        occurrences(s, p) == 1 ==> s.contains(p),
    decreases s.len(),
{
    if s.len() > 0 {
        let d = s.drop_last();
        assert forall|i: int, j: int| 0 <= i < j < d.len() implies #[trigger] d[i] != #[trigger] d[j] by {
            assert(d[i] == s[i] && d[j] == s[j]);
        }
        lemma_occurrences_distinct(d, p);
        if s.last() == p && occurrences(d, p) == 1 {
            let k = choose|k: int| 0 <= k < d.len() && d[k] == p;
            assert(s[k] == s[s.len() - 1]);
        }
        if occurrences(d, p) == 1 {
            let k = choose|k: int| 0 <= k < d.len() && d[k] == p;
            assert(s[k] == p);
        }
        if s.last() == p {
            assert(s[s.len() - 1] == p);
        }
    }
}

/// A cell on a path occurs on it once.
proof fn lemma_occurrences_path(from: Position, to: Position, p: Position)
    ensures
        occurrences(cells_between(from, to), p) <= 1,
        occurrences(cells_between(from, to), p) == 1 ==> cells_between(from, to).contains(p),
{
    lemma_path_distinct(from, to);
    lemma_occurrences_distinct(cells_between(from, to), p);
}

proof fn lemma_fourfold_witness(cells: Seq<Position>, all: Seq<Position>)
    ensures
        fourfold(cells, all) > 0 ==> exists|i: int|
            0 <= i < cells.len() && occurrences(all, #[trigger] cells[i]) == 4,
        fourfold(cells, all) > 1 ==> exists|i: int, j: int|
            0 <= i < j < cells.len() && occurrences(all, #[trigger] cells[i]) == 4 && occurrences(
                all,
                #[trigger] cells[j],
            ) == 4,
    decreases cells.len(),
{
    if cells.len() > 0 {
        let d = cells.drop_last();
        lemma_fourfold_witness(d, all);
        let last = cells.len() - 1;
        if fourfold(d, all) > 0 {
            let i = choose|i: int| 0 <= i < d.len() && occurrences(all, #[trigger] d[i]) == 4;
            assert(cells[i] == d[i]);
            if occurrences(all, cells.last()) == 4 {
                assert(occurrences(all, cells[last]) == 4);
            }
        }
        if fourfold(d, all) > 1 {
            let (i, j) = choose|i: int, j: int|
                0 <= i < j < d.len() && occurrences(all, #[trigger] d[i]) == 4 && occurrences(
                    all,
                    #[trigger] d[j],
                ) == 4;
            assert(cells[i] == d[i] && cells[j] == d[j]);
        }
        if occurrences(all, cells.last()) == 4 {
            assert(occurrences(all, cells[last]) == 4);
        }
    }
}

/// The two-square rule refuses a move only when at least two different
/// cells of its path lie on each of the mover's last three paths as well:
/// the piece keeps going over the same two squares. A shuttle whose paths
/// share only one cell with the proposed one is never refused.
pub proof fn law_two_square_needs_two_shared_cells(game: Game, from: Position, to: Position)
    requires
        game_verdict(game, from, to) == Some(Err::<MoveType, Rejection>(Rejection::TwoSquareRule)),
    ensures
        ({
            let pm = mover_moves(game);
            let n = pm.len() as int;
            &&& n >= 3
            &&& exists|c1: Position, c2: Position|
                c1 != c2 && #[trigger] on_all_four_paths(c1, pm, n, from, to)
                    && #[trigger] on_all_four_paths(c2, pm, n, from, to)
        }),
{
    let pm = mover_moves(game);
    let n = pm.len() as int;
    assert(violates_two_square(game.moves@, game.turn, from, to));
    assert(n >= 3);
    let m1 = pm[n - 3];
    let m2 = pm[n - 2];
    let m3 = pm[n - 1];
    let p1 = cells_between(m1.from, m1.to);
    let p2 = cells_between(m2.from, m2.to);
    let p3 = cells_between(m3.from, m3.to);
    let p4 = cells_between(from, to);
    let all = p1 + p2 + p3 + p4;
    assert(fourfold(p4, all) > 1);
    lemma_fourfold_witness(p4, all);
    let (i, j) = choose|i: int, j: int|
        0 <= i < j < p4.len() && occurrences(all, #[trigger] p4[i]) == 4 && occurrences(
            all,
            #[trigger] p4[j],
        ) == 4;
    lemma_path_distinct(from, to);
    assert(p4[i] != p4[j]);
    assert forall|c: Position| occurrences(all, c) == 4 implies on_all_four_paths(
        c,
        pm,
        n,
        from,
        to,
    ) by {
        lemma_occurrences_concat(p1 + p2 + p3, p4, c);
        lemma_occurrences_concat(p1 + p2, p3, c);
        lemma_occurrences_concat(p1, p2, c);
        lemma_occurrences_path(m1.from, m1.to, c);
        lemma_occurrences_path(m2.from, m2.to, c);
        lemma_occurrences_path(m3.from, m3.to, c);
        lemma_occurrences_path(from, to, c);
    }
    assert(on_all_four_paths(p4[i], pm, n, from, to));
    assert(on_all_four_paths(p4[j], pm, n, from, to));
    assert(exists|c1: Position, c2: Position|
        c1 != c2 && #[trigger] on_all_four_paths(c1, pm, n, from, to)
            && #[trigger] on_all_four_paths(c2, pm, n, from, to));
}

/// When a pairing expires with exactly one player confirmed, that player
/// goes back into the pool: their setup and identifier, arriving now.
pub proof fn law_expired_confirmer_is_requeued(pending: Seq<PendingMatch>, now: u64, k: int)
    requires
        0 <= k < pending.len(),
        match_expired(pending[k], now),
        pending[k].red_confirmed != pending[k].blue_confirmed,
    ensures
        pending[k].red_confirmed ==> requeued(pending, now).contains(
            PoolEntry {
                setup: pending[k].red_setup,
                poll_id: pending[k].red_poll_id,
                created_at: now,
            },
        ),
        pending[k].blue_confirmed ==> requeued(pending, now).contains(
            PoolEntry {
                setup: pending[k].blue_setup,
                poll_id: pending[k].blue_poll_id,
                created_at: now,
            },
        ),
    decreases pending.len(),
{
    let e = if pending[k].red_confirmed {
        PoolEntry { setup: pending[k].red_setup, poll_id: pending[k].red_poll_id, created_at: now }
    } else {
        PoolEntry {
            setup: pending[k].blue_setup,
            poll_id: pending[k].blue_poll_id,
            created_at: now,
        }
    };
    let rest = requeued(pending.drop_last(), now);
    if k == pending.len() - 1 {
        assert(requeued(pending, now) == rest.push(e));
        assert(requeued(pending, now)[rest.len() as int] == e);
    } else {
        assert(pending.drop_last()[k] == pending[k]);
        law_expired_confirmer_is_requeued(pending.drop_last(), now, k);
        let r = requeued(pending, now);
        assert(rest.contains(e));
        let i = choose|i: int| 0 <= i < rest.len() && rest[i] == e;
        assert(r[i] == rest[i]);
    }
}

} // verus!
