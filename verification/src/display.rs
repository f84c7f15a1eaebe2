use vstd::prelude::*;

use crate::constants::RANKS;
use crate::models::{board_view, board_with, row_view, Board, Cell, CellModel, Piece, Position};
use crate::play::{check_setup_shape, is_setup_shape};
use crate::text::is_single_char;

verus! {

/// How ranks are shown to a player.
#[derive(Debug, Clone, Copy, PartialEq, Eq, Structural)]
pub enum RankStyle {
    /// 1 = Marshal (highest) .. 9 = Scout (lowest), S = Spy.
    European,
    /// 10 = Marshal (highest) .. 2 = Scout (lowest), 1 = Spy.
    American,
}

/// The word a rank style is remembered by in the browser's storage.
pub open spec fn style_word(style: RankStyle) -> Seq<char> {
    match style {
        RankStyle::European => "european"@,
        RankStyle::American => "american"@,
    }
}

/// The style a remembered word stands for: American only for `american`.
pub open spec fn remembered_style(word: Seq<char>) -> RankStyle {
    if word == "american"@ {
        RankStyle::American
    } else {
        RankStyle::European
    }
}

impl RankStyle {
    /// The word this style is remembered by.
    pub fn stored_name(self) -> (r: &'static str)
        ensures
            r@ == style_word(self),
    {
        match self {
            RankStyle::European => "european",
            RankStyle::American => "american",
        }
    }

    /// The style a remembered word stands for: American only for the word
    /// `american`; European when nothing, or anything else, was remembered.
    pub fn from_stored(saved: Option<&str>) -> (r: RankStyle)
        ensures
            r == (match saved {
                Some(w) => remembered_style(w@),
                None => RankStyle::European,
            }),
    {
        match saved {
            Some(w) => if crate::text::str_eq(w, "american") {
                RankStyle::American
            } else {
                RankStyle::European
            },
            None => RankStyle::European,
        }
    }

    /// The other style.
    pub fn toggled(self) -> (r: RankStyle)
        ensures
            r != self,
    {
        match self {
            RankStyle::European => RankStyle::American,
            RankStyle::American => RankStyle::European,
        }
    }

    /// How the style is offered to the player.
    pub fn label(self) -> (r: &'static str)
        ensures
            r@ == (match self {
                RankStyle::European => "European (1 = Marshal)"@,
                RankStyle::American => "American (10 = Marshal)"@,
            }),
    {
        match self {
            RankStyle::European => "European (1 = Marshal)",
            RankStyle::American => "American (10 = Marshal)",
        }
    }
}

/// The shown rank of internal rank `r` in style `style`: European shows the
/// internal ranks as they are, American numbers them 11 - n and shows the spy
/// as 1; bombs and flags keep their letter, anything else shows as "U".
pub open spec fn shown_rank(r: Seq<char>, style: RankStyle) -> Seq<char> {
    if r == seq!['B'] {
        seq!['B']
    } else if r == seq!['F'] {
        seq!['F']
    } else if r == seq!['S'] {
        if style == RankStyle::European {
            seq!['S']
        } else {
            seq!['1']
        }
    } else if r.len() == 1 && '1' <= r[0] <= '9' {
        if style == RankStyle::European {
            r
        } else if r[0] == '1' {
            seq!['1', '0']
        } else {
            seq![(('9' as u8 + '2' as u8 - r[0] as u8) as char)]
        }
    } else {
        seq!['U']
    }
}

/// Map an internal rank to its display rank based on the ranking style.
pub fn display_rank(internal: &str, style: RankStyle) -> (res: &'static str)
    ensures
        res@ == shown_rank(internal@, style),
{
    let european = style == RankStyle::European;
    if is_single_char(internal, '1') {
        if european {
            proof { reveal_strlit("1"); }
            return "1";
        }
        proof { reveal_strlit("10"); }
        return "10";
    }
    if is_single_char(internal, '2') {
        if european {
            proof { reveal_strlit("2"); }
            return "2";
        }
        proof { reveal_strlit("9"); }
        return "9";
    }
    if is_single_char(internal, '3') {
        if european {
            proof { reveal_strlit("3"); }
            return "3";
        }
        proof { reveal_strlit("8"); }
        return "8";
    }
    if is_single_char(internal, '4') {
        if european {
            proof { reveal_strlit("4"); }
            return "4";
        }
        proof { reveal_strlit("7"); }
        return "7";
    }
    if is_single_char(internal, '5') {
        if european {
            proof { reveal_strlit("5"); }
            return "5";
        }
        proof { reveal_strlit("6"); }
        return "6";
    }
    if is_single_char(internal, '6') {
        if european {
            proof { reveal_strlit("6"); }
            return "6";
        }
        proof { reveal_strlit("5"); }
        return "5";
    }
    if is_single_char(internal, '7') {
        if european {
            proof { reveal_strlit("7"); }
            return "7";
        }
        proof { reveal_strlit("4"); }
        return "4";
    }
    if is_single_char(internal, '8') {
        if european {
            proof { reveal_strlit("8"); }
            return "8";
        }
        proof { reveal_strlit("3"); }
        return "3";
    }
    if is_single_char(internal, '9') {
        if european {
            proof { reveal_strlit("9"); }
            return "9";
        }
        proof { reveal_strlit("2"); }
        return "2";
    }
    if is_single_char(internal, 'S') {
        if european {
            proof { reveal_strlit("S"); }
            return "S";
        }
        proof { reveal_strlit("1"); }
        return "1";
    }
    if is_single_char(internal, 'B') {
        proof { reveal_strlit("B"); }
        return "B";
    }
    if is_single_char(internal, 'F') {
        proof { reveal_strlit("F"); }
        return "F";
    }
    proof {
        reveal_strlit("U");
        if internal@.len() == 1 && '1' <= internal@[0] <= '9' {
            assert(internal@ =~= seq![internal@[0]]);
        }
    }
    "U"
}


/// The ranks of a full army, in the order of `ranks`: each rank repeated
/// as many times as its amount.
pub open spec fn army(ranks: Seq<(&'static str, u32)>) -> Seq<Seq<char>>
    decreases ranks.len(),
{
    if ranks.len() == 0 {
        Seq::empty()
    } else {
        army(ranks.drop_last()) + Seq::new(ranks.last().1 as nat, |i: int| ranks.last().0@)
    }
}

/// The default setup: the 40 pieces of `RANKS` in order, side 3, filling 4
/// rows of 10.
pub open spec fn default_setup_model() -> Seq<Seq<CellModel>> {
    Seq::new(4, |y: int| Seq::new(10, |x: int| CellModel::Piece(army(RANKS@)[10 * y + x], 3)))
}

/// Sum of the amounts in `ranks`.
pub open spec fn amount_sum(ranks: Seq<(&'static str, u32)>) -> nat
    decreases ranks.len(),
{
    if ranks.len() == 0 {
        0
    } else {
        amount_sum(ranks.drop_last()) + ranks.last().1 as nat
    }
}

proof fn lemma_army_len_is_sum(ranks: Seq<(&'static str, u32)>)
    ensures
        army(ranks).len() == amount_sum(ranks),
    decreases ranks.len(),
{
    if ranks.len() > 0 {
        lemma_army_len_is_sum(ranks.drop_last());
    }
}

proof fn lemma_army_len()
    ensures
        army(RANKS@).len() == 40,
{
    let r = RANKS@;
    lemma_army_len_is_sum(r);
    assert(r.len() == 12);
    assert(r[0].1 == 1 && r[1].1 == 1 && r[2].1 == 2 && r[3].1 == 3 && r[4].1 == 4 && r[5].1 == 4
        && r[6].1 == 4 && r[7].1 == 5 && r[8].1 == 8 && r[9].1 == 1 && r[10].1 == 6 && r[11].1 == 1);
    reveal_with_fuel(amount_sum, 13);
}

/// The setup to start arranging from: the remembered one where it has 4
/// rows of 10 cells, else the default army.
pub fn setup_or_default(saved: Option<Board>) -> (res: Board)
    ensures
        match saved {
            Some(b) => if is_setup_shape(b@) {
                res == b
            } else {
                board_view(res@) == default_setup_model()
            },
            None => board_view(res@) == default_setup_model(),
        },
{
    match saved {
        Some(b) => if check_setup_shape(&b) {
            b
        } else {
            default_setup()
        },
        None => default_setup(),
    }
}

/// Default 4x10 board setup from `RANKS`, every piece of side 3.
pub fn default_setup() -> (res: Board)
    ensures
        board_view(res@) == default_setup_model(),
{
    let ranks = RANKS;
    let mut pieces: Vec<Cell> = Vec::new();
    let mut k: usize = 0;
    while k < 12
        invariant
            k <= 12,
            ranks@ == RANKS@,
            row_view(pieces@) == Seq::new(
                army(RANKS@.subrange(0, k as int)).len(),
                |i: int| CellModel::Piece(army(RANKS@.subrange(0, k as int))[i], 3),
            ),
        decreases 12 - k,
    {
        let (rank, amount) = ranks[k];
        let ghost before = pieces@;
        assert(RANKS@.subrange(0, k + 1).drop_last() =~= RANKS@.subrange(0, k as int));
        assert(RANKS@.subrange(0, k + 1).last() == RANKS@[k as int]);
        let mut j: u32 = 0;
        while j < amount
            invariant
                j <= amount,
                pieces@.len() == before.len() + j,
                forall|i: int| 0 <= i < before.len() ==> #[trigger] pieces@[i] == before[i],
                forall|i: int|
                    before.len() <= i < pieces@.len() ==> #[trigger] pieces@[i]@ == CellModel::Piece(
                        rank@,
                        3,
                    ),
            decreases amount - j,
        {
            pieces.push(Cell::Piece(Piece::new(rank, 3)));
            j = j + 1;
        }
        proof {
            let prev = army(RANKS@.subrange(0, k as int));
            let a = army(RANKS@.subrange(0, k + 1));
            assert(rank == RANKS@[k as int].0 && amount == RANKS@[k as int].1);
            assert(a == prev + Seq::new(amount as nat, |i: int| rank@));
            assert(row_view(before).len() == before.len());
            assert(before.len() == prev.len());
            assert forall|i: int| 0 <= i < a.len() implies #[trigger] row_view(pieces@)[i]
                == CellModel::Piece(a[i], 3) by {
                if i < before.len() {
                    assert(row_view(before)[i] == CellModel::Piece(prev[i], 3));
                }
            }
            assert(row_view(pieces@) =~= Seq::new(a.len(), |i: int| CellModel::Piece(a[i], 3)));
        }
        k = k + 1;
    }
    proof {
        assert(RANKS@.subrange(0, 12) =~= RANKS@);
        lemma_army_len();
    }
    assert(pieces@.len() == row_view(pieces@).len());
    let mut board: Board = Vec::new();
    let mut y: usize = 0;
    while y < 4
        invariant
            y <= 4,
            pieces@.len() == 40,
            army(RANKS@).len() == 40,
            row_view(pieces@) == Seq::new(40, |i: int| CellModel::Piece(army(RANKS@)[i], 3)),
            board@.len() == y,
            forall|k: int| 0 <= k < y ==> #[trigger] row_view(board@[k]@) == default_setup_model()[k],
        decreases 4 - y,
    {
        let mut row: Vec<Cell> = Vec::new();
        let mut x: usize = 0;
        while x < 10
            invariant
                y < 4,
                x <= 10,
                pieces@.len() == 40,
                army(RANKS@).len() == 40,
                row_view(pieces@) == Seq::new(40, |i: int| CellModel::Piece(army(RANKS@)[i], 3)),
                row@.len() == x,
                forall|i: int| 0 <= i < x ==> #[trigger] row@[i]@ == CellModel::Piece(army(RANKS@)[10 * y + i], 3),
            decreases 10 - x,
        {
            assert(row_view(pieces@)[10 * y + x] == pieces@[10 * y + x]@);
            row.push(pieces[10 * y + x].clone());
            x = x + 1;
        }
        assert(row_view(row@) =~= default_setup_model()[y as int]);
        board.push(row);
        y = y + 1;
    }
    assert(board_view(board@) =~= default_setup_model());
    board
}

/// The board with the cells at `f` and `t` exchanged.
pub open spec fn swapped(b: Seq<Seq<CellModel>>, f: Position, t: Position) -> Seq<Seq<CellModel>> {
    board_with(board_with(b, f, b[t.y as int][t.x as int]), t, b[f.y as int][f.x as int])
}


/// In the setup screen, exchange the cells at (fx, fy) and (tx, ty) when
/// both rows exist and both columns are below 10; otherwise leave the
/// setup as it is.
pub fn swap_setup_cells(board: &mut Board, fx: usize, fy: usize, tx: usize, ty: usize)
    requires
        fy < old(board)@.len() && fx < 10 && ty < old(board)@.len() && tx < 10 ==> fx < old(
            board,
        )@[fy as int]@.len() && tx < old(board)@[ty as int]@.len(),
    ensures
        fy < old(board)@.len() && fx < 10 && ty < old(board)@.len() && tx < 10 ==> board_view(
            final(board)@,
        ) == swapped(board_view(old(board)@), (Position { x: fx, y: fy }), (Position { x: tx, y: ty })),
        !(fy < old(board)@.len() && fx < 10 && ty < old(board)@.len() && tx < 10) ==> *final(board)
            == *old(board),
{
    if fy < board.len() && fx < 10 && ty < board.len() && tx < 10 {
        let from_piece = board[fy][fx].clone();
        let to_piece = board[ty][tx].clone();
        crate::models::write_cell(board, &Position { x: fx, y: fy }, to_piece);
        crate::models::write_cell(board, &Position { x: tx, y: ty }, from_piece);
    }
}

} // verus!
