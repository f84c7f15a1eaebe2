//! What the browser client shows and how it reacts: the classes that draw a
//! piece and a board cell, which piece a cell shows after the last move,
//! choosing a move by clicks, when the pollers ask the server again, and how
//! long the socket waits before reconnecting.

use vstd::prelude::*;

use crate::display::{display_rank, shown_rank, RankStyle};
use crate::models::{Cell, Piece, Position};
use crate::text::str_eq;

verus! {

// ----- Configuration -----

/// The base of the server's address for requests: the one configured when
/// the client was built, or empty (same origin) where none was.
pub fn api_base_url(configured: Option<&'static str>) -> (r: &'static str)
    ensures
        r@ == (match configured {
            Some(s) => s@,
            None => ""@,
        }),
{
    match configured {
        Some(s) => s,
        None => "",
    }
}

// ----- Pieces -----

/// The colour a side's pieces are drawn in.
pub open spec fn side_color(side: i32) -> Seq<char> {
    if side == 0 {
        "red"@
    } else if side == 1 {
        "blue"@
    } else {
        "black"@
    }
}

/// The colour a side's pieces are drawn in: red for side 0, blue for side 1,
/// black for any other (the unknown pieces of the setup box).
pub fn color_of(side: i32) -> (r: &'static str)
    ensures
        r@ == side_color(side),
{
    if side == 0 {
        "red"
    } else if side == 1 {
        "blue"
    } else {
        "black"
    }
}

/// `" phantom"` where `phantom` holds, else nothing.
pub open spec fn phantom_suffix(s: Seq<char>, phantom: bool) -> Seq<char> {
    if phantom {
        s + " phantom"@
    } else {
        s
    }
}

/// The classes of a piece's body.
pub open spec fn piece_class_text(piece: Piece, phantom: bool) -> Seq<char> {
    phantom_suffix("piece image-"@ + piece.rank@ + "-"@ + side_color(piece.side), phantom)
}

fn add_phantom(s: String, phantom: bool) -> (r: String)
    ensures
        r@ == phantom_suffix(s@, phantom),
{
    if phantom {
        s.concat(" phantom")
    } else {
        s
    }
}

/// The classes of a piece's body: its silhouette by rank and colour,
/// `phantom` where it is drawn as a ghost of the last move.
pub fn piece_class(piece: &Piece, phantom: bool) -> (r: String)
    ensures
        r@ == piece_class_text(*piece, phantom),
{
    let s = String::from_str("piece image-");
    let s = s.concat(piece.rank.as_str());
    let s = s.concat("-");
    let s = s.concat(color_of(piece.side));
    add_phantom(s, phantom)
}

/// Bombs, flags and hidden pieces carry no rank mark.
pub open spec fn shows_rank(rank: Seq<char>) -> bool {
    rank != "B"@ && rank != "F"@ && rank != "U"@
}

/// The classes of the rank mark drawn over a piece, where it has one.
pub open spec fn rank_class_text(piece: Piece, style: RankStyle, phantom: bool) -> Option<
    Seq<char>,
> {
    if shows_rank(piece.rank@) {
        Some(
            phantom_suffix(
                "piece-rank image-rank-"@ + shown_rank(piece.rank@, style) + "-"@ + side_color(
                    piece.side,
                ),
                phantom,
            ),
        )
    } else {
        None
    }
}

/// The classes of the rank mark drawn over a piece, as `style` shows ranks,
/// or `None` for a bomb, a flag or a hidden piece.
pub fn rank_class(piece: &Piece, style: RankStyle, phantom: bool) -> (r: Option<String>)
    ensures
        match r {
            Some(s) => rank_class_text(*piece, style, phantom) == Some(s@),
            None => rank_class_text(*piece, style, phantom) is None,
        },
{
    let rank = piece.rank.as_str();
    if str_eq(rank, "B") || str_eq(rank, "F") || str_eq(rank, "U") {
        return None;
    }
    let s = String::from_str("piece-rank image-rank-");
    let s = s.concat(display_rank(rank, style));
    let s = s.concat("-");
    let s = s.concat(color_of(piece.side));
    Some(add_phantom(s, phantom))
}

/// The classes of the mark of a piece beaten by the last move.
pub open spec fn dead_piece_class_text(dead: Piece, style: RankStyle) -> Seq<char> {
    let color = if dead.side == 0 {
        "red"@
    } else {
        "blue"@
    };
    let mark = if dead.rank@ == "B"@ || dead.rank@ == "F"@ {
        dead.rank@
    } else {
        "rank-"@ + shown_rank(dead.rank@, style)
    };
    "dead-piece-rank image-"@ + mark + "-"@ + color
}

/// The classes of the mark of a piece beaten by the last move: bombs and
/// flags by their picture, other pieces by their rank as `style` shows it;
/// red for side 0, blue otherwise.
pub fn dead_piece_class(dead: &Piece, style: RankStyle) -> (r: String)
    ensures
        r@ == dead_piece_class_text(*dead, style),
{
    let rank = dead.rank.as_str();
    let color = if dead.side == 0 {
        "red"
    } else {
        "blue"
    };
    let s = String::from_str("dead-piece-rank image-");
    let s = if str_eq(rank, "B") || str_eq(rank, "F") {
        s.concat(rank)
    } else {
        let s = s.concat("rank-");
        s.concat(display_rank(rank, style))
    };
    let s = s.concat("-");
    s.concat(color)
}

// ----- Board cells -----

/// The last move as the client shows it.
#[derive(Debug)]
pub struct LastMoveInfo {
    pub from_x: usize,
    pub from_y: usize,
    pub to_x: usize,
    pub to_y: usize,
    /// "move", "draw", "won", "lost" or "capture".
    pub move_type: String,
    pub from_piece: Option<Piece>,
    pub to_piece: Option<Piece>,
}

/// A move chosen on the grid: from column, from row, to column, to row.
pub type MoveEvent = (usize, usize, usize, usize);

/// `at` is the cell `(x, y)`.
pub open spec fn is_at(at: Option<Position>, x: usize, y: usize) -> bool {
    at == Some((Position { x, y }))
}

/// The classes of the cell `(x, y)` of the grid.
pub open spec fn cell_class_text(
    x: usize,
    y: usize,
    selected: Option<Position>,
    hover: Option<Position>,
    last: Option<(Position, Position)>,
) -> Seq<char> {
    let s = "cell"@;
    let s = if is_at(selected, x, y) {
        s + " selected"@
    } else {
        s
    };
    let s = if is_at(hover, x, y) {
        s + " hover"@
    } else {
        s
    };
    let s = if last matches Some((f, _)) && f == (Position { x, y }) {
        s + " last-move-from"@
    } else {
        s
    };
    if last matches Some((_, t)) && t == (Position { x, y }) {
        s + " last-move-to"@
    } else {
        s
    }
}

/// The squares of the last move, if there is one.
pub open spec fn last_squares(last: Option<LastMoveInfo>) -> Option<(Position, Position)> {
    match last {
        Some(m) => Some((Position { x: m.from_x, y: m.from_y }, Position { x: m.to_x, y: m.to_y })),
        None => None,
    }
}

/// The classes of the cell `(x, y)`: always `cell`, then `selected`,
/// `hover`, `last-move-from` and `last-move-to` where they apply.
pub fn cell_classes(
    x: usize,
    y: usize,
    selected: Option<Position>,
    hover: Option<Position>,
    last: &Option<LastMoveInfo>,
) -> (r: String)
    ensures
        r@ == cell_class_text(x, y, selected, hover, last_squares(*last)),
{
    let mut s = String::from_str("cell");
    if selected == Some((Position { x, y })) {
        s = s.concat(" selected");
    }
    if hover == Some((Position { x, y })) {
        s = s.concat(" hover");
    }
    match last {
        Some(m) => {
            if m.from_x == x && m.from_y == y {
                s = s.concat(" last-move-from");
            }
            if m.to_x == x && m.to_y == y {
                s = s.concat(" last-move-to");
            }
        },
        None => {},
    }
    s
}

/// What a cell shows.
#[derive(Debug, PartialEq)]
pub enum CellContent {
    /// Nothing: an empty square or water.
    Nothing,
    /// A piece.
    Piece(Piece),
    /// The ghost of a piece that left this square or was lost in the last move.
    Phantom(Piece),
    /// The winner of the last move's attack, with the mark of the piece it beat.
    Victor(Piece, Piece),
}

/// What the cell shows as it stands on the board.
pub open spec fn plain_content(cell: Cell) -> CellContent {
    match cell {
        Cell::Piece(p) => CellContent::Piece(p),
        Cell::Empty(_) => CellContent::Nothing,
    }
}

/// What the cell `(x, y)`, holding `cell`, shows after the last move `last`.
/// On the square the last move left: the attacker's ghost after a draw or a
/// lost attack. On the square it reached: both ghosts' defender after a
/// draw, the defender after a lost attack, the winner over the beaten
/// piece's mark after a won attack or a capture. Elsewhere, or when a piece
/// the rule needs is not known, the cell as it stands.
pub open spec fn shown_content(cell: Cell, x: usize, y: usize, last: Option<LastMoveInfo>) -> CellContent {
    match last {
        None => plain_content(cell),
        Some(m) => if m.from_x == x && m.from_y == y {
            if m.move_type@ == "draw"@ || m.move_type@ == "lost"@ {
                match m.from_piece {
                    Some(p) => CellContent::Phantom(p),
                    None => CellContent::Nothing,
                }
            } else {
                plain_content(cell)
            }
        } else if m.to_x == x && m.to_y == y {
            if m.move_type@ == "draw"@ {
                match m.to_piece {
                    Some(p) => CellContent::Phantom(p),
                    None => CellContent::Nothing,
                }
            } else if m.move_type@ == "lost"@ {
                match m.to_piece {
                    Some(p) => CellContent::Piece(p),
                    None => CellContent::Nothing,
                }
            } else if m.move_type@ == "won"@ || m.move_type@ == "capture"@ {
                match (m.from_piece, m.to_piece) {
                    (Some(f), Some(t)) => CellContent::Victor(f, t),
                    _ => plain_content(cell),
                }
            } else {
                plain_content(cell)
            }
        } else {
            plain_content(cell)
        },
    }
}

fn plain(cell: &Cell) -> (r: CellContent)
    ensures
        r == plain_content(*cell),
{
    match cell {
        Cell::Piece(p) => CellContent::Piece(p.clone()),
        Cell::Empty(_) => CellContent::Nothing,
    }
}

fn ghost_of(p: &Option<Piece>) -> (r: CellContent)
    ensures
        r == (match *p {
            Some(q) => CellContent::Phantom(q),
            None => CellContent::Nothing,
        }),
{
    match p {
        Some(q) => CellContent::Phantom(q.clone()),
        None => CellContent::Nothing,
    }
}

/// What the cell `(x, y)`, holding `cell`, shows after the last move.
pub fn cell_content(cell: &Cell, x: usize, y: usize, last: &Option<LastMoveInfo>) -> (r: CellContent)
    ensures
        r == shown_content(*cell, x, y, *last),
{
    match last {
        None => plain(cell),
        Some(m) => {
            let kind = m.move_type.as_str();
            if m.from_x == x && m.from_y == y {
                if str_eq(kind, "draw") || str_eq(kind, "lost") {
                    ghost_of(&m.from_piece)
                } else {
                    plain(cell)
                }
            } else if m.to_x == x && m.to_y == y {
                if str_eq(kind, "draw") {
                    ghost_of(&m.to_piece)
                } else if str_eq(kind, "lost") {
                    match &m.to_piece {
                        Some(p) => CellContent::Piece(p.clone()),
                        None => CellContent::Nothing,
                    }
                } else if str_eq(kind, "won") || str_eq(kind, "capture") {
                    match (&m.from_piece, &m.to_piece) {
                        (Some(f), Some(t)) => CellContent::Victor(f.clone(), t.clone()),
                        _ => plain(cell),
                    }
                } else {
                    plain(cell)
                }
            } else {
                plain(cell)
            }
        },
    }
}

/// The cell holds a piece of `side`'s, or one from the setup box (side 3).
pub open spec fn own_piece(cell: Cell, side: i32) -> bool {
    cell matches Cell::Piece(p) && (p.side == side || p.side == 3)
}

/// Whether the player of `side` may pick up the piece in `cell`.
pub fn is_own_piece(cell: &Cell, side: i32) -> (r: bool)
    ensures
        r == own_piece(*cell, side),
{
    match cell {
        Cell::Piece(p) => p.side == side || p.side == 3,
        Cell::Empty(_) => false,
    }
}

/// The cell holds a piece that is not hidden.
pub open spec fn selectable(cell: Cell) -> bool {
    cell matches Cell::Piece(p) && p.rank@ != "U"@
}

/// Whether a click may select the piece in `cell`: it is not hidden.
pub fn can_select(cell: &Cell) -> (r: bool)
    ensures
        r == selectable(*cell),
{
    match cell {
        Cell::Piece(p) => !str_eq(p.rank.as_str(), "U"),
        Cell::Empty(_) => false,
    }
}

/// Which cell is selected and which is highlighted under the pointer.
#[derive(Debug, Clone, Copy)]
pub struct Pointer {
    pub selected: Option<Position>,
    pub hover: Option<Position>,
}

impl Pointer {
    /// Nothing selected or highlighted.
    pub fn new() -> (r: Pointer)
        ensures
            r.selected is None,
            r.hover is None,
    {
        Pointer { selected: None, hover: None }
    }

    /// A click on the cell `(x, y)`, holding `cell`, by the player of `side`:
    /// with a cell selected, the move from it to here, and nothing stays
    /// selected or highlighted; else this cell becomes selected if it holds
    /// the player's own piece that is not hidden.
    pub fn click(&mut self, x: usize, y: usize, cell: &Cell, side: i32) -> (mv: Option<MoveEvent>)
        ensures
            match old(self).selected {
                Some(f) => {
                    &&& mv == Some((f.x, f.y, x, y))
                    &&& final(self).selected is None
                    &&& final(self).hover is None
                },
                None => {
                    &&& mv is None
                    &&& final(self).hover == old(self).hover
                    &&& final(self).selected == (if own_piece(*cell, side) && selectable(*cell) {
                        Some((Position { x, y }))
                    } else {
                        None
                    })
                },
            },
    {
        match self.selected {
            Some(f) => {
                self.selected = None;
                self.hover = None;
                Some((f.x, f.y, x, y))
            },
            None => {
                if is_own_piece(cell, side) && can_select(cell) {
                    self.selected = Some((Position { x, y }));
                }
                None
            },
        }
    }

    /// The pointer enters the cell `(x, y)`: it is highlighted if it holds a
    /// piece that a click would select, or if a cell is selected.
    pub fn mouse_over(&mut self, x: usize, y: usize, cell: &Cell, side: i32)
        ensures
            final(self).selected == old(self).selected,
            final(self).hover == (if (own_piece(*cell, side) && selectable(*cell)) || old(
                self,
            ).selected is Some {
                Some((Position { x, y }))
            } else {
                old(self).hover
            }),
    {
        if (is_own_piece(cell, side) && can_select(cell)) || self.selected.is_some() {
            self.hover = Some((Position { x, y }));
        }
    }

    /// The pointer leaves the cell `(x, y)` (or a drag leaves it): its
    /// highlight goes.
    pub fn leave(&mut self, x: usize, y: usize)
        ensures
            final(self).selected == old(self).selected,
            final(self).hover == (if old(self).hover == Some((Position { x, y })) {
                None
            } else {
                old(self).hover
            }),
    {
        if self.hover == Some((Position { x, y })) {
            self.hover = None;
        }
    }

    /// A piece is picked up from the cell `(x, y)`.
    pub fn drag_start(&mut self, x: usize, y: usize)
        ensures
            final(self).selected == Some((Position { x, y })),
            final(self).hover == old(self).hover,
    {
        self.selected = Some((Position { x, y }));
    }

    /// A drag passes over the cell `(x, y)`.
    pub fn drag_over(&mut self, x: usize, y: usize)
        ensures
            final(self).selected == old(self).selected,
            final(self).hover == Some((Position { x, y })),
    {
        self.hover = Some((Position { x, y }));
    }

    /// A piece picked up at `from` (where the drag says so) is dropped on
    /// the cell `(x, y)`: the move, and nothing stays selected or
    /// highlighted.
    pub fn drop_on(&mut self, x: usize, y: usize, from: Option<Position>) -> (mv: Option<MoveEvent>)
        ensures
            final(self).selected is None,
            final(self).hover is None,
            mv == (match from {
                Some(f) => Some((f.x, f.y, x, y)),
                None => None,
            }),
    {
        self.hover = None;
        self.selected = None;
        match from {
            Some(f) => Some((f.x, f.y, x, y)),
            None => None,
        }
    }
}

// ----- Polling -----

/// What a poller does next.
#[derive(Debug, Clone, Copy, PartialEq, Eq, Structural)]
pub enum PollStep {
    /// Stop polling.
    Finish,
    /// Wait this many milliseconds, then decide again.
    Wait(u32),
    /// Ask the server now.
    Fetch,
}

/// While the tab is hidden a poller checks again after this long (ms).
pub const HIDDEN_RECHECK_MS: u32 = 1000;

/// The next step of a poller: stop once stopped; wait while the tab is
/// hidden; else ask the server.
pub open spec fn poll_step(active: bool, visible: bool) -> PollStep {
    if !active {
        PollStep::Finish
    } else if !visible {
        PollStep::Wait(HIDDEN_RECHECK_MS)
    } else {
        PollStep::Fetch
    }
}

/// Polls a game for changes until stopped.
#[derive(Debug)]
pub struct Poller {
    pub active: bool,
    /// The `modified` stamp of the game as last seen.
    pub last_modified: String,
    /// How long to wait after each answer before asking again (ms).
    pub interval_ms: u32,
}

impl Poller {
    /// A poller that has seen nothing yet and asks every `interval_ms`.
    pub fn new(interval_ms: u32) -> (r: Poller)
        ensures
            r.active,
            r.last_modified@ == Seq::<char>::empty(),
            r.interval_ms == interval_ms,
    {
        Poller { active: true, last_modified: String::new(), interval_ms }
    }

    /// After an answer (or a failed request, which is only reported), the
    /// poller waits its interval before deciding again.
    pub fn after_fetch(&self) -> (r: PollStep)
        ensures
            r == PollStep::Wait(self.interval_ms),
    {
        PollStep::Wait(self.interval_ms)
    }

    /// Stops polling.
    pub fn stop(&mut self)
        ensures
            !final(self).active,
            final(self).last_modified == old(self).last_modified,
    {
        self.active = false;
    }

    /// What to do next, the tab being `visible` or not.
    pub fn next_step(&self, visible: bool) -> (r: PollStep)
        ensures
            r == poll_step(self.active, visible),
    {
        if !self.active {
            PollStep::Finish
        } else if !visible {
            PollStep::Wait(HIDDEN_RECHECK_MS)
        } else {
            PollStep::Fetch
        }
    }

    /// The game came back with the stamp `modified` (empty where it had
    /// none): whether it changed since last seen, in which case the page is
    /// updated and the stamp kept.
    pub fn observe(&mut self, modified: &str) -> (changed: bool)
        ensures
            changed == (old(self).last_modified@ != modified@),
            final(self).last_modified@ == modified@,
            final(self).active == old(self).active,
    {
        if str_eq(self.last_modified.as_str(), modified) {
            false
        } else {
            self.last_modified = String::from_str(modified);
            true
        }
    }
}

/// Polls the matchmaking pool until matched or stopped.
#[derive(Debug)]
pub struct PoolPoller {
    pub active: bool,
    /// How long to wait after each answer before asking again (ms).
    pub interval_ms: u32,
}

impl PoolPoller {
    /// A running pool poller that asks every `interval_ms`.
    pub fn new(interval_ms: u32) -> (r: PoolPoller)
        ensures
            r.active,
            r.interval_ms == interval_ms,
    {
        PoolPoller { active: true, interval_ms }
    }

    /// The pool answered `matched` (or the request failed, given as `None`):
    /// once matched the poller stops at once; otherwise it waits its
    /// interval before deciding again.
    pub fn after_fetch(&mut self, matched: &Option<String>) -> (r: PollStep)
        ensures
            matched.is_some() ==> r == PollStep::Finish && !final(self).active,
            matched.is_none() ==> r == PollStep::Wait(old(self).interval_ms) && final(self).active
                == old(self).active,
            final(self).interval_ms == old(self).interval_ms,
    {
        if matched.is_some() {
            self.active = false;
            PollStep::Finish
        } else {
            PollStep::Wait(self.interval_ms)
        }
    }

    /// Stops polling.
    pub fn stop(&mut self)
        ensures
            !final(self).active,
    {
        self.active = false;
    }

    /// What to do next, the tab being `visible` or not.
    pub fn next_step(&self, visible: bool) -> (r: PollStep)
        ensures
            r == poll_step(self.active, visible),
    {
        if !self.active {
            PollStep::Finish
        } else if !visible {
            PollStep::Wait(HIDDEN_RECHECK_MS)
        } else {
            PollStep::Fetch
        }
    }

    /// The pool answered: matched (with the new game's player hash) or not
    /// yet. Once matched the poller is done.
    pub fn observe(&mut self, matched: &Option<String>) -> (done: bool)
        ensures
            done == matched.is_some(),
            final(self).active == (old(self).active && matched.is_none()),
    {
        if matched.is_some() {
            self.active = false;
            true
        } else {
            false
        }
    }
}

// ----- Reconnecting -----

/// 2 to the power `k`.
pub open spec fn two_to(k: nat) -> nat
    decreases k,
{
    if k == 0 {
        1
    } else {
        2 * two_to((k - 1) as nat)
    }
}

/// The wait before reconnection attempt `attempt` (counted from 1), before
/// jitter: exponential backoff from one second, doubled for each earlier
/// attempt and capped at 30 s (from the sixth attempt on, 2^5 s being more).
pub open spec fn backoff_ms(attempt: u32) -> int {
    if attempt >= 6 {
        30000
    } else {
        (1000 * two_to((attempt - 1) as nat)) as int
    }
}

/// The wait in milliseconds before reconnection attempt `attempt`, before
/// jitter: `min(30000, 1000 * 2^(attempt - 1))`.
pub fn reconnect_base_delay(attempt: u32) -> (ms: u32)
    requires
        attempt >= 1,
    ensures
        ms == backoff_ms(attempt),
{
    if attempt >= 6 {
        return 30000;
    }
    let k = attempt - 1;
    let mut ms: u32 = 1000;
    let mut i: u32 = 0;
    while i < k
        invariant
            i <= k <= 4,
            ms == 1000 * two_to(i as nat),
            ms <= 16000,
        decreases k - i,
    {
        assert(two_to((i + 1) as nat) == 2 * two_to(i as nat));
        assert(two_to(0) == 1 && two_to(1) == 2 && two_to(2) == 4 && two_to(3) == 8 && two_to(4)
            == 16) by {
            reveal_with_fuel(two_to, 5);
        }
        assert(i == 0 || i == 1 || i == 2 || i == 3);
        ms = ms * 2;
        i += 1;
    }
    ms
}

// ----- Pages -----

/// What the start button of the setup page does.
#[derive(Debug, Clone, Copy, PartialEq, Eq, Structural)]
pub enum SetupMode {
    /// Create a private game.
    Create,
    /// Join the game of a join link.
    Join,
    /// Go and wait in the matchmaking pool.
    Pool,
    /// Nothing.
    Unknown,
}

/// The setup page's mode by its name in the address.
pub fn setup_mode(mode: &str) -> (r: SetupMode)
    ensures
        r == (if mode@ == "create"@ {
            SetupMode::Create
        } else if mode@ == "join"@ {
            SetupMode::Join
        } else if mode@ == "pool"@ {
            SetupMode::Pool
        } else {
            SetupMode::Unknown
        }),
{
    if str_eq(mode, "create") {
        SetupMode::Create
    } else if str_eq(mode, "join") {
        SetupMode::Join
    } else if str_eq(mode, "pool") {
        SetupMode::Pool
    } else {
        SetupMode::Unknown
    }
}

/// The remembered setup (as JSON text) to join the pool with: none where
/// nothing, an empty text or an empty list `[]` was remembered (the player
/// is sent to arrange pieces first).
pub fn pool_setup(saved: Option<String>) -> (r: Option<String>)
    ensures
        match saved {
            Some(b) => if b@ != ""@ && b@ != "[]"@ {
                r == Some(b)
            } else {
                r is None
            },
            None => r is None,
        },
{
    match saved {
        Some(b) => if !str_eq(b.as_str(), "") && !str_eq(b.as_str(), "[]") {
            Some(b)
        } else {
            None
        },
        None => None,
    }
}

/// The link that lets a friend join: `<protocol>//<host>/setup/join/<hash>`.
pub fn join_link(protocol: &str, host: &str, join_hash: &str) -> (r: String)
    ensures
        r@ == protocol@ + "//"@ + host@ + "/setup/join/"@ + join_hash@,
{
    let s = String::from_str(protocol);
    let s = s.concat("//");
    let s = s.concat(host);
    let s = s.concat("/setup/join/");
    s.concat(join_hash)
}

/// What the page shows while waiting for the friend to join.
pub fn waiting_message(join_link: &str) -> (r: String)
    ensures
        r@ == "Waiting for opponent...<br /><br /> "@ + join_link@,
{
    let s = String::from_str("Waiting for opponent...<br /><br /> ");
    s.concat(join_link)
}

/// The address of the page that plays a game as the player `player_hash`.
pub fn play_path(player_hash: &str) -> (r: String)
    ensures
        r@ == "/play/"@ + player_hash@,
{
    let s = String::from_str("/play/");
    s.concat(player_hash)
}

// ----- Failed requests -----

/// The decimal digit `d` (below 10) as a character.
pub open spec fn digit_char(d: nat) -> char {
    (('0' as nat) + d) as char
}

/// The decimal numeral of `n`, without leading zeros.
pub open spec fn decimal(n: nat) -> Seq<char>
    decreases n,
{
    if n < 10 {
        seq![digit_char(n)]
    } else {
        decimal(n / 10) + seq![digit_char(n % 10)]
    }
}

fn digit_text(d: u32) -> (r: &'static str)
    requires
        d < 10,
    ensures
        r@ == seq![digit_char(d as nat)],
{
    proof {
        reveal_strlit("0");
        reveal_strlit("1");
        reveal_strlit("2");
        reveal_strlit("3");
        reveal_strlit("4");
        reveal_strlit("5");
        reveal_strlit("6");
        reveal_strlit("7");
        reveal_strlit("8");
        reveal_strlit("9");
    }
    match d {
        0 => "0",
        1 => "1",
        2 => "2",
        3 => "3",
        4 => "4",
        5 => "5",
        6 => "6",
        7 => "7",
        8 => "8",
        _ => "9",
    }
}

/// The decimal numeral of `n`.
pub fn decimal_text(n: u32) -> (r: String)
    ensures
        r@ == decimal(n as nat),
    decreases n,
{
    if n < 10 {
        String::from_str(digit_text(n))
    } else {
        let head = decimal_text(n / 10);
        head.concat(digit_text(n % 10))
    }
}

/// What a failed request reports: the server's answer, or where that is
/// empty, `Request failed (<status>)`.
pub fn failure_message(status: u16, body: &str) -> (r: String)
    ensures
        r@ == (if body@.len() == 0 {
            "Request failed ("@ + decimal(status as nat) + ")"@
        } else {
            body@
        }),
{
    if body.unicode_len() == 0 {
        let s = String::from_str("Request failed (");
        let s = s.concat(decimal_text(status as u32).as_str());
        s.concat(")")
    } else {
        String::from_str(body)
    }
}

// ----- Version and last commit -----

/// Where the first `||` at or after `i` starts in `s`, or the length of
/// `s` where there is none.
pub open spec fn first_separator(s: Seq<char>, i: nat) -> nat
    decreases s.len() - i,
{
    if i + 1 >= s.len() {
        s.len()
    } else if s[i as int] == '|' && s[i + 1int] == '|' {
        i
    } else {
        first_separator(s, i + 1)
    }
}

/// Where the first space at or after `i` stands in `s`, if there is one.
pub open spec fn first_space(s: Seq<char>, i: nat) -> Option<nat>
    decreases s.len() - i,
{
    if i >= s.len() {
        None
    } else if s[i as int] == ' ' {
        Some(i)
    } else {
        first_space(s, i + 1)
    }
}

proof fn lemma_first_separator(s: Seq<char>, i: nat)
    requires
        i <= s.len(),
    ensures
        i <= first_separator(s, i) <= s.len(),
    decreases s.len() - i,
{
    if i + 1 < s.len() && !(s[i as int] == '|' && s[i + 1int] == '|') {
        lemma_first_separator(s, i + 1);
    }
}

proof fn lemma_first_space(s: Seq<char>, i: nat)
    ensures
        first_space(s, i) matches Some(p) ==> i <= p < s.len() && s[p as int] == ' ',
    decreases s.len() - i,
{
    if i < s.len() && s[i as int] != ' ' {
        lemma_first_space(s, i + 1);
    }
}

/// The last commit named by the build's commit list `recent` (entries
/// separated by `||`, each a hash, a space and a message): the first entry
/// split at its first space, if it has one.
pub open spec fn commit_of(recent: Seq<char>) -> Option<(Seq<char>, Seq<char>)> {
    let entry = recent.subrange(0, first_separator(recent, 0) as int);
    match first_space(entry, 0) {
        Some(p) => Some((entry.subrange(0, p as int), entry.subrange(p + 1int, entry.len() as int))),
        None => None,
    }
}

/// The hash and message of the last commit in the build's commit list.
pub fn last_commit(recent: &str) -> (r: Option<(String, String)>)
    ensures
        match r {
            Some((h, m)) => commit_of(recent@) == Some((h@, m@)),
            None => commit_of(recent@) is None,
        },
{
    let n = recent.unicode_len();
    let mut end: usize = 0;
    proof {
        lemma_first_separator(recent@, 0);
    }
    loop
        invariant
            n == recent@.len(),
            end <= n,
            first_separator(recent@, 0) == first_separator(recent@, end as nat),
        ensures
            end <= n,
            end == first_separator(recent@, 0),
        decreases n - end,
    {
        if n - end <= 1 {
            end = n;
            break;
        }
        if recent.get_char(end) == '|' && recent.get_char(end + 1) == '|' {
            break;
        }
        end += 1;
    }
    assert(end == first_separator(recent@, 0));
    let entry = recent.substring_char(0, end);
    let mut p: usize = 0;
    loop
        invariant
            p <= end <= n,
            n == recent@.len(),
            end == first_separator(recent@, 0),
            entry@ == recent@.subrange(0, end as int),
            first_space(entry@, 0) == first_space(entry@, p as nat),
        ensures
            p < end <= n,
            end == first_separator(recent@, 0),
            entry@ == recent@.subrange(0, end as int),
            first_space(entry@, 0) == Some(p as nat),
        decreases end - p,
    {
        if p >= end {
            return None;
        }
        if entry.get_char(p) == ' ' {
            break;
        }
        p += 1;
    }
    proof {
        lemma_first_space(entry@, 0);
    }
    let hash = entry.substring_char(0, p).to_string();
    let message = entry.substring_char(p + 1, end).to_string();
    Some((hash, message))
}

/// Where the repository's page of commit `hash` is.
pub fn commit_link(repo: &str, hash: &str) -> (r: String)
    ensures
        r@ == repo@ + "/commit/"@ + hash@,
{
    let s = String::from_str(repo);
    let s = s.concat("/commit/");
    s.concat(hash)
}

/// How the last commit is shown: `(<hash>) <message>`.
pub fn commit_label(hash: &str, message: &str) -> (r: String)
    ensures
        r@ == "("@ + hash@ + ") "@ + message@,
{
    let s = String::from_str("(");
    let s = s.concat(hash);
    let s = s.concat(") ");
    s.concat(message)
}

/// How the version is shown: `v<version>`.
pub fn version_label(version: &str) -> (r: String)
    ensures
        r@ == "v"@ + version@,
{
    let s = String::from_str("v");
    s.concat(version)
}

// ----- The play page -----

/// The pool poller asks every 2 s.
pub const POOL_POLL_MS: u32 = 2000;

/// The game poller asks every 3 s.
pub const GAME_POLL_MS: u32 = 3000;

/// What happens on the play page.
#[derive(Debug)]
pub enum PageEvent {
    /// The page opened for `hash`: `pool` to play someone from the pool,
    /// else a player hash. `saved_setup` is the setup remembered in the
    /// browser (JSON text), if any.
    Opened { hash: String, saved_setup: Option<String> },
    /// The pool answered the join: a player hash if matched at once, else
    /// the identifier to poll with (empty where it gave none).
    PoolJoined { player_hash: Option<String>, poll_id: String },
    /// Joining the pool failed with this message.
    PoolJoinFailed(String),
    /// The pool poller found a match: the new game's player hash.
    Matched(String),
    /// The game loaded: its player hash, state, and the link a friend joins
    /// with (as `join_link` makes it from the page's address).
    GameLoaded { player_hash: String, game_state: i64, join_link: String },
    /// Loading the game failed with this message.
    GameLoadFailed(String),
    /// The game poller brought a changed game, in this state.
    Polled { game_state: i64 },
    /// The grid chose a move, for the player and side the page shows.
    MoveChosen { player_hash: String, side: i32, mv: MoveEvent },
}

/// What the play page does about it.
#[derive(Debug, PartialEq)]
pub enum PageAction {
    Nothing,
    /// Go to this address.
    Navigate(String),
    /// Join the pool with this setup (JSON text).
    JoinPool(String),
    /// Load the game of this player hash.
    LoadGame(String),
    /// Poll the pool with this identifier, every so many ms; go to the
    /// game when matched.
    StartPoolPoller(String, u32),
    /// Poll this player's game every so many ms.
    StartGamePoller(String, u32),
    /// Send this move as this player and side.
    SendMove(String, i32, MoveEvent),
}

/// The play page: whether it still shows the loading screen, and its message.
#[derive(Debug)]
pub struct PlayPage {
    pub loading: bool,
    pub message: String,
}

impl PlayPage {
    /// A page that is loading the game.
    pub fn new() -> (r: PlayPage)
        ensures
            r.loading,
            r.message@ == "Loading game..."@,
    {
        PlayPage { loading: true, message: String::from_str("Loading game...") }
    }

    /// The page's action after `ev`, and its new loading screen:
    /// - opened for `pool`: "Joining pool..."; without a usable remembered
    ///   setup, go and arrange one (`/setup/pool`), else join the pool with it;
    /// - opened for a player hash: "Loading game...", load the game;
    /// - joined the pool: matched at once, go to the game; else "In pool,
    ///   waiting for an opponent..." and poll the pool every 2 s;
    /// - joining failed: "Failed to join pool: " and the message;
    /// - matched: go to the game;
    /// - loaded: while waiting for the opponent the waiting message with the
    ///   join link, else the board is shown; either way poll every 3 s;
    /// - loading failed: the message;
    /// - polled: once the game has started, the board is shown;
    /// - a move chosen: send it.
    pub fn step(&mut self, ev: PageEvent) -> (a: PageAction)
        ensures
            match ev {
                PageEvent::Opened { hash, saved_setup } => if hash@ == "pool"@ {
                    &&& final(self).loading == old(self).loading
                    &&& final(self).message@ == "Joining pool..."@
                    &&& match saved_setup {
                        Some(b) if b@ != ""@ && b@ != "[]"@ => a == PageAction::JoinPool(b),
                        _ => a matches PageAction::Navigate(p) && p@ == "/setup/pool"@,
                    }
                } else {
                    &&& final(self).loading == old(self).loading
                    &&& final(self).message@ == "Loading game..."@
                    &&& a == PageAction::LoadGame(hash)
                },
                PageEvent::PoolJoined { player_hash, poll_id } => match player_hash {
                    Some(h) => {
                        &&& a matches PageAction::Navigate(p) && p@ == "/play/"@ + h@
                        &&& final(self).loading == old(self).loading
                        &&& final(self).message == old(self).message
                    },
                    None => {
                        &&& a == PageAction::StartPoolPoller(poll_id, POOL_POLL_MS)
                        &&& final(self).loading == old(self).loading
                        &&& final(self).message@ == "In pool, waiting for an opponent..."@
                    },
                },
                PageEvent::PoolJoinFailed(e) => {
                    &&& a == PageAction::Nothing
                    &&& final(self).loading == old(self).loading
                    &&& final(self).message@ == "Failed to join pool: "@ + e@
                },
                PageEvent::Matched(h) => {
                    &&& a matches PageAction::Navigate(p) && p@ == "/play/"@ + h@
                    &&& final(self).loading == old(self).loading
                    &&& final(self).message == old(self).message
                },
                PageEvent::GameLoaded { player_hash, game_state, join_link } => {
                    &&& a == PageAction::StartGamePoller(player_hash, GAME_POLL_MS)
                    &&& if game_state == 0 {
                        &&& final(self).loading == old(self).loading
                        &&& final(self).message@ == "Waiting for opponent...<br /><br /> "@
                            + join_link@
                    } else {
                        &&& !final(self).loading
                        &&& final(self).message == old(self).message
                    }
                },
                PageEvent::GameLoadFailed(e) => {
                    &&& a == PageAction::Nothing
                    &&& final(self).loading == old(self).loading
                    &&& final(self).message == e
                },
                PageEvent::Polled { game_state } => {
                    &&& a == PageAction::Nothing
                    &&& final(self).loading == (old(self).loading && game_state == 0)
                    &&& final(self).message == old(self).message
                },
                PageEvent::MoveChosen { player_hash, side, mv } => {
                    &&& a == PageAction::SendMove(player_hash, side, mv)
                    &&& final(self).loading == old(self).loading
                    &&& final(self).message == old(self).message
                },
            },
    {
        match ev {
            PageEvent::Opened { hash, saved_setup } => {
                if str_eq(hash.as_str(), "pool") {
                    self.message = String::from_str("Joining pool...");
                    proof {
                        reveal_strlit("");
                    }
                    match pool_setup(saved_setup) {
                        Some(b) => PageAction::JoinPool(b),
                        None => PageAction::Navigate(String::from_str("/setup/pool")),
                    }
                } else {
                    self.message = String::from_str("Loading game...");
                    PageAction::LoadGame(hash)
                }
            },
            PageEvent::PoolJoined { player_hash, poll_id } => match player_hash {
                Some(h) => PageAction::Navigate(play_path(h.as_str())),
                None => {
                    self.message = String::from_str("In pool, waiting for an opponent...");
                    PageAction::StartPoolPoller(poll_id, POOL_POLL_MS)
                },
            },
            PageEvent::PoolJoinFailed(e) => {
                let m = String::from_str("Failed to join pool: ");
                self.message = m.concat(e.as_str());
                PageAction::Nothing
            },
            PageEvent::Matched(h) => PageAction::Navigate(play_path(h.as_str())),
            PageEvent::GameLoaded { player_hash, game_state, join_link } => {
                if game_state == 0 {
                    self.message = waiting_message(join_link.as_str());
                } else {
                    self.loading = false;
                }
                PageAction::StartGamePoller(player_hash, GAME_POLL_MS)
            },
            PageEvent::GameLoadFailed(e) => {
                self.message = e;
                PageAction::Nothing
            },
            PageEvent::Polled { game_state } => {
                if game_state != 0 {
                    self.loading = false;
                }
                PageAction::Nothing
            },
            PageEvent::MoveChosen { player_hash, side, mv } => PageAction::SendMove(
                player_hash,
                side,
                mv,
            ),
        }
    }
}

// ----- The pool's answer -----

/// The player hash the pool's status answer gives: only where its
/// `matched` field is `true` (and it names a player hash).
pub fn pool_match(matched: Option<bool>, player_hash: Option<&str>) -> (r: Option<String>)
    ensures
        matched == Some(true) ==> match player_hash {
            Some(h) => r matches Some(s) && s@ == h@,
            None => r is None,
        },
        matched != Some(true) ==> r is None,
{
    match matched {
        Some(true) => match player_hash {
            Some(h) => Some(h.to_string()),
            None => None,
        },
        _ => None,
    }
}

} // verus!
