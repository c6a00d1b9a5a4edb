//! What the terminal view shows: where the UI sits, which colour each piece
//! and locked cell takes, what each board cell looks like, the preview of the
//! queued piece, and the overlay for a paused or finished game.  Drawing the
//! result onto a terminal is left to the caller.
use vstd::prelude::*;

use crate::game::{GameState, Piece, BOARD_HEIGHT, BOARD_WIDTH};
use crate::rules::{
    covers, height, hits, landing, width, GameModel,
};
use crate::tetromino::{cell_offsets, lemma_offsets_in_box, piece_cells, TetrominoKind};

verus! {

/// Each board cell is drawn as two characters wide so pieces look square.
pub const CELL_W: u16 = 2;

/// Column where the board's left inner edge starts, relative to the UI origin
/// (one character for the left border).
pub const BOARD_LEFT: u16 = 1;

/// Column where the sidebar starts (right of board + right border + gap),
/// relative to the UI origin: 1 + 10 × 2 + 1 + 2.
pub const SIDE_LEFT: u16 = 24;

/// Top row of the board, relative to the UI origin.
pub const BOARD_TOP: u16 = 1;

/// Width of the sidebar box in terminal columns.
pub const SIDEBAR_WIDTH: u16 = 12;

/// Total columns the UI occupies (board + gap + sidebar box).
pub const TOTAL_COLS: u16 = 36;

/// Total rows the UI occupies (the controls label ends at row 24).
pub const TOTAL_ROWS: u16 = 25;

/// Terminal size assumed when the terminal does not report one.
pub const DEFAULT_TERM_COLS: u16 = 80;

pub const DEFAULT_TERM_ROWS: u16 = 24;

/// The named terminal colours the view is drawn with.
#[derive(Clone, Copy, Debug, PartialEq, Eq, Structural)]
pub enum TermColor {
    Black,
    Blue,
    Cyan,
    DarkGrey,
    DarkRed,
    DarkYellow,
    Green,
    Magenta,
    Red,
    White,
    Yellow,
}

/// Named colour nearest to each ANSI-256 piece colour; white for any other.
pub open spec fn spec_ansi_to_color(n: u8) -> TermColor {
    if n == 51 {
        TermColor::Cyan
    } else if n == 226 {
        TermColor::Yellow
    } else if n == 129 {
        TermColor::Magenta
    } else if n == 46 {
        TermColor::Green
    } else if n == 196 {
        TermColor::Red
    } else if n == 21 {
        TermColor::Blue
    } else if n == 208 {
        TermColor::DarkYellow
    } else {
        TermColor::White
    }
}

/// Named colour of each kind (orange drawn as dark yellow).
pub open spec fn spec_piece_color(kind: TetrominoKind) -> TermColor {
    match kind {
        TetrominoKind::I => TermColor::Cyan,
        TetrominoKind::O => TermColor::Yellow,
        TetrominoKind::T => TermColor::Magenta,
        TetrominoKind::S => TermColor::Green,
        TetrominoKind::Z => TermColor::Red,
        TetrominoKind::J => TermColor::Blue,
        TetrominoKind::L => TermColor::DarkYellow,
    }
}

/// Top-left `(col, row)` origin that centres the UI in a terminal of the given
/// size (80×24 when no size is known); 0 where the terminal is too small.
/// The margins left and right (above and below) differ by at most one, the
/// larger one on the right (below).
pub fn origin_for_size(size: Option<(u16, u16)>) -> (origin: (u16, u16))
    ensures
        ({
            let (cols, rows) = match size {
                Some(s) => s,
                None => (DEFAULT_TERM_COLS, DEFAULT_TERM_ROWS),
            };
            &&& origin.0 == if cols >= TOTAL_COLS {
                (cols - TOTAL_COLS) / 2
            } else {
                0
            }
            &&& origin.1 == if rows >= TOTAL_ROWS {
                (rows - TOTAL_ROWS) / 2
            } else {
                0
            }
            &&& cols >= TOTAL_COLS ==> 2 * origin.0 + TOTAL_COLS <= cols <= 2 * origin.0
                + TOTAL_COLS + 1
            &&& rows >= TOTAL_ROWS ==> 2 * origin.1 + TOTAL_ROWS <= rows <= 2 * origin.1
                + TOTAL_ROWS + 1
        }),
{
    let (term_cols, term_rows) = match size {
        Some(s) => s,
        None => (DEFAULT_TERM_COLS, DEFAULT_TERM_ROWS),
    };
    let col = term_cols.saturating_sub(TOTAL_COLS) / 2;
    let row = term_rows.saturating_sub(TOTAL_ROWS) / 2;
    (col, row)
}

/// Map an ANSI-256 index to the nearest named colour.
pub fn ansi_to_color(n: u8) -> (color: TermColor)
    ensures
        color == spec_ansi_to_color(n),
{
    match n {
        51 => TermColor::Cyan,  // I
        226 => TermColor::Yellow,  // O
        129 => TermColor::Magenta,  // T
        46 => TermColor::Green,  // S
        196 => TermColor::Red,  // Z
        21 => TermColor::Blue,  // J
        208 => TermColor::DarkYellow,  // L (closest to orange in named colours)
        _ => TermColor::White,
    }
}

/// Named colour of a piece of the given kind.
pub fn piece_color(kind: TetrominoKind) -> (color: TermColor)
    ensures
        color == spec_piece_color(kind),
{
    match kind {
        TetrominoKind::I => TermColor::Cyan,
        TetrominoKind::O => TermColor::Yellow,
        TetrominoKind::T => TermColor::Magenta,
        TetrominoKind::S => TermColor::Green,
        TetrominoKind::Z => TermColor::Red,
        TetrominoKind::J => TermColor::Blue,
        TetrominoKind::L => TermColor::DarkYellow,
    }
}

/// How one board cell is drawn.
#[derive(Clone, Copy, Debug, PartialEq, Eq, Structural)]
pub enum CellLook {
    /// A cell of the falling piece, filled with its colour.
    Active(TermColor),
    /// A cell of the landing preview ("ghost"), drawn shaded.
    Shadow,
    /// A locked cell, filled with its colour.
    Locked(TermColor),
    /// An empty cell.
    Empty,
}

/// The look of cell `(r, c)`: the falling piece first, then its landing
/// preview, then the locked cell, else empty.
pub open spec fn look_at(m: GameModel, r: int, c: int) -> CellLook {
    match m.current {
        Some(p) if covers(p, r, c) => CellLook::Active(spec_piece_color(p.kind)),
        Some(p) if covers(landing(m.board, p), r, c) => CellLook::Shadow,
        _ => match m.board[r][c] {
            Some(color) => CellLook::Locked(spec_ansi_to_color(color)),
            None => CellLook::Empty,
        },
    }
}

/// `(r, c)` is one of the four absolute cells listed for the piece.
fn cells_contain(cells: &[(i32, i32); 4], p: Ghost<Piece>, r: i32, c: i32) -> (found: bool)
    requires
        forall|j: int|
            #![trigger cells@[j]]
            0 <= j < 4 ==> cells@[j].0 == p@.row + p@.offset(j).0 && cells@[j].1 == p@.col
                + p@.offset(j).1,
    ensures
        found == covers(p@, r as int, c as int),
{
    let mut i: usize = 0;
    while i < 4
        invariant
            0 <= i <= 4,
            forall|j: int|
                #![trigger cells@[j]]
                0 <= j < 4 ==> cells@[j].0 == p@.row + p@.offset(j).0 && cells@[j].1 == p@.col
                    + p@.offset(j).1,
            !hits(p@.kind, p@.rotation as int, p@.row as int, p@.col as int, i as int, r as int, c as int),
        decreases 4 - i,
    {
        if cells[i].0 == r && cells[i].1 == c {
            proof {
                reveal_with_fuel(hits, 5);
            }
            return true;
        }
        i = i + 1;
    }
    proof {
        reveal_with_fuel(hits, 5);
    }
    false
}

/// The look of every board cell, row-major (the cell `(r, c)` at `r * 10 + c`).
pub fn board_view(gs: &GameState) -> (looks: Vec<CellLook>)
    requires
        crate::rules::view_in_range(gs@),
    ensures
        looks@.len() == height() * width(),
        forall|r: int, c: int|
            0 <= r < height() && 0 <= c < width() ==> #[trigger] looks@[crate::rules::flat_index(
                r,
                c,
            )] == look_at(gs@, r, c),
{
    // Pre-compute the cells of the landing preview and of the active piece.
    let (ghost_cells, active_cells, shown) = match gs.current {
        Some(piece) => {
            let shadow = piece.ghost(&gs.board);
            (shadow.board_cells(), piece.board_cells(), Some((piece, shadow)))
        },
        None => ([(0i32, 0i32); 4], [(0i32, 0i32); 4], None),
    };
    let mut looks: Vec<CellLook> = Vec::new();
    for r in 0..BOARD_HEIGHT
        invariant
            looks@.len() == r * width(),
            gs.current is Some <==> shown is Some,
            forall|p: Piece, s: Piece| shown == Some((p, s)) ==> {
                &&& gs.current == Some(p)
                &&& s == landing(gs@.board, p)
                &&& forall|j: int|
                    #![trigger ghost_cells@[j]]
                    0 <= j < 4 ==> ghost_cells@[j].0 == s.row + s.offset(j).0 && ghost_cells@[j].1
                        == s.col + s.offset(j).1
                &&& forall|j: int|
                    #![trigger active_cells@[j]]
                    0 <= j < 4 ==> active_cells@[j].0 == p.row + p.offset(j).0
                        && active_cells@[j].1 == p.col + p.offset(j).1
            },
            forall|i: int, c: int|
                0 <= i < r && 0 <= c < width() ==> #[trigger] looks@[crate::rules::flat_index(
                    i,
                    c,
                )] == look_at(gs@, i, c),
    {
        for c in 0..BOARD_WIDTH
            invariant
                0 <= r < height(),
                looks@.len() == r * width() + c,
                gs.current is Some <==> shown is Some,
                forall|p: Piece, s: Piece| shown == Some((p, s)) ==> {
                    &&& gs.current == Some(p)
                    &&& s == landing(gs@.board, p)
                    &&& forall|j: int|
                        #![trigger ghost_cells@[j]]
                        0 <= j < 4 ==> ghost_cells@[j].0 == s.row + s.offset(j).0
                            && ghost_cells@[j].1 == s.col + s.offset(j).1
                    &&& forall|j: int|
                        #![trigger active_cells@[j]]
                        0 <= j < 4 ==> active_cells@[j].0 == p.row + p.offset(j).0
                            && active_cells@[j].1 == p.col + p.offset(j).1
                },
                forall|i: int, j: int|
                    0 <= i < height() && 0 <= j < width() && (i < r || (i == r && j < c))
                        ==> #[trigger] looks@[crate::rules::flat_index(i, j)] == look_at(gs@, i, j),
        {
            let ri = r as i32;
            let ci = c as i32;
            let look = match shown {
                Some((piece, shadow)) => {
                    if cells_contain(&active_cells, Ghost(piece), ri, ci) {
                        CellLook::Active(piece_color(piece.kind))
                    } else if cells_contain(&ghost_cells, Ghost(shadow), ri, ci) {
                        CellLook::Shadow
                    } else {
                        match gs.board.cells[r][c] {
                            Some(color) => CellLook::Locked(ansi_to_color(color)),
                            None => CellLook::Empty,
                        }
                    }
                },
                None => match gs.board.cells[r][c] {
                    Some(color) => CellLook::Locked(ansi_to_color(color)),
                    None => CellLook::Empty,
                },
            };
            looks.push(look);
        }
    }
    looks
}

/// The message drawn over the board.
#[derive(Clone, Copy, Debug, PartialEq, Eq, Structural)]
pub enum Overlay {
    Paused,
    GameOver,
}

impl Overlay {
    /// The headline of the message.
    pub fn title(&self) -> (text: &'static str)
        ensures
            text@ == match self {
                Overlay::Paused => "  PAUSED  "@,
                Overlay::GameOver => " GAME OVER"@,
            },
    {
        match self {
            Overlay::Paused => "  PAUSED  ",
            Overlay::GameOver => " GAME OVER",
        }
    }

    /// The line under the headline.
    pub fn subtitle(&self) -> (text: &'static str)
        ensures
            text@ == match self {
                Overlay::Paused => "Press P to resume"@,
                Overlay::GameOver => "Press Q to quit"@,
            },
    {
        match self {
            Overlay::Paused => "Press P to resume",
            Overlay::GameOver => "Press Q to quit",
        }
    }
}

/// The overlay to draw: the pause message while paused, else the game-over
/// message once the game is over, else none.
pub fn overlay(gs: &GameState) -> (shown: Option<Overlay>)
    ensures
        shown == if gs.paused {
            Some(Overlay::Paused)
        } else if gs.game_over {
            Some(Overlay::GameOver)
        } else {
            None
        },
{
    if gs.paused {
        Some(Overlay::Paused)
    } else if gs.game_over {
        Some(Overlay::GameOver)
    } else {
        None
    }
}

/// Terminal `(row, col)` offsets, from the sidebar's top-left corner, of the
/// four cells of the queued piece in the NEXT box (unrotated, two characters
/// per cell, inside the box that starts three rows down and one column in).
pub fn next_preview_cells(kind: TetrominoKind) -> (cells: [(u16, u16); 4])
    ensures
        forall|i: int|
            #![trigger cells@[i]]
            0 <= i < 4 ==> cells@[i].0 == 3 + cell_offsets(kind, 0)[i].0 && cells@[i].1 == 1
                + CELL_W * cell_offsets(kind, 0)[i].1,
{
    proof {
        lemma_offsets_in_box(kind, 0);
    }
    let offs = piece_cells(kind, 0);
    let (r0, c0) = offs[0];
    let (r1, c1) = offs[1];
    let (r2, c2) = offs[2];
    let (r3, c3) = offs[3];
    [
        (3 + r0 as u16, 1 + c0 as u16 * CELL_W),
        (3 + r1 as u16, 1 + c1 as u16 * CELL_W),
        (3 + r2 as u16, 1 + c2 as u16 * CELL_W),
        (3 + r3 as u16, 1 + c3 as u16 * CELL_W),
    ]
}

} // verus!
