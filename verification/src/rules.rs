//! The rules of the game as mathematics: the playfield as a grid of cells,
//! where a piece may stand, what locking and clearing do, and how every
//! player action and gravity tick changes the whole game.
use vstd::prelude::*;

use crate::game::{CellColor, Piece};
use crate::tetromino::{cell_offsets, lemma_offsets_in_box, TetrominoKind};

verus! {

/// Number of columns of the playfield.
pub open spec fn width() -> int {
    10
}

/// Number of rows of the playfield.
pub open spec fn height() -> int {
    20
}

/// A grid of the playfield's shape: `height()` rows of `width()` cells, top row first.
pub open spec fn board_shaped(b: Seq<Seq<CellColor>>) -> bool {
    &&& b.len() == height()
    &&& forall|r: int| 0 <= r < height() ==> (#[trigger] b[r]).len() == width()
}

/// A row of `width()` empty cells.
pub open spec fn empty_row() -> Seq<CellColor> {
    Seq::new(width() as nat, |c: int| None)
}

/// The empty playfield.
pub open spec fn empty_board() -> Seq<Seq<CellColor>> {
    Seq::new(height() as nat, |r: int| empty_row())
}

/// ANSI-256 colour in which pieces of each kind are drawn and locked.
pub open spec fn kind_color(kind: TetrominoKind) -> u8 {
    match kind {
        TetrominoKind::I => 51,
        TetrominoKind::O => 226,
        TetrominoKind::T => 129,
        TetrominoKind::S => 46,
        TetrominoKind::Z => 196,
        TetrominoKind::J => 21,
        TetrominoKind::L => 208,
    }
}

/// A piece cell may stand at `(row, col)`: the column is on the board, the row
/// is not below it, and the cell is empty; any row above the board counts as open.
pub open spec fn open_at(b: Seq<Seq<CellColor>>, row: int, col: int) -> bool {
    if col < 0 || col >= width() || row >= height() {
        false
    } else if row < 0 {
        true
    } else {
        b[row][col] is None
    }
}

/// A piece of `kind` turned to `rotation` with its bounding box at `(row, col)`
/// collides with neither the walls, the floor nor a locked cell.
pub open spec fn fits_at(
    b: Seq<Seq<CellColor>>,
    kind: TetrominoKind,
    rotation: int,
    row: int,
    col: int,
) -> bool {
    forall|i: int|
        #![trigger cell_offsets(kind, rotation)[i]]
        0 <= i < 4 ==> open_at(
            b,
            row + cell_offsets(kind, rotation)[i].0,
            col + cell_offsets(kind, rotation)[i].1,
        )
}

/// A piece that fits stands with its bounding box near the board: at most one
/// row below the top of the floor and at most three columns off either wall.
pub proof fn lemma_fits_near_board(
    b: Seq<Seq<CellColor>>,
    kind: TetrominoKind,
    rotation: int,
    row: int,
    col: int,
)
    requires
        fits_at(b, kind, rotation, row, col),
    ensures
        row <= height() - 1,
        -3 <= col <= width() - 1,
{
    lemma_offsets_in_box(kind, rotation);
    assert(open_at(b, row + cell_offsets(kind, rotation)[0].0, col + cell_offsets(kind, rotation)[0].1));
}

/// One of the first `n` cells of the piece lands on `(r, c)`.
pub open spec fn hits(
    kind: TetrominoKind,
    rotation: int,
    row: int,
    col: int,
    n: int,
    r: int,
    c: int,
) -> bool
    decreases n,
{
    if n <= 0 {
        false
    } else {
        hits(kind, rotation, row, col, n - 1, r, c) || (row + cell_offsets(kind, rotation)[n
            - 1].0 == r && col + cell_offsets(kind, rotation)[n - 1].1 == c)
    }
}

/// The piece covers board position `(r, c)` with one of its four cells.
pub open spec fn covers(p: Piece, r: int, c: int) -> bool {
    hits(p.kind, p.rotation as int, p.row as int, p.col as int, 4, r, c)
}

/// The board after the cells of `p` that lie on it are filled with its colour.
pub open spec fn locked_board(b: Seq<Seq<CellColor>>, p: Piece) -> Seq<Seq<CellColor>> {
    Seq::new(
        height() as nat,
        |r: int|
            Seq::new(
                width() as nat,
                |c: int|
                    if covers(p, r, c) {
                        Some(kind_color(p.kind))
                    } else {
                        b[r][c]
                    },
            ),
    )
}

/// Every cell of the row is filled.
pub open spec fn row_full(row: Seq<CellColor>) -> bool {
    forall|c: int| 0 <= c < row.len() ==> (#[trigger] row[c]) is Some
}

/// A row survives line clearing when it is not full.
pub open spec fn survives() -> spec_fn(Seq<CellColor>) -> bool {
    |row: Seq<CellColor>| !row_full(row)
}

/// The rows that are not full, in their order from top to bottom.
pub open spec fn kept_rows(b: Seq<Seq<CellColor>>) -> Seq<Seq<CellColor>> {
    b.filter(survives())
}

/// Number of full rows of the board.
pub open spec fn full_row_count(b: Seq<Seq<CellColor>>) -> int {
    b.len() - kept_rows(b).len()
}

/// The board after its full rows are removed: the other rows keep their order
/// and sink to the bottom, and empty rows fill the top.
pub open spec fn cleared_board(b: Seq<Seq<CellColor>>) -> Seq<Seq<CellColor>> {
    Seq::new(full_row_count(b) as nat, |i: int| empty_row()) + kept_rows(b)
}

/// Score multiplier for clearing `n` lines at once (100 / 300 / 500 / 800),
/// four or more lines counting as four; nothing when no line is cleared.
pub open spec fn line_multiplier(n: int) -> int {
    if n <= 0 {
        0
    } else if n == 1 {
        100
    } else if n == 2 {
        300
    } else if n == 3 {
        500
    } else {
        800
    }
}

/// Number of rows a piece can fall from `row` before something stops it.
pub open spec fn drop_distance(
    b: Seq<Seq<CellColor>>,
    kind: TetrominoKind,
    rotation: int,
    row: int,
    col: int,
) -> int
    decreases 19 - row,
{
    if row >= 19 || !fits_at(b, kind, rotation, row + 1, col) {
        0
    } else {
        1 + drop_distance(b, kind, rotation, row + 1, col)
    }
}

/// The piece moved by `dr` rows and `dc` columns.
pub open spec fn shifted(p: Piece, dr: int, dc: int) -> Piece {
    Piece { kind: p.kind, rotation: p.rotation, row: (p.row + dr) as i32, col: (p.col + dc) as i32 }
}

/// Where the piece comes to rest when dropped straight down.
pub open spec fn landing(b: Seq<Seq<CellColor>>, p: Piece) -> Piece {
    shifted(
        p,
        drop_distance(b, p.kind, p.rotation as int, p.row as int, p.col as int),
        0,
    )
}

/// A freshly spawned piece: unrotated, one row above the board, centred
/// (column 4 for the O piece, column 3 for the others).
pub open spec fn spawn_piece(kind: TetrominoKind) -> Piece {
    Piece {
        kind,
        rotation: 0,
        row: -1i32,
        col: if kind == TetrominoKind::O {
            4i32
        } else {
            3i32
        },
    }
}

/// Column shift of wall kick `j`: -1, +1, -2, +2 for `j` = 0, 1, 2, 3.
pub open spec fn kick(j: int) -> int {
    if j == 0 {
        -1
    } else if j == 1 {
        1
    } else if j == 2 {
        -2
    } else {
        2
    }
}

/// Every spawned piece fits on the empty board.
pub proof fn lemma_spawn_fits_empty(kind: TetrominoKind)
    ensures
        fits_at(empty_board(), kind, 0, -1, spawn_piece(kind).col as int),
{
    lemma_offsets_in_box(kind, 0);
}

/// The column at which a clockwise turn succeeds: the piece's own column, or
/// else the first of the wall kicks by -1, +1, -2, +2 columns that fits.
pub open spec fn rotation_column(b: Seq<Seq<CellColor>>, p: Piece) -> Option<int> {
    let r = (p.rotation + 1) % 4;
    let k = p.kind;
    let row = p.row as int;
    let col = p.col as int;
    if fits_at(b, k, r, row, col) {
        Some(col)
    } else if fits_at(b, k, r, row, col - 1) {
        Some(col - 1)
    } else if fits_at(b, k, r, row, col + 1) {
        Some(col + 1)
    } else if fits_at(b, k, r, row, col - 2) {
        Some(col - 2)
    } else if fits_at(b, k, r, row, col + 2) {
        Some(col + 2)
    } else {
        None
    }
}

/// The whole game as mathematics.
pub struct GameModel {
    pub board: Seq<Seq<CellColor>>,
    pub current: Option<Piece>,
    pub next_kind: TetrominoKind,
    pub score: int,
    pub level: int,
    pub lines: int,
    pub game_over: bool,
    pub paused: bool,
}

/// Player input and gravity have an effect only while the game runs.
pub open spec fn running(m: GameModel) -> bool {
    !m.game_over && !m.paused
}

/// The queued piece enters the board (or, where it does not fit, the game
/// ends), and `upcoming` becomes the queued kind.
pub open spec fn spawn_model(m: GameModel, upcoming: TetrominoKind) -> GameModel {
    let p = spawn_piece(m.next_kind);
    if fits_at(m.board, p.kind, p.rotation as int, p.row as int, p.col as int) {
        GameModel { current: Some(p), next_kind: upcoming, ..m }
    } else {
        GameModel { game_over: true, next_kind: upcoming, ..m }
    }
}

/// Lines cleared when the current piece locks where it stands.
pub open spec fn lock_lines(m: GameModel) -> int {
    match m.current {
        Some(p) => full_row_count(locked_board(m.board, p)),
        None => 0,
    }
}

/// Points awarded when the current piece locks where it stands.
pub open spec fn lock_points(m: GameModel) -> int {
    line_multiplier(lock_lines(m)) * m.level
}

/// The current piece locks, full lines clear, score, lines and level are
/// updated, and the next piece spawns; nothing happens without a current piece.
pub open spec fn lock_model(m: GameModel, upcoming: TetrominoKind) -> GameModel {
    match m.current {
        Some(p) => {
            let n = lock_lines(m);
            let after = GameModel {
                board: cleared_board(locked_board(m.board, p)),
                current: None,
                score: m.score + lock_points(m),
                lines: m.lines + n,
                level: if n > 0 {
                    (m.lines + n) / 10 + 1
                } else {
                    m.level
                },
                ..m
            };
            spawn_model(after, upcoming)
        },
        None => m,
    }
}

/// The current piece moved by `(dr, dc)` where it fits there, else unchanged.
pub open spec fn try_shift(b: Seq<Seq<CellColor>>, p: Piece, dr: int, dc: int) -> Piece {
    if fits_at(b, p.kind, p.rotation as int, p.row + dr, p.col + dc) {
        shifted(p, dr, dc)
    } else {
        p
    }
}

/// The current piece can move one row down.
pub open spec fn can_fall(m: GameModel) -> bool {
    match m.current {
        Some(p) => fits_at(m.board, p.kind, p.rotation as int, p.row + 1, p.col as int),
        None => false,
    }
}

/// One gravity tick: the piece falls one row, or locks where it cannot.
pub open spec fn tick_model(m: GameModel, upcoming: TetrominoKind) -> GameModel {
    if !running(m) {
        m
    } else {
        match m.current {
            Some(p) => if can_fall(m) {
                GameModel { current: Some(shifted(p, 1, 0)), ..m }
            } else {
                lock_model(m, upcoming)
            },
            None => m,
        }
    }
}

/// The current piece steps sideways by `dc` where it fits.
pub open spec fn side_step_model(m: GameModel, dc: int) -> GameModel {
    if !running(m) {
        m
    } else {
        match m.current {
            Some(p) => GameModel { current: Some(try_shift(m.board, p, 0, dc)), ..m },
            None => m,
        }
    }
}

/// The current piece turned clockwise, with wall kicks, where that fits.
pub open spec fn rotated(b: Seq<Seq<CellColor>>, p: Piece) -> Piece {
    match rotation_column(b, p) {
        Some(c) => Piece {
            kind: p.kind,
            rotation: ((p.rotation + 1) % 4) as usize,
            row: p.row,
            col: c as i32,
        },
        None => p,
    }
}

/// The rotate action.
pub open spec fn rotate_model(m: GameModel) -> GameModel {
    if !running(m) {
        m
    } else {
        match m.current {
            Some(p) => GameModel { current: Some(rotated(m.board, p)), ..m },
            None => m,
        }
    }
}

/// The soft-drop action: one row down, worth one point; nothing where it cannot fall.
pub open spec fn soft_drop_model(m: GameModel) -> GameModel {
    if !running(m) {
        m
    } else {
        match m.current {
            Some(p) => if can_fall(m) {
                GameModel { current: Some(shifted(p, 1, 0)), score: m.score + 1, ..m }
            } else {
                m
            },
            None => m,
        }
    }
}

/// The current piece dropped to where it lands, two points per row fallen.
pub open spec fn dropped_model(m: GameModel) -> GameModel {
    match m.current {
        Some(p) => {
            let d = drop_distance(m.board, p.kind, p.rotation as int, p.row as int, p.col as int);
            GameModel { current: Some(shifted(p, d, 0)), score: m.score + 2 * d, ..m }
        },
        None => m,
    }
}

/// The hard-drop action: drop, lock, spawn.
pub open spec fn hard_drop_model(m: GameModel, upcoming: TetrominoKind) -> GameModel {
    if !running(m) {
        m
    } else {
        lock_model(dropped_model(m), upcoming)
    }
}

/// Pause or resume; a finished game stays as it is.
pub open spec fn toggle_pause_model(m: GameModel) -> GameModel {
    if m.game_over {
        m
    } else {
        GameModel { paused: !m.paused, ..m }
    }
}

/// A new game: empty board, `first` in play, `next` queued, score 0, level 1.
pub open spec fn start_model(first: TetrominoKind, next: TetrominoKind) -> GameModel {
    spawn_model(
        GameModel {
            board: empty_board(),
            current: None,
            next_kind: first,
            score: 0,
            level: 1,
            lines: 0,
            game_over: false,
            paused: false,
        },
        next,
    )
}

/// The piece in play, if any, has a quarter-turn rotation and a position far
/// from the limits of `i32`.
pub open spec fn well_placed(m: GameModel) -> bool {
    match m.current {
        Some(p) => p.wf(),
        None => true,
    }
}

/// In a running game, the piece in play can fall (by a tick, a soft drop or
/// a hard drop) without leaving the integer types.
pub open spec fn gravity_in_range(m: GameModel) -> bool {
    running(m) ==> match m.current {
        Some(p) => p.fall_in_range(),
        None => true,
    }
}

/// In a running game, the piece in play can step `dc` columns sideways
/// without leaving the integer types.
pub open spec fn step_in_range(m: GameModel, dc: int) -> bool {
    running(m) ==> match m.current {
        Some(p) => p.rotation < 4 && p.offsets_fit(0, dc),
        None => true,
    }
}

/// In a running game, the piece in play can turn (with its wall kicks)
/// without leaving the integer types.
pub open spec fn rotate_in_range(m: GameModel) -> bool {
    running(m) ==> match m.current {
        Some(p) => p.turn_in_range(m.board),
        None => true,
    }
}

/// The piece in play and its landing place can be drawn without leaving the
/// integer types.
pub open spec fn view_in_range(m: GameModel) -> bool {
    match m.current {
        Some(p) => p.fall_in_range(),
        None => true,
    }
}

/// A well-placed game may take every action and be drawn.
pub proof fn lemma_well_placed_in_range(m: GameModel)
    requires
        well_placed(m),
    ensures
        gravity_in_range(m),
        step_in_range(m, -1),
        step_in_range(m, 1),
        rotate_in_range(m),
        view_in_range(m),
{
    if let Some(p) = m.current {
        p.lemma_wf_in_range(m.board);
    }
}

/// Locking the current piece keeps score and line count within `u32`.
pub open spec fn lock_in_range(m: GameModel) -> bool {
    &&& m.score + lock_points(m) <= u32::MAX
    &&& m.lines + lock_lines(m) <= u32::MAX
}

/// A gravity tick keeps score and line count within `u32`.
pub open spec fn tick_in_range(m: GameModel) -> bool {
    running(m) && m.current is Some && !can_fall(m) ==> lock_in_range(m)
}

/// A soft drop keeps the score within `u32`.
pub open spec fn soft_drop_in_range(m: GameModel) -> bool {
    running(m) && can_fall(m) ==> m.score + 1 <= u32::MAX
}

/// A hard drop keeps score and line count within `u32`.
pub open spec fn hard_drop_in_range(m: GameModel) -> bool {
    running(m) ==> dropped_model(m).score <= u32::MAX && lock_in_range(dropped_model(m))
}

/// A piece falls at most to the floor: never more than `19 - row` rows.
pub proof fn lemma_drop_distance_bounded(
    b: Seq<Seq<CellColor>>,
    kind: TetrominoKind,
    rotation: int,
    row: int,
    col: int,
)
    ensures
        0 <= drop_distance(b, kind, rotation, row, col),
        row < 19 ==> drop_distance(b, kind, rotation, row, col) <= 19 - row,
        row >= 19 ==> drop_distance(b, kind, rotation, row, col) == 0,
    decreases 19 - row,
{
    if row < 19 && fits_at(b, kind, rotation, row + 1, col) {
        lemma_drop_distance_bounded(b, kind, rotation, row + 1, col);
    }
}

/// Locking clears at most one line per row and scores at most 800 points per level.
pub proof fn lemma_lock_gain_bounded(m: GameModel)
    requires
        m.level >= 0,
    ensures
        0 <= lock_lines(m) <= height(),
        0 <= lock_points(m) <= 800 * m.level,
{
    match m.current {
        Some(p) => {
            locked_board(m.board, p).lemma_filter_len(survives());
            assert(0 <= line_multiplier(lock_lines(m)) <= 800);
            assert(line_multiplier(lock_lines(m)) * m.level <= 800 * m.level) by (nonlinear_arith)
                requires
                    0 <= line_multiplier(lock_lines(m)) <= 800,
                    m.level >= 0,
            ;
        },
        None => {},
    }
}

/// Position of cell `(r, c)` in the row-major flat board.
pub open spec fn flat_index(r: int, c: int) -> int {
    r * width() + c
}

/// The colour locked at `(r, c)`, or 0 for an empty cell.
pub open spec fn locked_value(b: Seq<Seq<CellColor>>, r: int, c: int) -> u8 {
    match b[r][c] {
        Some(color) => color,
        None => 0,
    }
}

/// What the flat board holds at `(r, c)`: the colour of the current piece where
/// it stands, else 1 where its landing place covers an empty cell, else the
/// locked colour, else 0.
pub open spec fn flat_cell(m: GameModel, r: int, c: int) -> u8 {
    let base = locked_value(m.board, r, c);
    match m.current {
        Some(p) => if covers(p, r, c) {
            kind_color(p.kind)
        } else if covers(landing(m.board, p), r, c) && base == 0 {
            1
        } else {
            base
        },
        None => base,
    }
}

/// Milliseconds between gravity ticks: 1000 at level 1, 100 less per level,
/// and 100 from level 10 on.
pub open spec fn drop_interval(level: int) -> int {
    if level >= 10 {
        100
    } else {
        1100 - 100 * level
    }
}

} // verus!
