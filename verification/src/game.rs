use vstd::prelude::*;

use crate::rules::{
    board_shaped, cleared_board, covers, drop_distance, drop_interval, dropped_model, empty_board,
    empty_row, fits_at, flat_cell, flat_index, full_row_count, gravity_in_range, hard_drop_in_range,
    hard_drop_model, lemma_well_placed_in_range, rotate_in_range, step_in_range, view_in_range,
    height, hits, kept_rows, kick, kind_color, landing, lemma_drop_distance_bounded,
    lemma_fits_near_board, lemma_lock_gain_bounded, lemma_spawn_fits_empty, line_multiplier,
    lock_in_range, lock_model, lock_points, locked_board, locked_value, open_at, rotate_model,
    rotated, rotation_column, row_full, shifted, side_step_model, soft_drop_in_range, soft_drop_model,
    spawn_model, spawn_piece, start_model, survives, tick_in_range, tick_model, toggle_pause_model,
    try_shift, well_placed, width, GameModel,
};
use crate::tetromino::{cell_offsets, lemma_offsets_in_box, piece_cells, TetrominoKind};

verus! {

pub const BOARD_WIDTH: usize = 10;

pub const BOARD_HEIGHT: usize = 20;

/// A single locked cell on the board.  `None` means empty.
pub type CellColor = Option<u8>;

/// ANSI 256-color index for each tetromino kind.
const PIECE_COLORS: [u8; 7] = [
    51,  // I – cyan
    226,  // O – yellow
    129,  // T – purple
    46,  // S – green
    196,  // Z – red
    21,  // J – blue
    208,  // L – orange
];

/// ANSI 256-colour index of each tetromino kind.
pub fn piece_color(kind: TetrominoKind) -> (color: u8)
    ensures
        color == kind_color(kind),
{
    PIECE_COLORS[kind.index()]
}

/// Every cell of the row is filled.
fn row_is_full(row: &[CellColor; BOARD_WIDTH]) -> (full: bool)
    ensures
        full == row_full(row@),
{
    let mut c: usize = 0;
    while c < BOARD_WIDTH
        invariant
            0 <= c <= BOARD_WIDTH,
            forall|j: int| 0 <= j < c ==> (#[trigger] row@[j]) is Some,
        decreases BOARD_WIDTH - c,
    {
        if row[c].is_none() {
            return false;
        }
        c = c + 1;
    }
    true
}

/// `kept`, read from its end, lists the surviving rows of `b[lo..]`, and
/// `cleared` counts the full ones there.
spec fn scanned(
    b: Seq<Seq<CellColor>>,
    lo: int,
    kept: Seq<[CellColor; BOARD_WIDTH]>,
    cleared: int,
) -> bool {
    let k = kept_rows(b.subrange(lo, height()));
    &&& kept.len() == k.len()
    &&& forall|i: int| 0 <= i < kept.len() ==> (#[trigger] kept[i])@ == k[k.len() - 1 - i]
    &&& cleared == (height() - lo) - k.len()
}

/// The 10×20 playfield.
#[derive(Clone, Copy)]
pub struct Board {
    pub cells: [[CellColor; BOARD_WIDTH]; BOARD_HEIGHT],
}

impl View for Board {
    type V = Seq<Seq<CellColor>>;

    open spec fn view(&self) -> Seq<Seq<CellColor>> {
        Seq::new(height() as nat, |r: int| self.cells@[r]@)
    }
}

impl Default for Board {
    fn default() -> (board: Self)
        ensures
            board@ == empty_board(),
    {
        Self::new()
    }
}

impl Board {
    /// The view always has the playfield's shape.
    pub proof fn lemma_shaped(&self)
        ensures
            board_shaped(self@),
    {
        assert forall|r: int| 0 <= r < height() implies (#[trigger] self@[r]).len() == width() by {
            assert(self.cells@[r]@.len() == BOARD_WIDTH);
        }
    }

    pub fn new() -> (board: Self)
        ensures
            board@ == empty_board(),
    {
        let board = Board { cells: [[None; BOARD_WIDTH]; BOARD_HEIGHT] };
        assert(board@ =~~= empty_board());
        board
    }

    /// Lock a piece into the board: its cells that lie on the board take its colour.
    pub fn lock(&mut self, piece: &Piece)
        requires
            piece.in_range(),
        ensures
            final(self)@ == locked_board(old(self)@, *piece),
    {
        let color = piece_color(piece.kind);
        let cells = piece.cells();
        let mut i: usize = 0;
        while i < 4
            invariant
                0 <= i <= 4,
                piece.in_range(),
                color == kind_color(piece.kind),
                forall|j: int|
                    #![trigger cells@[j]]
                    0 <= j < 4 ==> cells@[j].0 == piece.offset(j).0 && cells@[j].1 == piece.offset(
                        j,
                    ).1,
                forall|r: int, c: int|
                    0 <= r < height() && 0 <= c < width() ==> #[trigger] self.cells@[r]@[c] == if hits(
                        piece.kind,
                        piece.rotation as int,
                        piece.row as int,
                        piece.col as int,
                        i as int,
                        r,
                        c,
                    ) {
                        Some(color)
                    } else {
                        old(self).cells@[r]@[c]
                    },
            decreases 4 - i,
        {
            proof {
                lemma_offsets_in_box(piece.kind, piece.rotation as int);
            }
            let (dr, dc) = cells[i];
            let r = piece.row + dr;
            let c = piece.col + dc;
            if r >= 0 && r < BOARD_HEIGHT as i32 && c >= 0 && c < BOARD_WIDTH as i32 {
                self.cells[r as usize][c as usize] = Some(color);
            }
            i = i + 1;
        }
        assert(self@ =~~= locked_board(old(self)@, *piece));
    }

    /// Clear completed lines and return the number cleared.
    pub fn clear_lines(&mut self) -> (cleared: u32)
        ensures
            final(self)@ == cleared_board(old(self)@),
            cleared == full_row_count(old(self)@),
    {
        let ghost b = self@;
        proof {
            self.lemma_shaped();
            assert(b.subrange(height(), height()) =~= Seq::<Seq<CellColor>>::empty());
            reveal(Seq::filter);
        }
        let mut cleared: u32 = 0;
        let mut read_row: usize = BOARD_HEIGHT - 1;

        // Temporary buffer to store non-full rows
        let mut kept: Vec<[CellColor; BOARD_WIDTH]> = Vec::with_capacity(BOARD_HEIGHT);

        loop
            invariant_except_break
                read_row < BOARD_HEIGHT,
                scanned(b, read_row + 1, kept@, cleared as int),
            invariant
                self@ == b,
            ensures
                scanned(b, 0, kept@, cleared as int),
            decreases read_row,
        {
            let ghost k = kept_rows(b.subrange(read_row + 1, height()));
            proof {
                let below = b.subrange(read_row + 1, height());
                assert(b.subrange(read_row as int, height()) =~= seq![b[read_row as int]] + below);
                below.lemma_filter_prepend(b[read_row as int], survives());
                below.lemma_filter_len(survives());
            }
            let full = row_is_full(&self.cells[read_row]);
            if full {
                cleared += 1;
            } else {
                kept.push(self.cells[read_row]);
            }
            if read_row == 0 {
                break;
            }
            read_row -= 1;
        }
        proof {
            assert(b.subrange(0, height()) =~= b);
        }
        let ghost k = kept_rows(b);

        // Rebuild board: empty rows on top, kept rows on bottom
        let empty_rows = BOARD_HEIGHT - kept.len();
        for r in 0..empty_rows
            invariant
                empty_rows == height() - k.len(),
                forall|i: int| 0 <= i < r ==> (#[trigger] self.cells@[i])@ == empty_row(),
                forall|i: int| r <= i < height() ==> (#[trigger] self.cells@[i])@ == b[i],
        {
            self.cells[r] = [None; BOARD_WIDTH];
            assert(self.cells@[r as int]@ =~= empty_row());
        }
        let n = kept.len();
        let mut i: usize = 0;
        while i < n
            invariant
                n == kept@.len(),
                empty_rows + n == height(),
                scanned(b, 0, kept@, cleared as int),
                k == kept_rows(b),
                b.subrange(0, height()) == b,
                forall|j: int| 0 <= j < empty_rows ==> (#[trigger] self.cells@[j])@ == empty_row(),
                forall|j: int|
                    empty_rows <= j < empty_rows + i ==> (#[trigger] self.cells@[j])@ == k[j
                        - empty_rows],
            decreases n - i,
        {
            assert(kept@[n - 1 - i]@ == k[i as int]);
            self.cells[empty_rows + i] = kept[n - 1 - i];
            i = i + 1;
        }
        assert(self@ =~= cleared_board(b)) by {
            assert forall|r: int| 0 <= r < height() implies #[trigger] self@[r] == cleared_board(
                b,
            )[r] by {
                if r < empty_rows {
                } else {
                    assert(self.cells@[r]@ == k[r - empty_rows]);
                }
            }
        }
        cleared
    }

    /// `true` if the position is inside the board and the cell is empty.
    pub fn is_empty(&self, row: i32, col: i32) -> (empty: bool)
        ensures
            empty == open_at(self@, row as int, col as int),
    {
        if col < 0 || col >= BOARD_WIDTH as i32 || row >= BOARD_HEIGHT as i32 {
            return false;
        }
        if row < 0 {
            return true;  // above the board is fine during spawn
        }
        self.cells[row as usize][col as usize].is_none()
    }
}

/// An active falling piece.
#[derive(Clone, Copy, Debug)]
pub struct Piece {
    pub kind: TetrominoKind,
    pub rotation: usize,
    /// Top-left row of the bounding box on the board (may be negative during spawn).
    pub row: i32,
    /// Top-left column of the bounding box on the board.
    pub col: i32,
}

impl Piece {
    /// The piece is comfortably placed: the rotation names one of the four
    /// quarter turns, and the position is far enough from the limits of `i32`
    /// that every step (falling, stepping sideways, turning with kicks) stays
    /// within range.  Every piece that spawns or fits on the board is so placed.
    pub open spec fn wf(self) -> bool {
        &&& self.rotation < 4
        &&& self.row <= i32::MAX - 4
        &&& i32::MIN + 2 <= self.col <= i32::MAX - 5
    }

    /// Moving the piece by `dr` rows and `dc` columns and then adding any of
    /// its cell offsets stays within `i32`.
    pub open spec fn offsets_fit(self, dr: int, dc: int) -> bool {
        &&& i32::MIN <= self.row + dr
        &&& i32::MIN <= self.col + dc
        &&& forall|i: int|
            #![trigger self.offset(i)]
            0 <= i < 4 ==> self.row + dr + self.offset(i).0 <= i32::MAX && self.col + dc
                + self.offset(i).1 <= i32::MAX
    }

    /// The rotation names one of the four quarter turns, and adding a cell
    /// offset to the position stays within `i32`.
    pub open spec fn in_range(self) -> bool {
        &&& self.rotation < 4
        &&& self.offsets_fit(0, 0)
    }

    /// Moving the piece down a row, and dropping it, stays within `i32`.
    pub open spec fn fall_in_range(self) -> bool {
        &&& self.rotation < 4
        &&& self.offsets_fit(1, 0)
    }

    /// The piece turned a quarter clockwise where it stands.
    pub open spec fn turned(self) -> Piece {
        Piece { rotation: ((self.rotation + 1) % 4) as usize, ..self }
    }

    /// Turning the piece on `b` stays within the integer types: the turn
    /// counter can step, and the turned piece at its own column and at every
    /// wall kick that gets tried (each one until one fits) stays within `i32`.
    pub open spec fn turn_in_range(self, b: Seq<Seq<CellColor>>) -> bool {
        let q = self.turned();
        &&& self.rotation < usize::MAX
        &&& q.offsets_fit(0, 0)
        &&& !q.fits(b) ==> q.offsets_fit(0, -1)
        &&& !q.fits(b) && !q.fits_moved(b, 0, -1) ==> q.offsets_fit(0, 1)
        &&& !q.fits(b) && !q.fits_moved(b, 0, -1) && !q.fits_moved(b, 0, 1) ==> q.offsets_fit(0, -2)
        &&& !q.fits(b) && !q.fits_moved(b, 0, -1) && !q.fits_moved(b, 0, 1) && !q.fits_moved(
            b,
            0,
            -2,
        ) ==> q.offsets_fit(0, 2)
    }

    /// Where the offsets fit after a move by `(dr, dc)`, the move itself stays
    /// within `i32` and the moved piece is in range.
    pub proof fn lemma_moved_in_range(self, dr: int, dc: int)
        requires
            self.rotation < 4,
            self.offsets_fit(dr, dc),
        ensures
            self.row + dr <= i32::MAX,
            self.col + dc <= i32::MAX,
            shifted(self, dr, dc).in_range(),
            shifted(self, dr, dc).row == self.row + dr,
            shifted(self, dr, dc).col == self.col + dc,
    {
        lemma_offsets_in_box(self.kind, self.rotation as int);
        assert(self.offset(0).0 >= 0 && self.offset(0).1 >= 0);
        let s = shifted(self, dr, dc);
        assert forall|i: int| #![trigger s.offset(i)] 0 <= i < 4 implies s.row + s.offset(i).0 <= i32::MAX
            && s.col + s.offset(i).1 <= i32::MAX by {
            assert(s.offset(i) == self.offset(i));
        }
    }

    /// A comfortably placed piece (see `wf`) may take every step: falling,
    /// stepping sideways and turning stay within the integer types.
    pub proof fn lemma_wf_in_range(self, b: Seq<Seq<CellColor>>)
        requires
            self.wf(),
        ensures
            self.in_range(),
            self.fall_in_range(),
            self.rotation < 4 && self.offsets_fit(0, -1),
            self.rotation < 4 && self.offsets_fit(0, 1),
            self.turn_in_range(b),
    {
        lemma_offsets_in_box(self.kind, self.rotation as int);
        lemma_offsets_in_box(self.kind, self.turned().rotation as int);
    }

    /// A piece that fits may take every step.
    pub proof fn lemma_fits_wf(self, b: Seq<Seq<CellColor>>)
        requires
            self.rotation < 4,
            self.fits(b),
        ensures
            self.wf(),
    {
        self.lemma_near_board(b);
    }

    /// The piece stands where it collides with nothing on `b`.
    pub open spec fn fits(self, b: Seq<Seq<CellColor>>) -> bool {
        fits_at(b, self.kind, self.rotation as int, self.row as int, self.col as int)
    }

    /// The piece would fit on `b` moved by `dr` rows and `dc` columns.
    pub open spec fn fits_moved(self, b: Seq<Seq<CellColor>>, dr: int, dc: int) -> bool {
        fits_at(b, self.kind, self.rotation as int, self.row + dr, self.col + dc)
    }

    /// How many rows the piece can fall on `b` before something stops it.
    pub open spec fn fall_distance(self, b: Seq<Seq<CellColor>>) -> int {
        drop_distance(b, self.kind, self.rotation as int, self.row as int, self.col as int)
    }

    /// A piece that fits stands no lower than the bottom row and at most three
    /// columns off either wall.
    pub proof fn lemma_near_board(self, b: Seq<Seq<CellColor>>)
        requires
            self.fits(b),
        ensures
            self.row <= height() - 1,
            -3 <= self.col <= width() - 1,
    {
        lemma_fits_near_board(b, self.kind, self.rotation as int, self.row as int, self.col as int);
    }

    /// The piece falls at least no rows and at most down to the floor.
    pub proof fn lemma_fall_bounded(self, b: Seq<Seq<CellColor>>)
        ensures
            0 <= self.fall_distance(b),
            self.row < 19 ==> self.fall_distance(b) <= 19 - self.row,
    {
        lemma_drop_distance_bounded(b, self.kind, self.rotation as int, self.row as int, self.col as int);
    }

    /// Offset `i` of this piece's current rotation.
    pub open spec fn offset(self, i: int) -> (int, int) {
        cell_offsets(self.kind, self.rotation as int)[i]
    }

    /// Create a new piece centered at the top of the board.
    pub fn new(kind: TetrominoKind) -> (piece: Self)
        ensures
            piece == spawn_piece(kind),
            piece.wf(),
    {
        // Centre the piece horizontally.
        // Most pieces have a 3-wide bbox; I-piece has a 4-wide bbox.
        let col = match kind {
            TetrominoKind::I => 3,
            TetrominoKind::O => 4,
            _ => 3,
        };
        // Spawn one row above the visible board so the piece slides in.
        let row = match kind {
            TetrominoKind::I => -1,
            _ => -1,
        };
        Self { kind, rotation: 0, row, col }
    }

    /// Absolute `(row, col)` board positions of the four cells.
    pub fn board_cells(&self) -> (cells: [(i32, i32); 4])
        requires
            self.in_range(),
        ensures
            forall|i: int|
                #![trigger cells@[i]]
                0 <= i < 4 ==> cells@[i].0 == self.row + self.offset(i).0 && cells@[i].1 == self.col
                    + self.offset(i).1,
    {
        proof {
            lemma_offsets_in_box(self.kind, self.rotation as int);
        }
        let offs = self.cells();
        let (r0, c0) = offs[0];
        let (r1, c1) = offs[1];
        let (r2, c2) = offs[2];
        let (r3, c3) = offs[3];
        [
            (self.row + r0, self.col + c0),
            (self.row + r1, self.col + c1),
            (self.row + r2, self.col + c2),
            (self.row + r3, self.col + c3),
        ]
    }

    /// Return `true` if this piece doesn't collide with locked cells or walls.
    pub fn is_valid(&self, board: &Board) -> (valid: bool)
        requires
            self.in_range(),
        ensures
            valid == self.fits(board@),
    {
        let cells = self.board_cells();
        let mut i: usize = 0;
        while i < 4
            invariant
                0 <= i <= 4,
                forall|j: int|
                    #![trigger cells@[j]]
                    0 <= j < 4 ==> cells@[j].0 == self.row + self.offset(j).0 && cells@[j].1
                        == self.col + self.offset(j).1,
                forall|j: int|
                    #![trigger self.offset(j)]
                    0 <= j < i ==> open_at(
                        board@,
                        self.row + self.offset(j).0,
                        self.col + self.offset(j).1,
                    ),
            decreases 4 - i,
        {
            let (r, c) = cells[i];
            if !board.is_empty(r, c) {
                assert(!open_at(
                    board@,
                    self.row + self.offset(i as int).0,
                    self.col + self.offset(i as int).1,
                ));
                return false;
            }
            i = i + 1;
        }
        assert forall|j: int|
            #![trigger cell_offsets(self.kind, self.rotation as int)[j]]
            0 <= j < 4 implies open_at(
            board@,
            self.row + cell_offsets(self.kind, self.rotation as int)[j].0,
            self.col + cell_offsets(self.kind, self.rotation as int)[j].1,
        ) by {
            assert(open_at(board@, self.row + self.offset(j).0, self.col + self.offset(j).1));
        }
        true
    }

    /// Try to move down; returns `true` on success.
    pub fn try_move_down(&mut self, board: &Board) -> (moved: bool)
        requires
            old(self).rotation < 4,
            old(self).offsets_fit(1, 0),
        ensures
            moved == old(self).fits_moved(board@, 1, 0),
            *final(self) == try_shift(board@, *old(self), 1, 0),
            moved ==> final(self).wf(),
    {
        proof {
            old(self).lemma_moved_in_range(1, 0);
        }
        self.row += 1;
        if self.is_valid(board) {
            proof {
                self.lemma_fits_wf(board@);
            }
            true
        } else {
            self.row -= 1;
            false
        }
    }

    /// Try to move left; returns `true` on success.
    pub fn try_move_left(&mut self, board: &Board) -> (moved: bool)
        requires
            old(self).rotation < 4,
            old(self).offsets_fit(0, -1),
        ensures
            moved == old(self).fits_moved(board@, 0, -1),
            *final(self) == try_shift(board@, *old(self), 0, -1),
            moved ==> final(self).wf(),
    {
        proof {
            old(self).lemma_moved_in_range(0, -1);
        }
        self.col -= 1;
        if self.is_valid(board) {
            proof {
                self.lemma_fits_wf(board@);
            }
            true
        } else {
            self.col += 1;
            false
        }
    }

    /// Try to move right; returns `true` on success.
    pub fn try_move_right(&mut self, board: &Board) -> (moved: bool)
        requires
            old(self).rotation < 4,
            old(self).offsets_fit(0, 1),
        ensures
            moved == old(self).fits_moved(board@, 0, 1),
            *final(self) == try_shift(board@, *old(self), 0, 1),
            moved ==> final(self).wf(),
    {
        proof {
            old(self).lemma_moved_in_range(0, 1);
        }
        self.col += 1;
        if self.is_valid(board) {
            proof {
                self.lemma_fits_wf(board@);
            }
            true
        } else {
            self.col -= 1;
            false
        }
    }

    /// Try to rotate clockwise; where the turned piece collides, try shifting
    /// it one column left, one right, two left, two right (wall kicks).
    pub fn try_rotate(&mut self, board: &Board) -> (turned: bool)
        requires
            old(self).turn_in_range(board@),
        ensures
            turned == rotation_column(board@, *old(self)) is Some,
            *final(self) == rotated(board@, *old(self)),
            turned ==> final(self).wf(),
    {
        let ghost q = old(self).turned();
        let prev_rotation = self.rotation;
        self.rotation = (self.rotation + 1) % 4;
        assert(*self == q);
        proof {
            q.lemma_moved_in_range(0, 0);
        }
        if self.is_valid(board) {
            proof {
                self.lemma_fits_wf(board@);
            }
            return true;
        }
        // Wall-kick: try shifting left or right by 1, then by 2
        let offsets: [i32; 4] = [-1, 1, -2, 2];
        let mut k: usize = 0;
        while k < 4
            invariant
                0 <= k <= 4,
                old(self).turn_in_range(board@),
                q == old(self).turned(),
                prev_rotation == old(self).rotation,
                forall|j: int| 0 <= j < 4 ==> #[trigger] offsets@[j] == kick(j),
                *self == q,
                !q.fits(board@),
                k > 0 ==> !q.fits_moved(board@, 0, -1),
                k > 1 ==> !q.fits_moved(board@, 0, 1),
                k > 2 ==> !q.fits_moved(board@, 0, -2),
                k > 3 ==> !q.fits_moved(board@, 0, 2),
            decreases 4 - k,
        {
            let offset = offsets[k];
            assert(offset == kick(k as int));
            assert(q.offsets_fit(0, offset as int));
            proof {
                q.lemma_moved_in_range(0, offset as int);
            }
            self.col += offset;
            if self.is_valid(board) {
                proof {
                    self.lemma_fits_wf(board@);
                }
                return true;
            }
            self.col -= offset;
            k = k + 1;
        }
        self.rotation = prev_rotation;
        false
    }

    /// Drop the piece as far as possible and return the number of rows dropped.
    pub fn hard_drop(&mut self, board: &Board) -> (rows: u32)
        requires
            old(self).fall_in_range(),
        ensures
            rows == old(self).fall_distance(board@),
            *final(self) == landing(board@, *old(self)),
            final(self).fall_in_range(),
            old(self).wf() ==> final(self).wf(),
    {
        let mut rows = 0u32;
        loop
            invariant
                self.fall_in_range(),
                old(self).wf() ==> self.wf(),
                self.kind == old(self).kind,
                self.rotation == old(self).rotation,
                self.col == old(self).col,
                self.row == old(self).row + rows,
                rows > 0 ==> self.row <= height() - 1,
                rows + self.fall_distance(board@) == old(self).fall_distance(board@),
            ensures
                self.fall_distance(board@) == 0,
            decreases 19 - self.row,
        {
            proof {
                self.lemma_moved_in_range(1, 0);
            }
            if !self.try_move_down(board) {
                break;
            }
            proof {
                self.lemma_near_board(board@);
                self.lemma_wf_in_range(board@);
            }
            rows += 1;
        }
        rows
    }

    /// Return a "ghost" piece showing where the piece would land.
    pub fn ghost(&self, board: &Board) -> (shadow: Piece)
        requires
            self.fall_in_range(),
        ensures
            shadow == landing(board@, *self),
            shadow.fall_in_range(),
            self.wf() ==> shadow.wf(),
    {
        let mut shadow = self.clone();
        loop
            invariant
                shadow.fall_in_range(),
                self.wf() ==> shadow.wf(),
                shadow.kind == self.kind,
                shadow.rotation == self.rotation,
                shadow.col == self.col,
                self.row <= shadow.row,
                (shadow.row - self.row) + shadow.fall_distance(board@) == self.fall_distance(
                    board@,
                ),
            ensures
                shadow.fall_distance(board@) == 0,
            decreases 19 - shadow.row,
        {
            proof {
                shadow.lemma_moved_in_range(1, 0);
            }
            if !shadow.try_move_down(board) {
                break;
            }
            proof {
                shadow.lemma_near_board(board@);
                shadow.lemma_wf_in_range(board@);
            }
        }
        shadow
    }

    /// The four `(dr, dc)` offsets for the current rotation.
    pub fn cells(&self) -> (cells: [(i32, i32); 4])
        requires
            self.rotation < 4,
        ensures
            forall|i: int|
                #![trigger cells@[i]]
                0 <= i < 4 ==> cells@[i].0 == self.offset(i).0 && cells@[i].1 == self.offset(i).1,
    {
        piece_cells(self.kind, self.rotation)
    }
}

/// Line-clear score multipliers (index = lines cleared − 1).
const SCORE_MULT: [u32; 4] = [100, 300, 500, 800];

/// A player input or the gravity timer, as the game loop sees it.
#[derive(Clone, Copy, Debug, PartialEq, Eq, Structural)]
pub enum Input {
    /// Left arrow.
    Left,
    /// Right arrow.
    Right,
    /// Up arrow.
    Up,
    /// Down arrow.
    Down,
    /// Space bar.
    Space,
    /// Any other character key (Ctrl-C excepted).
    Char(char),
    /// Escape.
    Esc,
    /// Ctrl-C.
    CtrlC,
    /// The drop interval has passed since the last tick.
    TimerElapsed,
    /// Anything else.
    Other,
}

/// What the game loop does after an input.
#[derive(Clone, Copy, Debug, PartialEq, Eq, Structural)]
pub enum Next {
    /// Keep playing.
    Continue,
    /// The game is over: wait for a quit key, then stop.
    WaitForQuitKey,
    /// Stop now.
    Quit,
}

/// The input asks to quit: Esc, Ctrl-C, `q` or `Q`.
pub open spec fn is_quit(input: Input) -> bool {
    input is Esc || input is CtrlC || input == Input::Char('q') || input == Input::Char('Q')
}

/// After the game is over, the loop stops on Esc, `q` or `Q`.
pub fn ends_wait(input: Input) -> (stop: bool)
    ensures
        stop == (input is Esc || input == Input::Char('q') || input == Input::Char('Q')),
{
    match input {
        Input::Esc => true,
        Input::Char(c) => c == 'q' || c == 'Q',
        _ => false,
    }
}

/// Locking `piece` on `board` from the given score, line count and level keeps
/// score and line count within `u32`.
fn lock_stays_in_range(board: &Board, piece: &Piece, score: u64, level: u32, lines: u32) -> (ok: bool)
    requires
        piece.in_range(),
        score <= u32::MAX + u32::MAX,
    ensures
        ok == ({
            let n = full_row_count(locked_board(board@, *piece));
            score + line_multiplier(n) * level <= u32::MAX && lines + n <= u32::MAX
        }),
{
    let mut b = *board;
    b.lock(piece);
    let n = b.clear_lines();
    proof {
        locked_board(board@, *piece).lemma_filter_len(survives());
    }
    let mult: u64 = if n == 0 {
        0
    } else {
        SCORE_MULT[(n as usize).min(4) - 1] as u64
    };
    assert(mult == line_multiplier(n as int));
    assert(mult * (level as u64) <= 800 * u32::MAX) by (nonlinear_arith)
        requires
            mult <= 800,
            level <= u32::MAX,
    ;
    score + mult * (level as u64) <= u32::MAX as u64 && (lines as u64) + (n as u64)
        <= u32::MAX as u64
}

/// Complete game state.
pub struct GameState {
    pub board: Board,
    pub current: Option<Piece>,
    pub next_kind: TetrominoKind,
    pub score: u32,
    pub level: u32,
    pub lines_cleared: u32,
    pub game_over: bool,
    pub paused: bool,
}

impl View for GameState {
    type V = GameModel;

    open spec fn view(&self) -> GameModel {
        GameModel {
            board: self.board@,
            current: self.current,
            next_kind: self.next_kind,
            score: self.score as int,
            level: self.level as int,
            lines: self.lines_cleared as int,
            game_over: self.game_over,
            paused: self.paused,
        }
    }
}

impl GameState {
    /// A new game: `first` is in play and `next` is queued.
    pub fn with_kinds(first: TetrominoKind, next: TetrominoKind) -> (gs: Self)
        ensures
            gs@ == start_model(first, next),
            well_placed(gs@),
            gs.current == Some(spawn_piece(first)),
    {
        let mut gs = Self {
            board: Board::new(),
            current: None,
            next_kind: first,
            score: 0,
            level: 1,
            lines_cleared: 0,
            game_over: false,
            paused: false,
        };
        proof {
            lemma_spawn_fits_empty(first);
        }
        gs.spawn_next_with(next);
        gs
    }

    /// A new game with two randomly chosen pieces, the first in play.
    pub fn new() -> (gs: Self)
        ensures
            gs.current is Some,
            gs@ == start_model(gs.current->0.kind, gs.next_kind),
            well_placed(gs@),
    {
        let first = TetrominoKind::random();
        let next = TetrominoKind::random();
        Self::with_kinds(first, next)
    }

    /// A cheap test that no action can overflow the score or line count:
    /// the piece in play is at most four rows above the board, the score
    /// leaves room for a full hard drop plus the largest line bonus, and the
    /// line count leaves room for a full board of lines.
    pub fn has_headroom(&self) -> (ok: bool)
        ensures
            ok == ((self.current is None || self.current->0.row >= -4) && self.score + 800
                * self.level + 48 <= u32::MAX && self.lines_cleared <= u32::MAX - 20),
            ok ==> tick_in_range(self@) && soft_drop_in_range(self@) && hard_drop_in_range(self@),
    {
        if let Some(p) = self.current {
            if p.row < -4 {
                return false;
            }
        }
        let ok = (self.score as u64) + 800 * (self.level as u64) + 48 <= u32::MAX as u64
            && self.lines_cleared <= u32::MAX - 20;
        proof {
            if ok {
                let m = self@;
                lemma_lock_gain_bounded(m);
                lemma_lock_gain_bounded(dropped_model(m));
                if let Some(p) = m.current {
                    p.lemma_fall_bounded(m.board);
                }
            }
        }
        ok
    }

    /// Spawn the queued piece and queue `upcoming`; the game ends when the
    /// queued piece does not fit.
    pub fn spawn_next_with(&mut self, upcoming: TetrominoKind)
        ensures
            final(self)@ == spawn_model(old(self)@, upcoming),
            well_placed(old(self)@) ==> well_placed(final(self)@),
    {
        let piece = Piece::new(self.next_kind);
        self.next_kind = upcoming;
        if !piece.is_valid(&self.board) {
            self.game_over = true;
        } else {
            self.current = Some(piece);
        }
    }

    /// Spawn the queued piece and prepare the next one at random.
    fn spawn_next(&mut self)
        ensures
            final(self)@ == spawn_model(old(self)@, final(self).next_kind),
            well_placed(old(self)@) ==> well_placed(final(self)@),
    {
        let upcoming = TetrominoKind::random();
        self.spawn_next_with(upcoming);
    }

    /// Lock the current piece, clear lines, update score, spawn next.
    fn lock_current(&mut self)
        requires
            old(self).current matches Some(p) ==> p.in_range(),
            lock_in_range(old(self)@),
        ensures
            final(self)@ == lock_model(old(self)@, final(self).next_kind),
            old(self).current is Some || well_placed(old(self)@) ==> well_placed(final(self)@),
    {
        let ghost m0 = self@;
        match self.current {
            Some(piece) => {
                self.current = None;
                self.board.lock(&piece);
                let cleared = self.board.clear_lines();
                proof {
                    locked_board(old(self)@.board, piece).lemma_filter_len(survives());
                }
                assert(lock_points(m0) == line_multiplier(cleared as int) * m0.level);
                if cleared > 0 {
                    let mult = SCORE_MULT[(cleared as usize).min(4) - 1];
                    assert(mult == line_multiplier(cleared as int));
                    self.score += mult * self.level;
                    self.lines_cleared += cleared;
                    self.level = self.lines_cleared / 10 + 1;
                } else {
                    let ghost zero = line_multiplier(cleared as int);
                    assert(zero == 0);
                    assert(zero * m0.level == 0) by (nonlinear_arith)
                        requires
                            zero == 0,
                    ;
                }
                self.spawn_next();
            },
            None => {},
        }
    }

    /// Advance game by one gravity tick.  Returns `true` if still running.
    pub fn tick(&mut self) -> (still_running: bool)
        requires
            gravity_in_range(old(self)@),
            tick_in_range(old(self)@),
        ensures
            final(self)@ == tick_model(old(self)@, final(self).next_kind),
            still_running == !final(self).game_over,
            well_placed(old(self)@) ==> well_placed(final(self)@),
    {
        if self.game_over || self.paused {
            return !self.game_over;
        }
        match self.current {
            Some(piece) => {
                let mut piece = piece;
                let moved = piece.try_move_down(&self.board);
                self.current = Some(piece);
                if !moved {
                    self.lock_current();
                }
            },
            None => {},
        }
        !self.game_over
    }

    /// A gravity tick now keeps score and line count within `u32`.
    pub fn tick_stays_in_range(&self) -> (ok: bool)
        requires
            gravity_in_range(self@),
        ensures
            ok == tick_in_range(self@),
    {
        if self.game_over || self.paused {
            return true;
        }
        match self.current {
            Some(p) => {
                let mut below = p;
                if below.try_move_down(&self.board) {
                    true
                } else {
                    lock_stays_in_range(
                        &self.board,
                        &p,
                        self.score as u64,
                        self.level,
                        self.lines_cleared,
                    )
                }
            },
            None => true,
        }
    }

    /// A soft drop now keeps the score within `u32`.
    pub fn soft_drop_stays_in_range(&self) -> (ok: bool)
        requires
            gravity_in_range(self@),
        ensures
            ok == soft_drop_in_range(self@),
    {
        if self.game_over || self.paused {
            return true;
        }
        match self.current {
            Some(p) => {
                let mut below = p;
                !below.try_move_down(&self.board) || self.score < u32::MAX
            },
            None => true,
        }
    }

    /// A hard drop now keeps score and line count within `u32`.
    pub fn hard_drop_stays_in_range(&self) -> (ok: bool)
        requires
            gravity_in_range(self@),
        ensures
            ok == hard_drop_in_range(self@),
    {
        if self.game_over || self.paused {
            return true;
        }
        match self.current {
            Some(p) => {
                let mut landed = p;
                let rows = landed.hard_drop(&self.board);
                let score = self.score as u64 + 2 * (rows as u64);
                score <= u32::MAX as u64 && lock_stays_in_range(
                    &self.board,
                    &landed,
                    score,
                    self.level,
                    self.lines_cleared,
                )
            },
            None => true,
        }
    }

    /// `handle_input` may be called with `input` now: the action it stands for
    /// keeps score and line count within `u32`.
    pub fn can_handle(&self, input: Input) -> (ok: bool)
        requires
            input == Input::TimerElapsed || input == Input::Down || input == Input::Space
                ==> gravity_in_range(self@),
        ensures
            ok == ((input == Input::TimerElapsed ==> tick_in_range(self@)) && (input == Input::Down
                ==> soft_drop_in_range(self@)) && (input == Input::Space ==> hard_drop_in_range(
                self@,
            ))),
    {
        match input {
            Input::TimerElapsed => self.tick_stays_in_range(),
            Input::Down => self.soft_drop_stays_in_range(),
            Input::Space => self.hard_drop_stays_in_range(),
            _ => true,
        }
    }

    /// Apply one input of the game loop: ← / → move, ↑ / `z` / `Z` rotate,
    /// ↓ soft-drops, Space hard-drops, `p` / `P` pauses or resumes, the timer
    /// ticks gravity; Esc, Ctrl-C, `q` and `Q` ask to quit; anything else is
    /// ignored.  Says whether to quit, to wait for a quit key because the game
    /// is over, or to go on.
    pub fn handle_input(&mut self, input: Input) -> (next: Next)
        requires
            input == Input::Left ==> step_in_range(old(self)@, -1),
            input == Input::Right ==> step_in_range(old(self)@, 1),
            input == Input::Up || input == Input::Char('z') || input == Input::Char('Z')
                ==> rotate_in_range(old(self)@),
            input == Input::TimerElapsed || input == Input::Down || input == Input::Space
                ==> gravity_in_range(old(self)@),
            input == Input::TimerElapsed ==> tick_in_range(old(self)@),
            input == Input::Down ==> soft_drop_in_range(old(self)@),
            input == Input::Space ==> hard_drop_in_range(old(self)@),
        ensures
            final(self)@ == match input {
                Input::Left => side_step_model(old(self)@, -1),
                Input::Right => side_step_model(old(self)@, 1),
                Input::Up | Input::Char('z') | Input::Char('Z') => rotate_model(old(self)@),
                Input::Down => soft_drop_model(old(self)@),
                Input::Space => hard_drop_model(old(self)@, final(self).next_kind),
                Input::Char('p') | Input::Char('P') => toggle_pause_model(old(self)@),
                Input::TimerElapsed => tick_model(old(self)@, final(self).next_kind),
                _ => old(self)@,
            },
            next == if is_quit(input) {
                Next::Quit
            } else if final(self).game_over {
                Next::WaitForQuitKey
            } else {
                Next::Continue
            },
            well_placed(old(self)@) ==> well_placed(final(self)@),
    {
        match input {
            Input::Left => self.move_left(),
            Input::Right => self.move_right(),
            Input::Up => self.rotate(),
            Input::Down => self.soft_drop(),
            Input::Space => self.hard_drop(),
            Input::Char(c) => {
                if c == 'z' || c == 'Z' {
                    self.rotate();
                } else if c == 'p' || c == 'P' {
                    self.toggle_pause();
                } else if c == 'q' || c == 'Q' {
                    return Next::Quit;
                }
            },
            Input::Esc | Input::CtrlC => {
                return Next::Quit;
            },
            Input::TimerElapsed => {
                self.tick();
            },
            Input::Other => {},
        }
        if self.game_over {
            Next::WaitForQuitKey
        } else {
            Next::Continue
        }
    }

    /// Drop interval in milliseconds based on current level.
    pub fn drop_interval_ms(&self) -> (ms: u64)
        requires
            self.level >= 1,
        ensures
            ms == drop_interval(self.level as int),
    {
        let lvl = self.level.min(10) as u64;
        (1000u64).saturating_sub((lvl - 1) * 100).max(100)
    }

    // ── Input actions ──────────────────────────────────────────────────
    pub fn move_left(&mut self)
        requires
            step_in_range(old(self)@, -1),
        ensures
            final(self)@ == side_step_model(old(self)@, -1),
            well_placed(old(self)@) ==> well_placed(final(self)@),
    {
        if self.game_over || self.paused {
            return;
        }
        match self.current {
            Some(p) => {
                let mut p = p;
                p.try_move_left(&self.board);
                self.current = Some(p);
            },
            None => {},
        }
    }

    pub fn move_right(&mut self)
        requires
            step_in_range(old(self)@, 1),
        ensures
            final(self)@ == side_step_model(old(self)@, 1),
            well_placed(old(self)@) ==> well_placed(final(self)@),
    {
        if self.game_over || self.paused {
            return;
        }
        match self.current {
            Some(p) => {
                let mut p = p;
                p.try_move_right(&self.board);
                self.current = Some(p);
            },
            None => {},
        }
    }

    pub fn rotate(&mut self)
        requires
            rotate_in_range(old(self)@),
        ensures
            final(self)@ == rotate_model(old(self)@),
            well_placed(old(self)@) ==> well_placed(final(self)@),
    {
        if self.game_over || self.paused {
            return;
        }
        match self.current {
            Some(p) => {
                let mut p = p;
                p.try_rotate(&self.board);
                self.current = Some(p);
            },
            None => {},
        }
    }

    pub fn soft_drop(&mut self)
        requires
            gravity_in_range(old(self)@),
            soft_drop_in_range(old(self)@),
        ensures
            final(self)@ == soft_drop_model(old(self)@),
            well_placed(old(self)@) ==> well_placed(final(self)@),
    {
        if self.game_over || self.paused {
            return;
        }
        match self.current {
            Some(p) => {
                let mut p = p;
                let moved = p.try_move_down(&self.board);
                self.current = Some(p);
                if moved {
                    self.score += 1;
                }
            },
            None => {},
        }
    }

    pub fn hard_drop(&mut self)
        requires
            gravity_in_range(old(self)@),
            hard_drop_in_range(old(self)@),
        ensures
            final(self)@ == hard_drop_model(old(self)@, final(self).next_kind),
            well_placed(old(self)@) ==> well_placed(final(self)@),
    {
        if self.game_over || self.paused {
            return;
        }
        match self.current {
            Some(piece) => {
                let mut piece = piece;
                let rows = piece.hard_drop(&self.board);
                self.current = Some(piece);
                self.score += rows * 2;
            },
            None => {},
        }
        self.lock_current();
    }

    // ── WASM-friendly board accessor ───────────────────────────────────────
    /// Returns the board as a flat `Vec<u8>` row-major (0 = empty, else colour
    /// index).  The current piece and its ghost are overlaid so a WASM
    /// consumer can render from a single call.
    pub fn board_flat(&self) -> (buf: Vec<u8>)
        requires
            view_in_range(self@),
        ensures
            buf@.len() == height() * width(),
            forall|r: int, c: int|
                0 <= r < height() && 0 <= c < width() ==> #[trigger] buf@[flat_index(r, c)]
                    == flat_cell(self@, r, c),
    {
        let mut buf = vec![0u8; BOARD_WIDTH * BOARD_HEIGHT];

        // Locked cells
        for r in 0..BOARD_HEIGHT
            invariant
                buf@.len() == height() * width(),
                forall|i: int, c: int|
                    0 <= i < height() && 0 <= c < width() ==> #[trigger] buf@[flat_index(i, c)]
                        == if i < r { locked_value(self@.board, i, c) } else { 0u8 },
        {
            for c in 0..BOARD_WIDTH
                invariant
                    0 <= r < height(),
                    buf@.len() == height() * width(),
                    forall|i: int, j: int|
                        0 <= i < height() && 0 <= j < width() ==> #[trigger] buf@[flat_index(i, j)]
                            == if i < r || (i == r && j < c) {
                            locked_value(self@.board, i, j)
                        } else {
                            0u8
                        },
            {
                if let Some(color) = self.board.cells[r][c] {
                    buf[r * BOARD_WIDTH + c] = color;
                }
            }
        }

        // Ghost piece (drawn with a placeholder colour 1)
        if let Some(piece) = self.current {
            let shadow = piece.ghost(&self.board);
            let cells = shadow.board_cells();
            let mut i: usize = 0;
            while i < 4
                invariant
                    0 <= i <= 4,
                    buf@.len() == height() * width(),
                    shadow == landing(self@.board, piece),
                    forall|j: int|
                        #![trigger cells@[j]]
                        0 <= j < 4 ==> cells@[j].0 == shadow.row + shadow.offset(j).0 && cells@[j].1
                            == shadow.col + shadow.offset(j).1,
                    forall|r: int, c: int|
                        0 <= r < height() && 0 <= c < width() ==> #[trigger] buf@[flat_index(r, c)]
                            == if hits(
                            shadow.kind,
                            shadow.rotation as int,
                            shadow.row as int,
                            shadow.col as int,
                            i as int,
                            r,
                            c,
                        ) && locked_value(self@.board, r, c) == 0 {
                            1u8
                        } else {
                            locked_value(self@.board, r, c)
                        },
                decreases 4 - i,
            {
                let (gr, gc) = cells[i];
                if gr >= 0 && gr < BOARD_HEIGHT as i32 && gc >= 0 && gc < BOARD_WIDTH as i32 {
                    let idx = gr as usize * BOARD_WIDTH + gc as usize;
                    assert(idx == flat_index(gr as int, gc as int));
                    if buf[idx] == 0 {
                        buf[idx] = 1;  // ghost marker
                    }
                }
                i = i + 1;
            }

            // Active piece
            let color = piece_color(piece.kind);
            let cells = piece.board_cells();
            let mut i: usize = 0;
            while i < 4
                invariant
                    0 <= i <= 4,
                    buf@.len() == height() * width(),
                    shadow == landing(self@.board, piece),
                    self.current == Some(piece),
                    color == kind_color(piece.kind),
                    forall|j: int|
                        #![trigger cells@[j]]
                        0 <= j < 4 ==> cells@[j].0 == piece.row + piece.offset(j).0 && cells@[j].1
                            == piece.col + piece.offset(j).1,
                    forall|r: int, c: int|
                        0 <= r < height() && 0 <= c < width() ==> #[trigger] buf@[flat_index(r, c)]
                            == if hits(
                            piece.kind,
                            piece.rotation as int,
                            piece.row as int,
                            piece.col as int,
                            i as int,
                            r,
                            c,
                        ) {
                            color
                        } else if covers(shadow, r, c) && locked_value(self@.board, r, c) == 0 {
                            1u8
                        } else {
                            locked_value(self@.board, r, c)
                        },
                decreases 4 - i,
            {
                let (pr, pc) = cells[i];
                if pr >= 0 && pr < BOARD_HEIGHT as i32 && pc >= 0 && pc < BOARD_WIDTH as i32 {
                    let idx = pr as usize * BOARD_WIDTH + pc as usize;
                    assert(idx == flat_index(pr as int, pc as int));
                    buf[idx] = color;
                }
                i = i + 1;
            }
        }
        buf
    }

    pub fn toggle_pause(&mut self)
        ensures
            final(self)@ == toggle_pause_model(old(self)@),
            well_placed(old(self)@) ==> well_placed(final(self)@),
    {
        if !self.game_over {
            self.paused = !self.paused;
        }
    }
}

impl Default for GameState {
    fn default() -> (gs: Self)
        ensures
            gs.current is Some,
            gs@ == start_model(gs.current->0.kind, gs.next_kind),
            well_placed(gs@),
    {
        Self::new()
    }
}

} // verus!
