//! Properties of the game as a whole, proved over the rules in `rules`.
use vstd::prelude::*;

use crate::game::{CellColor, Piece};
use crate::rules::{
    board_shaped, can_fall, cleared_board, covers, drop_distance, drop_interval, dropped_model,
    empty_board, empty_row, fits_at, flat_cell, flat_index, full_row_count, hard_drop_model, height,
    kept_rows, kind_color, landing, lemma_fits_near_board, lemma_spawn_fits_empty, line_multiplier,
    lock_lines, lock_model, lock_points, locked_board, locked_value, rotate_model, rotated,
    rotation_column, row_full, running, side_step_model, soft_drop_model, spawn_model, spawn_piece,
    start_model, survives, tick_model, toggle_pause_model, try_shift, width, GameModel,
};
use crate::render::{look_at, spec_ansi_to_color, spec_piece_color, CellLook};
use crate::tetromino::{cell_offsets, kind_at, kind_index, lemma_offsets_in_box, TetrominoKind};

verus! {

/// A game state that play can reach: a playfield-shaped board, non-negative
/// score and line count, the level one more than a tenth of the lines, and
/// a piece in play (if any) that fits where it stands.
pub open spec fn playable(m: GameModel) -> bool {
    &&& board_shaped(m.board)
    &&& m.score >= 0
    &&& m.lines >= 0
    &&& m.level == m.lines / 10 + 1
    &&& match m.current {
        Some(p) => p.wf() && p.fits(m.board),
        None => true,
    }
}

/// A piece is in play exactly while the game is not over, and a paused game
/// is never over.
pub open spec fn flags_consistent(m: GameModel) -> bool {
    &&& (m.current is Some <==> !m.game_over)
    &&& (m.paused ==> !m.game_over)
}

/// A new game has a piece in play and is neither over nor paused.
pub proof fn lemma_start_flags(first: TetrominoKind, next: TetrominoKind)
    ensures
        flags_consistent(start_model(first, next)),
{
    lemma_spawn_fits_empty(first);
}

/// Every action and every gravity tick keeps a piece in play exactly while
/// the game is not over, and never leaves a finished game paused.
pub proof fn lemma_actions_keep_flags(m: GameModel, upcoming: TetrominoKind)
    requires
        flags_consistent(m),
    ensures
        flags_consistent(tick_model(m, upcoming)),
        flags_consistent(side_step_model(m, -1)),
        flags_consistent(side_step_model(m, 1)),
        flags_consistent(rotate_model(m)),
        flags_consistent(soft_drop_model(m)),
        flags_consistent(hard_drop_model(m, upcoming)),
        flags_consistent(toggle_pause_model(m)),
{
}

/// Filtering with a predicate that every element meets changes nothing.
proof fn lemma_filter_keeps_all(s: Seq<Seq<CellColor>>, pred: spec_fn(Seq<CellColor>) -> bool)
    requires
        forall|i: int| 0 <= i < s.len() ==> pred(#[trigger] s[i]),
    ensures
        s.filter(pred) == s,
    decreases s.len(),
{
    reveal(Seq::filter);
    if s.len() > 0 {
        lemma_filter_keeps_all(s.drop_last(), pred);
        assert(s.drop_last().push(s.last()) =~= s);
    }
}

/// The rows left after clearing are rows of the original board.
proof fn lemma_kept_rows_from_board(b: Seq<Seq<CellColor>>, i: int)
    requires
        0 <= i < kept_rows(b).len(),
    ensures
        b.contains(kept_rows(b)[i]),
        !row_full(kept_rows(b)[i]),
{
    broadcast use vstd::seq_lib::group_filter_ensures;

    assert(kept_rows(b).contains(kept_rows(b)[i]));
    b.lemma_filter_contains_rev(survives(), kept_rows(b)[i]);
    b.lemma_filter_pred(survives(), i);
}

/// Clearing lines keeps the playfield's shape.
pub proof fn lemma_cleared_board_shaped(b: Seq<Seq<CellColor>>)
    requires
        board_shaped(b),
    ensures
        board_shaped(cleared_board(b)),
{
    b.lemma_filter_len(survives());
    let c = cleared_board(b);
    let n = full_row_count(b);
    assert forall|r: int| 0 <= r < height() implies (#[trigger] c[r]).len() == width() by {
        if r >= n {
            lemma_kept_rows_from_board(b, r - n);
            let j = choose|j: int| 0 <= j < b.len() && b[j] == kept_rows(b)[r - n];
            assert(b[j].len() == width());
        }
    }
}

/// After clearing, no row of the board is full.
pub proof fn lemma_no_full_row_after_clear(b: Seq<Seq<CellColor>>)
    requires
        board_shaped(b),
    ensures
        forall|r: int| 0 <= r < height() ==> !row_full(#[trigger] cleared_board(b)[r]),
{
    b.lemma_filter_len(survives());
    let c = cleared_board(b);
    let n = full_row_count(b);
    assert forall|r: int| 0 <= r < height() implies !row_full(#[trigger] c[r]) by {
        if r < n {
            assert(c[r] == empty_row());
            assert(empty_row()[0] is None);
        } else {
            lemma_kept_rows_from_board(b, r - n);
        }
    }
}

/// Clearing a second time changes nothing and finds no line to clear.
pub proof fn lemma_clear_idempotent(b: Seq<Seq<CellColor>>)
    requires
        board_shaped(b),
    ensures
        full_row_count(cleared_board(b)) == 0,
        cleared_board(cleared_board(b)) == cleared_board(b),
{
    let c = cleared_board(b);
    b.lemma_filter_len(survives());
    lemma_no_full_row_after_clear(b);
    assert forall|i: int| 0 <= i < c.len() implies #[trigger] (survives())(c[i]) by {
        assert(!row_full(c[i]));
    }
    lemma_filter_keeps_all(c, survives());
    assert(cleared_board(c) =~= c);
}

/// Clearing removes exactly the full rows: their number is what the board
/// loses, and the remaining rows are the board's non-full rows in order.
pub proof fn lemma_clear_counts_full_rows(b: Seq<Seq<CellColor>>)
    requires
        board_shaped(b),
    ensures
        0 <= full_row_count(b) <= height(),
        cleared_board(b).subrange(full_row_count(b), height()) == kept_rows(b),
        forall|r: int| 0 <= r < full_row_count(b) ==> #[trigger] cleared_board(b)[r] == empty_row(),
{
    b.lemma_filter_len(survives());
    assert(cleared_board(b).subrange(full_row_count(b), height()) =~= kept_rows(b));
}

/// A piece dropped from a place where it fits lands where it fits, and can
/// fall no further from there.
pub proof fn lemma_landing_rests(b: Seq<Seq<CellColor>>, p: Piece)
    requires
        p.rotation < 4,
        p.fits(b),
    ensures
        landing(b, p).fits(b),
        !fits_at(b, p.kind, p.rotation as int, landing(b, p).row + 1, p.col as int),
        landing(b, p).kind == p.kind,
        landing(b, p).rotation == p.rotation,
        landing(b, p).col == p.col,
        landing(b, p).row >= p.row,
{
    lemma_landing_rests_from(b, p.kind, p.rotation as int, p.row as int, p.col as int);
    p.lemma_fits_wf(b);
}

proof fn lemma_landing_rests_from(
    b: Seq<Seq<CellColor>>,
    kind: TetrominoKind,
    rotation: int,
    row: int,
    col: int,
)
    requires
        fits_at(b, kind, rotation, row, col),
    ensures
        drop_distance(b, kind, rotation, row, col) >= 0,
        fits_at(b, kind, rotation, row + drop_distance(b, kind, rotation, row, col), col),
        !fits_at(b, kind, rotation, row + drop_distance(b, kind, rotation, row, col) + 1, col),
    decreases 19 - row,
{
    if row >= 19 {
        if fits_at(b, kind, rotation, row + 1, col) {
            lemma_fits_near_board(b, kind, rotation, row + 1, col);
        }
    } else if fits_at(b, kind, rotation, row + 1, col) {
        lemma_landing_rests_from(b, kind, rotation, row + 1, col);
    }
}

/// A step left that succeeds is undone by a step right.
pub proof fn lemma_left_then_right(b: Seq<Seq<CellColor>>, p: Piece)
    requires
        p.rotation < 4,
        p.fits(b),
        fits_at(b, p.kind, p.rotation as int, p.row as int, p.col - 1),
    ensures
        try_shift(b, try_shift(b, p, 0, -1), 0, 1) == p,
{
    p.lemma_fits_wf(b);
}

/// A step right that succeeds is undone by a step left.
pub proof fn lemma_right_then_left(b: Seq<Seq<CellColor>>, p: Piece)
    requires
        p.rotation < 4,
        p.fits(b),
        fits_at(b, p.kind, p.rotation as int, p.row as int, p.col + 1),
    ensures
        try_shift(b, try_shift(b, p, 0, 1), 0, -1) == p,
{
    p.lemma_fits_wf(b);
}

/// Four clockwise turns bring a piece back to where it started, when each
/// turn fits without a wall kick.
pub proof fn lemma_four_turns(b: Seq<Seq<CellColor>>, p: Piece)
    requires
        p.rotation < 4,
        forall|r: int| 0 <= r < 4 ==> #[trigger] fits_at(b, p.kind, r, p.row as int, p.col as int),
    ensures
        rotated(b, rotated(b, rotated(b, rotated(b, p)))) == p,
{
    let p1 = rotated(b, p);
    assert(fits_at(b, p.kind, (p.rotation + 1) % 4, p.row as int, p.col as int));
    let p2 = rotated(b, p1);
    assert(fits_at(b, p.kind, (p1.rotation + 1) % 4, p.row as int, p.col as int));
    let p3 = rotated(b, p2);
    assert(fits_at(b, p.kind, (p2.rotation + 1) % 4, p.row as int, p.col as int));
    assert(fits_at(b, p.kind, (p3.rotation + 1) % 4, p.row as int, p.col as int));
}

/// Turning the O piece never changes the cells it covers.
pub proof fn lemma_o_piece_turns_in_place(rotation: int)
    requires
        0 <= rotation < 4,
    ensures
        cell_offsets(TetrominoKind::O, rotation) == cell_offsets(TetrominoKind::O, 0),
{
}

/// A new game starts running, unpaused, with a piece in play on an empty
/// board, score 0, level 1 and no lines, and is playable.
pub proof fn lemma_start_is_playable(first: TetrominoKind, next: TetrominoKind)
    ensures
        playable(start_model(first, next)),
        !start_model(first, next).game_over,
        !start_model(first, next).paused,
        start_model(first, next).current == Some(spawn_piece(first)),
        start_model(first, next).next_kind == next,
        start_model(first, next).board == empty_board(),
        start_model(first, next).score == 0,
        start_model(first, next).level == 1,
        start_model(first, next).lines == 0,
{
    lemma_spawn_fits_empty(first);
}

/// Spawning keeps a game playable.
pub proof fn lemma_spawn_playable(m: GameModel, upcoming: TetrominoKind)
    requires
        playable(m),
        m.current is None,
    ensures
        playable(spawn_model(m, upcoming)),
{
}

/// Locking the current piece keeps a game playable, and never lowers the
/// score, the line count or the level.
pub proof fn lemma_lock_playable(m: GameModel, upcoming: TetrominoKind)
    requires
        playable(m),
    ensures
        playable(lock_model(m, upcoming)),
        lock_model(m, upcoming).score >= m.score,
        lock_model(m, upcoming).lines >= m.lines,
        lock_model(m, upcoming).level >= m.level,
{
    if let Some(p) = m.current {
        let b1 = locked_board(m.board, p);
        lemma_cleared_board_shaped(b1);
        b1.lemma_filter_len(survives());
        assert(lock_lines(m) >= 0);
        assert(lock_points(m) >= 0) by (nonlinear_arith)
            requires
                line_multiplier(lock_lines(m)) >= 0,
                m.level >= 0,
                lock_points(m) == line_multiplier(lock_lines(m)) * m.level,
        ;
        if lock_lines(m) > 0 {
            assert((m.lines + lock_lines(m)) / 10 >= m.lines / 10) by (nonlinear_arith)
                requires
                    lock_lines(m) > 0,
                    m.lines >= 0,
            ;
        }
    }
}

/// Dropping the current piece to where it lands keeps a game playable and
/// never lowers the score.
proof fn lemma_dropped_playable(m: GameModel)
    requires
        playable(m),
    ensures
        playable(dropped_model(m)),
        dropped_model(m).score >= m.score,
{
    if let Some(p) = m.current {
        lemma_landing_rests(m.board, p);
        p.lemma_fall_bounded(m.board);
        let l = landing(m.board, p);
        lemma_fits_near_board(m.board, l.kind, l.rotation as int, l.row as int, l.col as int);
    }
}

/// Every action and every gravity tick keeps a playable game playable: the
/// piece in play never overlaps the walls, the floor or a locked cell, and
/// the level always matches the lines cleared.
pub proof fn lemma_actions_keep_playable(m: GameModel, upcoming: TetrominoKind)
    requires
        playable(m),
    ensures
        playable(tick_model(m, upcoming)),
        playable(side_step_model(m, -1)),
        playable(side_step_model(m, 1)),
        playable(rotate_model(m)),
        playable(soft_drop_model(m)),
        playable(hard_drop_model(m, upcoming)),
        playable(toggle_pause_model(m)),
{
    lemma_lock_playable(m, upcoming);
    if let Some(p) = m.current {
        if can_fall(m) {
            lemma_fits_near_board(m.board, p.kind, p.rotation as int, p.row + 1, p.col as int);
        }
        if fits_at(m.board, p.kind, p.rotation as int, p.row as int, p.col - 1) {
            lemma_fits_near_board(m.board, p.kind, p.rotation as int, p.row as int, p.col - 1);
        }
        if fits_at(m.board, p.kind, p.rotation as int, p.row as int, p.col + 1) {
            lemma_fits_near_board(m.board, p.kind, p.rotation as int, p.row as int, p.col + 1);
        }
        if let Some(c) = rotation_column(m.board, p) {
            lemma_fits_near_board(m.board, p.kind, (p.rotation + 1) % 4, p.row as int, c);
        }
        lemma_dropped_playable(m);
        lemma_lock_playable(dropped_model(m), upcoming);
    }
}

/// Once the game is over, no action and no tick changes anything.
pub proof fn lemma_game_over_is_final(m: GameModel, upcoming: TetrominoKind)
    requires
        m.game_over,
    ensures
        tick_model(m, upcoming) == m,
        side_step_model(m, -1) == m,
        side_step_model(m, 1) == m,
        rotate_model(m) == m,
        soft_drop_model(m) == m,
        hard_drop_model(m, upcoming) == m,
        toggle_pause_model(m) == m,
{
}

/// While paused, nothing but resuming changes the game.
pub proof fn lemma_pause_freezes(m: GameModel, upcoming: TetrominoKind)
    requires
        m.paused,
    ensures
        tick_model(m, upcoming) == m,
        side_step_model(m, -1) == m,
        side_step_model(m, 1) == m,
        rotate_model(m) == m,
        soft_drop_model(m) == m,
        hard_drop_model(m, upcoming) == m,
{
}

/// Pausing twice restores the game.
pub proof fn lemma_toggle_pause_twice(m: GameModel)
    ensures
        toggle_pause_model(toggle_pause_model(m)) == m,
{
}

/// Score, lines and level never go down, whatever the player does.
pub proof fn lemma_progress_never_decreases(m: GameModel, upcoming: TetrominoKind)
    requires
        playable(m),
    ensures
        tick_model(m, upcoming).score >= m.score,
        tick_model(m, upcoming).lines >= m.lines,
        tick_model(m, upcoming).level >= m.level,
        hard_drop_model(m, upcoming).score >= m.score,
        hard_drop_model(m, upcoming).lines >= m.lines,
        hard_drop_model(m, upcoming).level >= m.level,
        soft_drop_model(m).score >= m.score,
        side_step_model(m, -1).score == m.score,
        side_step_model(m, 1).score == m.score,
        rotate_model(m).score == m.score,
{
    lemma_lock_playable(m, upcoming);
    if m.current is Some {
        lemma_dropped_playable(m);
        lemma_lock_playable(dropped_model(m), upcoming);
    }
}

/// The gravity interval never grows as the level rises, and stays between
/// 100 and 1000 milliseconds.
pub proof fn lemma_drop_interval_monotone(l1: int, l2: int)
    requires
        1 <= l1 <= l2,
    ensures
        drop_interval(l2) <= drop_interval(l1),
        100 <= drop_interval(l2) <= 1000,
{
}

/// A clockwise turn first tries the piece's own column and then the wall
/// kicks one column left, one right, two left and two right, in that order;
/// it takes the first of these that fits, and where none fits the piece stays
/// as it was.
pub proof fn lemma_turn_takes_first_fitting_kick(b: Seq<Seq<CellColor>>, p: Piece)
    requires
        p.rotation < 4,
    ensures
        ({
            let r = (p.rotation + 1) % 4;
            let t = rotated(b, p);
            let fits_shift = |d: int| fits_at(b, p.kind, r, p.row as int, p.col + d);
            &&& fits_shift(0) ==> t.col == p.col && t.rotation == r
            &&& !fits_shift(0) && fits_shift(-1) ==> t.col == p.col - 1 && t.rotation == r
            &&& !fits_shift(0) && !fits_shift(-1) && fits_shift(1) ==> t.col == p.col + 1
                && t.rotation == r
            &&& !fits_shift(0) && !fits_shift(-1) && !fits_shift(1) && fits_shift(-2) ==> t.col
                == p.col - 2 && t.rotation == r
            &&& !fits_shift(0) && !fits_shift(-1) && !fits_shift(1) && !fits_shift(-2) && fits_shift(
                2,
            ) ==> t.col == p.col + 2 && t.rotation == r
            &&& !fits_shift(0) && !fits_shift(-1) && !fits_shift(1) && !fits_shift(-2) && !fits_shift(
                2,
            ) ==> t == p
            &&& t.kind == p.kind && t.row == p.row
        }),
{
    let r = (p.rotation + 1) % 4;
    if fits_at(b, p.kind, r, p.row as int, p.col as int) {
        lemma_fits_near_board(b, p.kind, r, p.row as int, p.col as int);
    }
    if fits_at(b, p.kind, r, p.row as int, p.col - 1) {
        lemma_fits_near_board(b, p.kind, r, p.row as int, p.col - 1);
    }
    if fits_at(b, p.kind, r, p.row as int, p.col + 1) {
        lemma_fits_near_board(b, p.kind, r, p.row as int, p.col + 1);
    }
    if fits_at(b, p.kind, r, p.row as int, p.col - 2) {
        lemma_fits_near_board(b, p.kind, r, p.row as int, p.col - 2);
    }
    if fits_at(b, p.kind, r, p.row as int, p.col + 2) {
        lemma_fits_near_board(b, p.kind, r, p.row as int, p.col + 2);
    }
}

/// Locking scores by the lines it clears at once: nothing for none,
/// 100, 300 and 500 points per level for one, two and three lines (each line
/// more is worth 200 more), and 800 per level for four or more; the line count
/// grows by the lines cleared, and the level becomes one more than a tenth of
/// the new line count whenever a line clears.
pub proof fn lemma_lock_scoring(m: GameModel, upcoming: TetrominoKind)
    requires
        m.current is Some,
        m.level >= 0,
    ensures
        ({
            let n = lock_lines(m);
            let after = lock_model(m, upcoming);
            &&& n == 0 ==> after.score == m.score && after.level == m.level
            &&& 1 <= n <= 3 ==> after.score == m.score + (200 * n - 100) * m.level
            &&& n >= 4 ==> after.score == m.score + 800 * m.level
            &&& after.lines == m.lines + n
            &&& n > 0 ==> after.level == (m.lines + n) / 10 + 1
        }),
{
    let n = lock_lines(m);
    let mult = line_multiplier(n);
    if 1 <= n <= 3 {
        assert(mult == 200 * n - 100);
    }
    assert(lock_points(m) == mult * m.level);
    if n == 0 {
        assert(mult * m.level == 0) by (nonlinear_arith)
            requires
                mult == 0,
        ;
    }
}

/// Clearing more lines at once never scores less, and up to four lines each
/// additional line scores strictly more.
pub proof fn lemma_more_lines_score_more(n1: int, n2: int)
    requires
        0 <= n1 <= n2,
    ensures
        line_multiplier(n1) <= line_multiplier(n2),
        n2 <= 4 && n1 < n2 ==> line_multiplier(n1) < line_multiplier(n2),
{
}

/// A spawned piece enters unrotated, with the top of its bounding box one row
/// above the board, and horizontally centred: its bounding box, as wide as its
/// unrotated shape, starts half the remaining width from the left wall (rounded
/// down).
pub proof fn lemma_spawn_is_centred(kind: TetrominoKind, w: int)
    requires
        forall|i: int| 0 <= i < 4 ==> #[trigger] cell_offsets(kind, 0)[i].1 < w,
        exists|i: int| 0 <= i < 4 && #[trigger] cell_offsets(kind, 0)[i].1 == w - 1,
    ensures
        spawn_piece(kind).col == (width() - w) / 2,
        spawn_piece(kind).row == -1,
        spawn_piece(kind).rotation == 0,
{
    let i = choose|i: int| 0 <= i < 4 && #[trigger] cell_offsets(kind, 0)[i].1 == w - 1;
    assert(cell_offsets(kind, 0)[0].1 < w);
    assert(cell_offsets(kind, 0)[1].1 < w);
    assert(cell_offsets(kind, 0)[2].1 < w);
    assert(cell_offsets(kind, 0)[3].1 < w);
}

/// On the flat board the piece in play always shows in its own colour, even
/// where its landing place overlaps it; the landing marker 1 appears only on
/// cells of the landing place that the piece does not cover and that hold 0;
/// every other cell shows its locked colour, or 0 when empty.
pub proof fn lemma_flat_board_layers(m: GameModel, p: Piece, r: int, c: int)
    requires
        m.current == Some(p),
    ensures
        covers(p, r, c) ==> flat_cell(m, r, c) == kind_color(p.kind),
        !covers(p, r, c) && covers(landing(m.board, p), r, c) && m.board[r][c] is None
            ==> flat_cell(m, r, c) == 1,
        !covers(p, r, c) && !covers(landing(m.board, p), r, c) ==> flat_cell(m, r, c)
            == locked_value(m.board, r, c),
        !covers(p, r, c) && locked_value(m.board, r, c) != 0 ==> flat_cell(m, r, c)
            == locked_value(m.board, r, c),
{
}

/// Without a piece in play the flat board shows only the locked cells.
pub proof fn lemma_flat_board_without_piece(m: GameModel, r: int, c: int)
    requires
        m.current is None,
    ensures
        flat_cell(m, r, c) == locked_value(m.board, r, c),
{
}

/// The cells of `s` are exactly its four listed entries.
proof fn lemma_four_cells(s: Seq<(int, int)>)
    requires
        s.len() == 4,
    ensures
        forall|x: (int, int)| #[trigger]
            s.contains(x) <==> (x == s[0] || x == s[1] || x == s[2] || x == s[3]),
{
    assert forall|x: (int, int)| #[trigger]
        s.contains(x) <==> (x == s[0] || x == s[1] || x == s[2] || x == s[3]) by {
        if x == s[0] {
            assert(s[0] == x);
        } else if x == s[1] {
            assert(s[1] == x);
        } else if x == s[2] {
            assert(s[2] == x);
        } else if x == s[3] {
            assert(s[3] == x);
        }
    }
}

/// The cells `after` are the cells `before` turned a quarter clockwise, a
/// cell `(row, col)` going to `(col, -row)`, and then moved by `(dr, dc)`.
pub open spec fn turned_shape(
    before: Seq<(int, int)>,
    after: Seq<(int, int)>,
    dr: int,
    dc: int,
) -> bool {
    forall|a: int, b: int| #[trigger]
        before.contains((a, b)) <==> after.contains((b + dr, dc - a))
}

/// Each rotation in the table is the previous one turned a quarter
/// clockwise (and moved within the bounding box): the table describes real
/// turns of one rigid shape per kind.
pub proof fn lemma_rotations_turn_the_shape(kind: TetrominoKind, r: int)
    requires
        0 <= r < 4,
    ensures
        exists|dr: int, dc: int|
            #[trigger] turned_shape(cell_offsets(kind, r), cell_offsets(kind, (r + 1) % 4), dr, dc),
{
    let before = cell_offsets(kind, r);
    let after = cell_offsets(kind, (r + 1) % 4);
    lemma_offsets_in_box(kind, r);
    lemma_offsets_in_box(kind, (r + 1) % 4);
    lemma_four_cells(before);
    lemma_four_cells(after);
    match kind {
        TetrominoKind::I => {
            if r == 0 {
                assert(turned_shape(before, after, 0, 3));
            } else if r == 1 {
                assert(turned_shape(before, after, 0, 3));
            } else if r == 2 {
                assert(turned_shape(before, after, 0, 3));
            } else {
                assert(turned_shape(before, after, 0, 3));
            }
        },
        TetrominoKind::O => {
            if r == 0 {
                assert(turned_shape(before, after, 0, 1));
            } else if r == 1 {
                assert(turned_shape(before, after, 0, 1));
            } else if r == 2 {
                assert(turned_shape(before, after, 0, 1));
            } else {
                assert(turned_shape(before, after, 0, 1));
            }
        },
        TetrominoKind::T => {
            if r == 0 {
                assert(turned_shape(before, after, 0, 1));
            } else if r == 1 {
                assert(turned_shape(before, after, 1, 2));
            } else if r == 2 {
                assert(turned_shape(before, after, 0, 2));
            } else {
                assert(turned_shape(before, after, 0, 2));
            }
        },
        TetrominoKind::S => {
            if r == 0 {
                assert(turned_shape(before, after, 0, 1));
            } else if r == 1 {
                assert(turned_shape(before, after, 0, 2));
            } else if r == 2 {
                assert(turned_shape(before, after, 0, 1));
            } else {
                assert(turned_shape(before, after, 0, 2));
            }
        },
        TetrominoKind::Z => {
            if r == 0 {
                assert(turned_shape(before, after, 0, 1));
            } else if r == 1 {
                assert(turned_shape(before, after, 0, 2));
            } else if r == 2 {
                assert(turned_shape(before, after, 0, 1));
            } else {
                assert(turned_shape(before, after, 0, 2));
            }
        },
        TetrominoKind::J => {
            if r == 0 {
                assert(turned_shape(before, after, 0, 1));
            } else if r == 1 {
                assert(turned_shape(before, after, 1, 2));
            } else if r == 2 {
                assert(turned_shape(before, after, 0, 2));
            } else {
                assert(turned_shape(before, after, 0, 2));
            }
        },
        TetrominoKind::L => {
            if r == 0 {
                assert(turned_shape(before, after, 0, 1));
            } else if r == 1 {
                assert(turned_shape(before, after, 1, 2));
            } else if r == 2 {
                assert(turned_shape(before, after, 0, 2));
            } else {
                assert(turned_shape(before, after, 0, 2));
            }
        },
    }
}

/// The J piece is the mirror image of the L piece: for every rotation of J,
/// the L piece turned the opposite way, reflected left to right within its
/// width, covers exactly the same cells.
pub proof fn lemma_j_mirrors_l(r: int)
    requires
        0 <= r < 4,
    ensures
        ({
            let w = if r % 2 == 0 {
                2int
            } else {
                1int
            };
            forall|a: int, b: int| #[trigger]
                cell_offsets(TetrominoKind::J, r).contains((a, b)) <==> cell_offsets(
                    TetrominoKind::L,
                    (4 - r) % 4,
                ).contains((a, w - b))
        }),
{
    lemma_offsets_in_box(TetrominoKind::J, r);
    lemma_offsets_in_box(TetrominoKind::L, (4 - r) % 4);
    lemma_four_cells(cell_offsets(TetrominoKind::J, r));
    lemma_four_cells(cell_offsets(TetrominoKind::L, (4 - r) % 4));
}

/// Every kind has its own colour, and the terminal view draws each kind's
/// colour as that kind's named colour.
pub proof fn lemma_kind_colours(k1: TetrominoKind, k2: TetrominoKind)
    ensures
        k1 != k2 ==> kind_color(k1) != kind_color(k2),
        k1 != k2 ==> spec_piece_color(k1) != spec_piece_color(k2),
        spec_ansi_to_color(kind_color(k1)) == spec_piece_color(k1),
        kind_color(k1) != 0 && kind_color(k1) != 1,
{
}

/// The kinds are numbered 0 to 6 without gaps or repeats: the number of a
/// kind leads back to that kind.
pub proof fn lemma_kind_numbering(k: TetrominoKind, n: int)
    ensures
        kind_index(k) < 7,
        kind_at(kind_index(k) as int) == k,
        0 <= n < 7 ==> kind_index(kind_at(n)) == n,
{
}

/// Gravity starts at 1000 ms per row at level 1; each level takes 100 ms
/// off, down to 100 ms, where it stays.
pub proof fn lemma_drop_interval_steps(level: int)
    requires
        level >= 1,
    ensures
        drop_interval(1) == 1000,
        drop_interval(level + 1) == if drop_interval(level) - 100 >= 100 {
            drop_interval(level) - 100
        } else {
            100
        },
{
}

/// The flat board is laid out row by row, top row first: cells of a row are
/// consecutive, each row follows the one above, and the 200 cells fill
/// positions 0 to 199.
pub proof fn lemma_flat_layout(r: int, c: int)
    requires
        0 <= r < height(),
        0 <= c < width(),
    ensures
        0 <= flat_index(r, c) < height() * width(),
        c + 1 < width() ==> flat_index(r, c + 1) == flat_index(r, c) + 1,
        r + 1 < height() ==> flat_index(r + 1, 0) == flat_index(r, width() - 1) + 1,
        flat_index(0, 0) == 0,
{
}

/// The terminal view layers the same way as the flat board: the piece in
/// play over its landing place, the landing place over locked cells.
pub proof fn lemma_view_layers(m: GameModel, p: Piece, r: int, c: int)
    requires
        m.current == Some(p),
    ensures
        covers(p, r, c) ==> look_at(m, r, c) == CellLook::Active(spec_piece_color(p.kind)),
        !covers(p, r, c) && covers(landing(m.board, p), r, c) ==> look_at(m, r, c)
            == CellLook::Shadow,
        !covers(p, r, c) && !covers(landing(m.board, p), r, c) && m.board[r][c] is None
            ==> look_at(m, r, c) == CellLook::Empty,
{
}

/// A gravity tick of a running game moves a piece that can fall exactly one
/// row down and changes nothing else.
pub proof fn lemma_tick_moves_one_row(m: GameModel, p: Piece, upcoming: TetrominoKind)
    requires
        running(m),
        m.current == Some(p),
        p.wf(),
        can_fall(m),
    ensures
        tick_model(m, upcoming).current matches Some(q) && q.row == p.row + 1 && q.col == p.col
            && q.rotation == p.rotation && q.kind == p.kind,
        tick_model(m, upcoming).board == m.board,
        tick_model(m, upcoming).score == m.score,
        tick_model(m, upcoming).next_kind == m.next_kind,
{
}

/// A soft drop of a running game moves a piece that can fall exactly one row
/// down for exactly one point; one that cannot fall stays and earns nothing.
pub proof fn lemma_soft_drop_one_point(m: GameModel, p: Piece)
    requires
        running(m),
        m.current == Some(p),
        p.wf(),
    ensures
        can_fall(m) ==> soft_drop_model(m).score == m.score + 1 && (soft_drop_model(m).current
            matches Some(q) && q.row == p.row + 1 && q.col == p.col),
        !can_fall(m) ==> soft_drop_model(m) == m,
{
}

/// A hard drop scores two points for every row the piece falls to its
/// landing place, before the points of the lines it clears.
pub proof fn lemma_hard_drop_two_points_per_row(m: GameModel, p: Piece)
    requires
        m.current == Some(p),
        p.rotation < 4,
        p.fits(m.board),
    ensures
        dropped_model(m).score == m.score + 2 * (landing(m.board, p).row - p.row),
        dropped_model(m).current == Some(landing(m.board, p)),
        dropped_model(m).board == m.board,
{
    lemma_landing_rests(m.board, p);
    p.lemma_fall_bounded(m.board);
    p.lemma_fits_wf(m.board);
}

/// A sideways step of a running game moves a piece by exactly one column
/// where it fits there, and leaves it where it is otherwise.
pub proof fn lemma_step_one_column(m: GameModel, p: Piece, dc: int)
    requires
        running(m),
        m.current == Some(p),
        p.wf(),
        dc == -1 || dc == 1,
    ensures
        fits_at(m.board, p.kind, p.rotation as int, p.row as int, p.col + dc) ==> (side_step_model(
            m,
            dc,
        ).current matches Some(q) && q.col == p.col + dc && q.row == p.row && q.rotation
            == p.rotation),
        !fits_at(m.board, p.kind, p.rotation as int, p.row as int, p.col + dc) ==> side_step_model(
            m,
            dc,
        ) == m,
{
}

/// A piece covers a board position exactly when one of its four cells,
/// offset from its bounding box, lands there; locking paints exactly those
/// positions on the board in the piece's colour and leaves every other cell
/// as it was.
pub proof fn lemma_lock_paints_the_four_cells(b: Seq<Seq<CellColor>>, p: Piece, r: int, c: int)
    requires
        0 <= r < height(),
        0 <= c < width(),
    ensures
        covers(p, r, c) <==> exists|i: int|
            0 <= i < 4 && p.row + #[trigger] p.offset(i).0 == r && p.col + p.offset(i).1 == c,
        locked_board(b, p)[r][c] == if covers(p, r, c) {
            Some(kind_color(p.kind))
        } else {
            b[r][c]
        },
{
    reveal_with_fuel(crate::rules::hits, 5);
    if covers(p, r, c) {
        if p.row + p.offset(0).0 == r && p.col + p.offset(0).1 == c {
        } else if p.row + p.offset(1).0 == r && p.col + p.offset(1).1 == c {
        } else if p.row + p.offset(2).0 == r && p.col + p.offset(2).1 == c {
        } else {
            assert(p.row + p.offset(3).0 == r && p.col + p.offset(3).1 == c);
        }
    }
}

/// A row with an empty cell survives line clearing; a row with every cell
/// filled is counted as a cleared line and does not survive.
pub proof fn lemma_clear_keeps_rows_with_gaps(b: Seq<Seq<CellColor>>, r: int)
    requires
        board_shaped(b),
        0 <= r < height(),
    ensures
        (exists|c: int| 0 <= c < width() && #[trigger] b[r][c] is None) ==> kept_rows(b).contains(
            b[r],
        ),
        (forall|c: int| 0 <= c < width() ==> #[trigger] b[r][c] is Some) ==> !kept_rows(
            b,
        ).contains(b[r]) && full_row_count(b) >= 1,
{
    broadcast use vstd::seq_lib::group_filter_ensures;

    b.lemma_filter_len(survives());
    if exists|c: int| 0 <= c < width() && #[trigger] b[r][c] is None {
        let c = choose|c: int| 0 <= c < width() && #[trigger] b[r][c] is None;
        assert(!row_full(b[r]));
        assert((survives())(b[r]));
        b.lemma_filter_contains(survives(), r);
    }
    if forall|c: int| 0 <= c < width() ==> #[trigger] b[r][c] is Some {
        assert(row_full(b[r]));
        if kept_rows(b).contains(b[r]) {
            b.lemma_filter_contains_rev(survives(), b[r]);
        }
        if full_row_count(b) < 1 {
            assert(kept_rows(b).len() == b.len());
            lemma_filter_same_len_keeps_all(b, survives(), r);
        }
    }
}

/// A filter that drops nothing keeps every element.
proof fn lemma_filter_same_len_keeps_all(
    s: Seq<Seq<CellColor>>,
    pred: spec_fn(Seq<CellColor>) -> bool,
    k: int,
)
    requires
        s.filter(pred).len() == s.len(),
        0 <= k < s.len(),
    ensures
        pred(s[k]),
    decreases s.len(),
{
    reveal(Seq::filter);
    let d = s.drop_last();
    d.lemma_filter_len(pred);
    if pred(s.last()) {
        assert(d.filter(pred).len() == d.len());
        if k < s.len() - 1 {
            lemma_filter_same_len_keeps_all(d, pred, k);
            assert(d[k] == s[k]);
        }
    } else {
        assert(s.filter(pred) == d.filter(pred));
        assert(false);
    }
}

} // verus!
