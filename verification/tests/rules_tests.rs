use rust_tetris::game::{ends_wait, Board, GameState, Input, Next, Piece, BOARD_HEIGHT, BOARD_WIDTH};
use rust_tetris::render::{
    ansi_to_color, board_view, next_preview_cells, origin_for_size, overlay, piece_color,
    CellLook, Overlay, TermColor,
};
use rust_tetris::tetromino::{piece_cells, TetrominoKind};
use rust_tetris::wasm::WasmGame;

fn fill_row_except(gs: &mut GameState, r: usize, holes: &[usize]) {
    for c in 0..BOARD_WIDTH {
        if !holes.contains(&c) {
            gs.board.cells[r][c] = Some(196);
        }
    }
}

fn board_is_empty(board: &Board) -> bool {
    board.cells.iter().all(|row| row.iter().all(|c| c.is_none()))
}

#[test]
fn new_game_with_kinds_spawns_first_and_queues_next() {
    let gs = GameState::with_kinds(TetrominoKind::T, TetrominoKind::O);
    let p = gs.current.unwrap();
    assert_eq!(p.kind, TetrominoKind::T);
    assert_eq!((p.rotation, p.row, p.col), (0, -1, 3));
    assert_eq!(gs.next_kind, TetrominoKind::O);
    assert!(board_is_empty(&gs.board));
}

#[test]
fn o_piece_spawns_one_column_further_right() {
    let p = Piece::new(TetrominoKind::O);
    assert_eq!((p.row, p.col, p.rotation), (-1, 4, 0));
    let p = Piece::new(TetrominoKind::I);
    assert_eq!((p.row, p.col, p.rotation), (-1, 3, 0));
}

#[test]
fn single_line_clear_scores_100_per_level_plus_drop_bonus() {
    let mut gs = GameState::with_kinds(TetrominoKind::I, TetrominoKind::T);
    // The flat I piece covers columns 3..=6; leave exactly those open.
    fill_row_except(&mut gs, BOARD_HEIGHT - 1, &[3, 4, 5, 6]);
    gs.hard_drop();
    // Falls 19 rows (2 points each), then clears one line at level 1.
    assert_eq!(gs.score, 19 * 2 + 100);
    assert_eq!(gs.lines_cleared, 1);
    assert_eq!(gs.level, 1);
    assert!(board_is_empty(&gs.board));
    let p = gs.current.unwrap();
    assert_eq!(p.kind, TetrominoKind::T);
    assert_eq!((p.row, p.col), (-1, 3));
    assert!(!gs.game_over);
}

#[test]
fn tenth_line_raises_level() {
    let mut gs = GameState::with_kinds(TetrominoKind::I, TetrominoKind::T);
    gs.lines_cleared = 9;
    fill_row_except(&mut gs, BOARD_HEIGHT - 1, &[3, 4, 5, 6]);
    gs.hard_drop();
    // The bonus uses the level before the clear.
    assert_eq!(gs.score, 38 + 100);
    assert_eq!(gs.lines_cleared, 10);
    assert_eq!(gs.level, 2);
}

#[test]
fn four_lines_score_800_per_level() {
    let mut gs = GameState::with_kinds(TetrominoKind::T, TetrominoKind::O);
    gs.level = 3;
    for r in (BOARD_HEIGHT - 4)..BOARD_HEIGHT {
        fill_row_except(&mut gs, r, &[0]);
    }
    // A vertical I piece in column 0.
    gs.current = Some(Piece { kind: TetrominoKind::I, rotation: 1, row: -1, col: -2 });
    gs.hard_drop();
    assert_eq!(gs.score, 17 * 2 + 800 * 3);
    assert_eq!(gs.lines_cleared, 4);
    assert_eq!(gs.level, 1);
    assert!(board_is_empty(&gs.board));
}

#[test]
fn more_than_four_lines_still_score_800() {
    let mut gs = GameState::with_kinds(TetrominoKind::O, TetrominoKind::T);
    for r in (BOARD_HEIGHT - 6)..BOARD_HEIGHT {
        fill_row_except(&mut gs, r, &[]);
    }
    gs.hard_drop();
    // The O piece lands on rows 12 and 13 after 13 rows; six full rows clear.
    assert_eq!(gs.score, 13 * 2 + 800);
    assert_eq!(gs.lines_cleared, 6);
    // The O piece is now on the bottom two rows.
    assert_eq!(gs.board.cells[19][4], Some(226));
    assert_eq!(gs.board.cells[18][5], Some(226));
    assert_eq!(gs.board.cells[17][4], None);
}

#[test]
fn clear_lines_keeps_order_of_remaining_rows() {
    let mut board = Board::new();
    board.cells[15][0] = Some(1);
    for c in 0..BOARD_WIDTH {
        board.cells[16][c] = Some(2);
    }
    board.cells[17][1] = Some(3);
    for c in 0..BOARD_WIDTH {
        board.cells[18][c] = Some(4);
    }
    board.cells[19][2] = Some(5);
    assert_eq!(board.clear_lines(), 2);
    assert_eq!(board.cells[17][0], Some(1));
    assert_eq!(board.cells[18][1], Some(3));
    assert_eq!(board.cells[19][2], Some(5));
    for r in 0..17 {
        for c in 0..BOARD_WIDTH {
            assert!(board.cells[r][c].is_none());
        }
    }
    // Clearing again finds nothing to clear and changes nothing.
    let snapshot = board.cells;
    assert_eq!(board.clear_lines(), 0);
    assert_eq!(board.cells, snapshot);
}

#[test]
fn lock_paints_only_cells_on_the_board() {
    let mut board = Board::new();
    let piece = Piece { kind: TetrominoKind::T, rotation: 0, row: -1, col: 3 };
    board.lock(&piece);
    // (−1, 4) is above the board; the three cells of row 0 are painted purple.
    assert_eq!(board.cells[0][3], Some(129));
    assert_eq!(board.cells[0][4], Some(129));
    assert_eq!(board.cells[0][5], Some(129));
    let painted: usize = board.cells.iter().map(|r| r.iter().filter(|c| c.is_some()).count()).sum();
    assert_eq!(painted, 3);
}

#[test]
fn spawning_into_a_blocked_board_ends_the_game() {
    let mut gs = GameState::with_kinds(TetrominoKind::T, TetrominoKind::T);
    gs.current = None;
    gs.board.cells[0][4] = Some(9);
    gs.spawn_next_with(TetrominoKind::I);
    assert!(gs.game_over);
    assert!(gs.current.is_none());
    assert_eq!(gs.next_kind, TetrominoKind::I);
    // A finished game ignores every action.
    let score = gs.score;
    assert!(!gs.tick());
    gs.move_left();
    gs.rotate();
    gs.soft_drop();
    gs.hard_drop();
    gs.toggle_pause();
    assert!(!gs.paused);
    assert_eq!(gs.score, score);
    assert_eq!(gs.next_kind, TetrominoKind::I);
}

#[test]
fn tick_moves_the_piece_down_one_row() {
    let mut gs = GameState::with_kinds(TetrominoKind::T, TetrominoKind::O);
    assert!(gs.tick());
    assert_eq!(gs.current.unwrap().row, 0);
    assert_eq!(gs.next_kind, TetrominoKind::O);
    assert_eq!(gs.score, 0);
}

#[test]
fn tick_locks_a_piece_that_cannot_fall() {
    let mut gs = GameState::with_kinds(TetrominoKind::O, TetrominoKind::T);
    gs.current = Some(Piece { kind: TetrominoKind::O, rotation: 0, row: 18, col: 0 });
    assert!(gs.tick());
    assert_eq!(gs.board.cells[19][0], Some(226));
    assert_eq!(gs.board.cells[18][1], Some(226));
    assert_eq!(gs.current.unwrap().kind, TetrominoKind::T);
    assert_eq!(gs.score, 0);
}

#[test]
fn soft_drop_scores_one_point_per_row() {
    let mut gs = GameState::with_kinds(TetrominoKind::T, TetrominoKind::O);
    gs.soft_drop();
    gs.soft_drop();
    assert_eq!(gs.score, 2);
    assert_eq!(gs.current.unwrap().row, 1);
    // A piece resting on the floor does not move and earns nothing.
    gs.current = Some(Piece { kind: TetrominoKind::T, rotation: 0, row: 18, col: 0 });
    gs.soft_drop();
    assert_eq!(gs.score, 2);
    assert_eq!(gs.current.unwrap().row, 18);
}

#[test]
fn paused_game_ignores_input() {
    let mut gs = GameState::with_kinds(TetrominoKind::T, TetrominoKind::O);
    gs.toggle_pause();
    let before = gs.current.unwrap();
    assert!(gs.tick());
    gs.move_left();
    gs.move_right();
    gs.rotate();
    gs.soft_drop();
    gs.hard_drop();
    let after = gs.current.unwrap();
    assert_eq!((after.row, after.col, after.rotation), (before.row, before.col, before.rotation));
    assert_eq!(gs.score, 0);
    gs.toggle_pause();
    assert!(!gs.paused);
}

#[test]
fn moving_left_then_right_restores_position() {
    let mut gs = GameState::with_kinds(TetrominoKind::S, TetrominoKind::O);
    let start = gs.current.unwrap();
    gs.move_left();
    assert_eq!(gs.current.unwrap().col, start.col - 1);
    gs.move_right();
    assert_eq!(gs.current.unwrap().col, start.col);
}

#[test]
fn rotation_kicks_off_the_left_wall() {
    let board = Board::new();
    // Vertical I piece in column 0.
    let mut piece = Piece { kind: TetrominoKind::I, rotation: 1, row: 5, col: -2 };
    assert!(piece.is_valid(&board));
    assert!(piece.try_rotate(&board));
    // Flat at column -2 and the kicks to -3, -1, -4 collide; +2 fits.
    assert_eq!(piece.rotation, 2);
    assert_eq!(piece.col, 0);
    assert_eq!(piece.row, 5);
}

#[test]
fn blocked_rotation_leaves_piece_unchanged() {
    let mut board = Board::new();
    for r in 0..BOARD_HEIGHT {
        for c in 1..BOARD_WIDTH {
            board.cells[r][c] = Some(7);
        }
    }
    let mut piece = Piece { kind: TetrominoKind::I, rotation: 1, row: 12, col: -2 };
    assert!(piece.is_valid(&board));
    assert!(!piece.try_rotate(&board));
    assert_eq!((piece.rotation, piece.row, piece.col), (1, 12, -2));
}

#[test]
fn four_turns_in_open_space_return_to_start() {
    let board = Board::new();
    let mut piece = Piece { kind: TetrominoKind::J, rotation: 0, row: 5, col: 4 };
    for _ in 0..4 {
        assert!(piece.try_rotate(&board));
    }
    assert_eq!((piece.rotation, piece.row, piece.col), (0, 5, 4));
}

#[test]
fn ghost_matches_hard_drop() {
    let mut board = Board::new();
    board.cells[10][4] = Some(3);
    let piece = Piece::new(TetrominoKind::T);
    let shadow = piece.ghost(&board);
    let mut dropped = piece;
    let rows = dropped.hard_drop(&board);
    assert_eq!(shadow.row, dropped.row);
    assert_eq!(rows as i32, dropped.row - piece.row);
    // The T's centre column (4) rests on the block at row 10.
    assert_eq!(shadow.row, 8);
    let mut below = shadow;
    assert!(!below.try_move_down(&board));
}

#[test]
fn drop_interval_values() {
    let mut gs = GameState::with_kinds(TetrominoKind::T, TetrominoKind::O);
    let expected = [(1, 1000), (2, 900), (5, 600), (9, 200), (10, 100), (50, 100)];
    for (level, ms) in expected {
        gs.level = level;
        assert_eq!(gs.drop_interval_ms(), ms);
    }
}

#[test]
fn board_flat_overlays_piece_and_ghost() {
    let mut gs = GameState::with_kinds(TetrominoKind::O, TetrominoKind::I);
    gs.board.cells[19][0] = Some(196);
    let flat = gs.board_flat();
    assert_eq!(flat.len(), 200);
    // The O piece shows in row 0, columns 4 and 5.
    assert_eq!(flat[4], 226);
    assert_eq!(flat[5], 226);
    // Its ghost rests on the floor.
    assert_eq!(flat[18 * 10 + 4], 1);
    assert_eq!(flat[19 * 10 + 5], 1);
    // The locked cell keeps its colour; the rest is empty.
    assert_eq!(flat[19 * 10], 196);
    assert_eq!(flat[10 * 10 + 3], 0);
    let nonzero = flat.iter().filter(|&&v| v != 0).count();
    assert_eq!(nonzero, 2 + 4 + 1);
}

#[test]
fn random_kinds_vary() {
    let mut seen = std::collections::HashSet::new();
    for _ in 0..300 {
        seen.insert(TetrominoKind::random().index());
    }
    assert!(seen.iter().all(|&i| i < 7));
    assert!(seen.len() > 1);
}

#[test]
fn kind_index_round_trips() {
    let kinds = [
        TetrominoKind::I,
        TetrominoKind::O,
        TetrominoKind::T,
        TetrominoKind::S,
        TetrominoKind::Z,
        TetrominoKind::J,
        TetrominoKind::L,
    ];
    for (i, k) in kinds.iter().enumerate() {
        assert_eq!(k.index(), i);
        assert_eq!(TetrominoKind::from_index(i as u8), *k);
    }
    assert_eq!(TetrominoKind::from_index(200), TetrominoKind::L);
}

#[test]
fn piece_cells_table_entries() {
    assert_eq!(piece_cells(TetrominoKind::I, 1), [(0, 2), (1, 2), (2, 2), (3, 2)]);
    assert_eq!(piece_cells(TetrominoKind::L, 0), [(0, 2), (1, 0), (1, 1), (1, 2)]);
    for r in 0..4 {
        assert_eq!(piece_cells(TetrominoKind::O, r), piece_cells(TetrominoKind::O, 0));
    }
}

#[test]
fn headroom_detects_score_near_limit() {
    let mut gs = GameState::with_kinds(TetrominoKind::T, TetrominoKind::O);
    assert!(gs.has_headroom());
    gs.score = u32::MAX - 10;
    assert!(!gs.has_headroom());
}

#[test]
fn render_origin_centres_the_ui() {
    assert_eq!(origin_for_size(Some((100, 40))), (32, 7));
    assert_eq!(origin_for_size(None), (22, 0));
    assert_eq!(origin_for_size(Some((10, 10))), (0, 0));
}

#[test]
fn render_colours() {
    assert_eq!(ansi_to_color(51), TermColor::Cyan);
    assert_eq!(ansi_to_color(208), TermColor::DarkYellow);
    assert_eq!(ansi_to_color(7), TermColor::White);
    assert_eq!(piece_color(TetrominoKind::T), TermColor::Magenta);
    assert_eq!(piece_color(TetrominoKind::J), TermColor::Blue);
}

#[test]
fn render_board_view_layers() {
    let mut gs = GameState::with_kinds(TetrominoKind::O, TetrominoKind::I);
    gs.board.cells[19][0] = Some(196);
    let looks = board_view(&gs);
    assert_eq!(looks.len(), 200);
    assert_eq!(looks[4], CellLook::Active(TermColor::Yellow));
    assert_eq!(looks[18 * 10 + 5], CellLook::Shadow);
    assert_eq!(looks[19 * 10], CellLook::Locked(TermColor::Red));
    assert_eq!(looks[7 * 10 + 7], CellLook::Empty);
}

#[test]
fn render_overlay_and_preview() {
    let mut gs = GameState::with_kinds(TetrominoKind::O, TetrominoKind::I);
    assert_eq!(overlay(&gs), None);
    gs.toggle_pause();
    let shown = overlay(&gs).unwrap();
    assert_eq!(shown, Overlay::Paused);
    assert_eq!(shown.title(), "  PAUSED  ");
    assert_eq!(shown.subtitle(), "Press P to resume");
    assert_eq!(Overlay::GameOver.title(), " GAME OVER");
    assert_eq!(Overlay::GameOver.subtitle(), "Press Q to quit");
    assert_eq!(next_preview_cells(TetrominoKind::I), [(4, 1), (4, 3), (4, 5), (4, 7)]);
    assert_eq!(next_preview_cells(TetrominoKind::T), [(3, 3), (4, 1), (4, 3), (4, 5)]);
}

#[test]
fn wasm_game_forwards_to_the_game() {
    let mut g = WasmGame::new();
    assert_eq!(g.score(), 0);
    assert_eq!(g.level(), 1);
    assert_eq!(g.lines_cleared(), 0);
    assert!(!g.is_game_over());
    assert!(!g.is_paused());
    assert_eq!(g.drop_interval_ms(), 1000);
    assert_eq!(g.board_flat().len(), 200);
    assert!(g.has_headroom());
    assert!(g.tick());
    g.soft_drop();
    assert_eq!(g.score(), 1);
    g.toggle_pause();
    assert!(g.is_paused());
    g.toggle_pause();
    g.move_left();
    g.move_right();
    g.rotate();
    g.hard_drop();
    assert!(g.score() >= 1);
}

#[test]
fn handle_input_maps_keys_to_actions() {
    let mut gs = GameState::with_kinds(TetrominoKind::T, TetrominoKind::O);
    assert_eq!(gs.handle_input(Input::Left), Next::Continue);
    assert_eq!(gs.current.unwrap().col, 2);
    assert_eq!(gs.handle_input(Input::Right), Next::Continue);
    assert_eq!(gs.current.unwrap().col, 3);
    gs.handle_input(Input::Char('z'));
    assert_eq!(gs.current.unwrap().rotation, 1);
    gs.handle_input(Input::Up);
    assert_eq!(gs.current.unwrap().rotation, 2);
    gs.handle_input(Input::Char('Z'));
    assert_eq!(gs.current.unwrap().rotation, 3);
    gs.handle_input(Input::Down);
    assert_eq!(gs.score, 1);
    gs.handle_input(Input::TimerElapsed);
    assert_eq!(gs.current.unwrap().row, 1);
    gs.handle_input(Input::Char('p'));
    assert!(gs.paused);
    gs.handle_input(Input::Char('P'));
    assert!(!gs.paused);
    // Keys without a binding change nothing.
    let before = gs.current.unwrap();
    assert_eq!(gs.handle_input(Input::Char('x')), Next::Continue);
    assert_eq!(gs.handle_input(Input::Other), Next::Continue);
    let after = gs.current.unwrap();
    assert_eq!((after.row, after.col, after.rotation), (before.row, before.col, before.rotation));
    gs.handle_input(Input::Space);
    assert_eq!(gs.current.unwrap().kind, TetrominoKind::O);
}

#[test]
fn handle_input_quits_and_waits() {
    let mut gs = GameState::with_kinds(TetrominoKind::T, TetrominoKind::O);
    for key in [Input::Esc, Input::CtrlC, Input::Char('q'), Input::Char('Q')] {
        assert_eq!(gs.handle_input(key), Next::Quit);
    }
    assert_eq!(gs.score, 0);
    // Fill the spawn area so that the next piece cannot enter.
    for r in 0..BOARD_HEIGHT {
        for c in 0..BOARD_WIDTH {
            if c < 8 {
                gs.board.cells[r][c] = Some(8);
            }
        }
    }
    gs.current = Some(Piece { kind: TetrominoKind::I, rotation: 1, row: 0, col: 7 });
    assert_eq!(gs.handle_input(Input::Space), Next::WaitForQuitKey);
    assert!(gs.game_over);
    assert!(gs.current.is_none());
    assert!(ends_wait(Input::Esc));
    assert!(ends_wait(Input::Char('q')));
    assert!(ends_wait(Input::Char('Q')));
    assert!(!ends_wait(Input::CtrlC));
    assert!(!ends_wait(Input::Left));
}

#[test]
fn overflow_checks_are_exact() {
    let mut gs = GameState::with_kinds(TetrominoKind::I, TetrominoKind::T);
    fill_row_except(&mut gs, BOARD_HEIGHT - 1, &[3, 4, 5, 6]);
    // A hard drop earns 38 + 100 points.
    gs.score = u32::MAX - 138;
    assert!(gs.hard_drop_stays_in_range());
    gs.score = u32::MAX - 137;
    assert!(!gs.hard_drop_stays_in_range());
    assert!(!gs.can_handle(Input::Space));
    assert!(gs.can_handle(Input::Left));
    // A tick only moves the piece down here: no points.
    assert!(gs.tick_stays_in_range());
    assert!(gs.soft_drop_stays_in_range());
    gs.score = u32::MAX;
    assert!(!gs.soft_drop_stays_in_range());
    assert!(!gs.can_handle(Input::Down));
    // A piece resting on the floor locks on the next tick.
    gs.current = Some(Piece { kind: TetrominoKind::I, rotation: 0, row: 18, col: 3 });
    gs.score = u32::MAX - 100;
    assert!(gs.tick_stays_in_range());
    gs.score = u32::MAX - 99;
    assert!(!gs.tick_stays_in_range());
    assert!(!gs.can_handle(Input::TimerElapsed));
}

#[test]
fn piece_in_play_exactly_while_not_over() {
    let mut gs = GameState::with_kinds(TetrominoKind::O, TetrominoKind::O);
    let mut steps = 0;
    while !gs.game_over && steps < 200 {
        assert!(gs.current.is_some());
        gs.hard_drop();
        steps += 1;
    }
    assert!(gs.game_over);
    assert!(gs.current.is_none());
    gs.toggle_pause();
    assert!(!gs.paused);
}

#[test]
fn far_away_pieces_are_handled() {
    let board = Board::new();
    let mut p = Piece { kind: TetrominoKind::T, rotation: 0, row: 5, col: i32::MIN + 1 };
    assert!(!p.try_move_left(&board));
    assert_eq!(p.col, i32::MIN + 1);
    let q = Piece { kind: TetrominoKind::O, rotation: 0, row: i32::MAX - 2, col: 0 };
    assert!(!q.is_valid(&board));
    let mut r = Piece { kind: TetrominoKind::T, rotation: 0, row: 3, col: i32::MIN };
    assert_eq!(r.hard_drop(&board), 0);
    let mut o = Piece { kind: TetrominoKind::O, rotation: 2, row: 4, col: i32::MAX - 3 };
    assert!(!o.try_rotate(&board));
    assert_eq!(o.rotation, 2);
    let mut gs = GameState::with_kinds(TetrominoKind::T, TetrominoKind::O);
    gs.paused = true;
    gs.current = Some(Piece { kind: TetrominoKind::T, rotation: 7, row: 0, col: 0 });
    assert!(gs.tick());
    gs.move_left();
    gs.rotate();
    assert_eq!(gs.current.unwrap().rotation, 7);
}
