//! A thin handle around `GameState` with the interface a WebAssembly host
//! calls: actions, statistics and the flat board.
use vstd::prelude::*;

use crate::game::GameState;
use crate::rules::{
    drop_interval, flat_cell, flat_index, hard_drop_in_range, hard_drop_model, height,
    lemma_well_placed_in_range, rotate_model,
    side_step_model, soft_drop_in_range, soft_drop_model, start_model, tick_in_range, tick_model,
    toggle_pause_model, well_placed, width, GameModel,
};

verus! {

/// The piece in play is well placed and the level is at least 1, as in every
/// game that the interface below produces.
pub open spec fn ready(m: GameModel) -> bool {
    well_placed(m) && m.level >= 1
}

/// A game behind the WebAssembly interface.
pub struct WasmGame {
    state: GameState,
}

impl View for WasmGame {
    type V = GameModel;

    closed spec fn view(&self) -> GameModel {
        self.state@
    }
}

impl WasmGame {
    /// Create a new game with two random pieces.
    pub fn new() -> (game: WasmGame)
        ensures
            game@.current is Some,
            game@ == start_model(game@.current->0.kind, game@.next_kind),
            ready(game@),
    {
        WasmGame { state: GameState::new() }
    }

    /// No action can overflow the score or line count (see `GameState::has_headroom`).
    pub fn has_headroom(&self) -> (ok: bool)
        requires
            ready(self@),
        ensures
            ok == ((self@.current is None || self@.current->0.row >= -4) && self@.score + 800
                * self@.level + 48 <= u32::MAX && self@.lines <= u32::MAX - 20),
            ok ==> tick_in_range(self@) && soft_drop_in_range(self@) && hard_drop_in_range(self@),
    {
        self.state.has_headroom()
    }

    /// A gravity tick now keeps score and line count within `u32`.
    pub fn tick_stays_in_range(&self) -> (ok: bool)
        requires
            ready(self@),
        ensures
            ok == tick_in_range(self@),
    {
        proof {
            lemma_well_placed_in_range(self.state@);
        }
        self.state.tick_stays_in_range()
    }

    /// A soft drop now keeps the score within `u32`.
    pub fn soft_drop_stays_in_range(&self) -> (ok: bool)
        requires
            ready(self@),
        ensures
            ok == soft_drop_in_range(self@),
    {
        proof {
            lemma_well_placed_in_range(self.state@);
        }
        self.state.soft_drop_stays_in_range()
    }

    /// A hard drop now keeps score and line count within `u32`.
    pub fn hard_drop_stays_in_range(&self) -> (ok: bool)
        requires
            ready(self@),
        ensures
            ok == hard_drop_in_range(self@),
    {
        proof {
            lemma_well_placed_in_range(self.state@);
        }
        self.state.hard_drop_stays_in_range()
    }

    /// Advance one gravity tick.  Returns `false` when the game is over.
    pub fn tick(&mut self) -> (still_running: bool)
        requires
            ready(old(self)@),
            tick_in_range(old(self)@),
        ensures
            final(self)@ == tick_model(old(self)@, final(self)@.next_kind),
            still_running == !final(self)@.game_over,
            ready(final(self)@),
    {
        proof {
            lemma_well_placed_in_range(self.state@);
        }
        self.state.tick()
    }

    pub fn move_left(&mut self)
        requires
            ready(old(self)@),
        ensures
            final(self)@ == side_step_model(old(self)@, -1),
            ready(final(self)@),
    {
        proof {
            lemma_well_placed_in_range(self.state@);
        }
        self.state.move_left();
    }

    pub fn move_right(&mut self)
        requires
            ready(old(self)@),
        ensures
            final(self)@ == side_step_model(old(self)@, 1),
            ready(final(self)@),
    {
        proof {
            lemma_well_placed_in_range(self.state@);
        }
        self.state.move_right();
    }

    pub fn rotate(&mut self)
        requires
            ready(old(self)@),
        ensures
            final(self)@ == rotate_model(old(self)@),
            ready(final(self)@),
    {
        proof {
            lemma_well_placed_in_range(self.state@);
        }
        self.state.rotate();
    }

    pub fn soft_drop(&mut self)
        requires
            ready(old(self)@),
            soft_drop_in_range(old(self)@),
        ensures
            final(self)@ == soft_drop_model(old(self)@),
            ready(final(self)@),
    {
        proof {
            lemma_well_placed_in_range(self.state@);
        }
        self.state.soft_drop();
    }

    pub fn hard_drop(&mut self)
        requires
            ready(old(self)@),
            hard_drop_in_range(old(self)@),
        ensures
            final(self)@ == hard_drop_model(old(self)@, final(self)@.next_kind),
            ready(final(self)@),
    {
        proof {
            lemma_well_placed_in_range(self.state@);
        }
        self.state.hard_drop();
    }

    pub fn toggle_pause(&mut self)
        requires
            ready(old(self)@),
        ensures
            final(self)@ == toggle_pause_model(old(self)@),
            ready(final(self)@),
    {
        self.state.toggle_pause();
    }

    /// Return the board as a flat array (row-major, 10×20 = 200 bytes).
    /// Value 0 = empty, 1 = ghost, otherwise an ANSI-256 colour index for the
    /// locked/active cell.
    pub fn board_flat(&self) -> (buf: Vec<u8>)
        requires
            ready(self@),
        ensures
            buf@.len() == height() * width(),
            forall|r: int, c: int|
                0 <= r < height() && 0 <= c < width() ==> #[trigger] buf@[flat_index(r, c)]
                    == flat_cell(self@, r, c),
    {
        proof {
            lemma_well_placed_in_range(self.state@);
        }
        self.state.board_flat()
    }

    pub fn score(&self) -> (score: u32)
        ensures
            score == self@.score,
    {
        self.state.score
    }

    pub fn level(&self) -> (level: u32)
        ensures
            level == self@.level,
    {
        self.state.level
    }

    pub fn lines_cleared(&self) -> (lines: u32)
        ensures
            lines == self@.lines,
    {
        self.state.lines_cleared
    }

    pub fn is_game_over(&self) -> (over: bool)
        ensures
            over == self@.game_over,
    {
        self.state.game_over
    }

    pub fn is_paused(&self) -> (paused: bool)
        ensures
            paused == self@.paused,
    {
        self.state.paused
    }

    /// Milliseconds between gravity ticks at the current level.
    pub fn drop_interval_ms(&self) -> (ms: u32)
        requires
            ready(self@),
        ensures
            ms == drop_interval(self@.level),
    {
        self.state.drop_interval_ms() as u32
    }
}

} // verus!
