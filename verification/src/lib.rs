//! Tetris game logic: pieces, the playfield, scoring and the rules of play.
pub mod game;
pub mod laws;
pub mod render;
pub mod rules;
pub mod tetromino;
pub mod wasm;

pub use crate::wasm::WasmGame;
