# rust_tetris

Tetris on a 10×20 board: the seven tetrominoes, wall-kick rotation, soft and
hard drops, a landing preview ("ghost"), line clearing scored at
100 / 300 / 500 / 800 × level, a new level every 10 lines, and pause.

Layout:

- `src/` – the game logic, with its contracts and proofs.
  - `tetromino.rs` – the pieces and their rotation table; random choice of a piece.
  - `game.rs` – the board, the falling piece and the whole game state.
  - `rules.rs` – the rules as mathematics, which the contracts in `game.rs` speak of.
  - `laws.rs` – properties of play proved over those rules.
  - `render.rs` – what the terminal view shows where.
  - `wasm.rs` – the interface a WebAssembly host calls.
- `app/` – the terminal program (crossterm) and the `wasm_bindgen` bindings.
- `tests/` – tests of the library.
