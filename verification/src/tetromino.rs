use rand::Rng;
use vstd::prelude::*;

verus! {

/// The seven standard Tetris pieces.
#[derive(Clone, Copy, Debug, PartialEq, Eq, Structural)]
pub enum TetrominoKind {
    I,
    O,
    T,
    S,
    Z,
    J,
    L,
}

/// Number of distinct tetromino kinds.
pub const KIND_COUNT: u8 = 7;

/// Position of each kind in the canonical order I, O, T, S, Z, J, L.
pub open spec fn kind_index(kind: TetrominoKind) -> nat {
    match kind {
        TetrominoKind::I => 0,
        TetrominoKind::O => 1,
        TetrominoKind::T => 2,
        TetrominoKind::S => 3,
        TetrominoKind::Z => 4,
        TetrominoKind::J => 5,
        TetrominoKind::L => 6,
    }
}

/// The kind at position `n` of the canonical order; every `n` past 5 gives `L`.
pub open spec fn kind_at(n: int) -> TetrominoKind {
    if n == 0 {
        TetrominoKind::I
    } else if n == 1 {
        TetrominoKind::O
    } else if n == 2 {
        TetrominoKind::T
    } else if n == 3 {
        TetrominoKind::S
    } else if n == 4 {
        TetrominoKind::Z
    } else if n == 5 {
        TetrominoKind::J
    } else {
        TetrominoKind::L
    }
}

/// A number drawn uniformly from `0..bound` by the thread-local generator.
///
/// Calls `rand::rng()` and then `Rng::random_range(0..bound)`, which returns a
/// value inside the given range and panics only on an empty range (excluded by
/// `requires`).  Which value comes back is left to chance and is not stated.
#[verifier::external_body]
fn random_below(bound: u8) -> (r: u8)
    requires
        0 < bound,
    ensures
        r < bound,
{
    rand::rng().random_range(0..bound)
}


/// Cell offsets `(row, col)` within a piece's bounding box for all 7 kinds × 4
/// rotations.  The bounding box is at most 4×4.
///
/// Layout: `PIECE_CELLS[kind_index][rotation]` → 4 `(row, col)` pairs, in the
/// order I, O, T, S, Z, J, L and 0°, 90°, 180°, 270°.
pub const PIECE_CELLS: [[[(i32, i32); 4]; 4]; 7] = [
    [
        [(1, 0), (1, 1), (1, 2), (1, 3)],
        [(0, 2), (1, 2), (2, 2), (3, 2)],
        [(2, 0), (2, 1), (2, 2), (2, 3)],
        [(0, 1), (1, 1), (2, 1), (3, 1)],
    ],
    [
        [(0, 0), (0, 1), (1, 0), (1, 1)],
        [(0, 0), (0, 1), (1, 0), (1, 1)],
        [(0, 0), (0, 1), (1, 0), (1, 1)],
        [(0, 0), (0, 1), (1, 0), (1, 1)],
    ],
    [
        [(0, 1), (1, 0), (1, 1), (1, 2)],
        [(0, 0), (1, 0), (1, 1), (2, 0)],
        [(1, 0), (1, 1), (1, 2), (2, 1)],
        [(0, 1), (1, 0), (1, 1), (2, 1)],
    ],
    [
        [(0, 1), (0, 2), (1, 0), (1, 1)],
        [(0, 0), (1, 0), (1, 1), (2, 1)],
        [(0, 1), (0, 2), (1, 0), (1, 1)],
        [(0, 0), (1, 0), (1, 1), (2, 1)],
    ],
    [
        [(0, 0), (0, 1), (1, 1), (1, 2)],
        [(0, 1), (1, 0), (1, 1), (2, 0)],
        [(0, 0), (0, 1), (1, 1), (1, 2)],
        [(0, 1), (1, 0), (1, 1), (2, 0)],
    ],
    [
        [(0, 0), (1, 0), (1, 1), (1, 2)],
        [(0, 0), (0, 1), (1, 0), (2, 0)],
        [(1, 0), (1, 1), (1, 2), (2, 2)],
        [(0, 1), (1, 1), (2, 0), (2, 1)],
    ],
    [
        [(0, 2), (1, 0), (1, 1), (1, 2)],
        [(0, 0), (1, 0), (2, 0), (2, 1)],
        [(1, 0), (1, 1), (1, 2), (2, 0)],
        [(0, 0), (0, 1), (1, 1), (2, 1)],
    ],
];

/// Cell offsets `(row, col)` within a piece's bounding box (at most 4×4) for
/// each kind and each of the four clockwise rotations 0°, 90°, 180°, 270°.
/// A rotation past 3 reads as 270°.
pub open spec fn cell_offsets(kind: TetrominoKind, rotation: int) -> Seq<(int, int)> {
    match kind {
        TetrominoKind::I => {
            if rotation == 0 {
                seq![(1, 0), (1, 1), (1, 2), (1, 3)]
            } else if rotation == 1 {
                seq![(0, 2), (1, 2), (2, 2), (3, 2)]
            } else if rotation == 2 {
                seq![(2, 0), (2, 1), (2, 2), (2, 3)]
            } else {
                seq![(0, 1), (1, 1), (2, 1), (3, 1)]
            }
        },
        TetrominoKind::O => {
            if rotation == 0 {
                seq![(0, 0), (0, 1), (1, 0), (1, 1)]
            } else if rotation == 1 {
                seq![(0, 0), (0, 1), (1, 0), (1, 1)]
            } else if rotation == 2 {
                seq![(0, 0), (0, 1), (1, 0), (1, 1)]
            } else {
                seq![(0, 0), (0, 1), (1, 0), (1, 1)]
            }
        },
        TetrominoKind::T => {
            if rotation == 0 {
                seq![(0, 1), (1, 0), (1, 1), (1, 2)]
            } else if rotation == 1 {
                seq![(0, 0), (1, 0), (1, 1), (2, 0)]
            } else if rotation == 2 {
                seq![(1, 0), (1, 1), (1, 2), (2, 1)]
            } else {
                seq![(0, 1), (1, 0), (1, 1), (2, 1)]
            }
        },
        TetrominoKind::S => {
            if rotation == 0 {
                seq![(0, 1), (0, 2), (1, 0), (1, 1)]
            } else if rotation == 1 {
                seq![(0, 0), (1, 0), (1, 1), (2, 1)]
            } else if rotation == 2 {
                seq![(0, 1), (0, 2), (1, 0), (1, 1)]
            } else {
                seq![(0, 0), (1, 0), (1, 1), (2, 1)]
            }
        },
        TetrominoKind::Z => {
            if rotation == 0 {
                seq![(0, 0), (0, 1), (1, 1), (1, 2)]
            } else if rotation == 1 {
                seq![(0, 1), (1, 0), (1, 1), (2, 0)]
            } else if rotation == 2 {
                seq![(0, 0), (0, 1), (1, 1), (1, 2)]
            } else {
                seq![(0, 1), (1, 0), (1, 1), (2, 0)]
            }
        },
        TetrominoKind::J => {
            if rotation == 0 {
                seq![(0, 0), (1, 0), (1, 1), (1, 2)]
            } else if rotation == 1 {
                seq![(0, 0), (0, 1), (1, 0), (2, 0)]
            } else if rotation == 2 {
                seq![(1, 0), (1, 1), (1, 2), (2, 2)]
            } else {
                seq![(0, 1), (1, 1), (2, 0), (2, 1)]
            }
        },
        TetrominoKind::L => {
            if rotation == 0 {
                seq![(0, 2), (1, 0), (1, 1), (1, 2)]
            } else if rotation == 1 {
                seq![(0, 0), (1, 0), (2, 0), (2, 1)]
            } else if rotation == 2 {
                seq![(1, 0), (1, 1), (1, 2), (2, 0)]
            } else {
                seq![(0, 0), (0, 1), (1, 1), (2, 1)]
            }
        },
    }
}

/// Every offset lies inside the 4×4 bounding box, and each table entry has four cells.
pub proof fn lemma_offsets_in_box(kind: TetrominoKind, rotation: int)
    ensures
        cell_offsets(kind, rotation).len() == 4,
        forall|i: int|
            #![trigger cell_offsets(kind, rotation)[i]]
            0 <= i < 4 ==> 0 <= cell_offsets(kind, rotation)[i].0 <= 3 && 0 <= cell_offsets(
                kind,
                rotation,
            )[i].1 <= 3,
{
}

/// The four `(row, col)` offsets of `kind` at `rotation` (0..4, clockwise quarter turns).
pub fn piece_cells(kind: TetrominoKind, rotation: usize) -> (cells: [(i32, i32); 4])
    requires
        rotation < 4,
    ensures
        forall|i: int|
            #![trigger cells@[i]]
            0 <= i < 4 ==> cells@[i].0 == cell_offsets(kind, rotation as int)[i].0 && cells@[i].1
                == cell_offsets(kind, rotation as int)[i].1,
{
    PIECE_CELLS[kind.index()][rotation]
}

impl TetrominoKind {
    /// The kind at position `n` of the order I, O, T, S, Z, J, L; any `n` past 5 gives `L`.
    pub fn from_index(n: u8) -> (kind: TetrominoKind)
        ensures
            kind == kind_at(n as int),
    {
        match n {
            0 => TetrominoKind::I,
            1 => TetrominoKind::O,
            2 => TetrominoKind::T,
            3 => TetrominoKind::S,
            4 => TetrominoKind::Z,
            5 => TetrominoKind::J,
            _ => TetrominoKind::L,
        }
    }

    /// Choose a random tetromino kind: one of the seven, by chance.
    pub fn random() -> (kind: TetrominoKind)
        ensures
            exists|n: int| 0 <= n < 7 && kind == kind_at(n),
    {
        let n = random_below(KIND_COUNT);
        Self::from_index(n)
    }

    /// Position of this kind in the order I, O, T, S, Z, J, L.
    pub fn index(self) -> (i: usize)
        ensures
            i == kind_index(self),
            i < 7,
    {
        match self {
            TetrominoKind::I => 0,
            TetrominoKind::O => 1,
            TetrominoKind::T => 2,
            TetrominoKind::S => 3,
            TetrominoKind::Z => 4,
            TetrominoKind::J => 5,
            TetrominoKind::L => 6,
        }
    }
}

} // verus!
