//! The tables of the cubie model, written out: the eighteen face turns and,
//! for each of the forty-eight symmetries, the index of its inverse.  The
//! laws that tie them to their definitions stand beside the definitions.

use crate::cube::{Corner, Edge};
use crate::cube::cubiecube::{CornerList, EdgeList};
use crate::cube::turn::{NUM_TURNTYPES, NUM_TURNWISES};
use vstd::prelude::*;

verus! {

/// Number of symmetries of the cube: 24 rotations, each with its mirror image.
pub const NUM_SYMMETRIES: usize = 48;

/// What each turn does to the corners, by face (`U, D, B, F, L, R`) and by
/// amount (a quarter, a half, three quarters).
pub const CORNER_TRANSFORM: [[CornerList; NUM_TURNWISES]; NUM_TURNTYPES] = [
    [
        [
            (Corner::UBR, 0), (Corner::ULB, 0), (Corner::DLF, 0), (Corner::DFR, 0),
            (Corner::UFL, 0), (Corner::URF, 0), (Corner::DRB, 0), (Corner::DBL, 0),
        ],
        [
            (Corner::ULB, 0), (Corner::UFL, 0), (Corner::DLF, 0), (Corner::DFR, 0),
            (Corner::URF, 0), (Corner::UBR, 0), (Corner::DRB, 0), (Corner::DBL, 0),
        ],
        [
            (Corner::UFL, 0), (Corner::URF, 0), (Corner::DLF, 0), (Corner::DFR, 0),
            (Corner::UBR, 0), (Corner::ULB, 0), (Corner::DRB, 0), (Corner::DBL, 0),
        ],
    ],
    [
        [
            (Corner::URF, 0), (Corner::UBR, 0), (Corner::DBL, 0), (Corner::DLF, 0),
            (Corner::ULB, 0), (Corner::UFL, 0), (Corner::DFR, 0), (Corner::DRB, 0),
        ],
        [
            (Corner::URF, 0), (Corner::UBR, 0), (Corner::DRB, 0), (Corner::DBL, 0),
            (Corner::ULB, 0), (Corner::UFL, 0), (Corner::DLF, 0), (Corner::DFR, 0),
        ],
        [
            (Corner::URF, 0), (Corner::UBR, 0), (Corner::DFR, 0), (Corner::DRB, 0),
            (Corner::ULB, 0), (Corner::UFL, 0), (Corner::DBL, 0), (Corner::DLF, 0),
        ],
    ],
    [
        [
            (Corner::URF, 0), (Corner::DRB, 1), (Corner::DLF, 0), (Corner::DFR, 0),
            (Corner::UBR, 2), (Corner::UFL, 0), (Corner::DBL, 2), (Corner::ULB, 1),
        ],
        [
            (Corner::URF, 0), (Corner::DBL, 0), (Corner::DLF, 0), (Corner::DFR, 0),
            (Corner::DRB, 0), (Corner::UFL, 0), (Corner::ULB, 0), (Corner::UBR, 0),
        ],
        [
            (Corner::URF, 0), (Corner::ULB, 1), (Corner::DLF, 0), (Corner::DFR, 0),
            (Corner::DBL, 2), (Corner::UFL, 0), (Corner::UBR, 2), (Corner::DRB, 1),
        ],
    ],
    [
        [
            (Corner::UFL, 2), (Corner::UBR, 0), (Corner::DFR, 2), (Corner::URF, 1),
            (Corner::ULB, 0), (Corner::DLF, 1), (Corner::DRB, 0), (Corner::DBL, 0),
        ],
        [
            (Corner::DLF, 0), (Corner::UBR, 0), (Corner::URF, 0), (Corner::UFL, 0),
            (Corner::ULB, 0), (Corner::DFR, 0), (Corner::DRB, 0), (Corner::DBL, 0),
        ],
        [
            (Corner::DFR, 2), (Corner::UBR, 0), (Corner::UFL, 2), (Corner::DLF, 1),
            (Corner::ULB, 0), (Corner::URF, 1), (Corner::DRB, 0), (Corner::DBL, 0),
        ],
    ],
    [
        [
            (Corner::URF, 0), (Corner::UBR, 0), (Corner::UFL, 1), (Corner::DFR, 0),
            (Corner::DBL, 1), (Corner::ULB, 2), (Corner::DRB, 0), (Corner::DLF, 2),
        ],
        [
            (Corner::URF, 0), (Corner::UBR, 0), (Corner::ULB, 0), (Corner::DFR, 0),
            (Corner::DLF, 0), (Corner::DBL, 0), (Corner::DRB, 0), (Corner::UFL, 0),
        ],
        [
            (Corner::URF, 0), (Corner::UBR, 0), (Corner::DBL, 1), (Corner::DFR, 0),
            (Corner::UFL, 1), (Corner::DLF, 2), (Corner::DRB, 0), (Corner::ULB, 2),
        ],
    ],
    [
        [
            (Corner::DFR, 1), (Corner::URF, 2), (Corner::DLF, 0), (Corner::DRB, 2),
            (Corner::ULB, 0), (Corner::UFL, 0), (Corner::UBR, 1), (Corner::DBL, 0),
        ],
        [
            (Corner::DRB, 0), (Corner::DFR, 0), (Corner::DLF, 0), (Corner::UBR, 0),
            (Corner::ULB, 0), (Corner::UFL, 0), (Corner::URF, 0), (Corner::DBL, 0),
        ],
        [
            (Corner::UBR, 1), (Corner::DRB, 2), (Corner::DLF, 0), (Corner::URF, 2),
            (Corner::ULB, 0), (Corner::UFL, 0), (Corner::DFR, 1), (Corner::DBL, 0),
        ],
    ],
];

/// What each turn does to the edges, by face and by amount.
pub const EDGE_TRANSFORM: [[EdgeList; NUM_TURNWISES]; NUM_TURNTYPES] = [
    [
        [
            (Edge::UR, 0), (Edge::UB, 0), (Edge::UL, 0), (Edge::UF, 0),
            (Edge::DF, 0), (Edge::DR, 0), (Edge::DB, 0), (Edge::DL, 0),
            (Edge::FR, 0), (Edge::BR, 0), (Edge::BL, 0), (Edge::FL, 0),
        ],
        [
            (Edge::UB, 0), (Edge::UL, 0), (Edge::UF, 0), (Edge::UR, 0),
            (Edge::DF, 0), (Edge::DR, 0), (Edge::DB, 0), (Edge::DL, 0),
            (Edge::FR, 0), (Edge::BR, 0), (Edge::BL, 0), (Edge::FL, 0),
        ],
        [
            (Edge::UL, 0), (Edge::UF, 0), (Edge::UR, 0), (Edge::UB, 0),
            (Edge::DF, 0), (Edge::DR, 0), (Edge::DB, 0), (Edge::DL, 0),
            (Edge::FR, 0), (Edge::BR, 0), (Edge::BL, 0), (Edge::FL, 0),
        ],
    ],
    [
        [
            (Edge::UF, 0), (Edge::UR, 0), (Edge::UB, 0), (Edge::UL, 0),
            (Edge::DL, 0), (Edge::DF, 0), (Edge::DR, 0), (Edge::DB, 0),
            (Edge::FR, 0), (Edge::BR, 0), (Edge::BL, 0), (Edge::FL, 0),
        ],
        [
            (Edge::UF, 0), (Edge::UR, 0), (Edge::UB, 0), (Edge::UL, 0),
            (Edge::DB, 0), (Edge::DL, 0), (Edge::DF, 0), (Edge::DR, 0),
            (Edge::FR, 0), (Edge::BR, 0), (Edge::BL, 0), (Edge::FL, 0),
        ],
        [
            (Edge::UF, 0), (Edge::UR, 0), (Edge::UB, 0), (Edge::UL, 0),
            (Edge::DR, 0), (Edge::DB, 0), (Edge::DL, 0), (Edge::DF, 0),
            (Edge::FR, 0), (Edge::BR, 0), (Edge::BL, 0), (Edge::FL, 0),
        ],
    ],
    [
        [
            (Edge::UF, 0), (Edge::UR, 0), (Edge::BR, 1), (Edge::UL, 0),
            (Edge::DF, 0), (Edge::DR, 0), (Edge::BL, 1), (Edge::DL, 0),
            (Edge::FR, 0), (Edge::DB, 1), (Edge::UB, 1), (Edge::FL, 0),
        ],
        [
            (Edge::UF, 0), (Edge::UR, 0), (Edge::DB, 0), (Edge::UL, 0),
            (Edge::DF, 0), (Edge::DR, 0), (Edge::UB, 0), (Edge::DL, 0),
            (Edge::FR, 0), (Edge::BL, 0), (Edge::BR, 0), (Edge::FL, 0),
        ],
        [
            (Edge::UF, 0), (Edge::UR, 0), (Edge::BL, 1), (Edge::UL, 0),
            (Edge::DF, 0), (Edge::DR, 0), (Edge::BR, 1), (Edge::DL, 0),
            (Edge::FR, 0), (Edge::UB, 1), (Edge::DB, 1), (Edge::FL, 0),
        ],
    ],
    [
        [
            (Edge::FL, 1), (Edge::UR, 0), (Edge::UB, 0), (Edge::UL, 0),
            (Edge::FR, 1), (Edge::DR, 0), (Edge::DB, 0), (Edge::DL, 0),
            (Edge::UF, 1), (Edge::BR, 0), (Edge::BL, 0), (Edge::DF, 1),
        ],
        [
            (Edge::DF, 0), (Edge::UR, 0), (Edge::UB, 0), (Edge::UL, 0),
            (Edge::UF, 0), (Edge::DR, 0), (Edge::DB, 0), (Edge::DL, 0),
            (Edge::FL, 0), (Edge::BR, 0), (Edge::BL, 0), (Edge::FR, 0),
        ],
        [
            (Edge::FR, 1), (Edge::UR, 0), (Edge::UB, 0), (Edge::UL, 0),
            (Edge::FL, 1), (Edge::DR, 0), (Edge::DB, 0), (Edge::DL, 0),
            (Edge::DF, 1), (Edge::BR, 0), (Edge::BL, 0), (Edge::UF, 1),
        ],
    ],
    [
        [
            (Edge::UF, 0), (Edge::UR, 0), (Edge::UB, 0), (Edge::BL, 0),
            (Edge::DF, 0), (Edge::DR, 0), (Edge::DB, 0), (Edge::FL, 0),
            (Edge::FR, 0), (Edge::BR, 0), (Edge::DL, 0), (Edge::UL, 0),
        ],
        [
            (Edge::UF, 0), (Edge::UR, 0), (Edge::UB, 0), (Edge::DL, 0),
            (Edge::DF, 0), (Edge::DR, 0), (Edge::DB, 0), (Edge::UL, 0),
            (Edge::FR, 0), (Edge::BR, 0), (Edge::FL, 0), (Edge::BL, 0),
        ],
        [
            (Edge::UF, 0), (Edge::UR, 0), (Edge::UB, 0), (Edge::FL, 0),
            (Edge::DF, 0), (Edge::DR, 0), (Edge::DB, 0), (Edge::BL, 0),
            (Edge::FR, 0), (Edge::BR, 0), (Edge::UL, 0), (Edge::DL, 0),
        ],
    ],
    [
        [
            (Edge::UF, 0), (Edge::FR, 0), (Edge::UB, 0), (Edge::UL, 0),
            (Edge::DF, 0), (Edge::BR, 0), (Edge::DB, 0), (Edge::DL, 0),
            (Edge::DR, 0), (Edge::UR, 0), (Edge::BL, 0), (Edge::FL, 0),
        ],
        [
            (Edge::UF, 0), (Edge::DR, 0), (Edge::UB, 0), (Edge::UL, 0),
            (Edge::DF, 0), (Edge::UR, 0), (Edge::DB, 0), (Edge::DL, 0),
            (Edge::BR, 0), (Edge::FR, 0), (Edge::BL, 0), (Edge::FL, 0),
        ],
        [
            (Edge::UF, 0), (Edge::BR, 0), (Edge::UB, 0), (Edge::UL, 0),
            (Edge::DF, 0), (Edge::FR, 0), (Edge::DB, 0), (Edge::DL, 0),
            (Edge::UR, 0), (Edge::DR, 0), (Edge::BL, 0), (Edge::FL, 0),
        ],
    ],
];

/// For each symmetry the index of the symmetry that undoes it.
pub const SYMMETRY_INVERSE: [usize; NUM_SYMMETRIES] = [
    0, 1, 6, 3, 4, 5, 2, 7,
    8, 9, 10, 15, 12, 13, 14, 11,
    32, 41, 18, 19, 40, 33, 30, 31,
    44, 37, 26, 27, 36, 45, 22, 23,
    16, 21, 46, 35, 28, 25, 38, 43,
    20, 17, 42, 39, 24, 29, 34, 47,
];

/// The symmetry that puts the edge piece `a` at position `UF` and the edge
/// piece `b` at position `UR`, at index `12 * a + b`; 48 where there is none.
pub const SYMMETRY_BY_EDGES: [usize; 144] = [
    48, 0, 48, 1, 48, 48, 48, 48, 19, 48, 48, 18,
    3, 48, 2, 48, 48, 48, 48, 48, 32, 33, 48, 48,
    48, 5, 48, 4, 48, 48, 48, 48, 48, 30, 31, 48,
    6, 48, 7, 48, 48, 48, 48, 48, 48, 48, 40, 41,
    48, 48, 48, 48, 48, 9, 48, 8, 22, 48, 48, 23,
    48, 48, 48, 48, 14, 48, 15, 48, 37, 36, 48, 48,
    48, 48, 48, 48, 48, 12, 48, 13, 48, 27, 26, 48,
    48, 48, 48, 48, 11, 48, 10, 48, 48, 48, 45, 44,
    16, 35, 48, 48, 17, 34, 48, 48, 48, 48, 48, 48,
    48, 38, 25, 48, 48, 39, 24, 48, 48, 48, 48, 48,
    48, 48, 28, 43, 48, 48, 29, 42, 48, 48, 48, 48,
    21, 48, 48, 46, 20, 48, 48, 47, 48, 48, 48, 48,
];

} // verus!
