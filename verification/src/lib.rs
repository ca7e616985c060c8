//! Cubie-level model of the 3x3x3 cube: piece identifiers, face turns,
//! the composition of transformations, the 48 symmetries of the cube, the
//! coordinates that index pruning tables, and the combinatorial ranking
//! functions those coordinates are built from.  Beside it stand the cube
//! as an array of facelets and the decisions of an interactive editor of
//! the facelets.

pub mod cube;
pub mod interactive;
pub mod math;
