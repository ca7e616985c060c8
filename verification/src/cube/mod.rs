//! The faces of the cube and the identifiers of its corner and edge pieces.

use crate::cube::turn::Turn;
use vstd::prelude::*;

pub mod array_laws;
pub mod arraycube;
pub mod conversion;
pub mod cubiecube;
pub mod symmetry_facts;
pub mod symmetry_laws;
pub mod tables;
pub mod turn;
pub mod turn_laws;
pub mod validity;

verus! {

/// Number of faces of the cube.
pub const NUM_SIDES: usize = 6;

/// Number of corner positions (and of corner pieces).
pub const NUM_CORNERS: usize = 8;

/// Number of edge positions (and of edge pieces).
pub const NUM_EDGES: usize = 12;

/// A face of the cube, which is also the colour of that face's centre.
pub type Side = u8;

/// The up face, white.
pub const UP: Side = 0;

/// The down face, yellow.
pub const DOWN: Side = 1;

/// The back face, green.
pub const BACK: Side = 2;

/// The front face, blue.
pub const FRONT: Side = 3;

/// The left face, red.
pub const LEFT: Side = 4;

/// The right face, orange.
pub const RIGHT: Side = 5;

/// The colour of a sticker that has not been assigned yet.
pub const UNKNOWN: Side = 6;

/// The ANSI escape sequence that selects the colour of each face:
/// white, yellow, green, blue, red, orange, and white again for anything
/// that is not a face.
pub open spec fn color_code(side: Side) -> Seq<char> {
    if side == UP {
        "\x1b[00m"@
    } else if side == DOWN {
        "\x1b[93m"@
    } else if side == BACK {
        "\x1b[32m"@
    } else if side == FRONT {
        "\x1b[34m"@
    } else if side == LEFT {
        "\x1b[31m"@
    } else if side == RIGHT {
        "\x1b[33m"@
    } else {
        "\x1b[00m"@
    }
}

/// Returns the ANSI colour code for the given side.
pub fn get_color(side: Side) -> (code: &'static str)
    ensures
        code@ == color_code(side),
{
    if side == UP {
        "\x1b[00m"
    } else if side == DOWN {
        "\x1b[93m"
    } else if side == BACK {
        "\x1b[32m"
    } else if side == FRONT {
        "\x1b[34m"
    } else if side == LEFT {
        "\x1b[31m"
    } else if side == RIGHT {
        "\x1b[33m"
    } else {
        "\x1b[00m"
    }
}

/// The bit that stands for a face in the colour mask of a piece.
pub open spec fn side_bit(side: Side) -> nat {
    if side == UP {
        1
    } else if side == DOWN {
        2
    } else if side == BACK {
        4
    } else if side == FRONT {
        8
    } else if side == LEFT {
        16
    } else if side == RIGHT {
        32
    } else {
        0
    }
}

/// The bit that stands for a face in the colour mask of a piece.
fn side_mask(side: Side) -> (mask: usize)
    requires
        side < NUM_SIDES,
    ensures
        mask == side_bit(side),
{
    assert(1usize << 0u8 == 1) by (bit_vector);
    assert(1usize << 1u8 == 2) by (bit_vector);
    assert(1usize << 2u8 == 4) by (bit_vector);
    assert(1usize << 3u8 == 8) by (bit_vector);
    assert(1usize << 4u8 == 16) by (bit_vector);
    assert(1usize << 5u8 == 32) by (bit_vector);
    1usize << side
}

/// The twelve edge positions, which also name the twelve edge pieces.  The
/// last four form the UD-slice.
#[derive(Clone, Copy, PartialEq, Eq, Structural, Debug)]
pub enum Edge {
    UF,
    UR,
    UB,
    UL,
    DF,
    DR,
    DB,
    DL,
    FR,
    BR,
    BL,
    FL,
}

impl Edge {
    /// The place of this edge in the order of the enumeration.
    pub open spec fn spec_index(self) -> int {
        match self {
            Edge::UF => 0,
            Edge::UR => 1,
            Edge::UB => 2,
            Edge::UL => 3,
            Edge::DF => 4,
            Edge::DR => 5,
            Edge::DB => 6,
            Edge::DL => 7,
            Edge::FR => 8,
            Edge::BR => 9,
            Edge::BL => 10,
            Edge::FL => 11,
        }
    }

    /// The edge at a place in the order of the enumeration.
    pub open spec fn spec_from_index(i: int) -> Edge {
        if i == 0 {
            Edge::UF
        } else if i == 1 {
            Edge::UR
        } else if i == 2 {
            Edge::UB
        } else if i == 3 {
            Edge::UL
        } else if i == 4 {
            Edge::DF
        } else if i == 5 {
            Edge::DR
        } else if i == 6 {
            Edge::DB
        } else if i == 7 {
            Edge::DL
        } else if i == 8 {
            Edge::FR
        } else if i == 9 {
            Edge::BR
        } else if i == 10 {
            Edge::BL
        } else {
            Edge::FL
        }
    }

    /// The two faces this edge lies on, the primary sticker first.
    pub open spec fn faces(self) -> (Side, Side) {
        match self {
            Edge::UF => (UP, FRONT),
            Edge::UR => (UP, RIGHT),
            Edge::UB => (UP, BACK),
            Edge::UL => (UP, LEFT),
            Edge::DF => (DOWN, FRONT),
            Edge::DR => (DOWN, RIGHT),
            Edge::DB => (DOWN, BACK),
            Edge::DL => (DOWN, LEFT),
            Edge::FR => (FRONT, RIGHT),
            Edge::BR => (BACK, RIGHT),
            Edge::BL => (BACK, LEFT),
            Edge::FL => (FRONT, LEFT),
        }
    }

    /// Whether this edge belongs to the UD-slice (`FR`, `BR`, `BL`, `FL`).
    pub open spec fn in_udslice(self) -> bool {
        self.spec_index() >= 8
    }

    /// Whether two sticker colours, in either order, are those of this edge.
    pub open spec fn has_colors(self, col: Seq<Side>) -> bool {
        let (a, b) = self.faces();
        col.len() == 2 && ((col[0] == a && col[1] == b) || (col[0] == b && col[1] == a))
    }

    /// The place of this edge in the order of the enumeration.
    pub fn index(self) -> (i: usize)
        ensures
            i == self.spec_index(),
            i < NUM_EDGES,
            Edge::spec_from_index(i as int) == self,
    {
        match self {
            Edge::UF => 0,
            Edge::UR => 1,
            Edge::UB => 2,
            Edge::UL => 3,
            Edge::DF => 4,
            Edge::DR => 5,
            Edge::DB => 6,
            Edge::DL => 7,
            Edge::FR => 8,
            Edge::BR => 9,
            Edge::BL => 10,
            Edge::FL => 11,
        }
    }

    /// The edge at a place in the order of the enumeration.
    pub fn from_index(i: usize) -> (e: Edge)
        requires
            i < NUM_EDGES,
        ensures
            e == Edge::spec_from_index(i as int),
            e.spec_index() == i,
    {
        if i == 0 {
            Edge::UF
        } else if i == 1 {
            Edge::UR
        } else if i == 2 {
            Edge::UB
        } else if i == 3 {
            Edge::UL
        } else if i == 4 {
            Edge::DF
        } else if i == 5 {
            Edge::DR
        } else if i == 6 {
            Edge::DB
        } else if i == 7 {
            Edge::DL
        } else if i == 8 {
            Edge::FR
        } else if i == 9 {
            Edge::BR
        } else if i == 10 {
            Edge::BL
        } else {
            Edge::FL
        }
    }

    /// The edge that carries two sticker colours, if there is one.
    pub open spec fn spec_parse_edge(col: Seq<Side>) -> Option<Edge> {
        if Edge::UF.has_colors(col) {
            Some(Edge::UF)
        } else if Edge::UR.has_colors(col) {
            Some(Edge::UR)
        } else if Edge::UB.has_colors(col) {
            Some(Edge::UB)
        } else if Edge::UL.has_colors(col) {
            Some(Edge::UL)
        } else if Edge::DF.has_colors(col) {
            Some(Edge::DF)
        } else if Edge::DR.has_colors(col) {
            Some(Edge::DR)
        } else if Edge::DB.has_colors(col) {
            Some(Edge::DB)
        } else if Edge::DL.has_colors(col) {
            Some(Edge::DL)
        } else if Edge::FR.has_colors(col) {
            Some(Edge::FR)
        } else if Edge::BR.has_colors(col) {
            Some(Edge::BR)
        } else if Edge::BL.has_colors(col) {
            Some(Edge::BL)
        } else if Edge::FL.has_colors(col) {
            Some(Edge::FL)
        } else {
            None
        }
    }

    /// Parse the edge from the colours of its two stickers, given in either
    /// order.  Returns `None` if no edge carries these two colours.
    pub fn parse_edge(col: [Side; 2]) -> (res: Option<Edge>)
        ensures
            res == Edge::spec_parse_edge(col@),
            forall|e: Edge| e.has_colors(col@) <==> res == Some(e),
    {
        if col[0] >= NUM_SIDES as u8 || col[1] >= NUM_SIDES as u8 {
            return None;
        }
        let hash: usize = side_mask(col[0]) + side_mask(col[1]);
        let res = if hash == 0b00_10_01 {
            Edge::UF
        } else if hash == 0b10_00_01 {
            Edge::UR
        } else if hash == 0b00_01_01 {
            Edge::UB
        } else if hash == 0b01_00_01 {
            Edge::UL
        } else if hash == 0b00_10_10 {
            Edge::DF
        } else if hash == 0b10_00_10 {
            Edge::DR
        } else if hash == 0b00_01_10 {
            Edge::DB
        } else if hash == 0b01_00_10 {
            Edge::DL
        } else if hash == 0b10_10_00 {
            Edge::FR
        } else if hash == 0b01_10_00 {
            Edge::FL
        } else if hash == 0b01_01_00 {
            Edge::BL
        } else if hash == 0b10_01_00 {
            Edge::BR
        } else {
            return None;
        };
        Some(res)
    }
}

/// The eight corner positions, which also name the eight corner pieces.
/// The letters of a name list the faces clockwise, and the last four corners
/// are the mirror images of the first four in the LR plane.
#[derive(Clone, Copy, PartialEq, Eq, Structural, Debug)]
pub enum Corner {
    URF,
    UBR,
    DLF,
    DFR,
    ULB,
    UFL,
    DRB,
    DBL,
}

impl Corner {
    /// The place of this corner in the order of the enumeration.
    pub open spec fn spec_index(self) -> int {
        match self {
            Corner::URF => 0,
            Corner::UBR => 1,
            Corner::DLF => 2,
            Corner::DFR => 3,
            Corner::ULB => 4,
            Corner::UFL => 5,
            Corner::DRB => 6,
            Corner::DBL => 7,
        }
    }

    /// The corner at a place in the order of the enumeration.
    pub open spec fn spec_from_index(i: int) -> Corner {
        if i == 0 {
            Corner::URF
        } else if i == 1 {
            Corner::UBR
        } else if i == 2 {
            Corner::DLF
        } else if i == 3 {
            Corner::DFR
        } else if i == 4 {
            Corner::ULB
        } else if i == 5 {
            Corner::UFL
        } else if i == 6 {
            Corner::DRB
        } else {
            Corner::DBL
        }
    }

    /// The three faces this corner lies on, clockwise from the primary one.
    pub open spec fn faces(self) -> (Side, Side, Side) {
        match self {
            Corner::URF => (UP, RIGHT, FRONT),
            Corner::UBR => (UP, BACK, RIGHT),
            Corner::DLF => (DOWN, LEFT, FRONT),
            Corner::DFR => (DOWN, FRONT, RIGHT),
            Corner::ULB => (UP, LEFT, BACK),
            Corner::UFL => (UP, FRONT, LEFT),
            Corner::DRB => (DOWN, RIGHT, BACK),
            Corner::DBL => (DOWN, BACK, LEFT),
        }
    }

    /// Whether three sticker colours, in any order, are those of this corner.
    pub open spec fn has_colors(self, col: Seq<Side>) -> bool {
        let (a, b, c) = self.faces();
        col.len() == 3 && (
            (col[0] == a && col[1] == b && col[2] == c)
            || (col[0] == a && col[1] == c && col[2] == b)
            || (col[0] == b && col[1] == a && col[2] == c)
            || (col[0] == b && col[1] == c && col[2] == a)
            || (col[0] == c && col[1] == a && col[2] == b)
            || (col[0] == c && col[1] == b && col[2] == a)
        )
    }

    /// The place of this corner in the order of the enumeration.
    pub fn index(self) -> (i: usize)
        ensures
            i == self.spec_index(),
            i < NUM_CORNERS,
            Corner::spec_from_index(i as int) == self,
    {
        match self {
            Corner::URF => 0,
            Corner::UBR => 1,
            Corner::DLF => 2,
            Corner::DFR => 3,
            Corner::ULB => 4,
            Corner::UFL => 5,
            Corner::DRB => 6,
            Corner::DBL => 7,
        }
    }

    /// The corner at a place in the order of the enumeration.
    pub fn from_index(i: usize) -> (c: Corner)
        requires
            i < NUM_CORNERS,
        ensures
            c == Corner::spec_from_index(i as int),
            c.spec_index() == i,
    {
        if i == 0 {
            Corner::URF
        } else if i == 1 {
            Corner::UBR
        } else if i == 2 {
            Corner::DLF
        } else if i == 3 {
            Corner::DFR
        } else if i == 4 {
            Corner::ULB
        } else if i == 5 {
            Corner::UFL
        } else if i == 6 {
            Corner::DRB
        } else {
            Corner::DBL
        }
    }

    /// The corner that carries three sticker colours, if there is one.
    pub open spec fn spec_parse_corner(col: Seq<Side>) -> Option<Corner> {
        if Corner::URF.has_colors(col) {
            Some(Corner::URF)
        } else if Corner::UBR.has_colors(col) {
            Some(Corner::UBR)
        } else if Corner::DLF.has_colors(col) {
            Some(Corner::DLF)
        } else if Corner::DFR.has_colors(col) {
            Some(Corner::DFR)
        } else if Corner::ULB.has_colors(col) {
            Some(Corner::ULB)
        } else if Corner::UFL.has_colors(col) {
            Some(Corner::UFL)
        } else if Corner::DRB.has_colors(col) {
            Some(Corner::DRB)
        } else if Corner::DBL.has_colors(col) {
            Some(Corner::DBL)
        } else {
            None
        }
    }

    /// Parse the corner from the colours of its three stickers, given in any
    /// order.  Returns `None` if no corner carries these three colours.
    pub fn parse_corner(col: [Side; 3]) -> (res: Option<Corner>)
        ensures
            res == Corner::spec_parse_corner(col@),
            forall|c: Corner| c.has_colors(col@) <==> res == Some(c),
    {
        if col[0] >= NUM_SIDES as u8 || col[1] >= NUM_SIDES as u8 || col[2] >= NUM_SIDES as u8 {
            return None;
        }
        // One bit per face: left/right in the top pair, front/back in the
        // middle pair, up/down in the low pair.
        let hash: usize = side_mask(col[0]) + side_mask(col[1]) + side_mask(col[2]);
        let res = if hash == 0b01_10_01 {
            Corner::UFL
        } else if hash == 0b10_10_01 {
            Corner::URF
        } else if hash == 0b01_01_01 {
            Corner::ULB
        } else if hash == 0b10_01_01 {
            Corner::UBR
        } else if hash == 0b01_10_10 {
            Corner::DLF
        } else if hash == 0b10_10_10 {
            Corner::DFR
        } else if hash == 0b01_01_10 {
            Corner::DBL
        } else if hash == 0b10_01_10 {
            Corner::DRB
        } else {
            return None;
        };
        Some(res)
    }
}

/// A cube that face turns can be applied to.
pub trait RubiksCube {
    /// What must hold of a cube for a turn to be applied to it.  A turn
    /// keeps it.
    spec fn turnable(&self) -> bool;

    /// Applies one face turn.
    fn apply_turn(&mut self, turn: Turn)
        requires
            old(self).turnable(),
        ensures
            final(self).turnable(),
    ;
}

} // verus!
