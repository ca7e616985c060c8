//! The cube as an array of its 54 facelets, six faces of nine, in the order
//! up, down, back, front, left, right.  Within a face the facelets run row
//! by row, as the face is seen from outside.

use crate::cube::{Corner, Edge, RubiksCube, Side, BACK, DOWN, FRONT, LEFT, NUM_SIDES, RIGHT, UP};
use crate::cube::tables::NUM_SYMMETRIES;
use crate::cube::turn::{Turn, TurnType};
use vstd::prelude::*;
use vstd::string::StringSliceAdditionalSpecFns;

verus! {

/// The number of facelets along an edge of the cube.
pub const CUBE_DIM: usize = 3;

/// The number of facelets of a face.
pub const CUBE_AREA: usize = 9;

/// The number of facelets of the cube.
pub const NUM_FACELETS: usize = 54;

/// The cube as the colours of its facelets.
#[derive(PartialEq, Eq, Clone, Copy, Debug)]
pub struct ArrayCube {
    pub data: [Side; NUM_FACELETS],
}

/// For every face, where a clockwise quarter turn of it takes each facelet
/// from: after the turn, facelet `f` shows what facelet `FACE_TURN_SOURCE[face][f]`
/// showed before.
pub const FACE_TURN_SOURCE: [[usize; NUM_FACELETS]; NUM_SIDES] = [
    [
        6, 3, 0, 7, 4, 1, 8, 5, 2,
        9, 10, 11, 12, 13, 14, 15, 16, 17,
        36, 37, 38, 21, 22, 23, 24, 25, 26,
        45, 46, 47, 30, 31, 32, 33, 34, 35,
        27, 28, 29, 39, 40, 41, 42, 43, 44,
        18, 19, 20, 48, 49, 50, 51, 52, 53,
    ],
    [
        0, 1, 2, 3, 4, 5, 6, 7, 8,
        15, 12, 9, 16, 13, 10, 17, 14, 11,
        18, 19, 20, 21, 22, 23, 51, 52, 53,
        27, 28, 29, 30, 31, 32, 42, 43, 44,
        36, 37, 38, 39, 40, 41, 24, 25, 26,
        45, 46, 47, 48, 49, 50, 33, 34, 35,
    ],
    [
        47, 50, 53, 3, 4, 5, 6, 7, 8,
        9, 10, 11, 12, 13, 14, 36, 39, 42,
        24, 21, 18, 25, 22, 19, 26, 23, 20,
        27, 28, 29, 30, 31, 32, 33, 34, 35,
        2, 37, 38, 1, 40, 41, 0, 43, 44,
        45, 46, 17, 48, 49, 16, 51, 52, 15,
    ],
    [
        0, 1, 2, 3, 4, 5, 44, 41, 38,
        51, 48, 45, 12, 13, 14, 15, 16, 17,
        18, 19, 20, 21, 22, 23, 24, 25, 26,
        33, 30, 27, 34, 31, 28, 35, 32, 29,
        36, 37, 9, 39, 40, 10, 42, 43, 11,
        6, 46, 47, 7, 49, 50, 8, 52, 53,
    ],
    [
        26, 1, 2, 23, 4, 5, 20, 7, 8,
        27, 10, 11, 30, 13, 14, 33, 16, 17,
        18, 19, 15, 21, 22, 12, 24, 25, 9,
        0, 28, 29, 3, 31, 32, 6, 34, 35,
        42, 39, 36, 43, 40, 37, 44, 41, 38,
        45, 46, 47, 48, 49, 50, 51, 52, 53,
    ],
    [
        0, 1, 29, 3, 4, 32, 6, 7, 35,
        9, 10, 24, 12, 13, 21, 15, 16, 18,
        8, 19, 20, 5, 22, 23, 2, 25, 26,
        27, 28, 11, 30, 31, 14, 33, 34, 17,
        36, 37, 38, 39, 40, 41, 42, 43, 44,
        51, 48, 45, 52, 49, 46, 53, 50, 47,
    ],
];

/// For each of the four generators of the symmetries (the rotation about the
/// URF-DBL diagonal, the half turn about the front-back axis, the quarter
/// turn about the up-down axis, the reflection in the LR plane), where it
/// takes each facelet from.
pub const SYMMETRY_SOURCE: [[usize; NUM_FACELETS]; 4] = [
    [
        53, 52, 51, 50, 49, 48, 47, 46, 45,
        36, 37, 38, 39, 40, 41, 42, 43, 44,
        11, 14, 17, 10, 13, 16, 9, 12, 15,
        2, 5, 8, 1, 4, 7, 0, 3, 6,
        24, 21, 18, 25, 22, 19, 26, 23, 20,
        29, 32, 35, 28, 31, 34, 27, 30, 33,
    ],
    [
        17, 16, 15, 14, 13, 12, 11, 10, 9,
        8, 7, 6, 5, 4, 3, 2, 1, 0,
        26, 25, 24, 23, 22, 21, 20, 19, 18,
        35, 34, 33, 32, 31, 30, 29, 28, 27,
        53, 52, 51, 50, 49, 48, 47, 46, 45,
        44, 43, 42, 41, 40, 39, 38, 37, 36,
    ],
    [
        2, 5, 8, 1, 4, 7, 0, 3, 6,
        15, 12, 9, 16, 13, 10, 17, 14, 11,
        45, 46, 47, 48, 49, 50, 51, 52, 53,
        36, 37, 38, 39, 40, 41, 42, 43, 44,
        18, 19, 20, 21, 22, 23, 24, 25, 26,
        27, 28, 29, 30, 31, 32, 33, 34, 35,
    ],
    [
        2, 1, 0, 5, 4, 3, 8, 7, 6,
        11, 10, 9, 14, 13, 12, 17, 16, 15,
        20, 19, 18, 23, 22, 21, 26, 25, 24,
        29, 28, 27, 32, 31, 30, 35, 34, 33,
        47, 46, 45, 50, 49, 48, 53, 52, 51,
        38, 37, 36, 41, 40, 39, 44, 43, 42,
    ],
];

/// For each of the four generators of the symmetries, the face that it
/// carries each face to, which is the colour that each colour becomes.
pub const SYMMETRY_COLOR: [[Side; NUM_SIDES]; 4] = [
    [FRONT, BACK, LEFT, RIGHT, DOWN, UP],
    [DOWN, UP, BACK, FRONT, RIGHT, LEFT],
    [UP, DOWN, LEFT, RIGHT, FRONT, BACK],
    [UP, DOWN, BACK, FRONT, RIGHT, LEFT],
];

/// The cube laid out flat, twelve columns by nine rows: the up face above the
/// row of the left, front, right and back faces, the down face below.  Each
/// entry is the index of the facelet shown there, or `NUM_FACELETS` where
/// the layout is empty.
pub const DISPLAY_GRID: [[usize; 12]; 9] = [
    [54, 54, 54, 0, 1, 2, 54, 54, 54, 54, 54, 54],
    [54, 54, 54, 3, 4, 5, 54, 54, 54, 54, 54, 54],
    [54, 54, 54, 6, 7, 8, 54, 54, 54, 54, 54, 54],
    [36, 37, 38, 27, 28, 29, 45, 46, 47, 18, 19, 20],
    [39, 40, 41, 30, 31, 32, 48, 49, 50, 21, 22, 23],
    [42, 43, 44, 33, 34, 35, 51, 52, 53, 24, 25, 26],
    [54, 54, 54, 9, 10, 11, 54, 54, 54, 54, 54, 54],
    [54, 54, 54, 12, 13, 14, 54, 54, 54, 54, 54, 54],
    [54, 54, 54, 15, 16, 17, 54, 54, 54, 54, 54, 54],
];

/// The facelets of a corner position: the one on the up or down face first,
/// then clockwise.
pub open spec fn spec_corner_to_indices(c: Corner) -> (usize, usize, usize) {
    match c {
        Corner::URF => (8, 45, 29),
        Corner::UBR => (2, 18, 47),
        Corner::DLF => (9, 44, 33),
        Corner::DFR => (11, 35, 51),
        Corner::ULB => (0, 36, 20),
        Corner::UFL => (6, 27, 38),
        Corner::DRB => (17, 53, 24),
        Corner::DBL => (15, 26, 42),
    }
}

/// The facelets of an edge position, the primary one first.
pub open spec fn spec_edge_to_indices(e: Edge) -> (usize, usize) {
    match e {
        Edge::UF => (7, 28),
        Edge::UR => (5, 46),
        Edge::UB => (1, 19),
        Edge::UL => (3, 37),
        Edge::DF => (10, 34),
        Edge::DR => (14, 52),
        Edge::DB => (16, 25),
        Edge::DL => (12, 43),
        Edge::FR => (32, 48),
        Edge::BR => (21, 50),
        Edge::BL => (23, 39),
        Edge::FL => (30, 41),
    }
}

/// The facelet in the middle of a face.
pub open spec fn center_facelet(side: Side) -> int {
    side * CUBE_AREA + 4
}

/// The `slot`-th facelet of a corner position, for `slot` 0, 1 or 2.
pub open spec fn corner_facelet(c: Corner, slot: int) -> int {
    let (a, b, d) = spec_corner_to_indices(c);
    if slot == 0 {
        a as int
    } else if slot == 1 {
        b as int
    } else {
        d as int
    }
}

/// The `slot`-th facelet of an edge position, for `slot` 0 or 1.
pub open spec fn edge_facelet(e: Edge, slot: int) -> int {
    let (a, b) = spec_edge_to_indices(e);
    if slot == 0 {
        a as int
    } else {
        b as int
    }
}

/// The colour of the `k`-th sticker of a corner piece, for `k` 0, 1 or 2:
/// that of the face where the sticker is at home.
pub open spec fn corner_color(c: Corner, k: int) -> Side {
    (corner_facelet(c, k) / CUBE_AREA as int) as Side
}

/// The colour of the `k`-th sticker of an edge piece, for `k` 0 or 1.
pub open spec fn edge_color(e: Edge, k: int) -> Side {
    (edge_facelet(e, k) / CUBE_AREA as int) as Side
}

/// The three facelets of a corner position: the one on the up or down face
/// first, then clockwise.
pub fn corner_to_indices(c: Corner) -> (res: (usize, usize, usize))
    ensures
        res == spec_corner_to_indices(c),
        res.0 < NUM_FACELETS,
        res.1 < NUM_FACELETS,
        res.2 < NUM_FACELETS,
{
    match c {
        Corner::URF => (8, 45, 29),
        Corner::UBR => (2, 18, 47),
        Corner::DLF => (9, 44, 33),
        Corner::DFR => (11, 35, 51),
        Corner::ULB => (0, 36, 20),
        Corner::UFL => (6, 27, 38),
        Corner::DRB => (17, 53, 24),
        Corner::DBL => (15, 26, 42),
    }
}

/// The two facelets of an edge position, the primary one first.
pub fn edge_to_indices(e: Edge) -> (res: (usize, usize))
    ensures
        res == spec_edge_to_indices(e),
        res.0 < NUM_FACELETS,
        res.1 < NUM_FACELETS,
{
    match e {
        Edge::UF => (7, 28),
        Edge::UR => (5, 46),
        Edge::UB => (1, 19),
        Edge::UL => (3, 37),
        Edge::DF => (10, 34),
        Edge::DR => (14, 52),
        Edge::DB => (16, 25),
        Edge::DL => (12, 43),
        Edge::FR => (32, 48),
        Edge::BR => (21, 50),
        Edge::BL => (23, 39),
        Edge::FL => (30, 41),
    }
}

/// Why a text is not the facelets of a cube.
#[derive(Clone, Copy, PartialEq, Eq, Structural, Debug)]
pub enum FromStrError {
    /// The text does not hold 54 letters.
    WrongLength,
    /// A letter is none of `a` to `f`, which stand for the six colours.
    UnknownColor,
}

/// The facelets of the solved cube: every facelet has the colour of its face.
pub open spec fn spec_solved_array() -> Seq<Side> {
    Seq::new(NUM_FACELETS as nat, |f: int| (f / CUBE_AREA as int) as Side)
}

/// What stands at a corner position, read off the facelets: the piece that
/// carries the three colours found there, and as its orientation the place,
/// among the stickers of that piece, of the colour on the primary facelet.
pub open spec fn spec_corner_at_pos(a: Seq<Side>, pos: Corner) -> Option<(Corner, usize)> {
    let col = seq![
        a[corner_facelet(pos, 0)],
        a[corner_facelet(pos, 1)],
        a[corner_facelet(pos, 2)],
    ];
    match Corner::spec_parse_corner(col) {
        None => None,
        Some(c) => Some(
            (
                c,
                if col[0] == corner_color(c, 0) {
                    0usize
                } else if col[0] == corner_color(c, 1) {
                    1usize
                } else {
                    2usize
                },
            ),
        ),
    }
}

/// What stands at an edge position, read off the facelets.
pub open spec fn spec_edge_at_pos(a: Seq<Side>, pos: Edge) -> Option<(Edge, usize)> {
    let col = seq![a[edge_facelet(pos, 0)], a[edge_facelet(pos, 1)]];
    match Edge::spec_parse_edge(col) {
        None => None,
        Some(e) => Some(
            (
                e,
                if col[0] == edge_color(e, 0) {
                    0usize
                } else {
                    1usize
                },
            ),
        ),
    }
}

/// The facelets after a clockwise quarter turn of a face.
pub open spec fn spec_array_quarter_turn(a: Seq<Side>, side: TurnType) -> Seq<Side> {
    Seq::new(
        NUM_FACELETS as nat,
        |f: int| a[FACE_TURN_SOURCE@[side.spec_index()]@[f] as int],
    )
}

/// The facelets after `n` clockwise quarter turns of a face.
pub open spec fn spec_array_quarter_turns(a: Seq<Side>, side: TurnType, n: nat) -> Seq<Side>
    decreases n,
{
    if n == 0 {
        a
    } else {
        spec_array_quarter_turn(spec_array_quarter_turns(a, side, (n - 1) as nat), side)
    }
}

/// The facelets after a turn: one, two or three quarter turns of its face.
pub open spec fn spec_array_turn(a: Seq<Side>, turn: Turn) -> Seq<Side> {
    spec_array_quarter_turns(a, turn.side, turn.wise.quarter_turns())
}

/// The facelets after one of the four generators of the symmetries has
/// turned the world: every facelet is carried to its new place, and every
/// colour becomes the colour of the face that its face is carried to.  What
/// is not one of the six colours stays what it is.
pub open spec fn spec_array_generator(a: Seq<Side>, g: int) -> Seq<Side> {
    Seq::new(
        NUM_FACELETS as nat,
        |f: int|
            {
                let x = a[SYMMETRY_SOURCE@[g]@[f] as int];
                if x < NUM_SIDES {
                    SYMMETRY_COLOR@[g]@[x as int]
                } else {
                    x
                }
            },
    )
}

/// The facelets after `n` applications of a generator.
pub open spec fn spec_array_generator_power(a: Seq<Side>, g: int, n: nat) -> Seq<Side>
    decreases n,
{
    if n == 0 {
        a
    } else {
        spec_array_generator(spec_array_generator_power(a, g, (n - 1) as nat), g)
    }
}

/// The facelets of the cube seen through the symmetry at index
/// `16 * x1 + 8 * x2 + 2 * x3 + x4`: the world is reflected `x4` times in
/// the LR plane, then turned `x3` times about the up-down axis, `x2` times
/// about the front-back axis and `x1` times about the URF-DBL diagonal.
pub open spec fn spec_array_symmetry(a: Seq<Side>, sym: int) -> Seq<Side> {
    let x1 = (sym / 16) as nat;
    let x2 = ((sym / 8) % 2) as nat;
    let x3 = ((sym / 2) % 4) as nat;
    let x4 = (sym % 2) as nat;
    spec_array_generator_power(
        spec_array_generator_power(
            spec_array_generator_power(spec_array_generator_power(a, 3, x4), 2, x3),
            1,
            x2,
        ),
        0,
        x1,
    )
}

/// What a text of 54 letters `a` to `f` says the facelets are.
pub open spec fn spec_array_from_letters(s: Seq<u8>) -> Result<Seq<Side>, FromStrError> {
    if s.len() != NUM_FACELETS {
        Err(FromStrError::WrongLength)
    } else if exists|i: int| 0 <= i < s.len() && !(97 <= #[trigger] s[i] <= 102) {
        Err(FromStrError::UnknownColor)
    } else {
        Ok(Seq::new(NUM_FACELETS as nat, |i: int| (s[i] - 97) as Side))
    }
}

impl ArrayCube {
    /// The solved cube.
    pub fn new() -> (cube: Self)
        ensures
            cube.data@ == spec_solved_array(),
    {
        let mut data = [UP;NUM_FACELETS];
        let mut i: usize = 0;
        while i < NUM_FACELETS
            invariant
                i <= NUM_FACELETS,
                forall|f: int| 0 <= f < i ==> #[trigger] data@[f] == (f / CUBE_AREA as int) as Side,
            decreases NUM_FACELETS - i,
        {
            data[i] = (i / CUBE_AREA) as Side;
            i += 1;
        }
        assert(data@ =~= spec_solved_array());
        ArrayCube { data }
    }

    /// The piece at a corner position, and its orientation, read off the
    /// facelets; `None` if the three colours there are those of no corner.
    pub fn get_corner_at_pos(&self, pos: Corner) -> (res: Option<(Corner, usize)>)
        ensures
            res == spec_corner_at_pos(self.data@, pos),
    {
        let (i1, i2, i3) = corner_to_indices(pos);
        let col = [self.data[i1], self.data[i2], self.data[i3]];
        assert(col@ =~= seq![
            self.data@[corner_facelet(pos, 0)],
            self.data@[corner_facelet(pos, 1)],
            self.data@[corner_facelet(pos, 2)],
        ]);
        match Corner::parse_corner(col) {
            None => None,
            Some(c) => {
                let (c1, c2, _c3) = corner_to_indices(c);
                let o: usize = if col[0] as usize == c1 / CUBE_AREA {
                    0
                } else if col[0] as usize == c2 / CUBE_AREA {
                    1
                } else {
                    2
                };
                Some((c, o))
            },
        }
    }

    /// The piece at an edge position, and its orientation, read off the
    /// facelets; `None` if the two colours there are those of no edge.
    pub fn get_edge_at_pos(&self, pos: Edge) -> (res: Option<(Edge, usize)>)
        ensures
            res == spec_edge_at_pos(self.data@, pos),
    {
        let (i1, i2) = edge_to_indices(pos);
        let col = [self.data[i1], self.data[i2]];
        assert(col@ =~= seq![self.data@[edge_facelet(pos, 0)], self.data@[edge_facelet(pos, 1)]]);
        match Edge::parse_edge(col) {
            None => None,
            Some(e) => {
                let (c1, _c2) = edge_to_indices(e);
                let o: usize = if col[0] as usize == c1 / CUBE_AREA {
                    0
                } else {
                    1
                };
                Some((e, o))
            },
        }
    }

    /// Reads the facelets from 54 letters, `a` to `f` for the colours of the
    /// up, down, back, front, left and right faces.
    pub fn from_letters(letters: &[u8]) -> (res: Result<ArrayCube, FromStrError>)
        ensures
            match res {
                Ok(cube) => spec_array_from_letters(letters@) == Ok::<Seq<Side>, FromStrError>(
                    cube.data@,
                ),
                Err(e) => spec_array_from_letters(letters@) == Err::<Seq<Side>, FromStrError>(e),
            },
    {
        if letters.len() != NUM_FACELETS {
            return Err(FromStrError::WrongLength);
        }
        let mut data = [UP;NUM_FACELETS];
        let mut i: usize = 0;
        while i < NUM_FACELETS
            invariant
                i <= NUM_FACELETS,
                letters@.len() == NUM_FACELETS,
                forall|f: int| 0 <= f < i ==> 97 <= #[trigger] letters@[f] <= 102,
                forall|f: int| 0 <= f < i ==> #[trigger] data@[f] == (letters@[f] - 97) as Side,
            decreases NUM_FACELETS - i,
        {
            let c = letters[i];
            if c < 97 || c > 102 {
                return Err(FromStrError::UnknownColor);
            }
            data[i] = c - 97;
            i += 1;
        }
        assert(data@ =~= Seq::new(NUM_FACELETS as nat, |i: int| (letters@[i] - 97) as Side));
        Ok(ArrayCube { data })
    }

    /// Reads the facelets from a text of 54 letters, `a` to `f`.
    pub fn from_str(s: &str) -> (res: Result<ArrayCube, FromStrError>)
        ensures
            match res {
                Ok(cube) => spec_array_from_letters(s.spec_bytes()) == Ok::<
                    Seq<Side>,
                    FromStrError,
                >(cube.data@),
                Err(e) => spec_array_from_letters(s.spec_bytes()) == Err::<Seq<Side>, FromStrError>(
                    e,
                ),
            },
    {
        ArrayCube::from_letters(s.as_bytes())
    }

    /// Turns a face by a quarter, clockwise.
    fn quarter_turn(&mut self, side: TurnType)
        ensures
            final(self).data@ == spec_array_quarter_turn(old(self).data@, side),
    {
        let before = self.data;
        let s = side.index();
        let mut f: usize = 0;
        while f < NUM_FACELETS
            invariant
                f <= NUM_FACELETS,
                s == side.spec_index(),
                forall|k: int|
                    0 <= k < f ==> #[trigger] self.data@[k] == before@[FACE_TURN_SOURCE@[s as int]@[k] as int],
            decreases NUM_FACELETS - f,
        {
            let src = FACE_TURN_SOURCE[s][f];
            proof {
                lemma_turn_source_in_range(side, f as int);
            }
            self.data[f] = before[src];
            f += 1;
        }
        assert(self.data@ =~= spec_array_quarter_turn(before@, side));
    }

    /// Lets one generator of the symmetries turn the world.
    fn apply_generator(&mut self, g: usize)
        requires
            g < 4,
        ensures
            final(self).data@ == spec_array_generator(old(self).data@, g as int),
    {
        let before = self.data;
        let mut f: usize = 0;
        while f < NUM_FACELETS
            invariant
                f <= NUM_FACELETS,
                g < 4,
                forall|k: int|
                    0 <= k < f ==> #[trigger] self.data@[k] == spec_array_generator(
                        before@,
                        g as int,
                    )[k],
            decreases NUM_FACELETS - f,
        {
            let src = SYMMETRY_SOURCE[g][f];
            proof {
                lemma_symmetry_source_in_range(g as int, f as int);
            }
            let x = before[src];
            self.data[f] = if (x as usize) < NUM_SIDES {
                SYMMETRY_COLOR[g][x as usize]
            } else {
                x
            };
            f += 1;
        }
        assert(self.data@ =~= spec_array_generator(before@, g as int));
    }

    /// Lets one generator of the symmetries turn the world `n` times.
    fn apply_generator_repeated(&mut self, g: usize, n: usize)
        requires
            g < 4,
        ensures
            final(self).data@ == spec_array_generator_power(old(self).data@, g as int, n as nat),
    {
        let mut k: usize = 0;
        while k < n
            invariant
                k <= n,
                g < 4,
                self.data@ == spec_array_generator_power(old(self).data@, g as int, k as nat),
            decreases n - k,
        {
            self.apply_generator(g);
            k += 1;
        }
    }
}

/// Every entry of the table of quarter turns is a facelet.
pub proof fn lemma_turn_source_in_range(side: TurnType, f: int)
    requires
        0 <= f < NUM_FACELETS,
    ensures
        FACE_TURN_SOURCE@[side.spec_index()]@[f] < NUM_FACELETS,
{
    match side {
        TurnType::U => {},
        TurnType::D => {},
        TurnType::B => {},
        TurnType::F => {},
        TurnType::L => {},
        TurnType::R => {},
    }
}

/// Every entry of the table of generators is a facelet.
pub proof fn lemma_symmetry_source_in_range(g: int, f: int)
    requires
        0 <= g < 4,
        0 <= f < NUM_FACELETS,
    ensures
        SYMMETRY_SOURCE@[g]@[f] < NUM_FACELETS,
{
    if g == 0 {
    } else if g == 1 {
    } else if g == 2 {
    } else {
    }
}

impl RubiksCube for ArrayCube {
    /// Any array of facelets can be turned.
    open spec fn turnable(&self) -> bool {
        true
    }

    /// Applies a face turn: its face is turned by a quarter once, twice or
    /// three times.
    fn apply_turn(&mut self, turn: Turn)
        ensures
            final(self).data@ == spec_array_turn(old(self).data@, turn),
    {
        let n = turn.wise.index() + 1;
        let mut k: usize = 0;
        while k < n
            invariant
                k <= n,
                self.data@ == spec_array_quarter_turns(old(self).data@, turn.side, k as nat),
            decreases n - k,
        {
            self.quarter_turn(turn.side);
            k += 1;
        }
    }
}

/// The cube that `cube` would be if the world were turned by the symmetry at
/// index `sym`.
pub fn get_symmetry(cube: &ArrayCube, sym: usize) -> (res: ArrayCube)
    requires
        sym < NUM_SYMMETRIES,
    ensures
        res.data@ == spec_array_symmetry(cube.data@, sym as int),
{
    let mut res = *cube;
    res.apply_generator_repeated(3, sym % 2);
    res.apply_generator_repeated(2, (sym / 2) % 4);
    res.apply_generator_repeated(1, (sym / 8) % 2);
    res.apply_generator_repeated(0, sym / 16);
    res
}

/// What a facelet is: the centre of a face, or one of the three stickers of
/// a corner position, or one of the two stickers of an edge position.
pub enum Place {
    Center(Side),
    CornerSticker(Corner, usize),
    EdgeSticker(Edge, usize),
}

/// What each of the 54 facelets is.
#[verifier::opaque]
pub open spec fn facelet_place(f: int) -> Place {
    if f == 0 {
        Place::CornerSticker(Corner::ULB, 0)
    } else if f == 1 {
        Place::EdgeSticker(Edge::UB, 0)
    } else if f == 2 {
        Place::CornerSticker(Corner::UBR, 0)
    } else if f == 3 {
        Place::EdgeSticker(Edge::UL, 0)
    } else if f == 4 {
        Place::Center(UP)
    } else if f == 5 {
        Place::EdgeSticker(Edge::UR, 0)
    } else if f == 6 {
        Place::CornerSticker(Corner::UFL, 0)
    } else if f == 7 {
        Place::EdgeSticker(Edge::UF, 0)
    } else if f == 8 {
        Place::CornerSticker(Corner::URF, 0)
    } else if f == 9 {
        Place::CornerSticker(Corner::DLF, 0)
    } else if f == 10 {
        Place::EdgeSticker(Edge::DF, 0)
    } else if f == 11 {
        Place::CornerSticker(Corner::DFR, 0)
    } else if f == 12 {
        Place::EdgeSticker(Edge::DL, 0)
    } else if f == 13 {
        Place::Center(DOWN)
    } else if f == 14 {
        Place::EdgeSticker(Edge::DR, 0)
    } else if f == 15 {
        Place::CornerSticker(Corner::DBL, 0)
    } else if f == 16 {
        Place::EdgeSticker(Edge::DB, 0)
    } else if f == 17 {
        Place::CornerSticker(Corner::DRB, 0)
    } else if f == 18 {
        Place::CornerSticker(Corner::UBR, 1)
    } else if f == 19 {
        Place::EdgeSticker(Edge::UB, 1)
    } else if f == 20 {
        Place::CornerSticker(Corner::ULB, 2)
    } else if f == 21 {
        Place::EdgeSticker(Edge::BR, 0)
    } else if f == 22 {
        Place::Center(BACK)
    } else if f == 23 {
        Place::EdgeSticker(Edge::BL, 0)
    } else if f == 24 {
        Place::CornerSticker(Corner::DRB, 2)
    } else if f == 25 {
        Place::EdgeSticker(Edge::DB, 1)
    } else if f == 26 {
        Place::CornerSticker(Corner::DBL, 1)
    } else if f == 27 {
        Place::CornerSticker(Corner::UFL, 1)
    } else if f == 28 {
        Place::EdgeSticker(Edge::UF, 1)
    } else if f == 29 {
        Place::CornerSticker(Corner::URF, 2)
    } else if f == 30 {
        Place::EdgeSticker(Edge::FL, 0)
    } else if f == 31 {
        Place::Center(FRONT)
    } else if f == 32 {
        Place::EdgeSticker(Edge::FR, 0)
    } else if f == 33 {
        Place::CornerSticker(Corner::DLF, 2)
    } else if f == 34 {
        Place::EdgeSticker(Edge::DF, 1)
    } else if f == 35 {
        Place::CornerSticker(Corner::DFR, 1)
    } else if f == 36 {
        Place::CornerSticker(Corner::ULB, 1)
    } else if f == 37 {
        Place::EdgeSticker(Edge::UL, 1)
    } else if f == 38 {
        Place::CornerSticker(Corner::UFL, 2)
    } else if f == 39 {
        Place::EdgeSticker(Edge::BL, 1)
    } else if f == 40 {
        Place::Center(LEFT)
    } else if f == 41 {
        Place::EdgeSticker(Edge::FL, 1)
    } else if f == 42 {
        Place::CornerSticker(Corner::DBL, 2)
    } else if f == 43 {
        Place::EdgeSticker(Edge::DL, 1)
    } else if f == 44 {
        Place::CornerSticker(Corner::DLF, 1)
    } else if f == 45 {
        Place::CornerSticker(Corner::URF, 1)
    } else if f == 46 {
        Place::EdgeSticker(Edge::UR, 1)
    } else if f == 47 {
        Place::CornerSticker(Corner::UBR, 2)
    } else if f == 48 {
        Place::EdgeSticker(Edge::FR, 1)
    } else if f == 49 {
        Place::Center(RIGHT)
    } else if f == 50 {
        Place::EdgeSticker(Edge::BR, 1)
    } else if f == 51 {
        Place::CornerSticker(Corner::DFR, 2)
    } else if f == 52 {
        Place::EdgeSticker(Edge::DR, 1)
    } else {
        Place::CornerSticker(Corner::DRB, 1)
    }
}

/// The facelet that a place names.
pub open spec fn place_facelet(p: Place) -> int {
    match p {
        Place::Center(side) => center_facelet(side),
        Place::CornerSticker(c, slot) => corner_facelet(c, slot as int),
        Place::EdgeSticker(e, slot) => edge_facelet(e, slot as int),
    }
}

/// Whether a place is one of the 54: a face has one of the six colours, a
/// corner three stickers and an edge two.
pub open spec fn place_wf(p: Place) -> bool {
    match p {
        Place::Center(side) => side < NUM_SIDES,
        Place::CornerSticker(_, slot) => slot < 3,
        Place::EdgeSticker(_, slot) => slot < 2,
    }
}

/// Every facelet is the facelet that its place names.
pub proof fn lemma_facelet_place(f: int)
    requires
        0 <= f < NUM_FACELETS,
    ensures
        place_wf(facelet_place(f)),
        place_facelet(facelet_place(f)) == f,
{
    reveal(facelet_place);
}

/// Every place is the place of the facelet that it names.
pub proof fn lemma_place_facelet(p: Place)
    requires
        place_wf(p),
    ensures
        0 <= place_facelet(p) < NUM_FACELETS,
        facelet_place(place_facelet(p)) == p,
{
    reveal(facelet_place);
}

} // verus!
