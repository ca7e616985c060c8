//! The cube at the level of its cubies: which piece sits at each position
//! and how it is oriented there.  A transformation of the cube has the same
//! shape, and transformations compose by [`chain_corners`] and
//! [`chain_edges`].

use crate::cube::{Corner, Edge, RubiksCube, NUM_CORNERS, NUM_EDGES, NUM_SIDES};
use crate::cube::symmetry_facts::lemma_symmetry_facts;
use crate::cube::symmetry_laws::{lemma_symmetry_inverse, lemma_symmetry_shape};
use crate::cube::tables::{CORNER_TRANSFORM, EDGE_TRANSFORM, NUM_SYMMETRIES, SYMMETRY_INVERSE};
use crate::cube::turn::{Turn, TurnType, TurnWise, NUM_TURNTYPES, NUM_TURNWISES};
use crate::cube::turn_laws::{lemma_solved_is_solvable, lemma_turn_keeps_solvable};
use crate::math::{
    binomial, count_less, count_true, digits_value, factorial, is_permutation,
    lemma_binomial_factorial, lemma_count_less_ascending, lemma_count_less_push,
    lemma_digits_value_bound, lemma_factorial_table, lemma_map_nck_bound,
    lemma_map_permutation_bound, lemma_permutation_counts, lemma_pow_unfold, map_nck,
    map_permutation, pow_list, spec_map_nck, spec_map_permutation, FAC,
};
use vstd::arithmetic::power::pow;
use vstd::prelude::*;

verus! {

/// The orientation of a piece at its position.  A corner has 0, 1 or 2, or
/// 3, 4 or 5 once a reflection has mirrored it; an edge has 0 or 1.
pub type Ori = u32;

/// For each corner position the piece there and its orientation.
pub type CornerList = [(Corner, Ori); NUM_CORNERS];

/// For each edge position the piece there and its orientation.
pub type EdgeList = [(Edge, Ori); NUM_EDGES];

/// A state of the cube, or a transformation of it.
#[derive(PartialEq, Eq, Clone, Copy, Debug)]
pub struct CubieCube {
    pub corners: CornerList,
    pub edges: EdgeList,
}

/// The identity on corners: every piece at home, untwisted.
pub const TC_BASE: CornerList = [
    (Corner::URF, 0), (Corner::UBR, 0), (Corner::DLF, 0), (Corner::DFR, 0),
    (Corner::ULB, 0), (Corner::UFL, 0), (Corner::DRB, 0), (Corner::DBL, 0),
];

/// What a clockwise quarter turn of the up face does to the corners.
pub const TC_UP: CornerList = [
    (Corner::UBR, 0), (Corner::ULB, 0), (Corner::DLF, 0), (Corner::DFR, 0),
    (Corner::UFL, 0), (Corner::URF, 0), (Corner::DRB, 0), (Corner::DBL, 0),
];

/// What a clockwise quarter turn of the down face does to the corners.
pub const TC_DOWN: CornerList = [
    (Corner::URF, 0), (Corner::UBR, 0), (Corner::DBL, 0), (Corner::DLF, 0),
    (Corner::ULB, 0), (Corner::UFL, 0), (Corner::DFR, 0), (Corner::DRB, 0),
];

/// What a clockwise quarter turn of the back face does to the corners.
pub const TC_BACK: CornerList = [
    (Corner::URF, 0), (Corner::DRB, 1), (Corner::DLF, 0), (Corner::DFR, 0),
    (Corner::UBR, 2), (Corner::UFL, 0), (Corner::DBL, 2), (Corner::ULB, 1),
];

/// What a clockwise quarter turn of the front face does to the corners.
pub const TC_FRONT: CornerList = [
    (Corner::UFL, 2), (Corner::UBR, 0), (Corner::DFR, 2), (Corner::URF, 1),
    (Corner::ULB, 0), (Corner::DLF, 1), (Corner::DRB, 0), (Corner::DBL, 0),
];

/// What a clockwise quarter turn of the left face does to the corners.
pub const TC_LEFT: CornerList = [
    (Corner::URF, 0), (Corner::UBR, 0), (Corner::UFL, 1), (Corner::DFR, 0),
    (Corner::DBL, 1), (Corner::ULB, 2), (Corner::DRB, 0), (Corner::DLF, 2),
];

/// What a clockwise quarter turn of the right face does to the corners.
pub const TC_RIGHT: CornerList = [
    (Corner::DFR, 1), (Corner::URF, 2), (Corner::DLF, 0), (Corner::DRB, 2),
    (Corner::ULB, 0), (Corner::UFL, 0), (Corner::UBR, 1), (Corner::DBL, 0),
];

/// The identity on edges: every piece at home, unflipped.
pub const TE_BASE: EdgeList = [
    (Edge::UF, 0), (Edge::UR, 0), (Edge::UB, 0), (Edge::UL, 0),
    (Edge::DF, 0), (Edge::DR, 0), (Edge::DB, 0), (Edge::DL, 0),
    (Edge::FR, 0), (Edge::BR, 0), (Edge::BL, 0), (Edge::FL, 0),
];

/// What a clockwise quarter turn of the up face does to the edges.
pub const TE_UP: EdgeList = [
    (Edge::UR, 0), (Edge::UB, 0), (Edge::UL, 0), (Edge::UF, 0),
    (Edge::DF, 0), (Edge::DR, 0), (Edge::DB, 0), (Edge::DL, 0),
    (Edge::FR, 0), (Edge::BR, 0), (Edge::BL, 0), (Edge::FL, 0),
];

/// What a clockwise quarter turn of the down face does to the edges.
pub const TE_DOWN: EdgeList = [
    (Edge::UF, 0), (Edge::UR, 0), (Edge::UB, 0), (Edge::UL, 0),
    (Edge::DL, 0), (Edge::DF, 0), (Edge::DR, 0), (Edge::DB, 0),
    (Edge::FR, 0), (Edge::BR, 0), (Edge::BL, 0), (Edge::FL, 0),
];

/// What a clockwise quarter turn of the back face does to the edges.
pub const TE_BACK: EdgeList = [
    (Edge::UF, 0), (Edge::UR, 0), (Edge::BR, 1), (Edge::UL, 0),
    (Edge::DF, 0), (Edge::DR, 0), (Edge::BL, 1), (Edge::DL, 0),
    (Edge::FR, 0), (Edge::DB, 1), (Edge::UB, 1), (Edge::FL, 0),
];

/// What a clockwise quarter turn of the front face does to the edges.
pub const TE_FRONT: EdgeList = [
    (Edge::FL, 1), (Edge::UR, 0), (Edge::UB, 0), (Edge::UL, 0),
    (Edge::FR, 1), (Edge::DR, 0), (Edge::DB, 0), (Edge::DL, 0),
    (Edge::UF, 1), (Edge::BR, 0), (Edge::BL, 0), (Edge::DF, 1),
];

/// What a clockwise quarter turn of the left face does to the edges.
pub const TE_LEFT: EdgeList = [
    (Edge::UF, 0), (Edge::UR, 0), (Edge::UB, 0), (Edge::BL, 0),
    (Edge::DF, 0), (Edge::DR, 0), (Edge::DB, 0), (Edge::FL, 0),
    (Edge::FR, 0), (Edge::BR, 0), (Edge::DL, 0), (Edge::UL, 0),
];

/// What a clockwise quarter turn of the right face does to the edges.
pub const TE_RIGHT: EdgeList = [
    (Edge::UF, 0), (Edge::FR, 0), (Edge::UB, 0), (Edge::UL, 0),
    (Edge::DF, 0), (Edge::BR, 0), (Edge::DB, 0), (Edge::DL, 0),
    (Edge::DR, 0), (Edge::UR, 0), (Edge::BL, 0), (Edge::FL, 0),
];

/// Rotation by a third of a turn about the diagonal through URF and DBL, on corners.
pub const TC_S_URF3: CornerList = [
    (Corner::URF, 2), (Corner::UFL, 1), (Corner::DRB, 2), (Corner::UBR, 1),
    (Corner::DLF, 2), (Corner::DFR, 1), (Corner::ULB, 2), (Corner::DBL, 1),
];

/// Half turn about the axis through the front and back faces, on corners.
pub const TC_S_F2: CornerList = [
    (Corner::DLF, 0), (Corner::DBL, 0), (Corner::URF, 0), (Corner::UFL, 0),
    (Corner::DRB, 0), (Corner::DFR, 0), (Corner::ULB, 0), (Corner::UBR, 0),
];

/// Quarter turn about the axis through the up and down faces, on corners.
pub const TC_S_U4: CornerList = [
    (Corner::UBR, 0), (Corner::ULB, 0), (Corner::DFR, 0), (Corner::DRB, 0),
    (Corner::UFL, 0), (Corner::URF, 0), (Corner::DBL, 0), (Corner::DLF, 0),
];

/// Reflection in the plane between the left and right faces, on corners.
pub const TC_S_LR: CornerList = [
    (Corner::UFL, 3), (Corner::ULB, 3), (Corner::DFR, 3), (Corner::DLF, 3),
    (Corner::UBR, 3), (Corner::URF, 3), (Corner::DBL, 3), (Corner::DRB, 3),
];

/// Rotation by a third of a turn about the diagonal through URF and DBL, on edges.
pub const TE_S_URF3: EdgeList = [
    (Edge::FR, 0), (Edge::UF, 1), (Edge::FL, 0), (Edge::DF, 1),
    (Edge::BR, 0), (Edge::UB, 1), (Edge::BL, 0), (Edge::DB, 1),
    (Edge::UR, 1), (Edge::UL, 1), (Edge::DL, 1), (Edge::DR, 1),
];

/// Half turn about the axis through the front and back faces, on edges.
pub const TE_S_F2: EdgeList = [
    (Edge::DF, 0), (Edge::DL, 0), (Edge::DB, 0), (Edge::DR, 0),
    (Edge::UF, 0), (Edge::UL, 0), (Edge::UB, 0), (Edge::UR, 0),
    (Edge::FL, 0), (Edge::BL, 0), (Edge::BR, 0), (Edge::FR, 0),
];

/// Quarter turn about the axis through the up and down faces, on edges.
pub const TE_S_U4: EdgeList = [
    (Edge::UR, 0), (Edge::UB, 0), (Edge::UL, 0), (Edge::UF, 0),
    (Edge::DR, 0), (Edge::DB, 0), (Edge::DL, 0), (Edge::DF, 0),
    (Edge::BR, 1), (Edge::BL, 1), (Edge::FL, 1), (Edge::FR, 1),
];

/// Reflection in the plane between the left and right faces, on edges.
pub const TE_S_LR: EdgeList = [
    (Edge::UF, 0), (Edge::UL, 0), (Edge::UB, 0), (Edge::UR, 0),
    (Edge::DF, 0), (Edge::DL, 0), (Edge::DB, 0), (Edge::DR, 0),
    (Edge::FL, 0), (Edge::BL, 0), (Edge::BR, 0), (Edge::FR, 0),
];

/// Every position holds an orientation that a corner can have: 0 to 5.
pub open spec fn corners_wf(t: Seq<(Corner, Ori)>) -> bool {
    &&& t.len() == NUM_CORNERS
    &&& forall|i: int| 0 <= i < NUM_CORNERS ==> (#[trigger] t[i]).1 < 6
}

/// No corner is mirrored: every orientation is 0, 1 or 2.
pub open spec fn corners_regular(t: Seq<(Corner, Ori)>) -> bool {
    &&& t.len() == NUM_CORNERS
    &&& forall|i: int| 0 <= i < NUM_CORNERS ==> (#[trigger] t[i]).1 < 3
}

/// Every corner is mirrored: every orientation is 3, 4 or 5.
pub open spec fn corners_mirrored(t: Seq<(Corner, Ori)>) -> bool {
    &&& t.len() == NUM_CORNERS
    &&& forall|i: int| 0 <= i < NUM_CORNERS ==> 3 <= (#[trigger] t[i]).1 < 6
}

/// Every position holds an orientation that an edge can have: 0 or 1.
pub open spec fn edges_wf(t: Seq<(Edge, Ori)>) -> bool {
    &&& t.len() == NUM_EDGES
    &&& forall|i: int| 0 <= i < NUM_EDGES ==> (#[trigger] t[i]).1 < 2
}

/// The orientation that results when a corner with orientation `o1` is
/// carried along by a transformation that adds `o2`.  Two unmirrored
/// twists add modulo 3.  A mirrored `o2` on an unmirrored `o1` adds and
/// stays in 3, 4, 5.  Whenever `o1` is mirrored the twists subtract
/// modulo 3.
pub open spec fn compose_corner_ori(o1: Ori, o2: Ori) -> Ori {
    if o1 < 3 && o2 < 3 {
        ((o1 + o2) % 3) as Ori
    } else if o1 >= 3 && o2 >= 3 {
        ((o1 - o2) % 3) as Ori
    } else if o2 >= 3 {
        if o1 + o2 >= 6 {
            (o1 + o2 - 3) as Ori
        } else {
            (o1 + o2) as Ori
        }
    } else {
        ((o1 - o2) % 3) as Ori
    }
}

/// The orientation of an edge after two flips.
pub open spec fn compose_edge_ori(o1: Ori, o2: Ori) -> Ori {
    ((o1 + o2) % 2) as Ori
}

/// What stands at corner position `i` once `t2` has been applied to `t1`:
/// `t2` names the position it takes the piece from, and `t1` says what was
/// there.
pub open spec fn spec_chain_corner_at(
    t1: Seq<(Corner, Ori)>,
    t2: Seq<(Corner, Ori)>,
    i: int,
) -> (Corner, Ori) {
    let (c2, o2) = t2[i];
    let (c1, o1) = t1[c2.spec_index()];
    (c1, compose_corner_ori(o1, o2))
}

/// The composition of two corner transformations: first `t1`, then `t2`.
pub open spec fn spec_chain_corners(t1: Seq<(Corner, Ori)>, t2: Seq<(Corner, Ori)>) -> Seq<
    (Corner, Ori),
> {
    Seq::new(NUM_CORNERS as nat, |i: int| spec_chain_corner_at(t1, t2, i))
}

/// What stands at edge position `i` once `t2` has been applied to `t1`.
pub open spec fn spec_chain_edge_at(t1: Seq<(Edge, Ori)>, t2: Seq<(Edge, Ori)>, i: int) -> (
    Edge,
    Ori,
) {
    let (e2, o2) = t2[i];
    let (e1, o1) = t1[e2.spec_index()];
    (e1, compose_edge_ori(o1, o2))
}

/// The composition of two edge transformations: first `t1`, then `t2`.
pub open spec fn spec_chain_edges(t1: Seq<(Edge, Ori)>, t2: Seq<(Edge, Ori)>) -> Seq<(Edge, Ori)> {
    Seq::new(NUM_EDGES as nat, |i: int| spec_chain_edge_at(t1, t2, i))
}

/// Composes two corner transformations: the result does what `t1` followed
/// by `t2` does.  Two unmirrored operands give an unmirrored result.
pub fn chain_corners(t1: CornerList, t2: CornerList) -> (out: CornerList)
    requires
        corners_wf(t1@),
        corners_wf(t2@),
    ensures
        out@ == spec_chain_corners(t1@, t2@),
        corners_wf(out@),
        corners_regular(t1@) && corners_regular(t2@) ==> corners_regular(out@),
{
    let mut out = TC_BASE;
    let mut i: usize = 0;
    while i < NUM_CORNERS
        invariant
            i <= NUM_CORNERS,
            corners_wf(t1@),
            corners_wf(t2@),
            forall|j: int| 0 <= j < i ==> out@[j] == spec_chain_corner_at(t1@, t2@, j),
        decreases NUM_CORNERS - i,
    {
        let (c2, o2) = t2[i];
        let (c1, o1) = t1[c2.index()];
        let r_ori: Ori = if o1 < 3 && o2 < 3 {
            (o1 + o2) % 3
        } else if o1 >= 3 && o2 >= 3 {
            // both mirrored: the reflections cancel
            (o1 + 3 - o2) % 3
        } else if o2 >= 3 {
            let ori = o1 + o2;
            if ori >= 6 {
                ori - 3
            } else {
                ori
            }
        } else {
            (o1 - o2) % 3
        };
        out[i] = (c1, r_ori);
        i += 1;
    }
    assert(out@ =~= spec_chain_corners(t1@, t2@));
    out
}

/// Composes two edge transformations: the result does what `t1` followed by
/// `t2` does.
pub fn chain_edges(t1: EdgeList, t2: EdgeList) -> (out: EdgeList)
    requires
        edges_wf(t1@),
        edges_wf(t2@),
    ensures
        out@ == spec_chain_edges(t1@, t2@),
        edges_wf(out@),
{
    let mut out = TE_BASE;
    let mut i: usize = 0;
    while i < NUM_EDGES
        invariant
            i <= NUM_EDGES,
            edges_wf(t1@),
            edges_wf(t2@),
            forall|j: int| 0 <= j < i ==> out@[j] == spec_chain_edge_at(t1@, t2@, j),
        decreases NUM_EDGES - i,
    {
        let (e2, o2) = t2[i];
        let (e1, o1) = t1[e2.index()];
        out[i] = (e1, (o1 + o2) % 2);
        i += 1;
    }
    assert(out@ =~= spec_chain_edges(t1@, t2@));
    out
}

/// What a clockwise quarter turn of a face does to the corners.
pub open spec fn corner_quarter_turn(side: TurnType) -> Seq<(Corner, Ori)> {
    match side {
        TurnType::U => TC_UP@,
        TurnType::D => TC_DOWN@,
        TurnType::B => TC_BACK@,
        TurnType::F => TC_FRONT@,
        TurnType::L => TC_LEFT@,
        TurnType::R => TC_RIGHT@,
    }
}

/// What a clockwise quarter turn of a face does to the edges.
pub open spec fn edge_quarter_turn(side: TurnType) -> Seq<(Edge, Ori)> {
    match side {
        TurnType::U => TE_UP@,
        TurnType::D => TE_DOWN@,
        TurnType::B => TE_BACK@,
        TurnType::F => TE_FRONT@,
        TurnType::L => TE_LEFT@,
        TurnType::R => TE_RIGHT@,
    }
}

/// What a turn does to the corners: the quarter turn of its face, composed
/// with itself once for a half turn and twice for three quarters.
pub open spec fn spec_corner_transform(side: TurnType, wise: TurnWise) -> Seq<(Corner, Ori)> {
    let q = corner_quarter_turn(side);
    match wise {
        TurnWise::Clockwise => q,
        TurnWise::Double => spec_chain_corners(q, q),
        TurnWise::CounterClockwise => spec_chain_corners(q, spec_chain_corners(q, q)),
    }
}

/// What a turn does to the edges.
pub open spec fn spec_edge_transform(side: TurnType, wise: TurnWise) -> Seq<(Edge, Ori)> {
    let q = edge_quarter_turn(side);
    match wise {
        TurnWise::Clockwise => q,
        TurnWise::Double => spec_chain_edges(q, q),
        TurnWise::CounterClockwise => spec_chain_edges(q, spec_chain_edges(q, q)),
    }
}

/// The table of corner transformations holds, for every turn, the
/// composition of quarter turns that defines it, and no turn mirrors a
/// corner.
#[verifier::rlimit(50)]
pub proof fn lemma_corner_transform_table(side: TurnType, wise: TurnWise)
    ensures
        CORNER_TRANSFORM@[side.spec_index()]@[wise.spec_index()]@ == spec_corner_transform(
            side,
            wise,
        ),
        corners_regular(spec_corner_transform(side, wise)),
{
    match side {
        TurnType::U => {
            assert(CORNER_TRANSFORM@[0]@[0]@ =~= TC_UP@);
            assert(CORNER_TRANSFORM@[0]@[1]@ =~= spec_chain_corners(TC_UP@, TC_UP@));
            assert(CORNER_TRANSFORM@[0]@[2]@ =~= spec_chain_corners(
                TC_UP@,
                CORNER_TRANSFORM@[0]@[1]@,
            ));
        },
        TurnType::D => {
            assert(CORNER_TRANSFORM@[1]@[0]@ =~= TC_DOWN@);
            assert(CORNER_TRANSFORM@[1]@[1]@ =~= spec_chain_corners(TC_DOWN@, TC_DOWN@));
            assert(CORNER_TRANSFORM@[1]@[2]@ =~= spec_chain_corners(
                TC_DOWN@,
                CORNER_TRANSFORM@[1]@[1]@,
            ));
        },
        TurnType::B => {
            assert(CORNER_TRANSFORM@[2]@[0]@ =~= TC_BACK@);
            assert(CORNER_TRANSFORM@[2]@[1]@ =~= spec_chain_corners(TC_BACK@, TC_BACK@));
            assert(CORNER_TRANSFORM@[2]@[2]@ =~= spec_chain_corners(
                TC_BACK@,
                CORNER_TRANSFORM@[2]@[1]@,
            ));
        },
        TurnType::F => {
            assert(CORNER_TRANSFORM@[3]@[0]@ =~= TC_FRONT@);
            assert(CORNER_TRANSFORM@[3]@[1]@ =~= spec_chain_corners(TC_FRONT@, TC_FRONT@));
            assert(CORNER_TRANSFORM@[3]@[2]@ =~= spec_chain_corners(
                TC_FRONT@,
                CORNER_TRANSFORM@[3]@[1]@,
            ));
        },
        TurnType::L => {
            assert(CORNER_TRANSFORM@[4]@[0]@ =~= TC_LEFT@);
            assert(CORNER_TRANSFORM@[4]@[1]@ =~= spec_chain_corners(TC_LEFT@, TC_LEFT@));
            assert(CORNER_TRANSFORM@[4]@[2]@ =~= spec_chain_corners(
                TC_LEFT@,
                CORNER_TRANSFORM@[4]@[1]@,
            ));
        },
        TurnType::R => {
            assert(CORNER_TRANSFORM@[5]@[0]@ =~= TC_RIGHT@);
            assert(CORNER_TRANSFORM@[5]@[1]@ =~= spec_chain_corners(TC_RIGHT@, TC_RIGHT@));
            assert(CORNER_TRANSFORM@[5]@[2]@ =~= spec_chain_corners(
                TC_RIGHT@,
                CORNER_TRANSFORM@[5]@[1]@,
            ));
        },
    }
}

/// The table of edge transformations holds, for every turn, the composition
/// of quarter turns that defines it.
#[verifier::rlimit(50)]
pub proof fn lemma_edge_transform_table(side: TurnType, wise: TurnWise)
    ensures
        EDGE_TRANSFORM@[side.spec_index()]@[wise.spec_index()]@ == spec_edge_transform(side, wise),
        edges_wf(spec_edge_transform(side, wise)),
{
    match side {
        TurnType::U => {
            assert(EDGE_TRANSFORM@[0]@[0]@ =~= TE_UP@);
            assert(EDGE_TRANSFORM@[0]@[1]@ =~= spec_chain_edges(TE_UP@, TE_UP@));
            assert(EDGE_TRANSFORM@[0]@[2]@ =~= spec_chain_edges(TE_UP@, EDGE_TRANSFORM@[0]@[1]@));
        },
        TurnType::D => {
            assert(EDGE_TRANSFORM@[1]@[0]@ =~= TE_DOWN@);
            assert(EDGE_TRANSFORM@[1]@[1]@ =~= spec_chain_edges(TE_DOWN@, TE_DOWN@));
            assert(EDGE_TRANSFORM@[1]@[2]@ =~= spec_chain_edges(
                TE_DOWN@,
                EDGE_TRANSFORM@[1]@[1]@,
            ));
        },
        TurnType::B => {
            assert(EDGE_TRANSFORM@[2]@[0]@ =~= TE_BACK@);
            assert(EDGE_TRANSFORM@[2]@[1]@ =~= spec_chain_edges(TE_BACK@, TE_BACK@));
            assert(EDGE_TRANSFORM@[2]@[2]@ =~= spec_chain_edges(
                TE_BACK@,
                EDGE_TRANSFORM@[2]@[1]@,
            ));
        },
        TurnType::F => {
            assert(EDGE_TRANSFORM@[3]@[0]@ =~= TE_FRONT@);
            assert(EDGE_TRANSFORM@[3]@[1]@ =~= spec_chain_edges(TE_FRONT@, TE_FRONT@));
            assert(EDGE_TRANSFORM@[3]@[2]@ =~= spec_chain_edges(
                TE_FRONT@,
                EDGE_TRANSFORM@[3]@[1]@,
            ));
        },
        TurnType::L => {
            assert(EDGE_TRANSFORM@[4]@[0]@ =~= TE_LEFT@);
            assert(EDGE_TRANSFORM@[4]@[1]@ =~= spec_chain_edges(TE_LEFT@, TE_LEFT@));
            assert(EDGE_TRANSFORM@[4]@[2]@ =~= spec_chain_edges(
                TE_LEFT@,
                EDGE_TRANSFORM@[4]@[1]@,
            ));
        },
        TurnType::R => {
            assert(EDGE_TRANSFORM@[5]@[0]@ =~= TE_RIGHT@);
            assert(EDGE_TRANSFORM@[5]@[1]@ =~= spec_chain_edges(TE_RIGHT@, TE_RIGHT@));
            assert(EDGE_TRANSFORM@[5]@[2]@ =~= spec_chain_edges(
                TE_RIGHT@,
                EDGE_TRANSFORM@[5]@[1]@,
            ));
        },
    }
}

/// The table of corner transformations agrees with the definition of every
/// turn.
pub open spec fn corner_transform_table_holds() -> bool {
    forall|side: TurnType, wise: TurnWise|
        CORNER_TRANSFORM@[side.spec_index()]@[wise.spec_index()]@ == #[trigger] spec_corner_transform(
            side,
            wise,
        ) && corners_regular(spec_corner_transform(side, wise))
}

/// The table of edge transformations agrees with the definition of every
/// turn.
pub open spec fn edge_transform_table_holds() -> bool {
    forall|side: TurnType, wise: TurnWise|
        EDGE_TRANSFORM@[side.spec_index()]@[wise.spec_index()]@ == #[trigger] spec_edge_transform(
            side,
            wise,
        ) && edges_wf(spec_edge_transform(side, wise))
}

/// [`lemma_corner_transform_table`], for all turns at once.
pub proof fn lemma_corner_transform_tables()
    ensures
        corner_transform_table_holds(),
{
    assert forall|side: TurnType, wise: TurnWise|
        CORNER_TRANSFORM@[side.spec_index()]@[wise.spec_index()]@ == #[trigger] spec_corner_transform(
            side,
            wise,
        ) && corners_regular(spec_corner_transform(side, wise)) by {
        lemma_corner_transform_table(side, wise);
    }
}

/// [`lemma_edge_transform_table`], for all turns at once.
pub proof fn lemma_edge_transform_tables()
    ensures
        edge_transform_table_holds(),
{
    assert forall|side: TurnType, wise: TurnWise|
        EDGE_TRANSFORM@[side.spec_index()]@[wise.spec_index()]@ == #[trigger] spec_edge_transform(
            side,
            wise,
        ) && edges_wf(spec_edge_transform(side, wise)) by {
        lemma_edge_transform_table(side, wise);
    }
}

/// `t` followed by `n` applications of `g`, on corners.
pub open spec fn spec_corner_power(t: Seq<(Corner, Ori)>, g: Seq<(Corner, Ori)>, n: nat) -> Seq<
    (Corner, Ori),
>
    decreases n,
{
    if n == 0 {
        t
    } else {
        spec_chain_corners(spec_corner_power(t, g, (n - 1) as nat), g)
    }
}

/// `t` followed by `n` applications of `g`, on edges.
pub open spec fn spec_edge_power(t: Seq<(Edge, Ori)>, g: Seq<(Edge, Ori)>, n: nat) -> Seq<
    (Edge, Ori),
>
    decreases n,
{
    if n == 0 {
        t
    } else {
        spec_chain_edges(spec_edge_power(t, g, (n - 1) as nat), g)
    }
}

/// The symmetry made of `x1` rotations about the URF-DBL diagonal, then `x2`
/// half turns about the front-back axis, then `x3` quarter turns about the
/// up-down axis, then `x4` reflections in the LR plane, on corners.
pub open spec fn spec_symmetry_corners_from(x1: nat, x2: nat, x3: nat, x4: nat) -> Seq<
    (Corner, Ori),
> {
    spec_corner_power(
        spec_corner_power(
            spec_corner_power(spec_corner_power(TC_BASE@, TC_S_URF3@, x1), TC_S_F2@, x2),
            TC_S_U4@,
            x3,
        ),
        TC_S_LR@,
        x4,
    )
}

/// The symmetry made of `x1`, `x2`, `x3` and `x4` applications of the four
/// generators, on edges.
pub open spec fn spec_symmetry_edges_from(x1: nat, x2: nat, x3: nat, x4: nat) -> Seq<(Edge, Ori)> {
    spec_edge_power(
        spec_edge_power(
            spec_edge_power(spec_edge_power(TE_BASE@, TE_S_URF3@, x1), TE_S_F2@, x2),
            TE_S_U4@,
            x3,
        ),
        TE_S_LR@,
        x4,
    )
}

/// The symmetry at index `s = 16 * x1 + 8 * x2 + 2 * x3 + x4`, on corners:
/// `x1` rotations about the URF-DBL diagonal, then `x2` half turns about
/// the front-back axis, then `x3` quarter turns about the up-down axis,
/// then `x4` reflections in the LR plane.
pub open spec fn spec_symmetry_corners(s: int) -> Seq<(Corner, Ori)> {
    spec_symmetry_corners_from(
        (s / 16) as nat,
        ((s / 8) % 2) as nat,
        ((s / 2) % 4) as nat,
        (s % 2) as nat,
    )
}

/// The symmetry at index `s = 16 * x1 + 8 * x2 + 2 * x3 + x4`, on edges.
pub open spec fn spec_symmetry_edges(s: int) -> Seq<(Edge, Ori)> {
    spec_symmetry_edges_from(
        (s / 16) as nat,
        ((s / 8) % 2) as nat,
        ((s / 2) % 4) as nat,
        (s % 2) as nat,
    )
}

/// Whether the symmetry at index `j` undoes the one at index `i`: the first
/// followed by the second is the identity, on corners and on edges.
pub open spec fn is_symmetry_inverse(i: int, j: int) -> bool {
    &&& spec_chain_corners(spec_symmetry_corners(i), spec_symmetry_corners(j)) =~= TC_BASE@
    &&& spec_chain_edges(spec_symmetry_edges(i), spec_symmetry_edges(j)) =~= TE_BASE@
}

/// No corner piece stands at two positions, so every piece stands at one.
pub open spec fn corners_permutation(t: Seq<(Corner, Ori)>) -> bool {
    &&& t.len() == NUM_CORNERS
    &&& forall|i: int, j: int|
        0 <= i < j < NUM_CORNERS ==> (#[trigger] t[i]).0 != (#[trigger] t[j]).0
}

/// No edge piece stands at two positions, so every piece stands at one.
pub open spec fn edges_permutation(t: Seq<(Edge, Ori)>) -> bool {
    &&& t.len() == NUM_EDGES
    &&& forall|i: int, j: int|
        0 <= i < j < NUM_EDGES ==> (#[trigger] t[i]).0 != (#[trigger] t[j]).0
}

/// The cube `c` seen through the symmetry at index `sym`, on corners: the
/// symmetry, then what gives `c`, then the inverse of the symmetry.
pub open spec fn spec_conjugate_corners(c: Seq<(Corner, Ori)>, sym: int) -> Seq<(Corner, Ori)> {
    spec_chain_corners(
        spec_symmetry_corners(sym),
        spec_chain_corners(c, spec_symmetry_corners(SYMMETRY_INVERSE@[sym] as int)),
    )
}

/// The cube `e` seen through the symmetry at index `sym`, on edges.
pub open spec fn spec_conjugate_edges(e: Seq<(Edge, Ori)>, sym: int) -> Seq<(Edge, Ori)> {
    spec_chain_edges(
        spec_symmetry_edges(sym),
        spec_chain_edges(e, spec_symmetry_edges(SYMMETRY_INVERSE@[sym] as int)),
    )
}

/// Builds the table of the eighteen corner transformations from the six
/// quarter turns.
pub fn generate_corner_transform_table() -> (out: [[CornerList; NUM_TURNWISES]; NUM_TURNTYPES])
    ensures
        out@ == CORNER_TRANSFORM@,
        forall|side: TurnType, wise: TurnWise|
            out@[side.spec_index()]@[wise.spec_index()]@ == #[trigger] spec_corner_transform(
                side,
                wise,
            ),
{
    let base: [CornerList; NUM_SIDES] = [TC_UP, TC_DOWN, TC_BACK, TC_FRONT, TC_LEFT, TC_RIGHT];
    let mut out = [[TC_BASE; NUM_TURNWISES]; NUM_TURNTYPES];
    proof {
        lemma_corner_transform_tables();
    }
    let mut i: usize = 0;
    while i < NUM_SIDES
        invariant
            i <= NUM_SIDES,
            base@ == seq![TC_UP, TC_DOWN, TC_BACK, TC_FRONT, TC_LEFT, TC_RIGHT],
            corner_transform_table_holds(),
            forall|k: int| 0 <= k < i ==> #[trigger] out@[k] == CORNER_TRANSFORM@[k],
        decreases NUM_SIDES - i,
    {
        let quarter = base[i];
        let half = chain_corners(quarter, quarter);
        let three = chain_corners(quarter, half);
        let row = [quarter, half, three];
        proof {
            let side = TurnType::spec_from_index(i as int);
            assert(row@[0]@ == spec_corner_transform(side, TurnWise::Clockwise));
            assert(row@[1]@ == spec_corner_transform(side, TurnWise::Double));
            assert(row@[2]@ == spec_corner_transform(side, TurnWise::CounterClockwise));
            assert(row@[0] =~= CORNER_TRANSFORM@[i as int]@[0]);
            assert(row@[1] =~= CORNER_TRANSFORM@[i as int]@[1]);
            assert(row@[2] =~= CORNER_TRANSFORM@[i as int]@[2]);
            assert(row@ =~= CORNER_TRANSFORM@[i as int]@);
            assert(row =~= CORNER_TRANSFORM@[i as int]);
        }
        out[i] = row;
        i += 1;
    }
    assert(out@ =~= CORNER_TRANSFORM@);
    out
}

/// Builds the table of the eighteen edge transformations from the six
/// quarter turns.
pub fn generate_edge_transform_table() -> (out: [[EdgeList; NUM_TURNWISES]; NUM_TURNTYPES])
    ensures
        out@ == EDGE_TRANSFORM@,
        forall|side: TurnType, wise: TurnWise|
            out@[side.spec_index()]@[wise.spec_index()]@ == #[trigger] spec_edge_transform(
                side,
                wise,
            ),
{
    let base: [EdgeList; NUM_SIDES] = [TE_UP, TE_DOWN, TE_BACK, TE_FRONT, TE_LEFT, TE_RIGHT];
    let mut out = [[TE_BASE; NUM_TURNWISES]; NUM_TURNTYPES];
    proof {
        lemma_edge_transform_tables();
    }
    let mut i: usize = 0;
    while i < NUM_SIDES
        invariant
            i <= NUM_SIDES,
            base@ == seq![TE_UP, TE_DOWN, TE_BACK, TE_FRONT, TE_LEFT, TE_RIGHT],
            edge_transform_table_holds(),
            forall|k: int| 0 <= k < i ==> #[trigger] out@[k] == EDGE_TRANSFORM@[k],
        decreases NUM_SIDES - i,
    {
        let quarter = base[i];
        let half = chain_edges(quarter, quarter);
        let three = chain_edges(quarter, half);
        let row = [quarter, half, three];
        proof {
            let side = TurnType::spec_from_index(i as int);
            assert(row@[0]@ == spec_edge_transform(side, TurnWise::Clockwise));
            assert(row@[1]@ == spec_edge_transform(side, TurnWise::Double));
            assert(row@[2]@ == spec_edge_transform(side, TurnWise::CounterClockwise));
            assert(row@[0] =~= EDGE_TRANSFORM@[i as int]@[0]);
            assert(row@[1] =~= EDGE_TRANSFORM@[i as int]@[1]);
            assert(row@[2] =~= EDGE_TRANSFORM@[i as int]@[2]);
            assert(row@ =~= EDGE_TRANSFORM@[i as int]@);
            assert(row =~= EDGE_TRANSFORM@[i as int]);
        }
        out[i] = row;
        i += 1;
    }
    assert(out@ =~= EDGE_TRANSFORM@);
    out
}

/// Applies the transformation `(gc, ge)` to `(tc, te)`, `n` times over.
fn chain_repeated(tc: CornerList, te: EdgeList, gc: CornerList, ge: EdgeList, n: usize) -> (out: (
    CornerList,
    EdgeList,
))
    requires
        corners_wf(tc@),
        edges_wf(te@),
        corners_wf(gc@),
        edges_wf(ge@),
    ensures
        out.0@ == spec_corner_power(tc@, gc@, n as nat),
        out.1@ == spec_edge_power(te@, ge@, n as nat),
        corners_wf(out.0@),
        edges_wf(out.1@),
{
    let mut c = tc;
    let mut e = te;
    let mut k: usize = 0;
    while k < n
        invariant
            k <= n,
            corners_wf(gc@),
            edges_wf(ge@),
            corners_wf(c@),
            edges_wf(e@),
            c@ == spec_corner_power(tc@, gc@, k as nat),
            e@ == spec_edge_power(te@, ge@, k as nat),
        decreases n - k,
    {
        c = chain_corners(c, gc);
        e = chain_edges(e, ge);
        k += 1;
    }
    (c, e)
}

/// The symmetry made of `x1` rotations about the URF-DBL diagonal, `x2`
/// half turns about the front-back axis, `x3` quarter turns about the
/// up-down axis and `x4` reflections in the LR plane, in this order.
fn symmetry_from_exponents(x1: usize, x2: usize, x3: usize, x4: usize) -> (out: (
    CornerList,
    EdgeList,
))
    requires
        x1 < 3,
        x2 < 2,
        x3 < 4,
        x4 < 2,
    ensures
        out.0@ == spec_symmetry_corners_from(x1 as nat, x2 as nat, x3 as nat, x4 as nat),
        out.1@ == spec_symmetry_edges_from(x1 as nat, x2 as nat, x3 as nat, x4 as nat),
        corners_wf(out.0@),
        edges_wf(out.1@),
{
    let (tc, te) = chain_repeated(TC_BASE, TE_BASE, TC_S_URF3, TE_S_URF3, x1);
    let (tc, te) = chain_repeated(tc, te, TC_S_F2, TE_S_F2, x2);
    let (tc, te) = chain_repeated(tc, te, TC_S_U4, TE_S_U4, x3);
    let (tc, te) = chain_repeated(tc, te, TC_S_LR, TE_S_LR, x4);
    (tc, te)
}

/// The symmetry at index `sym`, on corners and on edges.
pub fn symmetry(sym: usize) -> (out: (CornerList, EdgeList))
    requires
        sym < NUM_SYMMETRIES,
    ensures
        out.0@ == spec_symmetry_corners(sym as int),
        out.1@ == spec_symmetry_edges(sym as int),
        corners_wf(out.0@),
        edges_wf(out.1@),
{
    symmetry_from_exponents(sym / 16, (sym / 8) % 2, (sym / 2) % 4, sym % 2)
}

/// Builds all forty-eight symmetries, each at its index.
pub fn generate_symmetries() -> (out: [(CornerList, EdgeList); NUM_SYMMETRIES])
    ensures
        forall|s: int|
            0 <= s < NUM_SYMMETRIES ==> {
                &&& (#[trigger] out@[s]).0@ == spec_symmetry_corners(s)
                &&& out@[s].1@ == spec_symmetry_edges(s)
                &&& corners_wf(out@[s].0@)
                &&& edges_wf(out@[s].1@)
            },
{
    let base = (TC_BASE, TE_BASE);
    let mut out = [base; NUM_SYMMETRIES];
    let mut x1: usize = 0;
    while x1 < 3
        invariant
            x1 <= 3,
            forall|s: int|
                0 <= s < 16 * x1 ==> {
                    &&& (#[trigger] out@[s]).0@ == spec_symmetry_corners(s)
                    &&& out@[s].1@ == spec_symmetry_edges(s)
                    &&& corners_wf(out@[s].0@)
                    &&& edges_wf(out@[s].1@)
                },
        decreases 3 - x1,
    {
        let mut x2: usize = 0;
        while x2 < 2
            invariant
                x1 < 3,
                x2 <= 2,
                forall|s: int|
                    0 <= s < 16 * x1 + 8 * x2 ==> {
                        &&& (#[trigger] out@[s]).0@ == spec_symmetry_corners(s)
                        &&& out@[s].1@ == spec_symmetry_edges(s)
                        &&& corners_wf(out@[s].0@)
                        &&& edges_wf(out@[s].1@)
                    },
            decreases 2 - x2,
        {
            let mut x3: usize = 0;
            while x3 < 4
                invariant
                    x1 < 3,
                    x2 < 2,
                    x3 <= 4,
                    forall|s: int|
                        0 <= s < 16 * x1 + 8 * x2 + 2 * x3 ==> {
                            &&& (#[trigger] out@[s]).0@ == spec_symmetry_corners(s)
                            &&& out@[s].1@ == spec_symmetry_edges(s)
                            &&& corners_wf(out@[s].0@)
                            &&& edges_wf(out@[s].1@)
                        },
                decreases 4 - x3,
            {
                let mut x4: usize = 0;
                while x4 < 2
                    invariant
                        x1 < 3,
                        x2 < 2,
                        x3 < 4,
                        x4 <= 2,
                        forall|s: int|
                            0 <= s < 16 * x1 + 8 * x2 + 2 * x3 + x4 ==> {
                                &&& (#[trigger] out@[s]).0@ == spec_symmetry_corners(s)
                                &&& out@[s].1@ == spec_symmetry_edges(s)
                                &&& corners_wf(out@[s].0@)
                                &&& edges_wf(out@[s].1@)
                            },
                    decreases 2 - x4,
                {
                    let (tc, te) = symmetry_from_exponents(x1, x2, x3, x4);
                    let idx = 16 * x1 + 8 * x2 + 2 * x3 + x4;
                    assert(idx / 16 == x1 && (idx / 8) % 2 == x2 && (idx / 2) % 4 == x3 && idx % 2
                        == x4);
                    out[idx] = (tc, te);
                    x4 += 1;
                }
                x3 += 1;
            }
            x2 += 1;
        }
        x1 += 1;
    }
    out
}

/// Whether a corner transformation is the identity.
fn is_c_base(c: CornerList) -> (res: bool)
    ensures
        res <==> c@ == TC_BASE@,
{
    let mut i: usize = 0;
    while i < NUM_CORNERS
        invariant
            i <= NUM_CORNERS,
            forall|k: int| 0 <= k < i ==> c@[k] == TC_BASE@[k],
        decreases NUM_CORNERS - i,
    {
        let (e, o) = c[i];
        let (a, b) = TC_BASE[i];
        if e.index() != a.index() || o != b {
            assert(c@[i as int] != TC_BASE@[i as int]);
            return false;
        }
        i += 1;
    }
    assert(c@ =~= TC_BASE@);
    true
}

/// Whether an edge transformation is the identity.
fn is_e_base(c: EdgeList) -> (res: bool)
    ensures
        res <==> c@ == TE_BASE@,
{
    let mut i: usize = 0;
    while i < NUM_EDGES
        invariant
            i <= NUM_EDGES,
            forall|k: int| 0 <= k < i ==> c@[k] == TE_BASE@[k],
        decreases NUM_EDGES - i,
    {
        let (e, o) = c[i];
        let (a, b) = TE_BASE[i];
        if e.index() != a.index() || o != b {
            assert(c@[i as int] != TE_BASE@[i as int]);
            return false;
        }
        i += 1;
    }
    assert(c@ =~= TE_BASE@);
    true
}

/// Finds, for every symmetry, the index of the symmetry that undoes it, by
/// trying all forty-eight.  Each has exactly one.
pub fn generate_symmetry_inverse_list() -> (out: [usize; NUM_SYMMETRIES])
    ensures
        out@ == SYMMETRY_INVERSE@,
        forall|i: int, j: int|
            0 <= i < NUM_SYMMETRIES && 0 <= j < NUM_SYMMETRIES ==> (#[trigger] is_symmetry_inverse(
                i,
                j,
            ) <==> j == out@[i]),
{
    let symmetries = generate_symmetries();
    let mut out = [NUM_SYMMETRIES; NUM_SYMMETRIES];
    let mut i: usize = 0;
    while i < NUM_SYMMETRIES
        invariant
            i <= NUM_SYMMETRIES,
            forall|s: int|
                0 <= s < NUM_SYMMETRIES ==> {
                    &&& (#[trigger] symmetries@[s]).0@ == spec_symmetry_corners(s)
                    &&& symmetries@[s].1@ == spec_symmetry_edges(s)
                    &&& corners_wf(symmetries@[s].0@)
                    &&& edges_wf(symmetries@[s].1@)
                },
            forall|k: int| 0 <= k < i ==> out@[k] == SYMMETRY_INVERSE@[k],
            forall|k: int| i <= k < NUM_SYMMETRIES ==> out@[k] == NUM_SYMMETRIES,
        decreases NUM_SYMMETRIES - i,
    {
        proof {
            lemma_symmetry_inverse(i as int, SYMMETRY_INVERSE@[i as int] as int);
        }
        let mut j: usize = 0;
        while j < NUM_SYMMETRIES
            invariant_except_break
                out@[i as int] == NUM_SYMMETRIES,
            invariant
                i < NUM_SYMMETRIES,
                j <= NUM_SYMMETRIES,
                forall|s: int|
                    0 <= s < NUM_SYMMETRIES ==> {
                        &&& (#[trigger] symmetries@[s]).0@ == spec_symmetry_corners(s)
                        &&& symmetries@[s].1@ == spec_symmetry_edges(s)
                        &&& corners_wf(symmetries@[s].0@)
                        &&& edges_wf(symmetries@[s].1@)
                    },
                forall|k: int| 0 <= k < i ==> out@[k] == SYMMETRY_INVERSE@[k],
                forall|k: int| i < k < NUM_SYMMETRIES ==> out@[k] == NUM_SYMMETRIES,
                j <= SYMMETRY_INVERSE@[i as int] < NUM_SYMMETRIES,
            ensures
                out@[i as int] == SYMMETRY_INVERSE@[i as int],
            decreases NUM_SYMMETRIES - j,
        {
            let (tc1, te1) = symmetries[i];
            let (tc2, te2) = symmetries[j];
            let r1 = is_c_base(chain_corners(tc1, tc2));
            let r2 = is_e_base(chain_edges(te1, te2));
            assert((r1 && r2) <==> j == SYMMETRY_INVERSE@[i as int]) by {
                lemma_symmetry_inverse(i as int, j as int);
            }
            if r1 && r2 {
                out[i] = j;
                break ;
            }
            j += 1;
        }
        i += 1;
    }
    assert(out@ =~= SYMMETRY_INVERSE@);
    assert forall|i: int, j: int|
        0 <= i < NUM_SYMMETRIES && 0 <= j < NUM_SYMMETRIES implies (#[trigger] is_symmetry_inverse(
        i,
        j,
    ) <==> j == out@[i]) by {
        lemma_symmetry_inverse(i, j);
    }
    out
}

impl CubieCube {
    /// Orientations are in range: 0 to 5 on corners, 0 or 1 on edges.
    pub open spec fn well_formed(&self) -> bool {
        corners_wf(self.corners@) && edges_wf(self.edges@)
    }

    /// Orientations are in range and no corner is mirrored, as on a cube
    /// that one can hold.
    pub open spec fn is_regular(&self) -> bool {
        corners_regular(self.corners@) && edges_wf(self.edges@)
    }
}

/// The cube that `cube` would be if the world were turned by the symmetry at
/// index `sym`.  A cube without mirrored corners stays one.
pub fn get_symmetry(cube: &CubieCube, sym: usize) -> (res: CubieCube)
    requires
        cube.well_formed(),
        sym < NUM_SYMMETRIES,
    ensures
        res.corners@ == spec_conjugate_corners(cube.corners@, sym as int),
        res.edges@ == spec_conjugate_edges(cube.edges@, sym as int),
        res.well_formed(),
        cube.is_regular() ==> res.is_regular(),
{
    proof {
        lemma_symmetry_facts(sym as int);
    }
    let inv = SYMMETRY_INVERSE[sym];
    let c = cube.corners;
    let e = cube.edges;

    let (tc, te) = symmetry(sym);
    let (tci, tei) = symmetry(inv);

    let c_mid = chain_corners(c, tci);
    let c_res = chain_corners(tc, c_mid);
    let e_res = chain_edges(te, chain_edges(e, tei));
    proof {
        lemma_symmetry_shape(sym as int);
        lemma_symmetry_shape(inv as int);
        if cube.is_regular() {
            assert forall|i: int| 0 <= i < NUM_CORNERS implies (#[trigger] c_res@[i]).1 < 3 by {
                let q = c_mid@[i].0.spec_index();
                let p = tci@[i].0.spec_index();
                assert(c@[p].1 < 3);
                assert(tci@[i].1 < 6);
                assert(tc@[q].1 < 6);
            }
        }
    }
    CubieCube { corners: c_res, edges: e_res }
}

/// The cube that `cube` would be if the world were turned by the inverse of
/// the symmetry at index `sym`.
pub fn get_symmetry_inv(cube: &CubieCube, sym: usize) -> (res: CubieCube)
    requires
        cube.well_formed(),
        sym < NUM_SYMMETRIES,
    ensures
        res.corners@ == spec_conjugate_corners(cube.corners@, SYMMETRY_INVERSE@[sym as int] as int),
        res.edges@ == spec_conjugate_edges(cube.edges@, SYMMETRY_INVERSE@[sym as int] as int),
        res.well_formed(),
        cube.is_regular() ==> res.is_regular(),
{
    proof {
        lemma_symmetry_facts(sym as int);
    }
    get_symmetry(cube, SYMMETRY_INVERSE[sym])
}

/// The orientations of the corners, by position.
pub open spec fn corner_orientations(t: Seq<(Corner, Ori)>) -> Seq<nat> {
    Seq::new(t.len(), |i: int| t[i].1 as nat)
}

/// The orientations of the edges, by position.
pub open spec fn edge_orientations(t: Seq<(Edge, Ori)>) -> Seq<nat> {
    Seq::new(t.len(), |i: int| t[i].1 as nat)
}

/// The corner pieces, by position, each as its place in the enumeration.
pub open spec fn corner_pieces(t: Seq<(Corner, Ori)>) -> Seq<usize> {
    Seq::new(t.len(), |i: int| t[i].0.spec_index() as usize)
}

/// The edge pieces, by position, each as its place in the enumeration.
pub open spec fn edge_pieces(t: Seq<(Edge, Ori)>) -> Seq<usize> {
    Seq::new(t.len(), |i: int| t[i].0.spec_index() as usize)
}

/// For each edge position, whether it holds a piece of the UD-slice.
pub open spec fn udslice_positions(t: Seq<(Edge, Ori)>) -> Seq<bool> {
    Seq::new(t.len(), |i: int| t[i].0.in_udslice())
}

/// The corner orientation coordinate: the orientations of the first seven
/// corners as the digits of a number in base 3, lowest first.
pub open spec fn spec_corner_orientation_coord(t: Seq<(Corner, Ori)>) -> nat {
    digits_value(corner_orientations(t), 3, 7)
}

/// The edge orientation coordinate: the orientations of the first eleven
/// edges as the digits of a number in base 2, lowest first.
pub open spec fn spec_edge_orientation_coord(t: Seq<(Edge, Ori)>) -> nat {
    digits_value(edge_orientations(t), 2, 11)
}

/// The UD-slice coordinate: the rank of the set of positions that hold the
/// four pieces of the UD-slice.
pub open spec fn spec_udslice_coord(t: Seq<(Edge, Ori)>) -> nat {
    spec_map_nck(udslice_positions(t))
}

/// The corner permutation coordinate: the rank of the sequence of corner
/// pieces.
pub open spec fn spec_corner_perm_coord(t: Seq<(Corner, Ori)>) -> nat {
    spec_map_permutation(corner_pieces(t))
}

/// The edge permutation coordinate: the rank of the sequence of the pieces
/// at the first eight edge positions.
pub open spec fn spec_edge_perm_coord(t: Seq<(Edge, Ori)>) -> nat {
    spec_map_permutation(edge_pieces(t).take(8))
}

/// The powers of 3 up to the seventh and of 2 up to the eleventh.
proof fn lemma_small_powers()
    ensures
        pow(3, 0) == 1,
        pow(3, 1) == 3,
        pow(3, 2) == 9,
        pow(3, 3) == 27,
        pow(3, 4) == 81,
        pow(3, 5) == 243,
        pow(3, 6) == 729,
        pow(3, 7) == 2187,
        pow(2, 0) == 1,
        pow(2, 1) == 2,
        pow(2, 2) == 4,
        pow(2, 3) == 8,
        pow(2, 4) == 16,
        pow(2, 5) == 32,
        pow(2, 6) == 64,
        pow(2, 7) == 128,
        pow(2, 8) == 256,
        pow(2, 9) == 512,
        pow(2, 10) == 1024,
        pow(2, 11) == 2048,
{
    reveal_with_fuel(pow, 13);
}

impl CubieCube {
    /// The solved cube, which is also the identity transformation.
    pub fn new() -> (cube: Self)
        ensures
            cube.corners@ == TC_BASE@,
            cube.edges@ == TE_BASE@,
            cube.is_regular(),
            cube.is_solvable(),
    {
        proof {
            lemma_solved_is_solvable();
        }
        CubieCube { corners: TC_BASE, edges: TE_BASE }
    }

    /// The corner piece at position `c`, and its orientation.
    pub fn corner(&self, c: Corner) -> (res: (Corner, Ori))
        ensures
            res == self.corners@[c.spec_index()],
    {
        self.corners[c.index()]
    }

    /// The edge piece at position `e`, and its orientation.
    pub fn edge(&self, e: Edge) -> (res: (Edge, Ori))
        ensures
            res == self.edges@[e.spec_index()],
    {
        self.edges[e.index()]
    }

    /// Returns the corner orientation coordinate of the cube.  Where no
    /// corner is mirrored it is below `3^7`.
    pub fn get_corner_orientation_coord(&self) -> (x: usize)
        requires
            self.well_formed(),
        ensures
            x == spec_corner_orientation_coord(self.corners@),
            self.is_regular() ==> x < 2187,
    {
        proof {
            lemma_small_powers();
        }
        let pows = pow_list::<NUM_CORNERS>(3);
        let ghost digits = corner_orientations(self.corners@);
        let mut x: usize = 0;
        let mut i: usize = 0;
        while i < NUM_CORNERS - 1
            invariant
                i <= NUM_CORNERS - 1,
                self.well_formed(),
                digits == corner_orientations(self.corners@),
                forall|j: int| 0 <= j < NUM_CORNERS ==> #[trigger] pows@[j] == pow(3, j as nat),
                x == digits_value(digits, 3, i as nat),
                x < 3 * pow(3, i as nat),
            decreases NUM_CORNERS - i,
        {
            proof {
                lemma_small_powers();
            }
            let (_c, o) = self.corner(Corner::from_index(i));
            let p = pows[i];
            proof {
                lemma_pow_unfold(3, (i + 1) as nat);
                assert(p == pow(3, i as nat) && p <= 729);
                assert(digits[i as int] == o && o < 6);
                assert(o * p <= 5 * p) by (nonlinear_arith)
                    requires
                        o <= 5,
                        p >= 0,
                ;
            }
            x += o as usize * p;
            i += 1;
        }
        proof {
            if self.is_regular() {
                lemma_digits_value_bound(digits, 3, 7);
            }
        }
        x
    }

    /// Returns the edge orientation coordinate of the cube, a number below
    /// `2^11`.
    pub fn get_edge_orientation_coord(&self) -> (x: usize)
        requires
            self.well_formed(),
        ensures
            x == spec_edge_orientation_coord(self.edges@),
            x < 2048,
    {
        proof {
            lemma_small_powers();
        }
        let pows = pow_list::<NUM_EDGES>(2);
        let ghost digits = edge_orientations(self.edges@);
        let mut x: usize = 0;
        let mut i: usize = 0;
        while i < NUM_EDGES - 1
            invariant
                i <= NUM_EDGES - 1,
                self.well_formed(),
                digits == edge_orientations(self.edges@),
                forall|j: int| 0 <= j < NUM_EDGES ==> #[trigger] pows@[j] == pow(2, j as nat),
                x == digits_value(digits, 2, i as nat),
                x < pow(2, i as nat),
            decreases NUM_EDGES - i,
        {
            proof {
                lemma_small_powers();
            }
            let (_e, o) = self.edge(Edge::from_index(i));
            let p = pows[i];
            proof {
                lemma_pow_unfold(2, (i + 1) as nat);
                assert(p == pow(2, i as nat) && p <= 1024);
                assert(digits[i as int] == o && o < 2);
                assert(o * p <= p) by (nonlinear_arith)
                    requires
                        o <= 1,
                        p >= 0,
                ;
            }
            x += o as usize * p;
            i += 1;
        }
        x
    }

    /// Returns the UD-slice coordinate of the cube: which four positions
    /// hold the pieces `FR`, `BR`, `BL` and `FL`.  Where every edge piece
    /// stands at one position it is below `C(12, 4)`.
    pub fn get_udslice_coord(&self) -> (x: usize)
        ensures
            x == spec_udslice_coord(self.edges@),
            edges_permutation(self.edges@) ==> x < 495,
    {
        let mut chosen: Vec<bool> = Vec::new();
        let mut i: usize = 0;
        while i < NUM_EDGES
            invariant
                i <= NUM_EDGES,
                chosen@ =~= udslice_positions(self.edges@).take(i as int),
            decreases NUM_EDGES - i,
        {
            let (e, _) = self.edge(Edge::from_index(i));
            chosen.push(e.index() >= 8);
            i += 1;
        }
        proof {
            assert(chosen@ =~= udslice_positions(self.edges@));
            if edges_permutation(self.edges@) {
                lemma_udslice_count(self.edges@);
                lemma_binomial_12_4();
            }
        }
        map_nck(&chosen)
    }

    /// Returns the corner permutation coordinate of the cube, a number below
    /// `8!`.
    pub fn get_corner_perm_coord(&self) -> (x: usize)
        ensures
            x == spec_corner_perm_coord(self.corners@),
            x < 40320,
    {
        let mut perm: Vec<usize> = Vec::new();
        let mut i: usize = 0;
        while i < NUM_CORNERS
            invariant
                i <= NUM_CORNERS,
                perm@ =~= corner_pieces(self.corners@).take(i as int),
            decreases NUM_CORNERS - i,
        {
            let (c, _) = self.corners[i];
            perm.push(c.index());
            i += 1;
        }
        proof {
            assert(perm@ =~= corner_pieces(self.corners@));
            lemma_factorial_table();
        }
        map_permutation(&perm)
    }

    /// Returns the edge permutation coordinate of the cube, a number below
    /// `8!`.  The first eight positions must hold the eight pieces that are
    /// not of the UD-slice.
    pub fn get_edge_perm_coord(&self) -> (x: usize)
        requires
            forall|i: int| 0 <= i < 8 ==> !(#[trigger] self.edges@[i]).0.in_udslice(),
        ensures
            x == spec_edge_perm_coord(self.edges@),
            x < 40320,
    {
        let mut perm: Vec<usize> = Vec::new();
        let mut i: usize = 0;
        while i < 8
            invariant
                i <= 8,
                perm@ =~= edge_pieces(self.edges@).take(i as int),
            decreases 8 - i,
        {
            let (e, _) = self.edges[i];
            perm.push(e.index());
            i += 1;
        }
        proof {
            lemma_factorial_table();
        }
        map_permutation(&perm)
    }

    /// Applies a transformation to the cube: the corners and the edges are
    /// composed with it.
    pub fn apply_transformation(&mut self, tc: CornerList, te: EdgeList)
        requires
            old(self).well_formed(),
            corners_wf(tc@),
            edges_wf(te@),
        ensures
            final(self).corners@ == spec_chain_corners(old(self).corners@, tc@),
            final(self).edges@ == spec_chain_edges(old(self).edges@, te@),
            final(self).well_formed(),
            old(self).is_regular() && corners_regular(tc@) ==> final(self).is_regular(),
    {
        self.corners = chain_corners(self.corners, tc);
        self.edges = chain_edges(self.edges, te);
    }

    /// Whether the cube is solved.
    pub fn is_solved(&self) -> (res: bool)
        ensures
            res <==> (self.edges@ == TE_BASE@ && self.corners@ == TC_BASE@),
    {
        is_e_base(self.edges) && is_c_base(self.corners)
    }
}

impl RubiksCube for CubieCube {
    /// A turn can be applied to a cube whose orientations are in range.
    open spec fn turnable(&self) -> bool {
        self.well_formed()
    }

    /// Applies a face turn: the cube is composed with the transformation
    /// that the turn stands for.
    fn apply_turn(&mut self, turn: Turn)
        ensures
            final(self).corners@ == spec_chain_corners(
                old(self).corners@,
                spec_corner_transform(turn.side, turn.wise),
            ),
            final(self).edges@ == spec_chain_edges(
                old(self).edges@,
                spec_edge_transform(turn.side, turn.wise),
            ),
            old(self).is_regular() ==> final(self).is_regular(),
            old(self).is_regular() && old(self).is_solvable() ==> final(self).is_solvable(),
    {
        proof {
            lemma_corner_transform_table(turn.side, turn.wise);
            lemma_edge_transform_table(turn.side, turn.wise);
            if self.is_regular() && self.is_solvable() {
                lemma_turn_keeps_solvable(self.corners@, self.edges@, turn.side, turn.wise);
            }
        }
        let tc = CORNER_TRANSFORM[turn.side.index()][turn.wise.index()];
        let te = EDGE_TRANSFORM[turn.side.index()][turn.wise.index()];
        self.apply_transformation(tc, te);
    }
}

/// Every coordinate is within its range: on a cube that mirrors no corner
/// and keeps the edge pieces apart, the corner orientation coordinate is
/// below `3^7`, the edge orientation coordinate below `2^11`, the UD-slice
/// coordinate below `C(12, 4)`, and the two permutation coordinates below
/// `8!`.
pub proof fn lemma_coordinate_bounds(c: Seq<(Corner, Ori)>, e: Seq<(Edge, Ori)>)
    requires
        corners_regular(c),
        edges_wf(e),
        edges_permutation(e),
    ensures
        spec_corner_orientation_coord(c) < 2187,
        spec_edge_orientation_coord(e) < 2048,
        spec_udslice_coord(e) < 495,
        spec_corner_perm_coord(c) < 40320,
        spec_edge_perm_coord(e) < 40320,
{
    lemma_small_powers();
    lemma_digits_value_bound(corner_orientations(c), 3, 7);
    lemma_digits_value_bound(edge_orientations(e), 2, 11);
    lemma_udslice_count(e);
    lemma_binomial_12_4();
    lemma_map_nck_bound(udslice_positions(e));
    lemma_factorial_table();
    lemma_map_permutation_bound(corner_pieces(c));
    lemma_map_permutation_bound(edge_pieces(e).take(8));
    assert(FAC@[8] == factorial(8));
}

/// Where every edge piece stands at one position, four positions hold the
/// pieces of the UD-slice.
pub proof fn lemma_udslice_count(t: Seq<(Edge, Ori)>)
    requires
        edges_permutation(t),
    ensures
        count_true(udslice_positions(t)) == 4,
{
    let p = edge_pieces(t);
    assert(is_permutation(p)) by {
        assert forall|i: int, j: int| 0 <= i < j < p.len() implies #[trigger] p[i] != #[trigger] p[j] by {
            assert(t[i].0 != t[j].0);
            assert(Edge::spec_from_index(t[i].0.spec_index()) == t[i].0);
            assert(Edge::spec_from_index(t[j].0.spec_index()) == t[j].0);
        }
    }
    lemma_permutation_counts(p, 8);
    lemma_count_less_ascending(12, 8);
    lemma_slice_count_prefix(t, 12);
    assert(p.take(12) =~= p);
    assert(udslice_positions(t).take(12) =~= udslice_positions(t));
}

/// Among the first `n` positions, those that hold a piece of the UD-slice
/// and those that hold one of the other eight are `n` together.
proof fn lemma_slice_count_prefix(t: Seq<(Edge, Ori)>, n: int)
    requires
        0 <= n <= t.len(),
    ensures
        count_true(udslice_positions(t).take(n)) + count_less(edge_pieces(t).take(n), 8) == n,
    decreases n,
{
    if n > 0 {
        lemma_slice_count_prefix(t, n - 1);
        let u = udslice_positions(t).take(n);
        let p = edge_pieces(t).take(n);
        assert(u.drop_last() =~= udslice_positions(t).take(n - 1));
        assert(p =~= edge_pieces(t).take(n - 1).push(p[n - 1]));
        lemma_count_less_push(edge_pieces(t).take(n - 1), p[n - 1], 8);
    } else {
        assert(edge_pieces(t).take(0) =~= Seq::<usize>::empty());
    }
}

/// There are 495 ways to choose 4 out of 12.
proof fn lemma_binomial_12_4()
    ensures
        binomial(12, 4) == 495,
{
    lemma_factorial_table();
    lemma_binomial_factorial(12, 4);
    assert(FAC@[12] == factorial(12));
    assert(FAC@[8] == factorial(8));
    assert(FAC@[4] == factorial(4));
    assert(binomial(12, 4) == 495) by (nonlinear_arith)
        requires
            binomial(12, 4) * (24 * 40320) == 479001600,
    ;
}

} // verus!
