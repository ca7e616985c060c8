//! Laws of the face turns: four quarter turns of a face undo themselves, and
//! a turn keeps the four invariants of a cube that can be solved.

use crate::cube::{Corner, Edge};
use crate::cube::cubiecube::{
    corner_orientations, corner_pieces, corner_quarter_turn, corners_permutation, corners_regular,
    edge_orientations, edge_pieces, edge_quarter_turn, edges_permutation, edges_wf,
    spec_chain_corners, spec_chain_edges, spec_corner_orientation_coord, spec_corner_perm_coord,
    spec_corner_power, spec_corner_transform, spec_edge_orientation_coord, spec_edge_perm_coord,
    spec_edge_power, spec_edge_transform, spec_udslice_coord, udslice_positions, Ori, TC_BASE,
    TE_BASE,
};
use crate::cube::symmetry_laws::{lemma_chain_corners_permutation, lemma_chain_edges_permutation};
use crate::cube::turn::{Turn, TurnType, TurnWise};
use crate::cube::validity::{ori_sum, solvable};
use crate::math::{
    four_cycle, inversions, is_permutation, lemma_digits_value_zero, lemma_equal_12, lemma_equal_8,
    lemma_inversions_four_cycle, lemma_map_nck_last, lemma_map_permutation_increasing,
    lemma_seq_sum_add, lemma_seq_sum_mod, lemma_seq_sum_permuted, seq_sum,
};
use vstd::prelude::*;

verus! {

/// Composing unmirrored corner transformations is associative.
pub proof fn lemma_chain_corners_associative(
    a: Seq<(Corner, Ori)>,
    b: Seq<(Corner, Ori)>,
    c: Seq<(Corner, Ori)>,
)
    requires
        corners_regular(a),
        corners_regular(b),
        corners_regular(c),
    ensures
        spec_chain_corners(spec_chain_corners(a, b), c) == spec_chain_corners(
            a,
            spec_chain_corners(b, c),
        ),
{
    let l = spec_chain_corners(spec_chain_corners(a, b), c);
    let r = spec_chain_corners(a, spec_chain_corners(b, c));
    assert forall|i: int| 0 <= i < 8 implies l[i] == r[i] by {
        let j = c[i].0.spec_index();
        let k = b[j].0.spec_index();
        assert(c[i].1 < 3 && b[j].1 < 3 && a[k].1 < 3);
    }
    assert(l =~= r);
}

/// Composing edge transformations is associative.
pub proof fn lemma_chain_edges_associative(
    a: Seq<(Edge, Ori)>,
    b: Seq<(Edge, Ori)>,
    c: Seq<(Edge, Ori)>,
)
    requires
        edges_wf(a),
        edges_wf(b),
        edges_wf(c),
    ensures
        spec_chain_edges(spec_chain_edges(a, b), c) == spec_chain_edges(a, spec_chain_edges(b, c)),
{
    let l = spec_chain_edges(spec_chain_edges(a, b), c);
    let r = spec_chain_edges(a, spec_chain_edges(b, c));
    assert forall|i: int| 0 <= i < 12 implies l[i] == r[i] by {
        let j = c[i].0.spec_index();
        let k = b[j].0.spec_index();
        assert(c[i].1 < 2 && b[j].1 < 2 && a[k].1 < 2);
    }
    assert(l =~= r);
}

/// Composing with the identity changes nothing.
pub proof fn lemma_chain_identity(c: Seq<(Corner, Ori)>, e: Seq<(Edge, Ori)>)
    requires
        corners_regular(c),
        edges_wf(e),
    ensures
        spec_chain_corners(c, TC_BASE@) == c,
        spec_chain_edges(e, TE_BASE@) == e,
{
    assert forall|i: int| 0 <= i < 8 implies spec_chain_corners(c, TC_BASE@)[i] == c[i] by {
        assert(TC_BASE@[i].0.spec_index() == i);
        assert(c[i].1 < 3);
    }
    assert forall|i: int| 0 <= i < 12 implies spec_chain_edges(e, TE_BASE@)[i] == e[i] by {
        assert(TE_BASE@[i].0.spec_index() == i);
        assert(e[i].1 < 2);
    }
    assert(spec_chain_corners(c, TC_BASE@) =~= c);
    assert(spec_chain_edges(e, TE_BASE@) =~= e);
}

/// A quarter turn mirrors no corner and keeps the pieces apart.
pub proof fn lemma_quarter_turn_shape(side: TurnType)
    ensures
        corners_regular(corner_quarter_turn(side)),
        corners_permutation(corner_quarter_turn(side)),
        edges_wf(edge_quarter_turn(side)),
        edges_permutation(edge_quarter_turn(side)),
{
    match side {
        TurnType::U => {},
        TurnType::D => {},
        TurnType::B => {},
        TurnType::F => {},
        TurnType::L => {},
        TurnType::R => {},
    }
}

/// Two half turns of a face make the identity.
#[verifier::rlimit(50)]
pub proof fn lemma_half_turn_twice(side: TurnType)
    ensures
        spec_chain_corners(
            spec_corner_transform(side, TurnWise::Double),
            spec_corner_transform(side, TurnWise::Double),
        ) == TC_BASE@,
        spec_chain_edges(
            spec_edge_transform(side, TurnWise::Double),
            spec_edge_transform(side, TurnWise::Double),
        ) == TE_BASE@,
{
    let hc = spec_corner_transform(side, TurnWise::Double);
    let he = spec_edge_transform(side, TurnWise::Double);
    match side {
        TurnType::U => {
            assert(spec_chain_corners(hc, hc) =~= TC_BASE@);
            assert(spec_chain_edges(he, he) =~= TE_BASE@);
        },
        TurnType::D => {
            assert(spec_chain_corners(hc, hc) =~= TC_BASE@);
            assert(spec_chain_edges(he, he) =~= TE_BASE@);
        },
        TurnType::B => {
            assert(spec_chain_corners(hc, hc) =~= TC_BASE@);
            assert(spec_chain_edges(he, he) =~= TE_BASE@);
        },
        TurnType::F => {
            assert(spec_chain_corners(hc, hc) =~= TC_BASE@);
            assert(spec_chain_edges(he, he) =~= TE_BASE@);
        },
        TurnType::L => {
            assert(spec_chain_corners(hc, hc) =~= TC_BASE@);
            assert(spec_chain_edges(he, he) =~= TE_BASE@);
        },
        TurnType::R => {
            assert(spec_chain_corners(hc, hc) =~= TC_BASE@);
            assert(spec_chain_edges(he, he) =~= TE_BASE@);
        },
    }
}

/// Four quarter turns of a face bring every cube back to itself; so they do
/// the solved cube, which is the identity.
pub proof fn lemma_four_quarter_turns(c: Seq<(Corner, Ori)>, e: Seq<(Edge, Ori)>, side: TurnType)
    requires
        corners_regular(c),
        edges_wf(e),
    ensures
        spec_corner_power(c, corner_quarter_turn(side), 4) == c,
        spec_edge_power(e, edge_quarter_turn(side), 4) == e,
        spec_corner_power(TC_BASE@, corner_quarter_turn(side), 4) == TC_BASE@,
        spec_edge_power(TE_BASE@, edge_quarter_turn(side), 4) == TE_BASE@,
{
    lemma_four_quarter_turns_of(c, e, side);
    lemma_four_quarter_turns_of(TC_BASE@, TE_BASE@, side);
}

/// Four quarter turns of a face bring a cube back to itself.
proof fn lemma_four_quarter_turns_of(c: Seq<(Corner, Ori)>, e: Seq<(Edge, Ori)>, side: TurnType)
    requires
        corners_regular(c),
        edges_wf(e),
    ensures
        spec_corner_power(c, corner_quarter_turn(side), 4) == c,
        spec_edge_power(e, edge_quarter_turn(side), 4) == e,
{
    lemma_quarter_turn_shape(side);
    lemma_half_turn_twice(side);
    let qc = corner_quarter_turn(side);
    let qe = edge_quarter_turn(side);
    let hc = spec_chain_corners(qc, qc);
    let he = spec_chain_edges(qe, qe);
    reveal_with_fuel(spec_corner_power, 5);
    reveal_with_fuel(spec_edge_power, 5);
    let c1 = spec_chain_corners(c, qc);
    let c2 = spec_chain_corners(c1, qc);
    let c3 = spec_chain_corners(c2, qc);
    let e1 = spec_chain_edges(e, qe);
    let e2 = spec_chain_edges(e1, qe);
    let e3 = spec_chain_edges(e2, qe);
    lemma_chain_corners_associative(c, qc, qc);
    lemma_chain_corners_associative(c2, qc, qc);
    lemma_chain_corners_associative(c, hc, hc);
    lemma_chain_edges_associative(e, qe, qe);
    lemma_chain_edges_associative(e2, qe, qe);
    lemma_chain_edges_associative(e, he, he);
    lemma_chain_identity(c, e);
    assert(spec_corner_power(c, qc, 4) == spec_chain_corners(c3, qc));
    assert(spec_edge_power(e, qe, 4) == spec_chain_edges(e3, qe));
}

/// The solved cube keeps the four invariants.
pub proof fn lemma_solved_is_solvable()
    ensures
        solvable(TC_BASE@, TE_BASE@),
{
    reveal_with_fuel(ori_sum, 13);
    let cp = corner_pieces(TC_BASE@);
    let ep = edge_pieces(TE_BASE@);
    lemma_inversions_increasing(cp);
    lemma_inversions_increasing(ep);
}

/// An increasing sequence has no inversions.
proof fn lemma_inversions_increasing(s: Seq<usize>)
    requires
        crate::math::strictly_increasing(s),
    ensures
        inversions(s) == 0,
    decreases s.len(),
{
    if s.len() > 0 {
        let t = s.skip(1);
        assert forall|i: int, j: int| 0 <= i < j < t.len() implies #[trigger] t[i] < #[trigger] t[j] by {
            assert(s[i + 1] < s[j + 1]);
        }
        if t.len() > 0 {
            assert(s[0] < s[1]);
        }
        crate::math::lemma_count_less_none(t, s[0] as int);
        lemma_inversions_increasing(t);
    }
}

/// The corner pieces of a cube on which no piece stands twice are a
/// sequence in which no value stands twice.
proof fn lemma_corner_pieces_distinct(c: Seq<(Corner, Ori)>)
    requires
        corners_permutation(c),
    ensures
        corner_pieces(c).len() == 8,
        forall|i: int, j: int|
            0 <= i < j < 8 ==> #[trigger] corner_pieces(c)[i] != #[trigger] corner_pieces(c)[j],
{
    let p = corner_pieces(c);
    assert forall|i: int, j: int| 0 <= i < j < 8 implies #[trigger] p[i] != #[trigger] p[j] by {
        assert(c[i].0 != c[j].0);
        assert(Corner::spec_from_index(c[i].0.spec_index()) == c[i].0);
        assert(Corner::spec_from_index(c[j].0.spec_index()) == c[j].0);
    }
}

/// The edge pieces of a cube on which no piece stands twice are a sequence
/// in which no value stands twice.
proof fn lemma_edge_pieces_distinct(e: Seq<(Edge, Ori)>)
    requires
        edges_permutation(e),
    ensures
        edge_pieces(e).len() == 12,
        forall|i: int, j: int|
            0 <= i < j < 12 ==> #[trigger] edge_pieces(e)[i] != #[trigger] edge_pieces(e)[j],
{
    let p = edge_pieces(e);
    assert forall|i: int, j: int| 0 <= i < j < 12 implies #[trigger] p[i] != #[trigger] p[j] by {
        assert(e[i].0 != e[j].0);
        assert(Edge::spec_from_index(e[i].0.spec_index()) == e[i].0);
        assert(Edge::spec_from_index(e[j].0.spec_index()) == e[j].0);
    }
}

/// The four corner positions that a quarter turn of a face moves round in
/// a circle: each takes the piece of the next, the last that of the first.
pub open spec fn corner_cycle(side: TurnType) -> (int, int, int, int) {
    match side {
        TurnType::U => (0, 1, 4, 5),
        TurnType::D => (2, 7, 6, 3),
        TurnType::B => (1, 6, 7, 4),
        TurnType::F => (0, 5, 2, 3),
        TurnType::L => (2, 5, 4, 7),
        TurnType::R => (0, 3, 6, 1),
    }
}

/// The four edge positions that a quarter turn of a face moves round in a
/// circle.
pub open spec fn edge_cycle(side: TurnType) -> (int, int, int, int) {
    match side {
        TurnType::U => (0, 1, 2, 3),
        TurnType::D => (4, 7, 6, 5),
        TurnType::B => (2, 9, 6, 10),
        TurnType::F => (0, 11, 4, 8),
        TurnType::L => (3, 10, 7, 11),
        TurnType::R => (1, 8, 5, 9),
    }
}

/// A quarter turn moves the pieces at four corner positions round in a
/// circle and leaves the others where they are.
pub proof fn lemma_quarter_turn_corner_cycle(c: Seq<(Corner, Ori)>, side: TurnType)
    requires
        c.len() == 8,
    ensures
        corner_pieces(spec_chain_corners(c, corner_quarter_turn(side))) == four_cycle(
            corner_pieces(c),
            corner_cycle(side).0,
            corner_cycle(side).1,
            corner_cycle(side).2,
            corner_cycle(side).3,
        ),
{
    let p = corner_pieces(c);
    let q = corner_pieces(spec_chain_corners(c, corner_quarter_turn(side)));
    match side {
        TurnType::U => {
            lemma_equal_8(q, four_cycle(p, 0, 1, 4, 5));
        },
        TurnType::D => {
            lemma_equal_8(q, four_cycle(p, 2, 7, 6, 3));
        },
        TurnType::B => {
            lemma_equal_8(q, four_cycle(p, 1, 6, 7, 4));
        },
        TurnType::F => {
            lemma_equal_8(q, four_cycle(p, 0, 5, 2, 3));
        },
        TurnType::L => {
            lemma_equal_8(q, four_cycle(p, 2, 5, 4, 7));
        },
        TurnType::R => {
            lemma_equal_8(q, four_cycle(p, 0, 3, 6, 1));
        },
    }
}

/// A quarter turn moves the pieces at four edge positions round in a circle
/// and leaves the others where they are.
pub proof fn lemma_quarter_turn_edge_cycle(e: Seq<(Edge, Ori)>, side: TurnType)
    requires
        e.len() == 12,
    ensures
        edge_pieces(spec_chain_edges(e, edge_quarter_turn(side))) == four_cycle(
            edge_pieces(e),
            edge_cycle(side).0,
            edge_cycle(side).1,
            edge_cycle(side).2,
            edge_cycle(side).3,
        ),
{
    let p = edge_pieces(e);
    let q = edge_pieces(spec_chain_edges(e, edge_quarter_turn(side)));
    match side {
        TurnType::U => {
            lemma_equal_12(q, four_cycle(p, 0, 1, 2, 3));
        },
        TurnType::D => {
            lemma_equal_12(q, four_cycle(p, 4, 7, 6, 5));
        },
        TurnType::B => {
            lemma_equal_12(q, four_cycle(p, 2, 9, 6, 10));
        },
        TurnType::F => {
            lemma_equal_12(q, four_cycle(p, 0, 11, 4, 8));
        },
        TurnType::L => {
            lemma_equal_12(q, four_cycle(p, 3, 10, 7, 11));
        },
        TurnType::R => {
            lemma_equal_12(q, four_cycle(p, 1, 8, 5, 9));
        },
    }
}

/// A quarter turn changes the parity of the permutation of the corners.
proof fn lemma_quarter_turn_corner_parity(c: Seq<(Corner, Ori)>, side: TurnType)
    requires
        corners_permutation(c),
    ensures
        (inversions(corner_pieces(spec_chain_corners(c, corner_quarter_turn(side)))) + inversions(
            corner_pieces(c),
        )) % 2 == 1,
{
    lemma_corner_pieces_distinct(c);
    lemma_quarter_turn_corner_cycle(c, side);
    let (i0, i1, i2, i3) = corner_cycle(side);
    lemma_inversions_four_cycle(corner_pieces(c), i0, i1, i2, i3);
}

/// A quarter turn changes the parity of the permutation of the edges.
proof fn lemma_quarter_turn_edge_parity(e: Seq<(Edge, Ori)>, side: TurnType)
    requires
        edges_permutation(e),
    ensures
        (inversions(edge_pieces(spec_chain_edges(e, edge_quarter_turn(side)))) + inversions(
            edge_pieces(e),
        )) % 2 == 1,
{
    lemma_edge_pieces_distinct(e);
    lemma_quarter_turn_edge_cycle(e, side);
    let (i0, i1, i2, i3) = edge_cycle(side);
    lemma_inversions_four_cycle(edge_pieces(e), i0, i1, i2, i3);
}

/// The sum of the orientations is the sum of the sequence of orientations.
proof fn lemma_ori_sum_is_seq_sum<P>(t: Seq<(P, Ori)>)
    ensures
        ori_sum(t) == seq_sum(Seq::new(t.len(), |i: int| t[i].1 as int)),
    decreases t.len(),
{
    let s = Seq::new(t.len(), |i: int| t[i].1 as int);
    if t.len() > 0 {
        lemma_ori_sum_is_seq_sum(t.drop_last());
        assert(s.drop_last() =~= Seq::new(t.drop_last().len(), |i: int| t.drop_last()[i].1 as int));
    }
}

/// Twists add up: composing with an unmirrored transformation that keeps
/// the pieces apart adds its twists to those of the cube, modulo 3.
pub proof fn lemma_chain_twist(c: Seq<(Corner, Ori)>, t: Seq<(Corner, Ori)>)
    requires
        corners_regular(c),
        corners_regular(t),
        corners_permutation(t),
    ensures
        ori_sum(spec_chain_corners(c, t)) % 3 == (ori_sum(c) + ori_sum(t)) % 3,
{
    let r = spec_chain_corners(c, t);
    let oc = Seq::new(8, |i: int| c[i].1 as int);
    let ot = Seq::new(8, |i: int| t[i].1 as int);
    let or = Seq::new(8, |i: int| r[i].1 as int);
    let tau = corner_pieces(t);
    lemma_ori_sum_is_seq_sum(c);
    lemma_ori_sum_is_seq_sum(t);
    lemma_ori_sum_is_seq_sum(r);
    lemma_corner_pieces_distinct(t);
    assert(is_permutation(tau));
    let g = Seq::new(8, |i: int| oc[tau[i] as int]);
    lemma_seq_sum_permuted(oc, tau);
    lemma_seq_sum_add(g, ot);
    let h = Seq::new(8, |i: int| g[i] + ot[i]);
    assert forall|i: int| 0 <= i < 8 implies #[trigger] or[i] % 3 == h[i] % 3 by {
        let j = t[i].0.spec_index();
        assert(tau[i] == j);
        assert(c[j].1 < 3 && t[i].1 < 3);
    }
    lemma_seq_sum_mod(or, h, 3);
}

/// Flips add up: composing with a transformation that keeps the pieces apart
/// adds its flips to those of the cube, modulo 2.
pub proof fn lemma_chain_flip(e: Seq<(Edge, Ori)>, t: Seq<(Edge, Ori)>)
    requires
        edges_wf(e),
        edges_wf(t),
        edges_permutation(t),
    ensures
        ori_sum(spec_chain_edges(e, t)) % 2 == (ori_sum(e) + ori_sum(t)) % 2,
{
    let r = spec_chain_edges(e, t);
    let oe = Seq::new(12, |i: int| e[i].1 as int);
    let ot = Seq::new(12, |i: int| t[i].1 as int);
    let or = Seq::new(12, |i: int| r[i].1 as int);
    let tau = edge_pieces(t);
    lemma_ori_sum_is_seq_sum(e);
    lemma_ori_sum_is_seq_sum(t);
    lemma_ori_sum_is_seq_sum(r);
    lemma_edge_pieces_distinct(t);
    assert(is_permutation(tau));
    let g = Seq::new(12, |i: int| oe[tau[i] as int]);
    lemma_seq_sum_permuted(oe, tau);
    lemma_seq_sum_add(g, ot);
    let h = Seq::new(12, |i: int| g[i] + ot[i]);
    assert forall|i: int| 0 <= i < 12 implies #[trigger] or[i] % 2 == h[i] % 2 by {
        let j = t[i].0.spec_index();
        assert(tau[i] == j);
        assert(e[j].1 < 2 && t[i].1 < 2);
    }
    lemma_seq_sum_mod(or, h, 2);
}

/// A quarter turn twists corners by a multiple of 3 in all, and flips an
/// even number of edges.
proof fn lemma_quarter_turn_sums(side: TurnType)
    ensures
        ori_sum(corner_quarter_turn(side)) % 3 == 0,
        ori_sum(edge_quarter_turn(side)) % 2 == 0,
{
    lemma_ori_sum_8(corner_quarter_turn(side));
    lemma_ori_sum_12(edge_quarter_turn(side));
}

/// The sum of eight orientations, written out.
proof fn lemma_ori_sum_8<P>(t: Seq<(P, Ori)>)
    requires
        t.len() == 8,
    ensures
        ori_sum(t) == t[0].1 + t[1].1 + t[2].1 + t[3].1 + t[4].1 + t[5].1 + t[6].1 + t[7].1,
{
    let t7 = t.drop_last();
    let t6 = t7.drop_last();
    let t5 = t6.drop_last();
    let t4 = t5.drop_last();
    let t3 = t4.drop_last();
    let t2 = t3.drop_last();
    let t1 = t2.drop_last();
    let t0 = t1.drop_last();
    assert(ori_sum(t0) == 0);
    assert(ori_sum(t1) == t[0].1);
    assert(ori_sum(t2) == ori_sum(t1) + t[1].1);
    assert(ori_sum(t3) == ori_sum(t2) + t[2].1);
    assert(ori_sum(t4) == ori_sum(t3) + t[3].1);
    assert(ori_sum(t5) == ori_sum(t4) + t[4].1);
    assert(ori_sum(t6) == ori_sum(t5) + t[5].1);
    assert(ori_sum(t7) == ori_sum(t6) + t[6].1);
}

/// The sum of twelve orientations, written out.
proof fn lemma_ori_sum_12<P>(t: Seq<(P, Ori)>)
    requires
        t.len() == 12,
    ensures
        ori_sum(t) == t[0].1 + t[1].1 + t[2].1 + t[3].1 + t[4].1 + t[5].1 + t[6].1 + t[7].1
            + t[8].1 + t[9].1 + t[10].1 + t[11].1,
{
    let t11 = t.drop_last();
    let t10 = t11.drop_last();
    let t9 = t10.drop_last();
    let t8 = t9.drop_last();
    lemma_ori_sum_8(t8);
    assert(ori_sum(t9) == ori_sum(t8) + t[8].1);
    assert(ori_sum(t10) == ori_sum(t9) + t[9].1);
    assert(ori_sum(t11) == ori_sum(t10) + t[10].1);
}

/// Composing unmirrored corner transformations mirrors nothing.
pub proof fn lemma_chain_regular(a: Seq<(Corner, Ori)>, b: Seq<(Corner, Ori)>)
    requires
        corners_regular(a),
        corners_regular(b),
    ensures
        corners_regular(spec_chain_corners(a, b)),
{
    let r = spec_chain_corners(a, b);
    assert forall|i: int| 0 <= i < 8 implies (#[trigger] r[i]).1 < 3 by {
        assert(b[i].1 < 3);
        assert(a[b[i].0.spec_index()].1 < 3);
    }
}

/// A quarter turn keeps the four invariants of a cube that can be solved.
pub proof fn lemma_quarter_turn_keeps_solvable(
    c: Seq<(Corner, Ori)>,
    e: Seq<(Edge, Ori)>,
    side: TurnType,
)
    requires
        corners_regular(c),
        edges_wf(e),
        solvable(c, e),
    ensures
        solvable(
            spec_chain_corners(c, corner_quarter_turn(side)),
            spec_chain_edges(e, edge_quarter_turn(side)),
        ),
        corners_regular(spec_chain_corners(c, corner_quarter_turn(side))),
        edges_wf(spec_chain_edges(e, edge_quarter_turn(side))),
{
    let qc = corner_quarter_turn(side);
    let qe = edge_quarter_turn(side);
    let r = spec_chain_corners(c, qc);
    let f = spec_chain_edges(e, qe);
    lemma_quarter_turn_shape(side);
    assert(corners_permutation(r)) by {
        lemma_chain_corners_permutation(c, qc);
    }
    assert(edges_permutation(f) && edges_wf(f)) by {
        lemma_chain_edges_permutation(e, qe);
    }
    assert(corners_regular(r)) by {
        lemma_chain_regular(c, qc);
    }
    assert(ori_sum(r) % 3 == 0) by {
        lemma_chain_twist(c, qc);
        lemma_quarter_turn_sums(side);
    }
    assert(ori_sum(f) % 2 == 0) by {
        lemma_chain_flip(e, qe);
        lemma_quarter_turn_sums(side);
    }
    assert(inversions(corner_pieces(r)) % 2 == inversions(edge_pieces(f)) % 2) by {
        lemma_quarter_turn_corner_parity(c, side);
        lemma_quarter_turn_edge_parity(e, side);
    }
}

/// Every turn keeps the four invariants of a cube that can be solved: so
/// every cube that turns lead to from the solved cube keeps them.
pub proof fn lemma_turn_keeps_solvable(
    c: Seq<(Corner, Ori)>,
    e: Seq<(Edge, Ori)>,
    side: TurnType,
    wise: TurnWise,
)
    requires
        corners_regular(c),
        edges_wf(e),
        solvable(c, e),
    ensures
        solvable(
            spec_chain_corners(c, spec_corner_transform(side, wise)),
            spec_chain_edges(e, spec_edge_transform(side, wise)),
        ),
{
    lemma_quarter_turn_shape(side);
    let qc = corner_quarter_turn(side);
    let qe = edge_quarter_turn(side);
    let c1 = spec_chain_corners(c, qc);
    let e1 = spec_chain_edges(e, qe);
    lemma_quarter_turn_keeps_solvable(c, e, side);
    match wise {
        TurnWise::Clockwise => {},
        TurnWise::Double => {
            lemma_quarter_turn_keeps_solvable(c1, e1, side);
            lemma_chain_corners_associative(c, qc, qc);
            lemma_chain_edges_associative(e, qe, qe);
        },
        TurnWise::CounterClockwise => {
            let c2 = spec_chain_corners(c1, qc);
            let e2 = spec_chain_edges(e1, qe);
            lemma_quarter_turn_keeps_solvable(c1, e1, side);
            lemma_quarter_turn_keeps_solvable(c2, e2, side);
            let hc = spec_chain_corners(qc, qc);
            let he = spec_chain_edges(qe, qe);
            lemma_chain_regular(qc, qc);
            lemma_chain_edges_permutation(qe, qe);
            lemma_chain_corners_associative(c1, qc, qc);
            lemma_chain_corners_associative(c, qc, hc);
            lemma_chain_edges_associative(e1, qe, qe);
            lemma_chain_edges_associative(e, qe, he);
        },
    }
}

/// The cube after a sequence of turns, one after the other.
pub open spec fn spec_apply_turns(c: Seq<(Corner, Ori)>, e: Seq<(Edge, Ori)>, turns: Seq<Turn>) -> (
    Seq<(Corner, Ori)>,
    Seq<(Edge, Ori)>,
)
    decreases turns.len(),
{
    if turns.len() == 0 {
        (c, e)
    } else {
        let (cb, eb) = spec_apply_turns(c, e, turns.drop_last());
        let turn = turns.last();
        (
            spec_chain_corners(cb, spec_corner_transform(turn.side, turn.wise)),
            spec_chain_edges(eb, spec_edge_transform(turn.side, turn.wise)),
        )
    }
}

/// A turn mirrors no corner and keeps the orientations of the edges in
/// range.
pub proof fn lemma_turn_keeps_regular(
    c: Seq<(Corner, Ori)>,
    e: Seq<(Edge, Ori)>,
    side: TurnType,
    wise: TurnWise,
)
    requires
        corners_regular(c),
        edges_wf(e),
    ensures
        corners_regular(spec_chain_corners(c, spec_corner_transform(side, wise))),
        edges_wf(spec_chain_edges(e, spec_edge_transform(side, wise))),
{
    let qc = corner_quarter_turn(side);
    let qe = edge_quarter_turn(side);
    lemma_quarter_turn_shape(side);
    lemma_chain_regular(qc, qc);
    lemma_chain_regular(qc, spec_chain_corners(qc, qc));
    lemma_chain_edges_permutation(qe, qe);
    lemma_chain_edges_permutation(qe, spec_chain_edges(qe, qe));
    lemma_chain_regular(c, spec_corner_transform(side, wise));
    let r = spec_chain_edges(e, spec_edge_transform(side, wise));
    assert forall|i: int| 0 <= i < 12 implies (#[trigger] r[i]).1 < 2 by {}
}

/// Every cube that a sequence of turns leads to from a cube that can be
/// solved can be solved: it keeps the four invariants, and no corner of it
/// is mirrored.  The solved cube is such a cube, so this holds of every
/// cube reached from it.
pub proof fn lemma_turns_keep_solvable(c: Seq<(Corner, Ori)>, e: Seq<(Edge, Ori)>, turns: Seq<Turn>)
    requires
        corners_regular(c),
        edges_wf(e),
        solvable(c, e),
    ensures
        corners_regular(spec_apply_turns(c, e, turns).0),
        edges_wf(spec_apply_turns(c, e, turns).1),
        solvable(spec_apply_turns(c, e, turns).0, spec_apply_turns(c, e, turns).1),
        solvable(
            spec_apply_turns(TC_BASE@, TE_BASE@, turns).0,
            spec_apply_turns(TC_BASE@, TE_BASE@, turns).1,
        ),
    decreases turns.len(),
{
    lemma_solved_is_solvable();
    if turns.len() > 0 {
        let before = turns.drop_last();
        let turn = turns.last();
        lemma_turns_keep_solvable(c, e, before);
        lemma_turns_keep_solvable(TC_BASE@, TE_BASE@, before);
        let (cb, eb) = spec_apply_turns(c, e, before);
        lemma_turn_keeps_regular(cb, eb, turn.side, turn.wise);
        lemma_turn_keeps_solvable(cb, eb, turn.side, turn.wise);
        let (sc, se) = spec_apply_turns(TC_BASE@, TE_BASE@, before);
        lemma_turn_keeps_solvable(sc, se, turn.side, turn.wise);
    }
}

/// In the identity every piece stands at its own position, unturned.
pub proof fn lemma_identity_entries()
    ensures
        forall|p: Corner| #[trigger] TC_BASE@[p.spec_index()] == (p, 0u32),
        forall|p: Edge| #[trigger] TE_BASE@[p.spec_index()] == (p, 0u32),
{
    assert forall|p: Corner| #[trigger] TC_BASE@[p.spec_index()] == (p, 0u32) by {
        match p {
            Corner::URF => {},
            Corner::UBR => {},
            Corner::DLF => {},
            Corner::DFR => {},
            Corner::ULB => {},
            Corner::UFL => {},
            Corner::DRB => {},
            Corner::DBL => {},
        }
    }
    assert forall|p: Edge| #[trigger] TE_BASE@[p.spec_index()] == (p, 0u32) by {
        match p {
            Edge::UF => {},
            Edge::UR => {},
            Edge::UB => {},
            Edge::UL => {},
            Edge::DF => {},
            Edge::DR => {},
            Edge::DB => {},
            Edge::DL => {},
            Edge::FR => {},
            Edge::BR => {},
            Edge::BL => {},
            Edge::FL => {},
        }
    }
}

/// The five coordinates of the solved cube are 0.
pub proof fn lemma_solved_coordinates()
    ensures
        spec_corner_orientation_coord(TC_BASE@) == 0,
        spec_edge_orientation_coord(TE_BASE@) == 0,
        spec_udslice_coord(TE_BASE@) == 0,
        spec_corner_perm_coord(TC_BASE@) == 0,
        spec_edge_perm_coord(TE_BASE@) == 0,
{
    lemma_identity_entries();
    let co = corner_orientations(TC_BASE@);
    assert forall|i: int| 0 <= i < 7 implies #[trigger] co[i] == 0 by {
        assert(Corner::spec_from_index(i).spec_index() == i);
    }
    lemma_digits_value_zero(co, 3, 7);
    let eo = edge_orientations(TE_BASE@);
    assert forall|i: int| 0 <= i < 11 implies #[trigger] eo[i] == 0 by {
        assert(Edge::spec_from_index(i).spec_index() == i);
    }
    lemma_digits_value_zero(eo, 2, 11);
    let cp = corner_pieces(TC_BASE@);
    assert forall|i: int| 0 <= i < 8 implies #[trigger] cp[i] == i by {
        assert(Corner::spec_from_index(i).spec_index() == i);
    }
    lemma_map_permutation_increasing(cp);
    let ep = edge_pieces(TE_BASE@);
    assert forall|i: int| 0 <= i < 12 implies #[trigger] ep[i] == i by {
        assert(Edge::spec_from_index(i).spec_index() == i);
    }
    lemma_map_permutation_increasing(ep.take(8));
    let ud = udslice_positions(TE_BASE@);
    assert forall|i: int| 0 <= i < 12 implies #[trigger] ud[i] == (i >= 8) by {
        assert(Edge::spec_from_index(i).spec_index() == i);
    }
    lemma_map_nck_last(ud);
}

} // verus!
