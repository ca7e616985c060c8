//! Laws of the forty-eight symmetries: their shape, that no two are equal,
//! and that each has exactly one inverse among them.

use crate::cube::{Corner, Edge};
use crate::cube::cubiecube::{
    corners_mirrored, corners_permutation, corners_regular, corners_wf, edges_permutation, edges_wf,
    is_symmetry_inverse, spec_chain_corners, spec_chain_edges, spec_corner_power, spec_edge_power,
    spec_symmetry_corners, spec_symmetry_corners_from, spec_symmetry_edges,
    spec_symmetry_edges_from, Ori, TC_BASE, TC_S_F2, TC_S_LR, TC_S_U4, TC_S_URF3, TE_BASE, TE_S_F2,
    TE_S_LR, TE_S_U4, TE_S_URF3,
};
use crate::cube::symmetry_facts::{edge_fingerprint, lemma_symmetry_facts};
use crate::cube::tables::{NUM_SYMMETRIES, SYMMETRY_INVERSE};
use vstd::prelude::*;

verus! {

/// Composition keeps corner pieces apart: if neither operand puts a piece
/// at two positions, neither does the result.
pub proof fn lemma_chain_corners_permutation(t1: Seq<(Corner, Ori)>, t2: Seq<(Corner, Ori)>)
    requires
        corners_permutation(t1),
        corners_permutation(t2),
    ensures
        corners_permutation(spec_chain_corners(t1, t2)),
{
    let r = spec_chain_corners(t1, t2);
    assert forall|i: int, j: int| 0 <= i < j < 8 implies (#[trigger] r[i]).0 != (#[trigger] r[j]).0 by {
        let a = t2[i].0;
        let b = t2[j].0;
        assert(a != b);
        assert(Corner::spec_from_index(a.spec_index()) == a);
        assert(Corner::spec_from_index(b.spec_index()) == b);
        assert(a.spec_index() != b.spec_index());
        if a.spec_index() < b.spec_index() {
            assert(t1[a.spec_index()].0 != t1[b.spec_index()].0);
        } else {
            assert(t1[b.spec_index()].0 != t1[a.spec_index()].0);
        }
    }
}

/// Composition keeps edge pieces apart, and edge orientations in range.
pub proof fn lemma_chain_edges_permutation(t1: Seq<(Edge, Ori)>, t2: Seq<(Edge, Ori)>)
    requires
        edges_permutation(t1),
        edges_permutation(t2),
    ensures
        edges_permutation(spec_chain_edges(t1, t2)),
        edges_wf(spec_chain_edges(t1, t2)),
{
    let r = spec_chain_edges(t1, t2);
    assert forall|i: int, j: int| 0 <= i < j < 12 implies (#[trigger] r[i]).0 != (#[trigger] r[j]).0 by {
        let a = t2[i].0;
        let b = t2[j].0;
        assert(a != b);
        assert(Edge::spec_from_index(a.spec_index()) == a);
        assert(Edge::spec_from_index(b.spec_index()) == b);
        assert(a.spec_index() != b.spec_index());
        if a.spec_index() < b.spec_index() {
            assert(t1[a.spec_index()].0 != t1[b.spec_index()].0);
        } else {
            assert(t1[b.spec_index()].0 != t1[a.spec_index()].0);
        }
    }
}

/// Repeating an unmirrored transformation of corners mirrors nothing and
/// keeps the pieces apart.
pub proof fn lemma_corner_power_shape(t: Seq<(Corner, Ori)>, g: Seq<(Corner, Ori)>, n: nat)
    requires
        corners_regular(t),
        corners_permutation(t),
        corners_regular(g),
        corners_permutation(g),
    ensures
        corners_regular(spec_corner_power(t, g, n)),
        corners_permutation(spec_corner_power(t, g, n)),
    decreases n,
{
    if n > 0 {
        lemma_corner_power_shape(t, g, (n - 1) as nat);
        lemma_chain_corners_permutation(spec_corner_power(t, g, (n - 1) as nat), g);
    }
}

/// Repeating a transformation of edges keeps the pieces apart and the
/// orientations in range.
pub proof fn lemma_edge_power_shape(t: Seq<(Edge, Ori)>, g: Seq<(Edge, Ori)>, n: nat)
    requires
        edges_wf(t),
        edges_permutation(t),
        edges_permutation(g),
    ensures
        edges_wf(spec_edge_power(t, g, n)),
        edges_permutation(spec_edge_power(t, g, n)),
    decreases n,
{
    if n > 0 {
        lemma_edge_power_shape(t, g, (n - 1) as nat);
        lemma_chain_edges_permutation(spec_edge_power(t, g, (n - 1) as nat), g);
    }
}

/// The four generators keep the pieces apart; the three rotations mirror no
/// corner and the reflection mirrors every one.
pub proof fn lemma_generators_shape()
    ensures
        corners_regular(TC_BASE@),
        corners_permutation(TC_BASE@),
        corners_regular(TC_S_URF3@),
        corners_permutation(TC_S_URF3@),
        corners_regular(TC_S_F2@),
        corners_permutation(TC_S_F2@),
        corners_regular(TC_S_U4@),
        corners_permutation(TC_S_U4@),
        corners_mirrored(TC_S_LR@),
        corners_permutation(TC_S_LR@),
        edges_wf(TE_BASE@),
        edges_permutation(TE_BASE@),
        edges_permutation(TE_S_URF3@),
        edges_permutation(TE_S_F2@),
        edges_permutation(TE_S_U4@),
        edges_permutation(TE_S_LR@),
{
}

/// Every symmetry keeps the pieces apart and the orientations in range.  A
/// symmetry at an even index is a rotation and mirrors no corner; one at
/// an odd index ends with the reflection and mirrors every corner.
pub proof fn lemma_symmetry_shape(s: int)
    requires
        0 <= s < NUM_SYMMETRIES,
    ensures
        corners_wf(spec_symmetry_corners(s)),
        corners_permutation(spec_symmetry_corners(s)),
        s % 2 == 0 ==> corners_regular(spec_symmetry_corners(s)),
        s % 2 == 1 ==> corners_mirrored(spec_symmetry_corners(s)),
        edges_wf(spec_symmetry_edges(s)),
        edges_permutation(spec_symmetry_edges(s)),
{
    let x1 = (s / 16) as nat;
    let x2 = ((s / 8) % 2) as nat;
    let x3 = ((s / 2) % 4) as nat;
    let x4 = (s % 2) as nat;
    lemma_generators_shape();
    let c1 = spec_corner_power(TC_BASE@, TC_S_URF3@, x1);
    lemma_corner_power_shape(TC_BASE@, TC_S_URF3@, x1);
    let c2 = spec_corner_power(c1, TC_S_F2@, x2);
    lemma_corner_power_shape(c1, TC_S_F2@, x2);
    let c3 = spec_corner_power(c2, TC_S_U4@, x3);
    lemma_corner_power_shape(c2, TC_S_U4@, x3);
    let e1 = spec_edge_power(TE_BASE@, TE_S_URF3@, x1);
    lemma_edge_power_shape(TE_BASE@, TE_S_URF3@, x1);
    let e2 = spec_edge_power(e1, TE_S_F2@, x2);
    lemma_edge_power_shape(e1, TE_S_F2@, x2);
    let e3 = spec_edge_power(e2, TE_S_U4@, x3);
    lemma_edge_power_shape(e2, TE_S_U4@, x3);
    lemma_edge_power_shape(e3, TE_S_LR@, x4);
    reveal_with_fuel(spec_corner_power, 2);
    assert(spec_symmetry_corners(s) == spec_symmetry_corners_from(x1, x2, x3, x4));
    assert(spec_symmetry_edges(s) == spec_symmetry_edges_from(x1, x2, x3, x4));
    if x4 == 1 {
        lemma_chain_corners_permutation(c3, TC_S_LR@);
        let c4 = spec_chain_corners(c3, TC_S_LR@);
        assert(spec_symmetry_corners(s) == c4);
        assert forall|i: int| 0 <= i < 8 implies 3 <= (#[trigger] c4[i]).1 < 6 by {
            let q = TC_S_LR@[i].0.spec_index();
            assert(c3[q].1 < 3);
        }
    } else {
        assert(spec_symmetry_corners(s) == c3);
    }
}

/// No two of the forty-eight symmetries are equal: they differ already in
/// what they do to the edges.
pub proof fn lemma_symmetries_distinct(a: int, b: int)
    requires
        0 <= a < NUM_SYMMETRIES,
        0 <= b < NUM_SYMMETRIES,
        a != b,
    ensures
        spec_symmetry_edges(a) != spec_symmetry_edges(b),
{
    lemma_symmetry_facts(a);
    lemma_symmetry_facts(b);
}

/// Every symmetry has exactly one inverse among the forty-eight, and the
/// table of inverses names it.
pub proof fn lemma_symmetry_inverse(i: int, j: int)
    requires
        0 <= i < NUM_SYMMETRIES,
        0 <= j < NUM_SYMMETRIES,
    ensures
        0 <= SYMMETRY_INVERSE@[i] < NUM_SYMMETRIES,
        is_symmetry_inverse(i, j) <==> j == SYMMETRY_INVERSE@[i],
{
    lemma_symmetry_facts(i);
    let inv = SYMMETRY_INVERSE@[i] as int;
    if is_symmetry_inverse(i, j) {
        lemma_symmetry_facts(j);
        lemma_symmetry_facts(inv);
        lemma_symmetry_shape(i);
        let ei = spec_symmetry_edges(i);
        let ej = spec_symmetry_edges(j);
        let ev = spec_symmetry_edges(inv);
        let rj = spec_chain_edges(ei, ej);
        let rv = spec_chain_edges(ei, ev);
        assert forall|k: int| 0 <= k < 2 implies (#[trigger] ej[k]).0 == ev[k].0 by {
            assert(rj[k] == TE_BASE@[k]);
            assert(rv[k] == TE_BASE@[k]);
            let a = ej[k].0;
            let b = ev[k].0;
            assert(ei[a.spec_index()].0 == ei[b.spec_index()].0);
            assert(Edge::spec_from_index(a.spec_index()) == a);
            assert(Edge::spec_from_index(b.spec_index()) == b);
            if a.spec_index() < b.spec_index() {
                assert(ei[a.spec_index()].0 != ei[b.spec_index()].0);
            } else if b.spec_index() < a.spec_index() {
                assert(ei[b.spec_index()].0 != ei[a.spec_index()].0);
            }
        }
        assert(edge_fingerprint(ej) == edge_fingerprint(ev));
    }
}

} // verus!
