//! Which cubes can be solved: the four invariants that every cube reached by
//! face turns keeps, and the check that reports the first one that fails.

use crate::cube::{Corner, Edge, NUM_CORNERS, NUM_EDGES};
use crate::cube::cubiecube::{
    corner_pieces, corners_permutation, edge_pieces, edges_permutation, CornerList, CubieCube,
    EdgeList, Ori,
};
use crate::math::{count_inversions, inversions};
use vstd::prelude::*;

verus! {

/// The invariant that a cube fails to keep.
#[derive(Clone, Copy, PartialEq, Eq, Structural, Debug)]
pub enum ValidityError {
    /// Some piece stands at two positions, and so another at none.
    Pieces,
    /// The corner orientations do not add up to a multiple of 3: one corner
    /// is twisted.
    CornerTwist,
    /// The edge orientations do not add up to a multiple of 2: one edge is
    /// flipped.
    EdgeFlip,
    /// The permutation of the corners is even and that of the edges odd, or
    /// the other way round: two pieces are exchanged.
    Parity,
}

/// The sum of the orientations.
pub open spec fn ori_sum<P>(t: Seq<(P, Ori)>) -> nat
    decreases t.len(),
{
    if t.len() == 0 {
        0
    } else {
        ori_sum(t.drop_last()) + t.last().1 as nat
    }
}

/// The four invariants of a cube that can be solved: every piece stands at
/// exactly one position, the corner orientations add up to a multiple of 3,
/// the edge orientations to a multiple of 2, and the permutations of the
/// corners and of the edges have the same parity.
pub open spec fn solvable(c: Seq<(Corner, Ori)>, e: Seq<(Edge, Ori)>) -> bool {
    &&& corners_permutation(c)
    &&& edges_permutation(e)
    &&& ori_sum(c) % 3 == 0
    &&& ori_sum(e) % 2 == 0
    &&& inversions(corner_pieces(c)) % 2 == inversions(edge_pieces(e)) % 2
}

/// What the validity check reports: the first invariant that fails, in the
/// order pieces, corner twist, edge flip, parity.
pub open spec fn spec_validity(c: Seq<(Corner, Ori)>, e: Seq<(Edge, Ori)>) -> Result<
    (),
    ValidityError,
> {
    if !corners_permutation(c) || !edges_permutation(e) {
        Err(ValidityError::Pieces)
    } else if ori_sum(c) % 3 != 0 {
        Err(ValidityError::CornerTwist)
    } else if ori_sum(e) % 2 != 0 {
        Err(ValidityError::EdgeFlip)
    } else if inversions(corner_pieces(c)) % 2 != inversions(edge_pieces(e)) % 2 {
        Err(ValidityError::Parity)
    } else {
        Ok(())
    }
}

impl CubieCube {
    /// Whether the cube keeps the four invariants of a cube that can be
    /// solved.
    pub open spec fn is_solvable(&self) -> bool {
        solvable(self.corners@, self.edges@)
    }

    /// What the validity check reports of the cube.
    pub open spec fn spec_check_validity(&self) -> Result<(), ValidityError> {
        spec_validity(self.corners@, self.edges@)
    }

    /// Checks whether the cube can be solved, and reports the first
    /// invariant that fails.
    pub fn check_validity(&self) -> (res: Result<(), ValidityError>)
        ensures
            res == self.spec_check_validity(),
            res is Ok <==> self.is_solvable(),
    {
        if !corners_distinct(&self.corners) || !edges_distinct(&self.edges) {
            return Err(ValidityError::Pieces);
        }
        if corner_ori_sum(&self.corners) % 3 != 0 {
            return Err(ValidityError::CornerTwist);
        }
        if edge_ori_sum(&self.edges) % 2 != 0 {
            return Err(ValidityError::EdgeFlip);
        }
        let mut cp: Vec<usize> = Vec::new();
        let mut i: usize = 0;
        while i < NUM_CORNERS
            invariant
                i <= NUM_CORNERS,
                cp@ =~= corner_pieces(self.corners@).take(i as int),
            decreases NUM_CORNERS - i,
        {
            cp.push(self.corners[i].0.index());
            i += 1;
        }
        let mut ep: Vec<usize> = Vec::new();
        let mut i: usize = 0;
        while i < NUM_EDGES
            invariant
                i <= NUM_EDGES,
                ep@ =~= edge_pieces(self.edges@).take(i as int),
            decreases NUM_EDGES - i,
        {
            ep.push(self.edges[i].0.index());
            i += 1;
        }
        assert(cp@ =~= corner_pieces(self.corners@));
        assert(ep@ =~= edge_pieces(self.edges@));
        if count_inversions(&cp) % 2 != count_inversions(&ep) % 2 {
            return Err(ValidityError::Parity);
        }
        Ok(())
    }
}

/// Whether no corner piece stands at two positions.
fn corners_distinct(c: &CornerList) -> (res: bool)
    ensures
        res <==> corners_permutation(c@),
{
    let mut i: usize = 0;
    while i < NUM_CORNERS
        invariant
            i <= NUM_CORNERS,
            forall|a: int, b: int| 0 <= a < b < i ==> (#[trigger] c@[a]).0 != (#[trigger] c@[b]).0,
        decreases NUM_CORNERS - i,
    {
        let mut j: usize = 0;
        while j < i
            invariant
                j <= i < NUM_CORNERS,
                forall|a: int| 0 <= a < j ==> (#[trigger] c@[a]).0 != c@[i as int].0,
            decreases i - j,
        {
            if c[j].0.index() == c[i].0.index() {
                assert(c@[j as int].0 == c@[i as int].0);
                return false;
            }
            j += 1;
        }
        i += 1;
    }
    true
}

/// Whether no edge piece stands at two positions.
fn edges_distinct(e: &EdgeList) -> (res: bool)
    ensures
        res <==> edges_permutation(e@),
{
    let mut i: usize = 0;
    while i < NUM_EDGES
        invariant
            i <= NUM_EDGES,
            forall|a: int, b: int| 0 <= a < b < i ==> (#[trigger] e@[a]).0 != (#[trigger] e@[b]).0,
        decreases NUM_EDGES - i,
    {
        let mut j: usize = 0;
        while j < i
            invariant
                j <= i < NUM_EDGES,
                forall|a: int| 0 <= a < j ==> (#[trigger] e@[a]).0 != e@[i as int].0,
            decreases i - j,
        {
            if e[j].0.index() == e[i].0.index() {
                assert(e@[j as int].0 == e@[i as int].0);
                return false;
            }
            j += 1;
        }
        i += 1;
    }
    true
}

/// The sum of the corner orientations.
fn corner_ori_sum(c: &CornerList) -> (sum: u64)
    ensures
        sum == ori_sum(c@),
{
    let mut sum: u64 = 0;
    let mut i: usize = 0;
    proof {
        assert(c@.take(0) =~= Seq::<(Corner, Ori)>::empty());
    }
    while i < NUM_CORNERS
        invariant
            i <= NUM_CORNERS,
            sum == ori_sum(c@.take(i as int)),
            sum <= i * 0xffff_ffff,
        decreases NUM_CORNERS - i,
    {
        proof {
            assert(c@.take(i + 1).drop_last() =~= c@.take(i as int));
        }
        sum = sum + c[i].1 as u64;
        i += 1;
    }
    proof {
        assert(c@.take(NUM_CORNERS as int) =~= c@);
    }
    sum
}

/// The sum of the edge orientations.
fn edge_ori_sum(e: &EdgeList) -> (sum: u64)
    ensures
        sum == ori_sum(e@),
{
    let mut sum: u64 = 0;
    let mut i: usize = 0;
    proof {
        assert(e@.take(0) =~= Seq::<(Edge, Ori)>::empty());
    }
    while i < NUM_EDGES
        invariant
            i <= NUM_EDGES,
            sum == ori_sum(e@.take(i as int)),
            sum <= i * 0xffff_ffff,
        decreases NUM_EDGES - i,
    {
        proof {
            assert(e@.take(i + 1).drop_last() =~= e@.take(i as int));
        }
        sum = sum + e[i].1 as u64;
        i += 1;
    }
    proof {
        assert(e@.take(NUM_EDGES as int) =~= e@);
    }
    sum
}

} // verus!
