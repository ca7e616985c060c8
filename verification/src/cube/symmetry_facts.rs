//! The facts about the forty-eight symmetries that are found by working each
//! one out: each has the inverse that the table of inverses names, and each
//! is told from the others by the edge pieces it puts at `UF` and `UR`.

use crate::cube::{Edge, NUM_EDGES};
use crate::cube::cubiecube::{
    is_symmetry_inverse, spec_corner_power, spec_edge_power, spec_symmetry_edges, Ori,
};
use crate::cube::tables::{NUM_SYMMETRIES, SYMMETRY_BY_EDGES, SYMMETRY_INVERSE};
use vstd::prelude::*;

verus! {

/// The edge pieces that a transformation puts at `UF` and at `UR`, as one
/// number below 144.
pub open spec fn edge_fingerprint(t: Seq<(Edge, Ori)>) -> int {
    NUM_EDGES * t[0].0.spec_index() + t[1].0.spec_index()
}

/// What is worked out for the symmetry at index `s`.
pub open spec fn symmetry_facts(s: int) -> bool {
    let inv = SYMMETRY_INVERSE@[s] as int;
    &&& 0 <= inv < NUM_SYMMETRIES
    &&& SYMMETRY_INVERSE@[inv] == s
    &&& inv % 2 == s % 2
    &&& SYMMETRY_BY_EDGES@[edge_fingerprint(spec_symmetry_edges(s))] == s
    &&& is_symmetry_inverse(s, inv)
}

/// The facts of the symmetries at the indices `0..8`, worked out one by one.
#[verifier::rlimit(50)]
proof fn lemma_symmetry_facts_0(s: int)
    requires
        0 <= s < 8,
    ensures
        symmetry_facts(s),
{
    reveal_with_fuel(spec_corner_power, 4);
    reveal_with_fuel(spec_edge_power, 4);
    if s == 0 {
        assert(symmetry_facts(0));
    } else if s == 1 {
        assert(symmetry_facts(1));
    } else if s == 2 {
        assert(symmetry_facts(2));
    } else if s == 3 {
        assert(symmetry_facts(3));
    } else if s == 4 {
        assert(symmetry_facts(4));
    } else if s == 5 {
        assert(symmetry_facts(5));
    } else if s == 6 {
        assert(symmetry_facts(6));
    } else {
        assert(symmetry_facts(7));
    }
}

/// The facts of the symmetries at the indices `8..16`, worked out one by one.
#[verifier::rlimit(50)]
proof fn lemma_symmetry_facts_1(s: int)
    requires
        8 <= s < 16,
    ensures
        symmetry_facts(s),
{
    reveal_with_fuel(spec_corner_power, 4);
    reveal_with_fuel(spec_edge_power, 4);
    if s == 8 {
        assert(symmetry_facts(8));
    } else if s == 9 {
        assert(symmetry_facts(9));
    } else if s == 10 {
        assert(symmetry_facts(10));
    } else if s == 11 {
        assert(symmetry_facts(11));
    } else if s == 12 {
        assert(symmetry_facts(12));
    } else if s == 13 {
        assert(symmetry_facts(13));
    } else if s == 14 {
        assert(symmetry_facts(14));
    } else {
        assert(symmetry_facts(15));
    }
}

/// The facts of the symmetries at the indices `16..24`, worked out one by one.
#[verifier::rlimit(50)]
proof fn lemma_symmetry_facts_2(s: int)
    requires
        16 <= s < 24,
    ensures
        symmetry_facts(s),
{
    reveal_with_fuel(spec_corner_power, 4);
    reveal_with_fuel(spec_edge_power, 4);
    if s == 16 {
        assert(symmetry_facts(16));
    } else if s == 17 {
        assert(symmetry_facts(17));
    } else if s == 18 {
        assert(symmetry_facts(18));
    } else if s == 19 {
        assert(symmetry_facts(19));
    } else if s == 20 {
        assert(symmetry_facts(20));
    } else if s == 21 {
        assert(symmetry_facts(21));
    } else if s == 22 {
        assert(symmetry_facts(22));
    } else {
        assert(symmetry_facts(23));
    }
}

/// The facts of the symmetries at the indices `24..32`, worked out one by one.
#[verifier::rlimit(50)]
proof fn lemma_symmetry_facts_3(s: int)
    requires
        24 <= s < 32,
    ensures
        symmetry_facts(s),
{
    reveal_with_fuel(spec_corner_power, 4);
    reveal_with_fuel(spec_edge_power, 4);
    if s == 24 {
        assert(symmetry_facts(24));
    } else if s == 25 {
        assert(symmetry_facts(25));
    } else if s == 26 {
        assert(symmetry_facts(26));
    } else if s == 27 {
        assert(symmetry_facts(27));
    } else if s == 28 {
        assert(symmetry_facts(28));
    } else if s == 29 {
        assert(symmetry_facts(29));
    } else if s == 30 {
        assert(symmetry_facts(30));
    } else {
        assert(symmetry_facts(31));
    }
}

/// The facts of the symmetries at the indices `32..40`, worked out one by one.
#[verifier::rlimit(50)]
proof fn lemma_symmetry_facts_4(s: int)
    requires
        32 <= s < 40,
    ensures
        symmetry_facts(s),
{
    reveal_with_fuel(spec_corner_power, 4);
    reveal_with_fuel(spec_edge_power, 4);
    if s == 32 {
        assert(symmetry_facts(32));
    } else if s == 33 {
        assert(symmetry_facts(33));
    } else if s == 34 {
        assert(symmetry_facts(34));
    } else if s == 35 {
        assert(symmetry_facts(35));
    } else if s == 36 {
        assert(symmetry_facts(36));
    } else if s == 37 {
        assert(symmetry_facts(37));
    } else if s == 38 {
        assert(symmetry_facts(38));
    } else {
        assert(symmetry_facts(39));
    }
}

/// The facts of the symmetries at the indices `40..48`, worked out one by one.
#[verifier::rlimit(50)]
proof fn lemma_symmetry_facts_5(s: int)
    requires
        40 <= s < 48,
    ensures
        symmetry_facts(s),
{
    reveal_with_fuel(spec_corner_power, 4);
    reveal_with_fuel(spec_edge_power, 4);
    if s == 40 {
        assert(symmetry_facts(40));
    } else if s == 41 {
        assert(symmetry_facts(41));
    } else if s == 42 {
        assert(symmetry_facts(42));
    } else if s == 43 {
        assert(symmetry_facts(43));
    } else if s == 44 {
        assert(symmetry_facts(44));
    } else if s == 45 {
        assert(symmetry_facts(45));
    } else if s == 46 {
        assert(symmetry_facts(46));
    } else {
        assert(symmetry_facts(47));
    }
}

/// Every symmetry has the inverse that the table names, and the edge pieces
/// it puts at `UF` and `UR` are found at no other index.
pub proof fn lemma_symmetry_facts(s: int)
    requires
        0 <= s < NUM_SYMMETRIES,
    ensures
        symmetry_facts(s),
{
    if s < 8 {
        lemma_symmetry_facts_0(s);
    } else if s < 16 {
        lemma_symmetry_facts_1(s);
    } else if s < 24 {
        lemma_symmetry_facts_2(s);
    } else if s < 32 {
        lemma_symmetry_facts_3(s);
    } else if s < 40 {
        lemma_symmetry_facts_4(s);
    } else {
        lemma_symmetry_facts_5(s);
    }
}

} // verus!
