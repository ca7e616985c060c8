//! Laws that tie the facelets to the cubies: a transformation of the cubies
//! takes every facelet from another facelet, a turn of the cubies is the
//! turn of the facelets, and a symmetry of the cubies is the symmetry of the
//! facelets.

use crate::cube::{Corner, Edge, Side};
use crate::cube::arraycube::{
    corner_color, corner_facelet, edge_color, edge_facelet, facelet_place, lemma_facelet_place,
    lemma_place_facelet, spec_array_generator, spec_array_generator_power, spec_array_quarter_turn,
    spec_array_quarter_turns, spec_array_symmetry, spec_array_turn, spec_corner_at_pos,
    spec_edge_at_pos, Place, CUBE_AREA, FACE_TURN_SOURCE, NUM_FACELETS, SYMMETRY_COLOR,
    SYMMETRY_SOURCE,
};
use crate::cube::conversion::{
    corners_readable, edges_readable, spec_corners_of_array, spec_edges_of_array, spec_from_array,
    spec_to_array, PieceError,
};
use crate::cube::cubiecube::{
    compose_corner_ori, corner_quarter_turn, corners_mirrored, corners_regular, corners_wf,
    edge_quarter_turn, edges_wf, is_symmetry_inverse, spec_chain_corners, spec_chain_edges,
    spec_conjugate_corners, spec_conjugate_edges, spec_corner_power, spec_corner_transform,
    spec_edge_power, spec_edge_transform, spec_symmetry_corners, spec_symmetry_corners_from,
    spec_symmetry_edges, spec_symmetry_edges_from, Ori, TC_BASE, TC_S_F2, TC_S_LR, TC_S_U4,
    TC_S_URF3, TE_BASE, TE_S_F2, TE_S_LR, TE_S_U4, TE_S_URF3,
};
use crate::cube::symmetry_facts::lemma_symmetry_facts;
use crate::cube::symmetry_laws::lemma_symmetry_shape;
use crate::cube::tables::{NUM_SYMMETRIES, SYMMETRY_INVERSE};
use crate::cube::turn::{Turn, TurnType, TurnWise};
use crate::cube::turn_laws::{
    lemma_chain_corners_associative, lemma_chain_edges_associative, lemma_chain_identity,
    lemma_chain_regular, lemma_identity_entries, lemma_quarter_turn_shape, lemma_turn_keeps_regular,
    spec_apply_turns,
};
use crate::math::{holds_below, lemma_holds_below};
use vstd::prelude::*;

verus! {

/// The slot that a corner with orientation `o` takes the sticker of its
/// `k`-th facelet from: `o` slots further round for an unmirrored corner,
/// and counted the other way round for a mirrored one.
pub open spec fn slot_source(o: Ori, k: int) -> int {
    if o < 3 {
        (k + o) % 3
    } else {
        (o - k) % 3
    }
}

/// The facelet that a transformation takes the facelet `f` from.  A centre
/// stays where it is.
pub open spec fn source_facelet(tc: Seq<(Corner, Ori)>, te: Seq<(Edge, Ori)>, f: int) -> int {
    match facelet_place(f) {
        Place::Center(_) => f,
        Place::CornerSticker(pos, k) => {
            let (p, o) = tc[pos.spec_index()];
            corner_facelet(p, slot_source(o, k as int))
        },
        Place::EdgeSticker(pos, k) => {
            let (p, o) = te[pos.spec_index()];
            edge_facelet(p, (k + o) % 2)
        },
    }
}

/// A transformation takes every facelet from a facelet of the same kind.
pub proof fn lemma_source_facelet_place(tc: Seq<(Corner, Ori)>, te: Seq<(Edge, Ori)>, f: int)
    requires
        corners_wf(tc),
        edges_wf(te),
        0 <= f < NUM_FACELETS,
    ensures
        0 <= source_facelet(tc, te, f) < NUM_FACELETS,
        facelet_place(source_facelet(tc, te, f)) == match facelet_place(f) {
            Place::Center(side) => Place::Center(side),
            Place::CornerSticker(pos, k) => Place::CornerSticker(
                tc[pos.spec_index()].0,
                slot_source(tc[pos.spec_index()].1, k as int) as usize,
            ),
            Place::EdgeSticker(pos, k) => Place::EdgeSticker(
                te[pos.spec_index()].0,
                ((k + te[pos.spec_index()].1) % 2) as usize,
            ),
        },
{
    lemma_facelet_place(f);
    match facelet_place(f) {
        Place::Center(side) => {},
        Place::CornerSticker(pos, k) => {
            let (p, o) = tc[pos.spec_index()];
            assert(o < 6);
            lemma_place_facelet(Place::CornerSticker(p, slot_source(o, k as int) as usize));
        },
        Place::EdgeSticker(pos, k) => {
            let (p, o) = te[pos.spec_index()];
            assert(o < 2);
            lemma_place_facelet(Place::EdgeSticker(p, ((k + o) % 2) as usize));
        },
    }
}

/// A facelet of a cube without mirrored corners shows the colour of the
/// face on which the facelet lies that the cube, as a transformation of the
/// solved cube, has taken it from.
pub proof fn lemma_color_is_source_face(c: Seq<(Corner, Ori)>, e: Seq<(Edge, Ori)>, f: int)
    requires
        corners_regular(c),
        edges_wf(e),
        0 <= f < NUM_FACELETS,
    ensures
        spec_to_array(c, e)[f] == source_facelet(c, e, f) / CUBE_AREA as int,
{
    lemma_facelet_place(f);
    match facelet_place(f) {
        Place::Center(side) => {},
        Place::CornerSticker(pos, k) => {
            assert(c[pos.spec_index()].1 < 3);
        },
        Place::EdgeSticker(pos, k) => {
            assert(e[pos.spec_index()].1 < 2);
        },
    }
}

/// The slots compose as the orientations do, where the composition of the
/// orientations keeps track of the mirroring.
proof fn lemma_slot_source_composes(o1: Ori, o2: Ori, k: int)
    requires
        o1 < 6,
        o2 < 6,
        o1 < 3 || o2 >= 3,
        0 <= k < 3,
    ensures
        slot_source(compose_corner_ori(o1, o2), k) == slot_source(o1, slot_source(o2, k)),
        0 <= slot_source(o2, k) < 3,
{
}

/// Composition composes the sources: what the composition of two
/// transformations takes a facelet from is what the first takes from what
/// the second takes it from.  This holds where the composition of the
/// orientations keeps track of the mirroring: the first operand mirrors no
/// corner, or the second mirrors every corner.
pub proof fn lemma_chain_sources(
    ac: Seq<(Corner, Ori)>,
    ae: Seq<(Edge, Ori)>,
    bc: Seq<(Corner, Ori)>,
    be: Seq<(Edge, Ori)>,
    f: int,
)
    requires
        corners_wf(ac),
        edges_wf(ae),
        corners_wf(bc),
        edges_wf(be),
        corners_regular(ac) || corners_mirrored(bc),
        0 <= f < NUM_FACELETS,
    ensures
        source_facelet(spec_chain_corners(ac, bc), spec_chain_edges(ae, be), f) == source_facelet(
            ac,
            ae,
            source_facelet(bc, be, f),
        ),
{
    lemma_facelet_place(f);
    lemma_source_facelet_place(bc, be, f);
    match facelet_place(f) {
        Place::Center(side) => {},
        Place::CornerSticker(pos, k) => {
            let (pb, o2) = bc[pos.spec_index()];
            let (pa, o1) = ac[pb.spec_index()];
            assert(o1 < 6 && o2 < 6);
            assert(spec_chain_corners(ac, bc)[pos.spec_index()] == (
                pa,
                compose_corner_ori(o1, o2),
            ));
            lemma_slot_source_composes(o1, o2, k as int);
        },
        Place::EdgeSticker(pos, k) => {
            let (pb, o2) = be[pos.spec_index()];
            let (pa, o1) = ae[pb.spec_index()];
            assert(o1 < 2 && o2 < 2);
            assert(spec_chain_edges(ae, be)[pos.spec_index()] == (pa, ((o1 + o2) % 2) as Ori));
        },
    }
}

/// Whether the table of quarter turns of the facelets names, for the facelet
/// `f`, the facelet that the quarter turn of the cubies takes it from.
pub open spec fn turn_source_agrees(side: TurnType, f: int) -> bool {
    FACE_TURN_SOURCE@[side.spec_index()]@[f] == source_facelet(
        corner_quarter_turn(side),
        edge_quarter_turn(side),
        f,
    )
}

/// The table of quarter turns of the facelets names, for every facelet, the
/// facelet that the quarter turn of the cubies takes it from.
#[verifier::rlimit(50)]
pub proof fn lemma_turn_source_table(side: TurnType)
    ensures
        forall|f: int| 0 <= f < NUM_FACELETS ==> #[trigger] turn_source_agrees(side, f),
{
    let p = |f: int| turn_source_agrees(side, f);
    assert(holds_below(p, 54)) by {
        reveal_with_fuel(holds_below, 55);
        reveal(facelet_place);
        match side {
            TurnType::U => {},
            TurnType::D => {},
            TurnType::B => {},
            TurnType::F => {},
            TurnType::L => {},
            TurnType::R => {},
        }
    }
    lemma_holds_below(p, 54);
    assert forall|f: int| 0 <= f < NUM_FACELETS implies #[trigger] turn_source_agrees(side, f) by {
        assert(p(f));
    }
}

/// A quarter turn of the cubies is the quarter turn of the facelets: turning
/// a cube and then taking its facelets gives what taking its facelets and
/// then turning them gives.
pub proof fn lemma_quarter_turn_commutes(c: Seq<(Corner, Ori)>, e: Seq<(Edge, Ori)>, side: TurnType)
    requires
        corners_regular(c),
        edges_wf(e),
    ensures
        spec_to_array(
            spec_chain_corners(c, corner_quarter_turn(side)),
            spec_chain_edges(e, edge_quarter_turn(side)),
        ) == spec_array_quarter_turn(spec_to_array(c, e), side),
{
    let qc = corner_quarter_turn(side);
    let qe = edge_quarter_turn(side);
    let c1 = spec_chain_corners(c, qc);
    let e1 = spec_chain_edges(e, qe);
    lemma_quarter_turn_shape(side);
    lemma_chain_regular(c, qc);
    lemma_chain_edges_wf(e, qe);
    lemma_turn_source_table(side);
    let l = spec_to_array(c1, e1);
    let r = spec_array_quarter_turn(spec_to_array(c, e), side);
    assert forall|f: int| 0 <= f < NUM_FACELETS implies l[f] == r[f] by {
        let g = source_facelet(qc, qe, f);
        assert(turn_source_agrees(side, f));
        lemma_source_facelet_place(qc, qe, f);
        lemma_color_is_source_face(c1, e1, f);
        lemma_color_is_source_face(c, e, g);
        lemma_chain_sources(c, e, qc, qe, f);
    }
    assert(l =~= r);
}

/// Composing edge transformations keeps the orientations in range.
pub proof fn lemma_chain_edges_wf(a: Seq<(Edge, Ori)>, b: Seq<(Edge, Ori)>)
    requires
        edges_wf(a),
        edges_wf(b),
    ensures
        edges_wf(spec_chain_edges(a, b)),
{
    let r = spec_chain_edges(a, b);
    assert forall|i: int| 0 <= i < 12 implies (#[trigger] r[i]).1 < 2 by {}
}

/// A turn of the cubies is the turn of the facelets.  So a sequence of turns
/// applied to a cube and to its facelets, one turn after the other, keeps
/// the facelets those of the cube.
pub proof fn lemma_turn_commutes(c: Seq<(Corner, Ori)>, e: Seq<(Edge, Ori)>, turn: Turn)
    requires
        corners_regular(c),
        edges_wf(e),
    ensures
        spec_to_array(
            spec_chain_corners(c, spec_corner_transform(turn.side, turn.wise)),
            spec_chain_edges(e, spec_edge_transform(turn.side, turn.wise)),
        ) == spec_array_turn(spec_to_array(c, e), turn),
{
    let side = turn.side;
    let qc = corner_quarter_turn(side);
    let qe = edge_quarter_turn(side);
    let c1 = spec_chain_corners(c, qc);
    let e1 = spec_chain_edges(e, qe);
    let c2 = spec_chain_corners(c1, qc);
    let e2 = spec_chain_edges(e1, qe);
    lemma_quarter_turn_shape(side);
    lemma_chain_regular(c, qc);
    lemma_chain_regular(c1, qc);
    lemma_chain_regular(qc, qc);
    lemma_chain_edges_wf(e, qe);
    lemma_chain_edges_wf(e1, qe);
    lemma_chain_edges_wf(qe, qe);
    lemma_quarter_turn_commutes(c, e, side);
    lemma_quarter_turn_commutes(c1, e1, side);
    lemma_quarter_turn_commutes(c2, e2, side);
    reveal_with_fuel(spec_array_quarter_turns, 4);
    match turn.wise {
        TurnWise::Clockwise => {},
        TurnWise::Double => {
            lemma_chain_corners_associative(c, qc, qc);
            lemma_chain_edges_associative(e, qe, qe);
        },
        TurnWise::CounterClockwise => {
            lemma_chain_corners_associative(c1, qc, qc);
            lemma_chain_corners_associative(c, qc, spec_chain_corners(qc, qc));
            lemma_chain_edges_associative(e1, qe, qe);
            lemma_chain_edges_associative(e, qe, spec_chain_edges(qe, qe));
        },
    }
}

/// The corners of the four generators of the symmetries, in the order in
/// which the generators stand in a symmetry: the rotation about the URF-DBL
/// diagonal, the half turn about the front-back axis, the quarter turn
/// about the up-down axis, the reflection in the LR plane.
pub open spec fn generator_corners(g: int) -> Seq<(Corner, Ori)> {
    if g == 0 {
        TC_S_URF3@
    } else if g == 1 {
        TC_S_F2@
    } else if g == 2 {
        TC_S_U4@
    } else {
        TC_S_LR@
    }
}

/// The edges of the four generators of the symmetries.
pub open spec fn generator_edges(g: int) -> Seq<(Edge, Ori)> {
    if g == 0 {
        TE_S_URF3@
    } else if g == 1 {
        TE_S_F2@
    } else if g == 2 {
        TE_S_U4@
    } else {
        TE_S_LR@
    }
}

/// The index of the symmetry that is one generator alone.
pub open spec fn generator_index(g: int) -> int {
    if g == 0 {
        16
    } else if g == 1 {
        8
    } else if g == 2 {
        2
    } else {
        1
    }
}

/// The generator that a symmetry other than the identity ends with.
pub open spec fn last_generator(s: int) -> int {
    if s % 2 == 1 {
        3
    } else if (s / 2) % 4 != 0 {
        2
    } else if (s / 8) % 2 != 0 {
        1
    } else {
        0
    }
}

/// The index of the symmetry that is left when the last generator is taken
/// off a symmetry other than the identity.
pub open spec fn before_last(s: int) -> int {
    s - generator_index(last_generator(s))
}

/// Composing the identity with a transformation gives the transformation.
pub proof fn lemma_chain_identity_left(c: Seq<(Corner, Ori)>, e: Seq<(Edge, Ori)>)
    requires
        corners_wf(c),
        edges_wf(e),
    ensures
        spec_chain_corners(TC_BASE@, c) == c,
        spec_chain_edges(TE_BASE@, e) == e,
{
    assert forall|i: int| 0 <= i < 8 implies spec_chain_corners(TC_BASE@, c)[i] == c[i] by {
        let p = c[i].0;
        assert(c[i].1 < 6);
        lemma_identity_entries();
        assert(TC_BASE@[p.spec_index()] == (p, 0u32));
    }
    assert forall|i: int| 0 <= i < 12 implies spec_chain_edges(TE_BASE@, e)[i] == e[i] by {
        let p = e[i].0;
        assert(e[i].1 < 2);
        lemma_identity_entries();
        assert(TE_BASE@[p.spec_index()] == (p, 0u32));
    }
    assert(spec_chain_corners(TC_BASE@, c) =~= c);
    assert(spec_chain_edges(TE_BASE@, e) =~= e);
}

/// The identity takes every facelet from itself.
pub proof fn lemma_identity_sources(f: int)
    requires
        0 <= f < NUM_FACELETS,
    ensures
        source_facelet(TC_BASE@, TE_BASE@, f) == f,
{
    lemma_facelet_place(f);
    lemma_identity_entries();
}

/// A symmetry other than the identity is the one before it, followed by its
/// last generator.  The one before it is a rotation.
pub proof fn lemma_symmetry_step(s: int)
    requires
        1 <= s < NUM_SYMMETRIES,
    ensures
        0 <= before_last(s) < s,
        before_last(s) % 2 == 0,
        spec_symmetry_corners(s) == spec_chain_corners(
            spec_symmetry_corners(before_last(s)),
            generator_corners(last_generator(s)),
        ),
        spec_symmetry_edges(s) == spec_chain_edges(
            spec_symmetry_edges(before_last(s)),
            generator_edges(last_generator(s)),
        ),
{
    let x1 = (s / 16) as nat;
    let x2 = ((s / 8) % 2) as nat;
    let x3 = ((s / 2) % 4) as nat;
    let x4 = (s % 2) as nat;
    let t = before_last(s);
    reveal_with_fuel(spec_corner_power, 2);
    reveal_with_fuel(spec_edge_power, 2);
    assert(spec_symmetry_corners(s) == spec_symmetry_corners_from(x1, x2, x3, x4));
    assert(spec_symmetry_edges(s) == spec_symmetry_edges_from(x1, x2, x3, x4));
    if x4 == 1 {
        assert(t / 16 == x1 && (t / 8) % 2 == x2 && (t / 2) % 4 == x3 && t % 2 == 0);
        assert(spec_symmetry_corners(t) == spec_symmetry_corners_from(x1, x2, x3, 0));
        assert(spec_symmetry_edges(t) == spec_symmetry_edges_from(x1, x2, x3, 0));
    } else if x3 != 0 {
        assert(t / 16 == x1 && (t / 8) % 2 == x2 && (t / 2) % 4 == x3 - 1 && t % 2 == 0);
        assert(spec_symmetry_corners(t) == spec_symmetry_corners_from(
            x1,
            x2,
            (x3 - 1) as nat,
            0,
        ));
        assert(spec_symmetry_edges(t) == spec_symmetry_edges_from(x1, x2, (x3 - 1) as nat, 0));
    } else if x2 != 0 {
        assert(t / 16 == x1 && (t / 8) % 2 == 0 && (t / 2) % 4 == 0 && t % 2 == 0);
        assert(spec_symmetry_corners(t) == spec_symmetry_corners_from(x1, 0, 0, 0));
        assert(spec_symmetry_edges(t) == spec_symmetry_edges_from(x1, 0, 0, 0));
    } else {
        assert(t / 16 == x1 - 1 && (t / 8) % 2 == 0 && (t / 2) % 4 == 0 && t % 2 == 0);
        assert(spec_symmetry_corners(t) == spec_symmetry_corners_from((x1 - 1) as nat, 0, 0, 0));
        assert(spec_symmetry_edges(t) == spec_symmetry_edges_from((x1 - 1) as nat, 0, 0, 0));
    }
}

/// Applying a generator `n` times is applying it once and then `n - 1`
/// times.
pub proof fn lemma_array_generator_power_shift(a: Seq<Side>, g: int, n: nat)
    requires
        n >= 1,
    ensures
        spec_array_generator_power(a, g, n) == spec_array_generator_power(
            spec_array_generator(a, g),
            g,
            (n - 1) as nat,
        ),
    decreases n,
{
    if n > 1 {
        lemma_array_generator_power_shift(a, g, (n - 1) as nat);
    } else {
        reveal_with_fuel(spec_array_generator_power, 2);
    }
}

/// The facelets seen through a symmetry other than the identity are the
/// facelets first seen through its last generator and then through the
/// symmetry before it.
pub proof fn lemma_array_symmetry_step(a: Seq<Side>, s: int)
    requires
        1 <= s < NUM_SYMMETRIES,
    ensures
        spec_array_symmetry(a, s) == spec_array_symmetry(
            spec_array_generator(a, last_generator(s)),
            before_last(s),
        ),
{
    let x1 = (s / 16) as nat;
    let x2 = ((s / 8) % 2) as nat;
    let x3 = ((s / 2) % 4) as nat;
    let x4 = (s % 2) as nat;
    let t = before_last(s);
    if x4 == 1 {
        assert(t / 16 == x1 && (t / 8) % 2 == x2 && (t / 2) % 4 == x3 && t % 2 == 0);
        lemma_array_generator_power_shift(a, 3, x4);
    } else if x3 != 0 {
        assert(t / 16 == x1 && (t / 8) % 2 == x2 && (t / 2) % 4 == x3 - 1 && t % 2 == 0);
        lemma_array_generator_power_shift(a, 2, x3);
    } else if x2 != 0 {
        assert(t / 16 == x1 && (t / 8) % 2 == 0 && (t / 2) % 4 == 0 && t % 2 == 0);
        lemma_array_generator_power_shift(a, 1, x2);
    } else {
        assert(t / 16 == x1 - 1 && (t / 8) % 2 == 0 && (t / 2) % 4 == 0 && t % 2 == 0);
        lemma_array_generator_power_shift(a, 0, x1);
    }
}

/// The generators have their orientations in range, and each is the symmetry
/// at its index.
pub proof fn lemma_generator_symmetry(g: int)
    requires
        0 <= g < 4,
    ensures
        corners_wf(generator_corners(g)),
        edges_wf(generator_edges(g)),
        spec_symmetry_corners(generator_index(g)) == generator_corners(g),
        spec_symmetry_edges(generator_index(g)) == generator_edges(g),
        spec_symmetry_corners(0) == TC_BASE@,
        spec_symmetry_edges(0) == TE_BASE@,
{
    lemma_symmetry_step(generator_index(g));
    lemma_chain_identity_left(generator_corners(g), generator_edges(g));
}

/// A symmetry and its inverse undo each other's taking of facelets, in
/// either order.
pub proof fn lemma_symmetry_inverse_sources(t: int, f: int)
    requires
        0 <= t < NUM_SYMMETRIES,
        0 <= f < NUM_FACELETS,
    ensures
        0 <= SYMMETRY_INVERSE@[t] < NUM_SYMMETRIES,
        source_facelet(
            spec_symmetry_corners(t),
            spec_symmetry_edges(t),
            source_facelet(
                spec_symmetry_corners(SYMMETRY_INVERSE@[t] as int),
                spec_symmetry_edges(SYMMETRY_INVERSE@[t] as int),
                f,
            ),
        ) == f,
        source_facelet(
            spec_symmetry_corners(SYMMETRY_INVERSE@[t] as int),
            spec_symmetry_edges(SYMMETRY_INVERSE@[t] as int),
            source_facelet(spec_symmetry_corners(t), spec_symmetry_edges(t), f),
        ) == f,
{
    lemma_symmetry_facts(t);
    let v = SYMMETRY_INVERSE@[t] as int;
    lemma_symmetry_facts(v);
    lemma_symmetry_shape(t);
    lemma_symmetry_shape(v);
    let tc = spec_symmetry_corners(t);
    let te = spec_symmetry_edges(t);
    let vc = spec_symmetry_corners(v);
    let ve = spec_symmetry_edges(v);
    assert(is_symmetry_inverse(t, v));
    assert(is_symmetry_inverse(v, t));
    lemma_chain_sources(tc, te, vc, ve, f);
    lemma_chain_sources(vc, ve, tc, te, f);
    lemma_identity_sources(f);
}

/// A symmetry other than the identity takes a facelet from where the
/// symmetry before it takes what its last generator takes the facelet from.
pub proof fn lemma_symmetry_step_sources(s: int, f: int)
    requires
        1 <= s < NUM_SYMMETRIES,
        0 <= f < NUM_FACELETS,
    ensures
        source_facelet(spec_symmetry_corners(s), spec_symmetry_edges(s), f) == source_facelet(
            spec_symmetry_corners(before_last(s)),
            spec_symmetry_edges(before_last(s)),
            source_facelet(
                generator_corners(last_generator(s)),
                generator_edges(last_generator(s)),
                f,
            ),
        ),
{
    lemma_symmetry_step(s);
    lemma_symmetry_shape(before_last(s));
    lemma_generator_symmetry(last_generator(s));
    lemma_chain_sources(
        spec_symmetry_corners(before_last(s)),
        spec_symmetry_edges(before_last(s)),
        generator_corners(last_generator(s)),
        generator_edges(last_generator(s)),
        f,
    );
}

/// The inverse of a symmetry other than the identity takes a facelet from
/// where the inverse of its last generator takes what the inverse of the
/// symmetry before it takes the facelet from.
pub proof fn lemma_inverse_step_sources(s: int, f: int)
    requires
        1 <= s < NUM_SYMMETRIES,
        0 <= f < NUM_FACELETS,
    ensures
        source_facelet(
            spec_symmetry_corners(SYMMETRY_INVERSE@[s] as int),
            spec_symmetry_edges(SYMMETRY_INVERSE@[s] as int),
            f,
        ) == source_facelet(
            spec_symmetry_corners(
                SYMMETRY_INVERSE@[generator_index(last_generator(s))] as int,
            ),
            spec_symmetry_edges(SYMMETRY_INVERSE@[generator_index(last_generator(s))] as int),
            source_facelet(
                spec_symmetry_corners(SYMMETRY_INVERSE@[before_last(s)] as int),
                spec_symmetry_edges(SYMMETRY_INVERSE@[before_last(s)] as int),
                f,
            ),
        ),
{
    let g = last_generator(s);
    let gi = generator_index(g);
    let t = before_last(s);
    lemma_symmetry_step(s);
    lemma_symmetry_facts(s);
    lemma_symmetry_facts(t);
    lemma_symmetry_facts(gi);
    let sv = SYMMETRY_INVERSE@[s] as int;
    let tv = SYMMETRY_INVERSE@[t] as int;
    let gv = SYMMETRY_INVERSE@[gi] as int;
    lemma_symmetry_shape(tv);
    lemma_symmetry_shape(gv);
    lemma_symmetry_shape(gi);
    lemma_generator_symmetry(g);
    // what the inverse of the symmetry before takes the facelet from
    let y = source_facelet(spec_symmetry_corners(tv), spec_symmetry_edges(tv), f);
    lemma_source_facelet_place(spec_symmetry_corners(tv), spec_symmetry_edges(tv), f);
    // what the inverse of the generator takes that from
    let x = source_facelet(spec_symmetry_corners(gv), spec_symmetry_edges(gv), y);
    lemma_source_facelet_place(spec_symmetry_corners(gv), spec_symmetry_edges(gv), y);
    // the symmetry takes that from the facelet
    lemma_symmetry_step_sources(s, x);
    lemma_symmetry_inverse_sources(gi, y);
    lemma_symmetry_inverse_sources(t, f);
    assert(source_facelet(spec_symmetry_corners(s), spec_symmetry_edges(s), x) == f);
    lemma_symmetry_inverse_sources(s, x);
}

/// Composing an unmirrored transformation with one that mirrors every
/// corner mirrors every corner.
pub proof fn lemma_chain_mirrored(a: Seq<(Corner, Ori)>, b: Seq<(Corner, Ori)>)
    requires
        corners_regular(a),
        corners_mirrored(b),
    ensures
        corners_mirrored(spec_chain_corners(a, b)),
{
    let r = spec_chain_corners(a, b);
    assert forall|i: int| 0 <= i < 8 implies 3 <= (#[trigger] r[i]).1 < 6 by {
        assert(3 <= b[i].1 < 6);
        assert(a[b[i].0.spec_index()].1 < 3);
    }
}

/// A cube seen through a symmetry mirrors no corner, and takes a facelet
/// from where the symmetry takes what the cube takes from what the inverse
/// of the symmetry takes the facelet from.
pub proof fn lemma_conjugate_sources(c: Seq<(Corner, Ori)>, e: Seq<(Edge, Ori)>, t: int, f: int)
    requires
        corners_regular(c),
        edges_wf(e),
        0 <= t < NUM_SYMMETRIES,
        0 <= f < NUM_FACELETS,
    ensures
        corners_regular(spec_conjugate_corners(c, t)),
        edges_wf(spec_conjugate_edges(e, t)),
        source_facelet(spec_conjugate_corners(c, t), spec_conjugate_edges(e, t), f)
            == source_facelet(
            spec_symmetry_corners(t),
            spec_symmetry_edges(t),
            source_facelet(
                c,
                e,
                source_facelet(
                    spec_symmetry_corners(SYMMETRY_INVERSE@[t] as int),
                    spec_symmetry_edges(SYMMETRY_INVERSE@[t] as int),
                    f,
                ),
            ),
        ),
{
    lemma_symmetry_facts(t);
    let v = SYMMETRY_INVERSE@[t] as int;
    lemma_symmetry_shape(t);
    lemma_symmetry_shape(v);
    let tc = spec_symmetry_corners(t);
    let te = spec_symmetry_edges(t);
    let vc = spec_symmetry_corners(v);
    let ve = spec_symmetry_edges(v);
    let xc = spec_chain_corners(c, vc);
    let xe = spec_chain_edges(e, ve);
    lemma_chain_edges_wf(e, ve);
    lemma_chain_edges_wf(te, xe);
    if t % 2 == 0 {
        lemma_chain_regular(c, vc);
        lemma_chain_regular(tc, xc);
    } else {
        lemma_chain_mirrored(c, vc);
        let r = spec_chain_corners(tc, xc);
        assert forall|i: int| 0 <= i < 8 implies (#[trigger] r[i]).1 < 3 by {
            assert(3 <= xc[i].1 < 6);
            assert(3 <= tc[xc[i].0.spec_index()].1 < 6);
        }
    }
    lemma_chain_sources(c, e, vc, ve, f);
    lemma_chain_sources(tc, te, xc, xe, f);
}

/// A cube without mirrored corners is told by the facelets that it takes
/// the facelets from.
pub proof fn lemma_sources_determine(
    c1: Seq<(Corner, Ori)>,
    e1: Seq<(Edge, Ori)>,
    c2: Seq<(Corner, Ori)>,
    e2: Seq<(Edge, Ori)>,
)
    requires
        corners_regular(c1),
        edges_wf(e1),
        corners_regular(c2),
        edges_wf(e2),
        forall|f: int|
            0 <= f < NUM_FACELETS ==> #[trigger] source_facelet(c1, e1, f) == source_facelet(
                c2,
                e2,
                f,
            ),
    ensures
        c1 == c2,
        e1 == e2,
{
    assert forall|i: int| 0 <= i < 8 implies c1[i] == c2[i] by {
        let pos = Corner::spec_from_index(i);
        assert(pos.spec_index() == i);
        let f = corner_facelet(pos, 0);
        lemma_place_facelet(Place::CornerSticker(pos, 0));
        assert(source_facelet(c1, e1, f) == source_facelet(c2, e2, f));
        assert(c1[i].1 < 3 && c2[i].1 < 3);
        lemma_place_facelet(Place::CornerSticker(c1[i].0, c1[i].1 as usize));
        lemma_place_facelet(Place::CornerSticker(c2[i].0, c2[i].1 as usize));
    }
    assert forall|i: int| 0 <= i < 12 implies e1[i] == e2[i] by {
        let pos = Edge::spec_from_index(i);
        assert(pos.spec_index() == i);
        let f = edge_facelet(pos, 0);
        lemma_place_facelet(Place::EdgeSticker(pos, 0));
        assert(source_facelet(c1, e1, f) == source_facelet(c2, e2, f));
        assert(e1[i].1 < 2 && e2[i].1 < 2);
        lemma_place_facelet(Place::EdgeSticker(e1[i].0, e1[i].1 as usize));
        lemma_place_facelet(Place::EdgeSticker(e2[i].0, e2[i].1 as usize));
    }
    assert(c1 =~= c2);
    assert(e1 =~= e2);
}

/// Seeing a cube through a symmetry other than the identity is seeing it
/// through the last generator of the symmetry and then through the
/// symmetry before it.
pub proof fn lemma_conjugate_step(c: Seq<(Corner, Ori)>, e: Seq<(Edge, Ori)>, s: int)
    requires
        corners_regular(c),
        edges_wf(e),
        1 <= s < NUM_SYMMETRIES,
    ensures
        spec_conjugate_corners(c, s) == spec_conjugate_corners(
            spec_conjugate_corners(c, generator_index(last_generator(s))),
            before_last(s),
        ),
        spec_conjugate_edges(e, s) == spec_conjugate_edges(
            spec_conjugate_edges(e, generator_index(last_generator(s))),
            before_last(s),
        ),
{
    let g = last_generator(s);
    let gi = generator_index(g);
    let t = before_last(s);
    lemma_symmetry_step(s);
    lemma_symmetry_facts(s);
    lemma_symmetry_facts(t);
    lemma_symmetry_facts(gi);
    let sv = SYMMETRY_INVERSE@[s] as int;
    let tv = SYMMETRY_INVERSE@[t] as int;
    let gv = SYMMETRY_INVERSE@[gi] as int;
    lemma_symmetry_shape(sv);
    lemma_symmetry_shape(tv);
    lemma_symmetry_shape(gv);
    lemma_symmetry_shape(gi);
    lemma_generator_symmetry(g);
    let c1 = spec_conjugate_corners(c, gi);
    let e1 = spec_conjugate_edges(e, gi);
    lemma_conjugate_sources(c, e, gi, 0);
    lemma_conjugate_sources(c, e, s, 0);
    lemma_conjugate_sources(c1, e1, t, 0);
    let lc = spec_conjugate_corners(c, s);
    let le = spec_conjugate_edges(e, s);
    let rc = spec_conjugate_corners(c1, t);
    let re = spec_conjugate_edges(e1, t);
    assert forall|f: int| 0 <= f < NUM_FACELETS implies #[trigger] source_facelet(lc, le, f)
        == source_facelet(rc, re, f) by {
        // from the inside out: the inverse of the symmetry before, ...
        let y = source_facelet(spec_symmetry_corners(tv), spec_symmetry_edges(tv), f);
        lemma_source_facelet_place(spec_symmetry_corners(tv), spec_symmetry_edges(tv), f);
        // ... the inverse of the generator, ...
        let x = source_facelet(spec_symmetry_corners(gv), spec_symmetry_edges(gv), y);
        lemma_source_facelet_place(spec_symmetry_corners(gv), spec_symmetry_edges(gv), y);
        // ... the cube, ...
        let w = source_facelet(c, e, x);
        lemma_source_facelet_place(c, e, x);
        // ... the generator, and the symmetry before.
        lemma_inverse_step_sources(s, f);
        lemma_symmetry_step_sources(s, w);
        lemma_conjugate_sources(c, e, s, f);
        lemma_conjugate_sources(c, e, gi, y);
        lemma_conjugate_sources(c1, e1, t, f);
    }
    lemma_sources_determine(lc, le, rc, re);
}

/// Whether the tables of a generator of the symmetries of the facelets agree
/// with the generator of the symmetries of the cubies at the facelet `f`:
/// the table of sources names the facelet that the inverse of the
/// generator takes `f` from, the table of colours gives the colour of the
/// face of `f` the colour of the face that the generator takes `f` from,
/// and a centre comes from the centre whose colour becomes its own.
pub open spec fn generator_agrees(g: int, f: int) -> bool {
    let v = SYMMETRY_INVERSE@[generator_index(g)] as int;
    let from = SYMMETRY_SOURCE@[g]@[f] as int;
    match facelet_place(f) {
        Place::Center(side) => {
            &&& 0 <= from < NUM_FACELETS
            &&& facelet_place(from) is Center
            &&& SYMMETRY_COLOR@[g]@[from / CUBE_AREA as int] == side
        },
        _ => {
            &&& from == source_facelet(spec_symmetry_corners(v), spec_symmetry_edges(v), f)
            &&& SYMMETRY_COLOR@[g]@[f / CUBE_AREA as int] == source_facelet(
                generator_corners(g),
                generator_edges(g),
                f,
            ) / CUBE_AREA as int
        },
    }
}

/// The tables of the generators of the symmetries of the facelets agree with
/// the generators of the symmetries of the cubies at every facelet.
#[verifier::rlimit(50)]
pub proof fn lemma_generator_tables(g: int)
    requires
        0 <= g < 4,
    ensures
        forall|f: int| 0 <= f < NUM_FACELETS ==> #[trigger] generator_agrees(g, f),
{
    let p = |f: int| generator_agrees(g, f);
    assert(holds_below(p, 54)) by {
        reveal_with_fuel(holds_below, 55);
        reveal_with_fuel(spec_corner_power, 4);
        reveal_with_fuel(spec_edge_power, 4);
        reveal(facelet_place);
        if g == 0 {
        } else if g == 1 {
        } else if g == 2 {
        } else {
        }
    }
    lemma_holds_below(p, 54);
    assert forall|f: int| 0 <= f < NUM_FACELETS implies #[trigger] generator_agrees(g, f) by {
        assert(p(f));
    }
}

/// A generator of the symmetries of the cubies is the generator of the
/// symmetries of the facelets.
pub proof fn lemma_generator_commutes(c: Seq<(Corner, Ori)>, e: Seq<(Edge, Ori)>, g: int)
    requires
        corners_regular(c),
        edges_wf(e),
        0 <= g < 4,
    ensures
        spec_to_array(
            spec_conjugate_corners(c, generator_index(g)),
            spec_conjugate_edges(e, generator_index(g)),
        ) == spec_array_generator(spec_to_array(c, e), g),
{
    let gi = generator_index(g);
    lemma_symmetry_facts(gi);
    let v = SYMMETRY_INVERSE@[gi] as int;
    lemma_symmetry_shape(v);
    lemma_symmetry_shape(gi);
    lemma_generator_symmetry(g);
    lemma_generator_tables(g);
    let c1 = spec_conjugate_corners(c, gi);
    let e1 = spec_conjugate_edges(e, gi);
    lemma_conjugate_sources(c, e, gi, 0);
    let a = spec_to_array(c, e);
    let l = spec_to_array(c1, e1);
    let r = spec_array_generator(a, g);
    assert forall|f: int| 0 <= f < NUM_FACELETS implies l[f] == r[f] by {
        assert(generator_agrees(g, f));
        lemma_facelet_place(f);
        let from = SYMMETRY_SOURCE@[g]@[f] as int;
        match facelet_place(f) {
            Place::Center(side) => {
                lemma_facelet_place(from);
                assert(a[from] == from / CUBE_AREA as int);
            },
            _ => {
                // the inverse of the generator, the cube, the generator
                lemma_source_facelet_place(spec_symmetry_corners(v), spec_symmetry_edges(v), f);
                let w = source_facelet(c, e, from);
                lemma_source_facelet_place(c, e, from);
                lemma_color_is_source_face(c, e, from);
                assert(generator_agrees(g, w));
                lemma_facelet_place(w);
                lemma_conjugate_sources(c, e, gi, f);
                lemma_color_is_source_face(c1, e1, f);
            },
        }
    }
    assert(l =~= r);
}

/// Symmetry commutes with taking the facelets: the facelets of a cube seen
/// through a symmetry are the facelets of the cube, seen through the
/// symmetry.
pub proof fn lemma_symmetry_commutes(c: Seq<(Corner, Ori)>, e: Seq<(Edge, Ori)>, s: int)
    requires
        corners_regular(c),
        edges_wf(e),
        0 <= s < NUM_SYMMETRIES,
    ensures
        spec_to_array(spec_conjugate_corners(c, s), spec_conjugate_edges(e, s))
            == spec_array_symmetry(spec_to_array(c, e), s),
    decreases s,
{
    if s == 0 {
        lemma_symmetry_facts(0);
        lemma_generator_symmetry(0);
        lemma_chain_identity(c, e);
        lemma_chain_identity_left(c, e);
        assert(spec_array_symmetry(spec_to_array(c, e), 0) == spec_to_array(c, e));
    } else {
        let g = last_generator(s);
        let gi = generator_index(g);
        let t = before_last(s);
        lemma_symmetry_step(s);
        let c1 = spec_conjugate_corners(c, gi);
        let e1 = spec_conjugate_edges(e, gi);
        lemma_conjugate_sources(c, e, gi, 0);
        lemma_array_symmetry_step(spec_to_array(c, e), s);
        lemma_generator_commutes(c, e, g);
        lemma_symmetry_commutes(c1, e1, t);
        lemma_conjugate_step(c, e, s);
    }
}

/// What stands at a corner position of the facelets of a cube is what stands
/// there on the cube.
proof fn lemma_corner_read_back(c: Seq<(Corner, Ori)>, e: Seq<(Edge, Ori)>, pos: Corner)
    requires
        corners_regular(c),
        edges_wf(e),
    ensures
        spec_corner_at_pos(spec_to_array(c, e), pos) == Some(
            (c[pos.spec_index()].0, c[pos.spec_index()].1 as usize),
        ),
{
    let a = spec_to_array(c, e);
    let (p, o) = c[pos.spec_index()];
    assert(o < 3);
    lemma_place_facelet(Place::CornerSticker(pos, 0));
    lemma_place_facelet(Place::CornerSticker(pos, 1));
    lemma_place_facelet(Place::CornerSticker(pos, 2));
    let col = seq![
        a[corner_facelet(pos, 0)],
        a[corner_facelet(pos, 1)],
        a[corner_facelet(pos, 2)],
    ];
    assert(col[0] == corner_color(p, ((0 + o) % 3) as int));
    assert(col[1] == corner_color(p, ((1 + o) % 3) as int));
    assert(col[2] == corner_color(p, ((2 + o) % 3) as int));
    lemma_corner_colors_tell(p, o, col);
}

/// The colours of a corner, in the order in which an orientation shows them,
/// are those of no other corner, and the first tells the orientation.
proof fn lemma_corner_colors_tell(p: Corner, o: Ori, col: Seq<Side>)
    requires
        o < 3,
        col.len() == 3,
        col[0] == corner_color(p, ((0 + o) % 3) as int),
        col[1] == corner_color(p, ((1 + o) % 3) as int),
        col[2] == corner_color(p, ((2 + o) % 3) as int),
    ensures
        Corner::spec_parse_corner(col) == Some(p),
        col[0] == corner_color(p, 0) <==> o == 0,
        col[0] == corner_color(p, 1) <==> o == 1,
{
    match p {
        Corner::URF => {},
        Corner::UBR => {},
        Corner::DLF => {},
        Corner::DFR => {},
        Corner::ULB => {},
        Corner::UFL => {},
        Corner::DRB => {},
        Corner::DBL => {},
    }
}

/// What stands at an edge position of the facelets of a cube is what stands
/// there on the cube.
proof fn lemma_edge_read_back(c: Seq<(Corner, Ori)>, e: Seq<(Edge, Ori)>, pos: Edge)
    requires
        corners_regular(c),
        edges_wf(e),
    ensures
        spec_edge_at_pos(spec_to_array(c, e), pos) == Some(
            (e[pos.spec_index()].0, e[pos.spec_index()].1 as usize),
        ),
{
    let a = spec_to_array(c, e);
    let (p, o) = e[pos.spec_index()];
    assert(o < 2);
    lemma_place_facelet(Place::EdgeSticker(pos, 0));
    lemma_place_facelet(Place::EdgeSticker(pos, 1));
    let col = seq![a[edge_facelet(pos, 0)], a[edge_facelet(pos, 1)]];
    assert(col[0] == edge_color(p, ((0 + o) % 2) as int));
    assert(col[1] == edge_color(p, ((1 + o) % 2) as int));
    lemma_edge_colors_tell(p, o, col);
}

/// The colours of an edge, in the order in which an orientation shows them,
/// are those of no other edge, and the first tells the orientation.
proof fn lemma_edge_colors_tell(p: Edge, o: Ori, col: Seq<Side>)
    requires
        o < 2,
        col.len() == 2,
        col[0] == edge_color(p, ((0 + o) % 2) as int),
        col[1] == edge_color(p, ((1 + o) % 2) as int),
    ensures
        Edge::spec_parse_edge(col) == Some(p),
        col[0] == edge_color(p, 0) <==> o == 0,
{
    match p {
        Edge::UF => {},
        Edge::UR => {},
        Edge::UB => {},
        Edge::UL => {},
        Edge::DF => {},
        Edge::DR => {},
        Edge::DB => {},
        Edge::DL => {},
        Edge::FR => {},
        Edge::BR => {},
        Edge::BL => {},
        Edge::FL => {},
    }
}

/// Reading the cubies off the facelets of a cube gives the cube back.
pub proof fn lemma_from_to_array(c: Seq<(Corner, Ori)>, e: Seq<(Edge, Ori)>)
    requires
        corners_regular(c),
        edges_wf(e),
    ensures
        spec_from_array(spec_to_array(c, e)) == Ok::<
            (Seq<(Corner, Ori)>, Seq<(Edge, Ori)>),
            PieceError,
        >((c, e)),
{
    let a = spec_to_array(c, e);
    assert forall|i: int| 0 <= i < 12 implies #[trigger] spec_edge_at_pos(
        a,
        Edge::spec_from_index(i),
    ) == Some((e[i].0, e[i].1 as usize)) by {
        let pos = Edge::spec_from_index(i);
        assert(pos.spec_index() == i);
        lemma_edge_read_back(c, e, pos);
    }
    assert forall|i: int| 0 <= i < 8 implies #[trigger] spec_corner_at_pos(
        a,
        Corner::spec_from_index(i),
    ) == Some((c[i].0, c[i].1 as usize)) by {
        let pos = Corner::spec_from_index(i);
        assert(pos.spec_index() == i);
        lemma_corner_read_back(c, e, pos);
    }
    assert(edges_readable(a, 12));
    assert(corners_readable(a, 8));
    assert(spec_corners_of_array(a) =~= c);
    assert(spec_edges_of_array(a) =~= e);
}

/// The facelets after a sequence of turns, one after the other.
pub open spec fn spec_array_apply_turns(a: Seq<Side>, turns: Seq<Turn>) -> Seq<Side>
    decreases turns.len(),
{
    if turns.len() == 0 {
        a
    } else {
        spec_array_turn(spec_array_apply_turns(a, turns.drop_last()), turns.last())
    }
}

/// The two forms of the cube stay in step: applying a sequence of turns to
/// the cubies and to the facelets, and then taking the facelets of the one
/// or reading the cubies off the other, gives the same.
pub proof fn lemma_turns_commute(c: Seq<(Corner, Ori)>, e: Seq<(Edge, Ori)>, turns: Seq<Turn>)
    requires
        corners_regular(c),
        edges_wf(e),
    ensures
        corners_regular(spec_apply_turns(c, e, turns).0),
        edges_wf(spec_apply_turns(c, e, turns).1),
        spec_to_array(spec_apply_turns(c, e, turns).0, spec_apply_turns(c, e, turns).1)
            == spec_array_apply_turns(spec_to_array(c, e), turns),
        spec_from_array(spec_array_apply_turns(spec_to_array(c, e), turns)) == Ok::<
            (Seq<(Corner, Ori)>, Seq<(Edge, Ori)>),
            PieceError,
        >(spec_apply_turns(c, e, turns)),
    decreases turns.len(),
{
    if turns.len() > 0 {
        let before = turns.drop_last();
        let turn = turns.last();
        lemma_turns_commute(c, e, before);
        let (cb, eb) = spec_apply_turns(c, e, before);
        lemma_turn_keeps_regular(cb, eb, turn.side, turn.wise);
        lemma_turn_commutes(cb, eb, turn);
    }
    let (cn, en) = spec_apply_turns(c, e, turns);
    lemma_from_to_array(cn, en);
}

} // verus!
