//! From the cubies to the facelets and back.

use crate::cube::{Corner, Edge, Side, NUM_CORNERS, NUM_EDGES};
use crate::cube::arraycube::{
    corner_color, corner_to_indices, edge_color, edge_to_indices, facelet_place,
    lemma_facelet_place, lemma_place_facelet, spec_corner_at_pos, spec_edge_at_pos, ArrayCube,
    Place, CUBE_AREA, NUM_FACELETS,
};
use crate::cube::cubiecube::{CubieCube, Ori, TC_BASE};
use vstd::prelude::*;

verus! {

/// The position at which the facelets are those of no piece.
#[derive(Clone, Copy, PartialEq, Eq, Structural, Debug)]
pub enum PieceError {
    /// The two colours at this edge position are those of no edge.
    Edge(Edge),
    /// The three colours at this corner position are those of no corner.
    Corner(Corner),
}

/// The colour that a facelet shows when the stickers of the first `nc` corner
/// positions and of the first `ne` edge positions are painted on the solved
/// cube: the `k`-th facelet of a position shows the sticker `k + o`, counted
/// modulo 3 on a corner and modulo 2 on an edge, of the piece that stands
/// there with orientation `o`.
pub open spec fn spec_painted_color(
    c: Seq<(Corner, Ori)>,
    e: Seq<(Edge, Ori)>,
    nc: int,
    ne: int,
    f: int,
) -> Side {
    match facelet_place(f) {
        Place::Center(side) => side,
        Place::CornerSticker(pos, k) => if pos.spec_index() < nc {
            let (p, o) = c[pos.spec_index()];
            corner_color(p, ((k + o) % 3) as int)
        } else {
            (f / CUBE_AREA as int) as Side
        },
        Place::EdgeSticker(pos, k) => if pos.spec_index() < ne {
            let (p, o) = e[pos.spec_index()];
            edge_color(p, ((k + o) % 2) as int)
        } else {
            (f / CUBE_AREA as int) as Side
        },
    }
}

/// The facelets with the stickers of the first `nc` corner positions and of
/// the first `ne` edge positions painted on the solved cube.
pub open spec fn spec_painted(c: Seq<(Corner, Ori)>, e: Seq<(Edge, Ori)>, nc: int, ne: int) -> Seq<
    Side,
> {
    Seq::new(NUM_FACELETS as nat, |f: int| spec_painted_color(c, e, nc, ne, f))
}

/// The facelets of a cube given by its cubies: every centre shows the colour
/// of its face, and every other facelet the sticker that stands there.
pub open spec fn spec_to_array(c: Seq<(Corner, Ori)>, e: Seq<(Edge, Ori)>) -> Seq<Side> {
    spec_painted(c, e, NUM_CORNERS as int, NUM_EDGES as int)
}

/// Whether the facelets name a piece at each of the first `n` edge
/// positions.
pub open spec fn edges_readable(a: Seq<Side>, n: int) -> bool {
    forall|i: int| 0 <= i < n ==> (#[trigger] spec_edge_at_pos(a, Edge::spec_from_index(i))) is Some
}

/// Whether the facelets name a piece at each of the first `n` corner
/// positions.
pub open spec fn corners_readable(a: Seq<Side>, n: int) -> bool {
    forall|i: int|
        0 <= i < n ==> (#[trigger] spec_corner_at_pos(a, Corner::spec_from_index(i))) is Some
}

/// What the facelets say stands at each edge position.
pub open spec fn spec_edges_of_array(a: Seq<Side>) -> Seq<(Edge, Ori)> {
    Seq::new(
        NUM_EDGES as nat,
        |i: int|
            {
                let (e, o) = spec_edge_at_pos(a, Edge::spec_from_index(i))->0;
                (e, o as Ori)
            },
    )
}

/// What the facelets say stands at each corner position.
pub open spec fn spec_corners_of_array(a: Seq<Side>) -> Seq<(Corner, Ori)> {
    Seq::new(
        NUM_CORNERS as nat,
        |i: int|
            {
                let (c, o) = spec_corner_at_pos(a, Corner::spec_from_index(i))->0;
                (c, o as Ori)
            },
    )
}

/// What reading the cubies off the facelets gives: the first edge position,
/// or else the first corner position, at which the colours are those of no
/// piece, or else the corners and the edges.
pub open spec fn spec_from_array(a: Seq<Side>) -> Result<
    (Seq<(Corner, Ori)>, Seq<(Edge, Ori)>),
    PieceError,
> {
    if !edges_readable(a, NUM_EDGES as int) {
        let i = choose|i: int|
            0 <= i < NUM_EDGES && edges_readable(a, i) && spec_edge_at_pos(
                a,
                Edge::spec_from_index(i),
            ) is None;
        Err(PieceError::Edge(Edge::spec_from_index(i)))
    } else if !corners_readable(a, NUM_CORNERS as int) {
        let i = choose|i: int|
            0 <= i < NUM_CORNERS && corners_readable(a, i) && spec_corner_at_pos(
                a,
                Corner::spec_from_index(i),
            ) is None;
        Err(PieceError::Corner(Corner::spec_from_index(i)))
    } else {
        Ok((spec_corners_of_array(a), spec_edges_of_array(a)))
    }
}

impl CubieCube {
    /// The facelets of the cube.
    pub fn to_array(&self) -> (out: ArrayCube)
        ensures
            out.data@ == spec_to_array(self.corners@, self.edges@),
    {
        let mut out = ArrayCube::new();
        let ghost c = self.corners@;
        let ghost e = self.edges@;
        proof {
            assert forall|f: int| 0 <= f < NUM_FACELETS implies out.data@[f] == spec_painted_color(
                c,
                e,
                0,
                0,
                f,
            ) by {
                lemma_facelet_place(f);
            }
            assert(out.data@ =~= spec_painted(c, e, 0, 0));
        }
        let mut i: usize = 0;
        while i < NUM_CORNERS
            invariant
                i <= NUM_CORNERS,
                c == self.corners@,
                e == self.edges@,
                out.data@ == spec_painted(c, e, i as int, 0),
            decreases NUM_CORNERS - i,
        {
            let pos = Corner::from_index(i);
            let (p, o) = self.corner(pos);
            // the three facelets to write to
            let (i1, i2, i3) = corner_to_indices(pos);
            // the three facelets where the piece is at home
            let (c1, c2, c3) = corner_to_indices(p);
            let cols = [c1, c2, c3];
            let o = (o % 3) as usize;
            let ghost before = out.data@;
            out.data[i1] = (cols[o] / CUBE_AREA) as Side;
            out.data[i2] = (cols[(1 + o) % 3] / CUBE_AREA) as Side;
            out.data[i3] = (cols[(2 + o) % 3] / CUBE_AREA) as Side;
            proof {
                lemma_place_facelet(Place::CornerSticker(pos, 0));
                lemma_place_facelet(Place::CornerSticker(pos, 1));
                lemma_place_facelet(Place::CornerSticker(pos, 2));
                assert forall|f: int| 0 <= f < NUM_FACELETS implies out.data@[f]
                    == spec_painted_color(c, e, i + 1, 0, f) by {
                    lemma_facelet_place(f);
                    assert(before[f] == spec_painted_color(c, e, i as int, 0, f));
                    match facelet_place(f) {
                        Place::CornerSticker(q, k) => {
                            assert(Corner::spec_from_index(q.spec_index()) == q);
                        },
                        _ => {},
                    }
                }
                assert(out.data@ =~= spec_painted(c, e, i + 1, 0));
            }
            i += 1;
        }
        let mut i: usize = 0;
        while i < NUM_EDGES
            invariant
                i <= NUM_EDGES,
                c == self.corners@,
                e == self.edges@,
                out.data@ == spec_painted(c, e, NUM_CORNERS as int, i as int),
            decreases NUM_EDGES - i,
        {
            let pos = Edge::from_index(i);
            let (p, o) = self.edge(pos);
            // the two facelets to write to
            let (i1, i2) = edge_to_indices(pos);
            // the two facelets where the piece is at home
            let (c1, c2) = edge_to_indices(p);
            let cols = [c1, c2];
            let o = (o % 2) as usize;
            let ghost before = out.data@;
            out.data[i1] = (cols[o] / CUBE_AREA) as Side;
            out.data[i2] = (cols[(1 + o) % 2] / CUBE_AREA) as Side;
            proof {
                lemma_place_facelet(Place::EdgeSticker(pos, 0));
                lemma_place_facelet(Place::EdgeSticker(pos, 1));
                assert forall|f: int| 0 <= f < NUM_FACELETS implies out.data@[f]
                    == spec_painted_color(c, e, NUM_CORNERS as int, i + 1, f) by {
                    lemma_facelet_place(f);
                    assert(before[f] == spec_painted_color(c, e, NUM_CORNERS as int, i as int, f));
                    match facelet_place(f) {
                        Place::EdgeSticker(q, k) => {
                            assert(Edge::spec_from_index(q.spec_index()) == q);
                        },
                        _ => {},
                    }
                }
                assert(out.data@ =~= spec_painted(c, e, NUM_CORNERS as int, i + 1));
            }
            i += 1;
        }
        out
    }

    /// Reads the cubies off the facelets.  Fails at the first edge position,
    /// or else at the first corner position, where the colours are those of
    /// no piece.
    pub fn from_array(cube: &ArrayCube) -> (res: Result<CubieCube, PieceError>)
        ensures
            match res {
                Ok(c) => spec_from_array(cube.data@) == Ok::<
                    (Seq<(Corner, Ori)>, Seq<(Edge, Ori)>),
                    PieceError,
                >((c.corners@, c.edges@)),
                Err(e) => spec_from_array(cube.data@) == Err::<
                    (Seq<(Corner, Ori)>, Seq<(Edge, Ori)>),
                    PieceError,
                >(e),
            },
            res is Ok ==> res->Ok_0.is_regular(),
    {
        let mut out = CubieCube::new();
        let ghost a = cube.data@;
        let mut i: usize = 0;
        while i < NUM_EDGES
            invariant
                i <= NUM_EDGES,
                a == cube.data@,
                edges_readable(a, i as int),
                out.corners@ == TC_BASE@,
                forall|k: int| 0 <= k < i ==> #[trigger] out.edges@[k] == spec_edges_of_array(a)[k],
                forall|k: int| 0 <= k < NUM_EDGES ==> (#[trigger] out.edges@[k]).1 < 2,
            decreases NUM_EDGES - i,
        {
            let pos = Edge::from_index(i);
            match cube.get_edge_at_pos(pos) {
                None => {
                    proof {
                        lemma_first_unreadable_edge(a, i as int);
                    }
                    return Err(PieceError::Edge(pos));
                },
                Some((e, o)) => {
                    out.edges[i] = (e, o as Ori);
                },
            }
            i += 1;
        }
        let mut i: usize = 0;
        while i < NUM_CORNERS
            invariant
                i <= NUM_CORNERS,
                a == cube.data@,
                edges_readable(a, NUM_EDGES as int),
                corners_readable(a, i as int),
                out.edges@ =~= spec_edges_of_array(a),
                forall|k: int| 0 <= k < NUM_EDGES ==> (#[trigger] out.edges@[k]).1 < 2,
                forall|k: int|
                    0 <= k < i ==> #[trigger] out.corners@[k] == spec_corners_of_array(a)[k],
                forall|k: int| 0 <= k < NUM_CORNERS ==> (#[trigger] out.corners@[k]).1 < 3,
            decreases NUM_CORNERS - i,
        {
            let pos = Corner::from_index(i);
            match cube.get_corner_at_pos(pos) {
                None => {
                    proof {
                        lemma_first_unreadable_corner(a, i as int);
                    }
                    return Err(PieceError::Corner(pos));
                },
                Some((c, o)) => {
                    out.corners[i] = (c, o as Ori);
                },
            }
            i += 1;
        }
        assert(out.corners@ =~= spec_corners_of_array(a));
        Ok(out)
    }
}

/// The first edge position at which the facelets name no piece is the one
/// that reading them reports.
proof fn lemma_first_unreadable_edge(a: Seq<Side>, i: int)
    requires
        0 <= i < NUM_EDGES,
        edges_readable(a, i),
        spec_edge_at_pos(a, Edge::spec_from_index(i)) is None,
    ensures
        spec_from_array(a) == Err::<(Seq<(Corner, Ori)>, Seq<(Edge, Ori)>), PieceError>(
            PieceError::Edge(Edge::spec_from_index(i)),
        ),
{
    let j = choose|j: int|
        0 <= j < NUM_EDGES && edges_readable(a, j) && spec_edge_at_pos(
            a,
            Edge::spec_from_index(j),
        ) is None;
    if j < i {
        assert(spec_edge_at_pos(a, Edge::spec_from_index(j)) is Some);
    } else if i < j {
        assert(spec_edge_at_pos(a, Edge::spec_from_index(i)) is Some);
    }
}

/// The first corner position at which the facelets name no piece is the one
/// that reading them reports, where every edge position names one.
proof fn lemma_first_unreadable_corner(a: Seq<Side>, i: int)
    requires
        0 <= i < NUM_CORNERS,
        edges_readable(a, NUM_EDGES as int),
        corners_readable(a, i),
        spec_corner_at_pos(a, Corner::spec_from_index(i)) is None,
    ensures
        spec_from_array(a) == Err::<(Seq<(Corner, Ori)>, Seq<(Edge, Ori)>), PieceError>(
            PieceError::Corner(Corner::spec_from_index(i)),
        ),
{
    let j = choose|j: int|
        0 <= j < NUM_CORNERS && corners_readable(a, j) && spec_corner_at_pos(
            a,
            Corner::spec_from_index(j),
        ) is None;
    if j < i {
        assert(spec_corner_at_pos(a, Corner::spec_from_index(j)) is Some);
    } else if i < j {
        assert(spec_corner_at_pos(a, Corner::spec_from_index(i)) is Some);
    }
}

impl From<CubieCube> for ArrayCube {
    /// The facelets of the cube.
    fn from(cube: CubieCube) -> (out: ArrayCube)
        ensures
            out.data@ == spec_to_array(cube.corners@, cube.edges@),
    {
        cube.to_array()
    }
}

impl vstd::std_specs::convert::FromSpecImpl<CubieCube> for ArrayCube {
    /// What `from` gives is said by its own contract, over the facelets.
    open spec fn obeys_from_spec() -> bool {
        false
    }

    /// Not used: see `obeys_from_spec`.
    open spec fn from_spec(v: CubieCube) -> ArrayCube {
        arbitrary()
    }
}

impl TryFrom<ArrayCube> for CubieCube {
    /// The position at which the colours are those of no piece.
    type Error = PieceError;

    /// Reads the cubies off the facelets.
    fn try_from(cube: ArrayCube) -> (res: Result<CubieCube, PieceError>)
        ensures
            match res {
                Ok(c) => spec_from_array(cube.data@) == Ok::<
                    (Seq<(Corner, Ori)>, Seq<(Edge, Ori)>),
                    PieceError,
                >((c.corners@, c.edges@)),
                Err(e) => spec_from_array(cube.data@) == Err::<
                    (Seq<(Corner, Ori)>, Seq<(Edge, Ori)>),
                    PieceError,
                >(e),
            },
    {
        CubieCube::from_array(&cube)
    }
}

impl vstd::std_specs::convert::TryFromSpecImpl<ArrayCube> for CubieCube {
    /// What `try_from` gives is said by its own contract, over the corners
    /// and the edges.
    open spec fn obeys_try_from_spec() -> bool {
        false
    }

    /// Not used: see `obeys_try_from_spec`.
    open spec fn try_from_spec(v: ArrayCube) -> Result<CubieCube, PieceError> {
        arbitrary()
    }
}

} // verus!
