use rubiks_cube::cube::arraycube;
use rubiks_cube::cube::arraycube::{
    corner_to_indices, edge_to_indices, ArrayCube, FromStrError, NUM_FACELETS,
};
use rubiks_cube::cube::conversion::PieceError;
use rubiks_cube::cube::cubiecube;
use rubiks_cube::cube::cubiecube::{
    chain_corners, chain_edges, generate_corner_transform_table, generate_edge_transform_table,
    generate_symmetries, generate_symmetry_inverse_list, symmetry, CubieCube, TC_BASE, TC_RIGHT,
    TC_S_F2, TC_S_LR, TC_S_U4, TC_S_URF3, TC_UP, TE_BACK, TE_BASE, TE_FRONT, TE_RIGHT, TE_S_F2,
    TE_S_LR, TE_S_U4, TE_S_URF3, TE_UP,
};
use rubiks_cube::cube::tables::{CORNER_TRANSFORM, EDGE_TRANSFORM, NUM_SYMMETRIES, SYMMETRY_INVERSE};
use rubiks_cube::cube::turn::{parse_turns, ParseTurnError, Turn, TurnType, TurnWise};
use rubiks_cube::cube::validity::ValidityError;
use rubiks_cube::cube::{
    get_color, Corner, Edge, RubiksCube, BACK, DOWN, FRONT, LEFT, NUM_CORNERS, NUM_EDGES,
    NUM_SIDES, RIGHT, UNKNOWN, UP,
};

/// Check that all basic turnings result to neutral after 4 turns
#[test]
fn cubiecube_turns1() {
    let mut cube = CubieCube::new();

    let turns = parse_turns("U D B F L R").unwrap();

    for turn in turns {
        for _ in 0..4 {
            cube.apply_turn(turn);
        }

        if cube != CubieCube::new() {
            panic!(
                "Turn {} doesn't result to neutral element after 4 turns.",
                turn.notation()
            );
        }
    }
}

/// Check that the conversion between CubieCube to ArrayCube seems to work
#[test]
fn arraycube_cubiecube_conversion() {
    let turns = parse_turns("L B R2 U D' R D2 L U' R' B2").unwrap();

    let mut array = ArrayCube::new();
    let mut cubie = CubieCube::new();

    for turn in turns {
        array.apply_turn(turn);
        cubie.apply_turn(turn);

        let acubie: ArrayCube = cubie.clone().into();
        let carray: CubieCube = array.clone().try_into().unwrap();
        assert!(acubie == array);
        assert!(carray == cubie);
    }
}

/// Check that symmetries are the same in arraycube and cubiecube
#[test]
fn array_cubiecube_symmetries() {
    let turns = parse_turns("L B R2 U D' R D2 L U' R' B2").unwrap();

    let mut array = ArrayCube::new();
    let mut cubie = CubieCube::new();

    for turn in turns {
        array.apply_turn(turn);
        cubie.apply_turn(turn);

        for i in 0..NUM_SYMMETRIES {
            let sarray = arraycube::get_symmetry(&array, i);
            let scubie = cubiecube::get_symmetry(&cubie, i);

            let convert: ArrayCube = scubie.into();

            if convert != sarray {
                println!("How it should be:");
                println!("{:?}", sarray.data);
                println!("What it is:");
                println!("{:?}", convert.data);
                panic!("Symmetry number {} differ!", i);
            }
        }
    }
}

fn turned(text: &str) -> CubieCube {
    let mut cube = CubieCube::new();
    for turn in parse_turns(text).unwrap() {
        cube.apply_turn(turn);
    }
    cube
}

#[test]
fn solved_cube_has_zero_coordinates() {
    let cube = CubieCube::new();
    assert!(cube.is_solved());
    assert_eq!(cube.get_corner_orientation_coord(), 0);
    assert_eq!(cube.get_edge_orientation_coord(), 0);
    assert_eq!(cube.get_udslice_coord(), 0);
    assert_eq!(cube.get_corner_perm_coord(), 0);
    assert_eq!(cube.get_edge_perm_coord(), 0);
}

#[test]
fn coordinates_after_right_turn() {
    let cube = turned("R");
    assert!(!cube.is_solved());
    assert_ne!(cube.get_corner_orientation_coord(), 0);
    assert_eq!(cube.get_corner_orientation_coord(), 790);
    assert_eq!(cube.get_edge_orientation_coord(), 0);
    // the turn carries FR and BR out of the slice
    assert_eq!(cube.get_udslice_coord(), 33);
    assert_eq!(cube.get_corner_perm_coord(), 15320);
}

#[test]
fn coordinates_after_front_turn() {
    let cube = turned("F");
    assert_ne!(cube.get_edge_orientation_coord(), 0);
    assert_ne!(cube.get_corner_orientation_coord(), 0);
    assert_eq!(cube.get_corner_orientation_coord(), 290);
    assert_eq!(cube.get_edge_orientation_coord(), 273);
    assert_eq!(cube.get_udslice_coord(), 194);
    assert_eq!(cube.get_corner_perm_coord(), 26166);
}

#[test]
fn coordinates_after_up_turn() {
    let cube = turned("U");
    assert_eq!(cube.get_corner_orientation_coord(), 0);
    assert_eq!(cube.get_edge_orientation_coord(), 0);
    assert_eq!(cube.get_udslice_coord(), 0);
    assert_eq!(cube.get_corner_perm_coord(), 7350);
    assert_eq!(cube.get_edge_perm_coord(), 5880);
}

#[test]
fn coordinates_after_a_scramble() {
    let cube = turned("L B R2 U D' R D2 L U' R' B2");
    assert_eq!(cube.get_corner_orientation_coord(), 2132);
    assert_eq!(cube.get_edge_orientation_coord(), 99);
    assert_eq!(cube.get_udslice_coord(), 360);
    assert_eq!(cube.get_corner_perm_coord(), 34);
    assert_eq!(cube.corner(Corner::DFR), (Corner::ULB, 0));
    assert_eq!(cube.edge(Edge::UF), (Edge::UB, 1));
}

#[test]
fn coordinates_stay_in_range() {
    let mut cube = CubieCube::new();
    for turn in parse_turns("R U F' L2 D B R' U2 L D' F2 B' U R2 D L' F B2").unwrap() {
        cube.apply_turn(turn);
        assert!(cube.get_corner_orientation_coord() < 2187);
        assert!(cube.get_edge_orientation_coord() < 2048);
        assert!(cube.get_udslice_coord() < 495);
        assert!(cube.get_corner_perm_coord() < 40320);
    }
    let mut cube = CubieCube::new();
    for turn in parse_turns("U R2 D' L2 F2 U2 B2 D R2 U'").unwrap() {
        cube.apply_turn(turn);
        assert_eq!(cube.get_udslice_coord(), 0);
        assert!(cube.get_edge_perm_coord() < 40320);
    }
}

#[test]
fn symmetries_of_the_solved_cube() {
    let solved = CubieCube::new();
    for s in 0..NUM_SYMMETRIES {
        assert_eq!(cubiecube::get_symmetry(&solved, s), solved);
        assert_eq!(cubiecube::get_symmetry_inv(&solved, s), solved);
        assert_eq!(arraycube::get_symmetry(&ArrayCube::new(), s), ArrayCube::new());
    }
}

#[test]
fn symmetry_and_its_inverse() {
    let cube = turned("L B R2 U D' R D2 L U' R' B2");
    for s in 0..NUM_SYMMETRIES {
        let seen = cubiecube::get_symmetry(&cube, s);
        assert_eq!(cubiecube::get_symmetry_inv(&seen, s), cube);
        let back = cubiecube::get_symmetry(&seen, SYMMETRY_INVERSE[s]);
        assert_eq!(back, cube);
        if s != 0 {
            assert_ne!(seen, cube);
        }
    }
    assert_eq!(cubiecube::get_symmetry(&cube, 0), cube);
}

#[test]
fn symmetries_are_distinct_and_have_inverses() {
    let syms = generate_symmetries();
    for a in 0..NUM_SYMMETRIES {
        for b in 0..a {
            assert!(syms[a] != syms[b]);
            assert!(syms[a].1 != syms[b].1);
        }
        assert_eq!(syms[a], symmetry(a));
    }
    let inv = generate_symmetry_inverse_list();
    assert_eq!(inv, SYMMETRY_INVERSE);
    for s in 0..NUM_SYMMETRIES {
        assert!(inv[s] < NUM_SYMMETRIES);
        assert_eq!(inv[inv[s]], s);
        let (c, e) = syms[s];
        let (ci, ei) = syms[inv[s]];
        assert_eq!(chain_corners(c, ci), TC_BASE);
        assert_eq!(chain_edges(e, ei), TE_BASE);
    }
    assert_eq!(syms[0], (TC_BASE, TE_BASE));
    assert_eq!(syms[1], (TC_S_LR, TE_S_LR));
    assert_eq!(syms[2], (TC_S_U4, TE_S_U4));
    assert_eq!(syms[8], (TC_S_F2, TE_S_F2));
    assert_eq!(syms[16], (TC_S_URF3, TE_S_URF3));
    assert_eq!(inv[16], 32);
    assert_eq!(inv[2], 6);
}

#[test]
fn transform_tables_are_the_generated_ones() {
    assert_eq!(generate_corner_transform_table(), CORNER_TRANSFORM);
    assert_eq!(generate_edge_transform_table(), EDGE_TRANSFORM);
    assert_eq!(CORNER_TRANSFORM[5][0], TC_RIGHT);
    assert_eq!(EDGE_TRANSFORM[3][0], TE_FRONT);
    assert_eq!(CORNER_TRANSFORM[0][1], chain_corners(TC_UP, TC_UP));
    assert_eq!(
        EDGE_TRANSFORM[2][2],
        chain_edges(TE_BACK, chain_edges(TE_BACK, TE_BACK))
    );
}

#[test]
fn chain_follows_the_orientation_rule() {
    // unmirrored twists add up
    let twice = chain_corners(TC_RIGHT, TC_RIGHT);
    assert_eq!(twice[0], (Corner::DRB, 0));
    assert_eq!(twice[1], (Corner::DFR, 0));
    // a reflection after a rotation mirrors every corner
    let mirrored = chain_corners(TC_S_URF3, TC_S_LR);
    for (_, o) in mirrored {
        assert!(o >= 3 && o < 6);
    }
    assert_eq!(mirrored[0], (Corner::DFR, 4));
    // two reflections cancel
    assert_eq!(chain_corners(TC_S_LR, TC_S_LR), TC_BASE);
    // a mirrored left operand subtracts
    let back = chain_corners(mirrored, TC_RIGHT);
    for (_, o) in back {
        assert!(o < 3);
    }
    assert_ne!(chain_corners(TC_UP, TC_RIGHT), chain_corners(TC_RIGHT, TC_UP));
    assert_eq!(chain_edges(TE_FRONT, TE_FRONT)[0], (Edge::DF, 0));
    assert_eq!(chain_edges(TE_BASE, TE_FRONT), TE_FRONT);
}

#[test]
fn apply_transformation_chains() {
    let mut cube = CubieCube::new();
    cube.apply_transformation(TC_RIGHT, TE_RIGHT);
    assert_eq!(cube, turned("R"));
    cube.apply_transformation(TC_UP, TE_UP);
    assert_eq!(cube, turned("R U"));
    assert_ne!(cube, turned("U R"));
}

#[test]
fn half_and_inverse_turns() {
    for face in ["U", "D", "B", "F", "L", "R"] {
        let half = turned(&format!("{}2", face));
        assert_eq!(half, turned(&format!("{} {}", face, face)));
        let inverse = turned(&format!("{}'", face));
        assert_eq!(inverse, turned(&format!("{} {} {}", face, face, face)));
        assert!(turned(&format!("{} {}'", face, face)).is_solved());
        assert!(turned(&format!("{}2 {}2", face, face)).is_solved());
    }
}

#[test]
fn turned_cubes_are_valid() {
    let mut cube = CubieCube::new();
    assert_eq!(cube.check_validity(), Ok(()));
    for turn in parse_turns("L B R2 U D' R D2 L U' R' B2 F U2 L' D").unwrap() {
        cube.apply_turn(turn);
        assert_eq!(cube.check_validity(), Ok(()));
        for (_, o) in cube.corners {
            assert!(o < 3);
        }
    }
}

#[test]
fn validity_errors() {
    let good = turned("R U F");
    let mut twisted = good;
    twisted.corners[0].1 = (twisted.corners[0].1 + 1) % 3;
    assert_eq!(twisted.check_validity(), Err(ValidityError::CornerTwist));

    let mut flipped = good;
    flipped.edges[3].1 = 1 - flipped.edges[3].1;
    assert_eq!(flipped.check_validity(), Err(ValidityError::EdgeFlip));

    let mut swapped = good;
    swapped.corners.swap(1, 2);
    // exchanging two corners keeps the sum of the twists
    assert_eq!(swapped.check_validity(), Err(ValidityError::Parity));

    let mut doubled = good;
    doubled.edges[0].0 = doubled.edges[1].0;
    assert_eq!(doubled.check_validity(), Err(ValidityError::Pieces));

    let mut doubled = good;
    doubled.corners[7].0 = doubled.corners[0].0;
    assert_eq!(doubled.check_validity(), Err(ValidityError::Pieces));

    // the first invariant that fails is reported
    let mut both = twisted;
    both.edges[3].1 = 1 - both.edges[3].1;
    assert_eq!(both.check_validity(), Err(ValidityError::CornerTwist));
}

#[test]
fn pieces_from_colors() {
    assert_eq!(Corner::parse_corner([UP, RIGHT, FRONT]), Some(Corner::URF));
    assert_eq!(Corner::parse_corner([FRONT, UP, RIGHT]), Some(Corner::URF));
    assert_eq!(Corner::parse_corner([RIGHT, UP, FRONT]), Some(Corner::URF));
    assert_eq!(Corner::parse_corner([DOWN, BACK, LEFT]), Some(Corner::DBL));
    assert_eq!(Corner::parse_corner([LEFT, FRONT, DOWN]), Some(Corner::DLF));
    assert_eq!(Corner::parse_corner([UP, DOWN, FRONT]), None);
    assert_eq!(Corner::parse_corner([UP, UP, FRONT]), None);
    assert_eq!(Corner::parse_corner([UP, RIGHT, UNKNOWN]), None);
    assert_eq!(Corner::parse_corner([UP, RIGHT, 200]), None);
    assert_eq!(Edge::parse_edge([UP, FRONT]), Some(Edge::UF));
    assert_eq!(Edge::parse_edge([FRONT, UP]), Some(Edge::UF));
    assert_eq!(Edge::parse_edge([LEFT, BACK]), Some(Edge::BL));
    assert_eq!(Edge::parse_edge([RIGHT, FRONT]), Some(Edge::FR));
    assert_eq!(Edge::parse_edge([UP, DOWN]), None);
    assert_eq!(Edge::parse_edge([LEFT, LEFT]), None);
    assert_eq!(Edge::parse_edge([UP, UP]), None);
    assert_eq!(Edge::parse_edge([UNKNOWN, UP]), None);
    assert_eq!(Edge::parse_edge([255, UP]), None);
    for i in 0..NUM_CORNERS {
        assert_eq!(Corner::from_index(i).index(), i);
    }
    for i in 0..NUM_EDGES {
        assert_eq!(Edge::from_index(i).index(), i);
    }
    assert_eq!(Corner::DBL.index(), 7);
    assert_eq!(Edge::FL.index(), 11);
}

#[test]
fn color_codes() {
    assert_eq!(get_color(UP), "\x1b[00m");
    assert_eq!(get_color(DOWN), "\x1b[93m");
    assert_eq!(get_color(BACK), "\x1b[32m");
    assert_eq!(get_color(FRONT), "\x1b[34m");
    assert_eq!(get_color(LEFT), "\x1b[31m");
    assert_eq!(get_color(RIGHT), "\x1b[33m");
    assert_eq!(get_color(UNKNOWN), "\x1b[00m");
    assert_eq!(NUM_SIDES, 6);
}

#[test]
fn turns_from_text() {
    let turns = parse_turns("R U2 F'").unwrap();
    assert_eq!(
        turns,
        vec![
            Turn { side: TurnType::R, wise: TurnWise::Clockwise },
            Turn { side: TurnType::U, wise: TurnWise::Double },
            Turn { side: TurnType::F, wise: TurnWise::CounterClockwise },
        ]
    );
    assert_eq!(parse_turns("").unwrap(), vec![]);
    assert_eq!(parse_turns("  \t\n").unwrap(), vec![]);
    assert_eq!(parse_turns(" L\tD2\nB' ").unwrap().len(), 3);
    assert_eq!(parse_turns("X"), Err(ParseTurnError { position: 0 }));
    assert_eq!(parse_turns("R U3"), Err(ParseTurnError { position: 2 }));
    assert_eq!(parse_turns("R2'"), Err(ParseTurnError { position: 0 }));
    assert_eq!(parse_turns("RU"), Err(ParseTurnError { position: 0 }));
    assert_eq!(parse_turns("R  u"), Err(ParseTurnError { position: 3 }));
    assert_eq!(parse_turns("R 2"), Err(ParseTurnError { position: 2 }));
    for text in ["U", "D2", "B'", "F", "L2", "R'"] {
        let turns = parse_turns(text).unwrap();
        assert_eq!(turns.len(), 1);
        assert_eq!(turns[0].notation(), text);
    }
    assert_eq!(TurnType::L.index(), 4);
    assert_eq!(TurnWise::CounterClockwise.index(), 2);
}

#[test]
fn facelets_of_turned_cubes() {
    let solved = ArrayCube::new();
    for f in 0..NUM_FACELETS {
        assert_eq!(solved.data[f] as usize, f / 9);
    }
    assert_eq!(CubieCube::new().to_array(), solved);
    let mut array = ArrayCube::new();
    array.apply_turn(Turn { side: TurnType::U, wise: TurnWise::Clockwise });
    // the up face keeps its colour, the front face gets the top row of the right face
    for f in 0..9 {
        assert_eq!(array.data[f], UP);
    }
    assert_eq!(&array.data[27..30], &[RIGHT, RIGHT, RIGHT]);
    assert_eq!(&array.data[30..36], &[FRONT; 6]);
    assert_eq!(&array.data[45..48], &[BACK, BACK, BACK]);
    assert_eq!(turned("U").to_array(), array);
    for face in [TurnType::U, TurnType::D, TurnType::B, TurnType::F, TurnType::L, TurnType::R] {
        let mut a = turned("R U F").to_array();
        let before = a;
        for _ in 0..4 {
            a.apply_turn(Turn { side: face, wise: TurnWise::Clockwise });
        }
        assert_eq!(a, before);
        a.apply_turn(Turn { side: face, wise: TurnWise::Double });
        let mut b = before;
        b.apply_turn(Turn { side: face, wise: TurnWise::Clockwise });
        b.apply_turn(Turn { side: face, wise: TurnWise::Clockwise });
        assert_eq!(a, b);
    }
}

#[test]
fn pieces_read_off_facelets() {
    let cube = turned("L B R2 U D' R D2 L U' R' B2");
    let array = cube.to_array();
    for i in 0..NUM_CORNERS {
        let pos = Corner::from_index(i);
        let (c, o) = array.get_corner_at_pos(pos).unwrap();
        assert_eq!((c, o as u32), cube.corner(pos));
    }
    for i in 0..NUM_EDGES {
        let pos = Edge::from_index(i);
        let (e, o) = array.get_edge_at_pos(pos).unwrap();
        assert_eq!((e, o as u32), cube.edge(pos));
    }
    assert_eq!(CubieCube::from_array(&array), Ok(cube));
    assert_eq!(corner_to_indices(Corner::URF), (8, 45, 29));
    assert_eq!(edge_to_indices(Edge::FL), (30, 41));
}

#[test]
fn facelets_of_no_cube() {
    let mut array = ArrayCube::new();
    // the up sticker of the edge UR becomes a left sticker
    array.data[5] = LEFT;
    assert_eq!(array.get_edge_at_pos(Edge::UR), None);
    assert_eq!(CubieCube::from_array(&array), Err(PieceError::Edge(Edge::UR)));
    let mut array = ArrayCube::new();
    array.data[8] = LEFT;
    assert_eq!(array.get_corner_at_pos(Corner::URF), None);
    // colours of another piece are read as that piece
    let mut other = ArrayCube::new();
    other.data[5] = DOWN;
    assert_eq!(other.get_edge_at_pos(Edge::UR), Some((Edge::DR, 0)));
    other.data[8] = DOWN;
    assert_eq!(other.get_corner_at_pos(Corner::URF), Some((Corner::DFR, 0)));
    assert_eq!(
        CubieCube::from_array(&other).unwrap().check_validity(),
        Err(ValidityError::Pieces)
    );
    assert_eq!(CubieCube::from_array(&array), Err(PieceError::Corner(Corner::URF)));
    // an edge comes before a corner
    array.data[16] = UNKNOWN;
    assert_eq!(CubieCube::from_array(&array), Err(PieceError::Edge(Edge::DB)));
    let converted: Result<CubieCube, PieceError> = array.try_into();
    assert_eq!(converted, Err(PieceError::Edge(Edge::DB)));
}

#[test]
fn facelets_from_letters() {
    let solved = "aaaaaaaaabbbbbbbbbcccccccccdddddddddeeeeeeeeefffffffff";
    assert_eq!(ArrayCube::from_str(solved), Ok(ArrayCube::new()));
    assert_eq!(ArrayCube::from_letters(solved.as_bytes()), Ok(ArrayCube::new()));
    assert_eq!(ArrayCube::from_str("abc"), Err(FromStrError::WrongLength));
    assert_eq!(ArrayCube::from_str(""), Err(FromStrError::WrongLength));
    let long = format!("{}a", solved);
    assert_eq!(ArrayCube::from_str(&long), Err(FromStrError::WrongLength));
    let bad = solved.replace("c", "g");
    assert_eq!(ArrayCube::from_str(&bad), Err(FromStrError::UnknownColor));
    let bad = solved.replace("f", "A");
    assert_eq!(ArrayCube::from_str(&bad), Err(FromStrError::UnknownColor));
    let turned_letters = "aaaaaaaaabbbbbbbbbeeeccccccfffddddddcccffffffdddeeeeee";
    let cube = ArrayCube::from_str(turned_letters).unwrap();
    assert_eq!(cube.data[18], LEFT);
    assert_eq!(cube.data[53], LEFT);
}

#[test]
fn facelet_symmetry_keeps_unknown_colors() {
    let mut array = ArrayCube::new();
    array.data[0] = UNKNOWN;
    let seen = arraycube::get_symmetry(&array, 1);
    // the reflection carries the facelet 0 to the facelet 2
    assert_eq!(seen.data[2], UNKNOWN);
    assert_eq!(seen.data[0], UP);
    assert_eq!(arraycube::get_symmetry(&array, 0), array);
}
