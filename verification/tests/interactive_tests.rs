use rubiks_cube::cube::arraycube::{ArrayCube, DISPLAY_GRID, NUM_FACELETS};
use rubiks_cube::cube::conversion::PieceError;
use rubiks_cube::cube::validity::ValidityError;
use rubiks_cube::cube::{Corner, Edge, BACK, DOWN, FRONT, LEFT, RIGHT, UNKNOWN, UP};
use rubiks_cube::interactive::{legality_message, Action, Editor, LegalityError};

#[test]
fn editor_starts_on_the_front_centre() {
    let ed = Editor::new();
    assert_eq!((ed.x, ed.y), (4, 4));
    assert_eq!(DISPLAY_GRID[4][4], 31);
    assert_eq!(ed.data, ArrayCube::new().data);
    assert_eq!(ed.legality(), Ok(()));
    assert_eq!(
        String::from_utf8(ed.letters()).unwrap(),
        "aaaaaaaaabbbbbbbbbcccccccccdddddddddeeeeeeeeefffffffff"
    );
}

#[test]
fn layout_shows_every_facelet_once() {
    let mut seen = [false; NUM_FACELETS];
    for row in DISPLAY_GRID {
        for cell in row {
            if cell < NUM_FACELETS {
                assert!(!seen[cell]);
                seen[cell] = true;
            } else {
                assert_eq!(cell, NUM_FACELETS);
            }
        }
    }
    assert!(seen.iter().all(|s| *s));
    assert_eq!(DISPLAY_GRID[0][3], 0);
    assert_eq!(DISPLAY_GRID[3][0], 36);
    assert_eq!(DISPLAY_GRID[8][5], 17);
    assert_eq!(DISPLAY_GRID[0][0], NUM_FACELETS);
}

#[test]
fn cursor_moves_on_the_layout() {
    let mut ed = Editor::new();
    assert_eq!(ed.handle_key('i'), Action::CursorMoved { old_x: 4, old_y: 4 });
    assert_eq!((ed.x, ed.y), (4, 3));
    assert_eq!(ed.handle_key('k'), Action::CursorMoved { old_x: 4, old_y: 3 });
    assert_eq!(ed.handle_key('j'), Action::CursorMoved { old_x: 4, old_y: 4 });
    assert_eq!((ed.x, ed.y), (3, 4));
    assert_eq!(ed.handle_key('l'), Action::CursorMoved { old_x: 3, old_y: 4 });
    assert_eq!((ed.x, ed.y), (4, 4));
    // up to the top of the up face, and no further
    for _ in 0..4 {
        assert_ne!(ed.handle_key('i'), Action::Nothing);
    }
    assert_eq!((ed.x, ed.y), (4, 0));
    assert_eq!(ed.handle_key('i'), Action::Nothing);
    assert_eq!((ed.x, ed.y), (4, 0));
    // left of the up face the layout is empty
    assert_ne!(ed.handle_key('j'), Action::Nothing);
    assert_eq!(ed.handle_key('j'), Action::Nothing);
    assert_eq!((ed.x, ed.y), (3, 0));
    // to the right end of the row of faces
    let mut ed = Editor::new();
    for _ in 0..7 {
        assert_ne!(ed.handle_key('l'), Action::Nothing);
    }
    assert_eq!((ed.x, ed.y), (11, 4));
    assert_eq!(ed.handle_key('l'), Action::Nothing);
    assert_eq!(ed.handle_key('i'), Action::CursorMoved { old_x: 11, old_y: 4 });
    assert_eq!(ed.handle_key('i'), Action::Nothing);
    // down to the bottom of the down face
    let mut ed = Editor::new();
    for _ in 0..4 {
        assert_ne!(ed.handle_key('k'), Action::Nothing);
    }
    assert_eq!((ed.x, ed.y), (4, 8));
    assert_eq!(ed.handle_key('k'), Action::Nothing);
}

#[test]
fn colours_are_painted_but_not_on_centres() {
    let mut ed = Editor::new();
    // the cursor starts on a centre
    assert_eq!(ed.handle_key('w'), Action::Nothing);
    assert_eq!(ed.data, ArrayCube::new().data);
    ed.handle_key('i');
    assert_eq!(DISPLAY_GRID[3][4], 28);
    assert_eq!(ed.handle_key('w'), Action::FaceletPainted);
    assert_eq!(ed.data[28], UP);
    assert_eq!(ed.handle_key('y'), Action::FaceletPainted);
    assert_eq!(ed.data[28], DOWN);
    assert_eq!(ed.handle_key('g'), Action::FaceletPainted);
    assert_eq!(ed.data[28], BACK);
    assert_eq!(ed.handle_key('r'), Action::FaceletPainted);
    assert_eq!(ed.data[28], LEFT);
    assert_eq!(ed.handle_key('o'), Action::FaceletPainted);
    assert_eq!(ed.data[28], RIGHT);
    assert_eq!(ed.handle_key('b'), Action::FaceletPainted);
    assert_eq!(ed.data[28], FRONT);
    assert_eq!(ed.data, ArrayCube::new().data);
    // other keys do nothing
    assert_eq!(ed.handle_key('x'), Action::Nothing);
    assert_eq!(ed.handle_key('c'), Action::Nothing);
    assert_eq!(ed.handle_key('q'), Action::Nothing);
    assert_eq!(ed.data, ArrayCube::new().data);
}

#[test]
fn clear_and_quit() {
    let mut ed = Editor::new();
    ed.handle_key('i');
    ed.handle_key('w');
    assert_ne!(ed.data, ArrayCube::new().data);
    assert_eq!(ed.handle_key('Q'), Action::Quit);
    assert_eq!(ed.data[28], UP);
    assert_eq!((ed.x, ed.y), (4, 3));
    assert_eq!(ed.handle_key('C'), Action::Nothing);
    assert_eq!(ed.data, ArrayCube::new().data);
    assert_eq!((ed.x, ed.y), (4, 3));
}

#[test]
fn legality_of_edited_cubes() {
    let mut ed = Editor::new();
    ed.handle_key('i');
    ed.handle_key('w');
    // the edge UF now has two up stickers
    assert_eq!(
        ed.legality(),
        Err(LegalityError::Piece(PieceError::Edge(Edge::UF)))
    );
    ed.handle_key('i');
    assert_eq!(DISPLAY_GRID[2][4], 7);
    ed.handle_key('b');
    // the edge UF is flipped
    assert_eq!(
        ed.legality(),
        Err(LegalityError::Validity(ValidityError::EdgeFlip))
    );
    let mut ed = Editor::new();
    ed.data[8] = RIGHT;
    ed.data[45] = FRONT;
    ed.data[29] = UP;
    assert_eq!(
        ed.legality(),
        Err(LegalityError::Validity(ValidityError::CornerTwist))
    );
    let mut ed = Editor::new();
    ed.data[8] = RIGHT;
    ed.data[45] = RIGHT;
    assert_eq!(
        ed.legality(),
        Err(LegalityError::Piece(PieceError::Corner(Corner::URF)))
    );
    let mut ed = Editor::new();
    ed.data[0] = UNKNOWN;
    assert_eq!(ed.legality(), Err(LegalityError::Color));
    // the edges UF and UR exchanged
    let mut ed = Editor::new();
    ed.data[28] = RIGHT;
    ed.data[46] = FRONT;
    assert_eq!(
        ed.legality(),
        Err(LegalityError::Validity(ValidityError::Parity))
    );
    // two edges UF
    let mut ed = Editor::new();
    ed.data[46] = FRONT;
    assert_eq!(
        ed.legality(),
        Err(LegalityError::Validity(ValidityError::Pieces))
    );
}

#[test]
fn legality_messages() {
    assert_eq!(legality_message(Ok(())), "The cube is solvable!");
    let errors = [
        LegalityError::Color,
        LegalityError::Piece(PieceError::Edge(Edge::UF)),
        LegalityError::Piece(PieceError::Corner(Corner::URF)),
        LegalityError::Validity(ValidityError::Pieces),
        LegalityError::Validity(ValidityError::CornerTwist),
        LegalityError::Validity(ValidityError::EdgeFlip),
        LegalityError::Validity(ValidityError::Parity),
    ];
    for (i, a) in errors.iter().enumerate() {
        assert_ne!(legality_message(Err(*a)), "The cube is solvable!");
        for b in &errors[..i] {
            assert_ne!(legality_message(Err(*a)), legality_message(Err(*b)));
        }
    }
}
