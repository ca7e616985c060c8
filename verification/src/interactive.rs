//! The decisions of the interactive editor of a cube: what a key does to the
//! facelets and to the cursor, and whether the facelets are those of a cube
//! that can be solved.  Drawing and reading keys are left to the caller.

use crate::cube::{Side, BACK, DOWN, FRONT, LEFT, NUM_SIDES, RIGHT, UP};
use crate::cube::arraycube::{spec_solved_array, ArrayCube, CUBE_AREA, DISPLAY_GRID, NUM_FACELETS};
use crate::cube::conversion::{spec_from_array, PieceError};
use crate::cube::cubiecube::CubieCube;
use crate::cube::validity::ValidityError;
use vstd::prelude::*;

verus! {

/// The number of columns of the flat layout of the cube.
pub const GRID_WIDTH: usize = 12;

/// The number of rows of the flat layout of the cube.
pub const GRID_HEIGHT: usize = 9;

/// What the editor holds: the colours of the facelets, and the column and
/// the row of the cursor in the flat layout.
#[derive(Clone, Copy, PartialEq, Eq, Debug)]
pub struct Editor {
    pub data: [Side; NUM_FACELETS],
    pub x: usize,
    pub y: usize,
}

/// What is to be drawn, or done, after a key.
#[derive(Clone, Copy, PartialEq, Eq, Structural, Debug)]
pub enum Action {
    /// Nothing.
    Nothing,
    /// The cursor has left the cell at this column and row.
    CursorMoved { old_x: usize, old_y: usize },
    /// The facelet under the cursor has a new colour.
    FaceletPainted,
    /// The editor is left.
    Quit,
}

/// Why the facelets are not those of a cube that can be solved.
#[derive(Clone, Copy, PartialEq, Eq, Structural, Debug)]
pub enum LegalityError {
    /// A facelet has none of the six colours.
    Color,
    /// The colours at a position are those of no piece.
    Piece(PieceError),
    /// The cube keeps the pieces apart but fails an invariant.
    Validity(ValidityError),
}

/// The facelet shown in a cell of the flat layout, or `NUM_FACELETS` where
/// the layout is empty.
pub open spec fn grid_at(x: int, y: int) -> int {
    DISPLAY_GRID@[y]@[x] as int
}

/// Whether a cell of the flat layout shows a facelet.
pub open spec fn shows_facelet(x: int, y: int) -> bool {
    0 <= x < GRID_WIDTH && 0 <= y < GRID_HEIGHT && grid_at(x, y) < NUM_FACELETS
}

/// The colour that a key paints: `w` white for up, `y` yellow for down, `g`
/// green for back, `b` blue for front, `r` red for left, `o` orange for
/// right.
pub open spec fn key_color(key: char) -> Option<Side> {
    if key == 'w' {
        Some(UP)
    } else if key == 'y' {
        Some(DOWN)
    } else if key == 'g' {
        Some(BACK)
    } else if key == 'b' {
        Some(FRONT)
    } else if key == 'r' {
        Some(LEFT)
    } else if key == 'o' {
        Some(RIGHT)
    } else {
        None
    }
}

/// Where a key moves the cursor to from the cell `(x, y)`: `i` up, `k` down,
/// `j` left, `l` right, each only onto a cell that shows a facelet.
pub open spec fn spec_cursor_after(x: int, y: int, key: char) -> (int, int) {
    if key == 'i' && shows_facelet(x, y - 1) {
        (x, y - 1)
    } else if key == 'k' && shows_facelet(x, y + 1) {
        (x, y + 1)
    } else if key == 'j' && shows_facelet(x - 1, y) {
        (x - 1, y)
    } else if key == 'l' && shows_facelet(x + 1, y) {
        (x + 1, y)
    } else {
        (x, y)
    }
}

/// What a key makes of the facelets, with the cursor on the cell `(x, y)`: a
/// colour key paints the facelet under the cursor unless it is a centre, `C`
/// brings back the solved cube, and every other key changes nothing.
pub open spec fn spec_data_after(data: Seq<Side>, x: int, y: int, key: char) -> Seq<Side> {
    if key == 'C' {
        spec_solved_array()
    } else if key_color(key) is Some && grid_at(x, y) % CUBE_AREA as int != 4 {
        data.update(grid_at(x, y), key_color(key)->0)
    } else {
        data
    }
}

/// What is to be drawn, or done, after a key.
pub open spec fn spec_action_after(x: int, y: int, key: char) -> Action {
    if key == 'Q' {
        Action::Quit
    } else if spec_cursor_after(x, y, key) != (x, y) {
        Action::CursorMoved { old_x: x as usize, old_y: y as usize }
    } else if key_color(key) is Some && grid_at(x, y) % CUBE_AREA as int != 4 {
        Action::FaceletPainted
    } else {
        Action::Nothing
    }
}

/// What the check of the facelets gives: a facelet without a colour first,
/// then a position without a piece, then the invariant that fails.
pub open spec fn spec_legality(data: Seq<Side>) -> Result<(), LegalityError> {
    if exists|f: int| 0 <= f < NUM_FACELETS && #[trigger] data[f] >= NUM_SIDES {
        Err(LegalityError::Color)
    } else {
        match spec_from_array(data) {
            Err(e) => Err(LegalityError::Piece(e)),
            Ok((c, e)) => match crate::cube::validity::spec_validity(c, e) {
                Err(v) => Err(LegalityError::Validity(v)),
                Ok(()) => Ok(()),
            },
        }
    }
}

/// The facelet shown in a cell of the flat layout.
fn facelet_in_cell(x: usize, y: usize) -> (res: Option<usize>)
    ensures
        res is Some <==> shows_facelet(x as int, y as int),
        res is Some ==> res->0 == grid_at(x as int, y as int),
{
    if x < GRID_WIDTH && y < GRID_HEIGHT && DISPLAY_GRID[y][x] < NUM_FACELETS {
        Some(DISPLAY_GRID[y][x])
    } else {
        None
    }
}

/// The colour that a key paints.
fn color_of_key(key: char) -> (res: Option<Side>)
    ensures
        res == key_color(key),
{
    if key == 'w' {
        Some(UP)
    } else if key == 'y' {
        Some(DOWN)
    } else if key == 'g' {
        Some(BACK)
    } else if key == 'b' {
        Some(FRONT)
    } else if key == 'r' {
        Some(LEFT)
    } else if key == 'o' {
        Some(RIGHT)
    } else {
        None
    }
}

impl Editor {
    /// The cursor is on a cell that shows a facelet, and every facelet has
    /// one of the six colours.
    pub open spec fn well_formed(&self) -> bool {
        &&& shows_facelet(self.x as int, self.y as int)
        &&& forall|f: int| 0 <= f < NUM_FACELETS ==> #[trigger] self.data@[f] < NUM_SIDES
    }

    /// The editor at its start: the solved cube, the cursor on the centre of
    /// the front face.
    pub fn new() -> (ed: Self)
        ensures
            ed.data@ == spec_solved_array(),
            ed.x == 4,
            ed.y == 4,
            ed.well_formed(),
    {
        let cube = ArrayCube::new();
        assert(DISPLAY_GRID@[4]@[4] == 31);
        Editor { data: cube.data, x: 4, y: 4 }
    }

    /// Lets a key act on the editor, and says what is to be drawn, or done,
    /// after it.
    pub fn handle_key(&mut self, key: char) -> (action: Action)
        requires
            old(self).well_formed(),
        ensures
            final(self).well_formed(),
            (final(self).x as int, final(self).y as int) == spec_cursor_after(
                old(self).x as int,
                old(self).y as int,
                key,
            ),
            final(self).data@ == spec_data_after(
                old(self).data@,
                old(self).x as int,
                old(self).y as int,
                key,
            ),
            action == spec_action_after(old(self).x as int, old(self).y as int, key),
    {
        let x = self.x;
        let y = self.y;
        let mut nx = x;
        let mut ny = y;
        let mut painted = false;
        if key == 'i' {
            // cursor up
            if y > 0 && facelet_in_cell(x, y - 1).is_some() {
                ny = y - 1;
            }
        } else if key == 'k' {
            // cursor down
            if facelet_in_cell(x, y + 1).is_some() {
                ny = y + 1;
            }
        } else if key == 'j' {
            // cursor left
            if x > 0 && facelet_in_cell(x - 1, y).is_some() {
                nx = x - 1;
            }
        } else if key == 'l' {
            // cursor right
            if facelet_in_cell(x + 1, y).is_some() {
                nx = x + 1;
            }
        } else if key == 'C' {
            let cube = ArrayCube::new();
            self.data = cube.data;
        } else if key == 'Q' {
            return Action::Quit;
        } else {
            match color_of_key(key) {
                Some(side) => {
                    let idx = DISPLAY_GRID[y][x];
                    // the centre of a face keeps its colour
                    if idx % CUBE_AREA != 4 {
                        self.data[idx] = side;
                        painted = true;
                    }
                },
                None => {},
            }
        }
        if nx != x || ny != y {
            self.x = nx;
            self.y = ny;
            Action::CursorMoved { old_x: x, old_y: y }
        } else if painted {
            Action::FaceletPainted
        } else {
            Action::Nothing
        }
    }

    /// Checks whether the facelets are those of a cube that can be solved.
    pub fn legality(&self) -> (res: Result<(), LegalityError>)
        ensures
            res == spec_legality(self.data@),
    {
        let mut f: usize = 0;
        while f < NUM_FACELETS
            invariant
                f <= NUM_FACELETS,
                forall|k: int| 0 <= k < f ==> #[trigger] self.data@[k] < NUM_SIDES,
            decreases NUM_FACELETS - f,
        {
            if self.data[f] as usize >= NUM_SIDES {
                return Err(LegalityError::Color);
            }
            f += 1;
        }
        let array = ArrayCube { data: self.data };
        match CubieCube::from_array(&array) {
            Err(e) => Err(LegalityError::Piece(e)),
            Ok(cube) => match cube.check_validity() {
                Err(v) => Err(LegalityError::Validity(v)),
                Ok(()) => Ok(()),
            },
        }
    }

    /// The facelets as 54 letters, `a` to `f` for the six colours.
    pub fn letters(&self) -> (res: Vec<u8>)
        requires
            self.well_formed(),
        ensures
            res@.len() == NUM_FACELETS,
            forall|f: int| 0 <= f < NUM_FACELETS ==> #[trigger] res@[f] == self.data@[f] + 97,
    {
        let mut res: Vec<u8> = Vec::new();
        let mut f: usize = 0;
        while f < NUM_FACELETS
            invariant
                f <= NUM_FACELETS,
                self.well_formed(),
                res@.len() == f,
                forall|k: int| 0 <= k < f ==> #[trigger] res@[k] == self.data@[k] + 97,
            decreases NUM_FACELETS - f,
        {
            res.push(self.data[f] + 97);
            f += 1;
        }
        res
    }
}

/// What to tell the user about the facelets.
pub open spec fn spec_legality_message(res: Result<(), LegalityError>) -> Seq<char> {
    match res {
        Ok(()) => "The cube is solvable!"@,
        Err(LegalityError::Color) => "A facelet has no colour."@,
        Err(LegalityError::Piece(PieceError::Edge(_))) => "An edge has colours of no piece."@,
        Err(LegalityError::Piece(PieceError::Corner(_))) => "A corner has colours of no piece."@,
        Err(LegalityError::Validity(ValidityError::Pieces)) => "A piece occurs twice."@,
        Err(LegalityError::Validity(ValidityError::CornerTwist)) => "A corner is twisted."@,
        Err(LegalityError::Validity(ValidityError::EdgeFlip)) => "An edge is flipped."@,
        Err(LegalityError::Validity(ValidityError::Parity)) => "Two pieces are exchanged."@,
    }
}

/// What to tell the user about the facelets.
pub fn legality_message(res: Result<(), LegalityError>) -> (msg: &'static str)
    ensures
        msg@ == spec_legality_message(res),
{
    match res {
        Ok(()) => "The cube is solvable!",
        Err(LegalityError::Color) => "A facelet has no colour.",
        Err(LegalityError::Piece(PieceError::Edge(_))) => "An edge has colours of no piece.",
        Err(LegalityError::Piece(PieceError::Corner(_))) => "A corner has colours of no piece.",
        Err(LegalityError::Validity(ValidityError::Pieces)) => "A piece occurs twice.",
        Err(LegalityError::Validity(ValidityError::CornerTwist)) => "A corner is twisted.",
        Err(LegalityError::Validity(ValidityError::EdgeFlip)) => "An edge is flipped.",
        Err(LegalityError::Validity(ValidityError::Parity)) => "Two pieces are exchanged.",
    }
}

} // verus!
