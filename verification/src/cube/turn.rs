//! Face turns: one of six faces, turned by a quarter, a half or three
//! quarters.

use vstd::prelude::*;
use vstd::string::StringSliceAdditionalSpecFns;

verus! {

/// Number of faces that can be turned.
pub const NUM_TURNTYPES: usize = 6;

/// Number of amounts a face can be turned by.
pub const NUM_TURNWISES: usize = 3;

/// The face that a turn moves.
#[derive(Clone, Copy, PartialEq, Eq, Structural, Debug)]
pub enum TurnType {
    U,
    D,
    B,
    F,
    L,
    R,
}

/// The amount of a turn, as seen when looking at the face.
#[derive(Clone, Copy, PartialEq, Eq, Structural, Debug)]
pub enum TurnWise {
    /// 90 degrees clockwise.
    Clockwise,
    /// 180 degrees.
    Double,
    /// 270 degrees clockwise, that is 90 degrees counter-clockwise.
    CounterClockwise,
}

/// A single move of the cube.
#[derive(Clone, Copy, PartialEq, Eq, Structural, Debug)]
pub struct Turn {
    pub side: TurnType,
    pub wise: TurnWise,
}

impl TurnType {
    /// The place of this face in the order `U, D, B, F, L, R`.
    pub open spec fn spec_index(self) -> int {
        match self {
            TurnType::U => 0,
            TurnType::D => 1,
            TurnType::B => 2,
            TurnType::F => 3,
            TurnType::L => 4,
            TurnType::R => 5,
        }
    }

    /// The face at a place in the order `U, D, B, F, L, R`.
    pub open spec fn spec_from_index(i: int) -> TurnType {
        if i == 0 {
            TurnType::U
        } else if i == 1 {
            TurnType::D
        } else if i == 2 {
            TurnType::B
        } else if i == 3 {
            TurnType::F
        } else if i == 4 {
            TurnType::L
        } else {
            TurnType::R
        }
    }

    /// The place of this face in the order `U, D, B, F, L, R`.
    pub fn index(self) -> (i: usize)
        ensures
            i == self.spec_index(),
            i < NUM_TURNTYPES,
    {
        match self {
            TurnType::U => 0,
            TurnType::D => 1,
            TurnType::B => 2,
            TurnType::F => 3,
            TurnType::L => 4,
            TurnType::R => 5,
        }
    }
}

impl TurnWise {
    /// The number of quarter turns, less one.
    pub open spec fn spec_index(self) -> int {
        match self {
            TurnWise::Clockwise => 0,
            TurnWise::Double => 1,
            TurnWise::CounterClockwise => 2,
        }
    }

    /// The number of clockwise quarter turns this amount stands for.
    pub open spec fn quarter_turns(self) -> nat {
        (self.spec_index() + 1) as nat
    }

    /// The number of quarter turns, less one.
    pub fn index(self) -> (i: usize)
        ensures
            i == self.spec_index(),
            i < NUM_TURNWISES,
    {
        match self {
            TurnWise::Clockwise => 0,
            TurnWise::Double => 1,
            TurnWise::CounterClockwise => 2,
        }
    }
}

/// Where a sequence of turns could not be read: the place of the first byte
/// of the first token that is not a turn.
#[derive(Clone, Copy, PartialEq, Eq, Structural, Debug)]
pub struct ParseTurnError {
    pub position: usize,
}

/// Whether a byte separates tokens: a space, a tab, a line feed, a form feed
/// or a carriage return.
pub open spec fn is_space(b: u8) -> bool {
    b == 32 || b == 9 || b == 10 || b == 12 || b == 13
}

/// The face that a letter names.
pub open spec fn face_of_letter(b: u8) -> Option<TurnType> {
    if b == 85 {
        Some(TurnType::U)
    } else if b == 68 {
        Some(TurnType::D)
    } else if b == 66 {
        Some(TurnType::B)
    } else if b == 70 {
        Some(TurnType::F)
    } else if b == 76 {
        Some(TurnType::L)
    } else if b == 82 {
        Some(TurnType::R)
    } else {
        None
    }
}

/// The token that starts at place `i`, and the place where it ends: the
/// letter of a face, then nothing for a quarter turn, `2` for a half turn or
/// `'` for three quarters, and then a separator or the end of the text.
pub open spec fn spec_token_at(s: Seq<u8>, i: int) -> Option<(Turn, int)> {
    match face_of_letter(s[i]) {
        None => None,
        Some(side) => {
            let (wise, next) = if i + 1 < s.len() && s[i + 1] == 50 {
                (TurnWise::Double, i + 2)
            } else if i + 1 < s.len() && s[i + 1] == 39 {
                (TurnWise::CounterClockwise, i + 2)
            } else {
                (TurnWise::Clockwise, i + 1)
            };
            if next < s.len() && !is_space(s[next]) {
                None
            } else {
                Some((Turn { side, wise }, next))
            }
        },
    }
}

/// The turns that the text holds from place `i` on, or the place of the
/// first token that is not a turn.
pub open spec fn spec_parse_turns_from(s: Seq<u8>, i: int) -> Result<Seq<Turn>, int>
    decreases s.len() - i,
{
    if i < 0 || i >= s.len() {
        Ok(Seq::empty())
    } else if is_space(s[i]) {
        spec_parse_turns_from(s, i + 1)
    } else {
        match spec_token_at(s, i) {
            None => Err(i),
            Some((turn, next)) => match spec_parse_turns_from(s, next) {
                Ok(rest) => Ok(seq![turn] + rest),
                Err(p) => Err(p),
            },
        }
    }
}

/// The turns that a text holds: tokens of the form `<face>`, `<face>2` or
/// `<face>'`, separated by white space.
pub open spec fn spec_parse_turns(s: Seq<u8>) -> Result<Seq<Turn>, int> {
    spec_parse_turns_from(s, 0)
}

/// The turns read so far, followed by what the rest of the text holds.
pub open spec fn spec_parse_after(done: Seq<Turn>, rest: Result<Seq<Turn>, int>) -> Result<
    Seq<Turn>,
    int,
> {
    match rest {
        Ok(r) => Ok(done + r),
        Err(p) => Err(p),
    }
}

/// The face that a letter names.
fn letter_face(b: u8) -> (res: Option<TurnType>)
    ensures
        res == face_of_letter(b),
{
    if b == 85 {
        Some(TurnType::U)
    } else if b == 68 {
        Some(TurnType::D)
    } else if b == 66 {
        Some(TurnType::B)
    } else if b == 70 {
        Some(TurnType::F)
    } else if b == 76 {
        Some(TurnType::L)
    } else if b == 82 {
        Some(TurnType::R)
    } else {
        None
    }
}

/// Whether a byte separates tokens.
fn byte_is_space(b: u8) -> (res: bool)
    ensures
        res == is_space(b),
{
    b == 32 || b == 9 || b == 10 || b == 12 || b == 13
}

/// Reads a sequence of turns from its bytes.
pub fn parse_turn_bytes(bytes: &[u8]) -> (res: Result<Vec<Turn>, ParseTurnError>)
    ensures
        match res {
            Ok(turns) => spec_parse_turns(bytes@) == Ok::<Seq<Turn>, int>(turns@),
            Err(e) => spec_parse_turns(bytes@) == Err::<Seq<Turn>, int>(e.position as int),
        },
{
    let n = bytes.len();
    let mut out: Vec<Turn> = Vec::new();
    let mut i: usize = 0;
    proof {
        assert(spec_parse_after(out@, spec_parse_turns_from(bytes@, 0)) == spec_parse_turns(
            bytes@,
        )) by {
            match spec_parse_turns_from(bytes@, 0) {
                Ok(r) => {
                    assert(out@ + r =~= r);
                },
                Err(_) => {},
            }
        }
    }
    while i < n
        invariant
            i <= n,
            n == bytes@.len(),
            spec_parse_after(out@, spec_parse_turns_from(bytes@, i as int)) == spec_parse_turns(
                bytes@,
            ),
        decreases n - i,
    {
        let c = bytes[i];
        if byte_is_space(c) {
            i += 1;
        } else {
            let side = match letter_face(c) {
                Some(side) => side,
                None => {
                    return Err(ParseTurnError { position: i });
                },
            };
            let mut wise = TurnWise::Clockwise;
            let mut next = i + 1;
            if next < n && bytes[next] == 50 {
                wise = TurnWise::Double;
                next = next + 1;
            } else if next < n && bytes[next] == 39 {
                wise = TurnWise::CounterClockwise;
                next = next + 1;
            }
            if next < n && !byte_is_space(bytes[next]) {
                return Err(ParseTurnError { position: i });
            }
            let turn = Turn { side, wise };
            let ghost done = out@;
            out.push(turn);
            proof {
                assert(spec_token_at(bytes@, i as int) == Some((turn, next as int)));
                match spec_parse_turns_from(bytes@, next as int) {
                    Ok(r) => {
                        assert(done + (seq![turn] + r) =~= done.push(turn) + r);
                    },
                    Err(_) => {},
                }
            }
            i = next;
        }
    }
    proof {
        assert(out@ + Seq::<Turn>::empty() =~= out@);
    }
    Ok(out)
}

/// Reads a sequence of turns, such as `R U2 F'`: tokens separated by white
/// space, each the letter of a face (`U`, `D`, `B`, `F`, `L`, `R`) followed
/// by nothing for a clockwise quarter turn, by `2` for a half turn, or by
/// `'` for a counter-clockwise quarter turn.
pub fn parse_turns(s: &str) -> (res: Result<Vec<Turn>, ParseTurnError>)
    ensures
        match res {
            Ok(turns) => spec_parse_turns(s.spec_bytes()) == Ok::<Seq<Turn>, int>(turns@),
            Err(e) => spec_parse_turns(s.spec_bytes()) == Err::<Seq<Turn>, int>(
                e.position as int,
            ),
        },
{
    parse_turn_bytes(s.as_bytes())
}

impl Turn {
    /// How the turn is written: the letter of its face and the mark of its
    /// amount.
    pub open spec fn spec_notation(self) -> Seq<char> {
        match (self.side, self.wise) {
            (TurnType::U, TurnWise::Clockwise) => "U"@,
            (TurnType::U, TurnWise::Double) => "U2"@,
            (TurnType::U, TurnWise::CounterClockwise) => "U'"@,
            (TurnType::D, TurnWise::Clockwise) => "D"@,
            (TurnType::D, TurnWise::Double) => "D2"@,
            (TurnType::D, TurnWise::CounterClockwise) => "D'"@,
            (TurnType::B, TurnWise::Clockwise) => "B"@,
            (TurnType::B, TurnWise::Double) => "B2"@,
            (TurnType::B, TurnWise::CounterClockwise) => "B'"@,
            (TurnType::F, TurnWise::Clockwise) => "F"@,
            (TurnType::F, TurnWise::Double) => "F2"@,
            (TurnType::F, TurnWise::CounterClockwise) => "F'"@,
            (TurnType::L, TurnWise::Clockwise) => "L"@,
            (TurnType::L, TurnWise::Double) => "L2"@,
            (TurnType::L, TurnWise::CounterClockwise) => "L'"@,
            (TurnType::R, TurnWise::Clockwise) => "R"@,
            (TurnType::R, TurnWise::Double) => "R2"@,
            (TurnType::R, TurnWise::CounterClockwise) => "R'"@,
        }
    }

    /// How the turn is written, as [`parse_turns`] reads it.
    pub fn notation(self) -> (res: &'static str)
        ensures
            res@ == self.spec_notation(),
    {
        match (self.side, self.wise) {
            (TurnType::U, TurnWise::Clockwise) => "U",
            (TurnType::U, TurnWise::Double) => "U2",
            (TurnType::U, TurnWise::CounterClockwise) => "U'",
            (TurnType::D, TurnWise::Clockwise) => "D",
            (TurnType::D, TurnWise::Double) => "D2",
            (TurnType::D, TurnWise::CounterClockwise) => "D'",
            (TurnType::B, TurnWise::Clockwise) => "B",
            (TurnType::B, TurnWise::Double) => "B2",
            (TurnType::B, TurnWise::CounterClockwise) => "B'",
            (TurnType::F, TurnWise::Clockwise) => "F",
            (TurnType::F, TurnWise::Double) => "F2",
            (TurnType::F, TurnWise::CounterClockwise) => "F'",
            (TurnType::L, TurnWise::Clockwise) => "L",
            (TurnType::L, TurnWise::Double) => "L2",
            (TurnType::L, TurnWise::CounterClockwise) => "L'",
            (TurnType::R, TurnWise::Clockwise) => "R",
            (TurnType::R, TurnWise::Double) => "R2",
            (TurnType::R, TurnWise::CounterClockwise) => "R'",
        }
    }
}

} // verus!
