//! The challenge catalog: a fixed lookup table mapping a challenge slot
//! (1, 2 or 3) to an immutable visual-pattern puzzle.
//!
//! The puzzles are deliberately static — the same grid, options and correct
//! answer on every call, for every caller. This is a known limitation of the
//! design (the correct answers are discoverable and reusable), kept on
//! purpose rather than hardened with randomization.

use vstd::prelude::*;
use crate::errors::GateError;

verus! {

/// One cell of a pattern grid.
#[derive(Clone, Copy, Debug, PartialEq, Eq, Structural)]
pub struct GridCell {
    pub color: Color,
}

/// The four colors a grid cell can take.
#[derive(Clone, Copy, Debug, PartialEq, Eq, Structural)]
pub enum Color {
    R,
    B,
    G,
    Y,
}

/// The kind of transformation a challenge asks the caller to recognize.
#[derive(Clone, Copy, Debug, PartialEq, Eq, Structural)]
pub enum ChallengeType {
    Rotation,
    Sequence,
    Transformation,
}

/// A fixed visual-pattern puzzle: a source grid, four candidate answer
/// grids, and the index of the correct candidate.
pub struct Challenge {
    pub id: String,
    pub grid: Vec<Vec<GridCell>>,
    pub options: Vec<Vec<Vec<GridCell>>>,
    pub correct_answer: u8,
    pub challenge_type: ChallengeType,
}

/// The mathematical value of a [`Challenge`].
pub struct ChallengeView {
    pub id: Seq<char>,
    pub grid: Seq<Seq<GridCell>>,
    pub options: Seq<Seq<Seq<GridCell>>>,
    pub correct_answer: u8,
    pub challenge_type: ChallengeType,
}

impl ChallengeView {
    /// The structural invariant of every challenge: exactly four answer
    /// options, and the correct index points at one of them.
    pub open spec fn well_formed(self) -> bool {
        &&& self.options.len() == 4
        &&& (self.correct_answer as int) < self.options.len()
    }
}

/// The value of a grid: each row as a sequence of cells.
pub open spec fn rows_of(g: Seq<Vec<GridCell>>) -> Seq<Seq<GridCell>> {
    g.map_values(|row: Vec<GridCell>| row@)
}

/// The value of an option list: each option as a grid value.
pub open spec fn grids_of(o: Seq<Vec<Vec<GridCell>>>) -> Seq<Seq<Seq<GridCell>>> {
    o.map_values(|g: Vec<Vec<GridCell>>| rows_of(g@))
}

impl View for Challenge {
    type V = ChallengeView;

    open spec fn view(&self) -> ChallengeView {
        ChallengeView {
            id: self.id@,
            grid: rows_of(self.grid@),
            options: grids_of(self.options@),
            correct_answer: self.correct_answer,
            challenge_type: self.challenge_type,
        }
    }
}

fn copy_row(v: &Vec<GridCell>) -> (r: Vec<GridCell>)
    ensures
        r@ == v@,
{
    let mut r: Vec<GridCell> = Vec::new();
    let mut i: usize = 0;
    while i < v.len()
        invariant
            i <= v@.len(),
            r@ == v@.subrange(0, i as int),
        decreases v@.len() - i,
    {
        r.push(v[i]);
        proof {
            assert(r@ =~= v@.subrange(0, i + 1));
        }
        i += 1;
    }
    proof {
        assert(r@ =~= v@);
    }
    r
}

fn copy_grid(v: &Vec<Vec<GridCell>>) -> (r: Vec<Vec<GridCell>>)
    ensures
        rows_of(r@) == rows_of(v@),
{
    let mut r: Vec<Vec<GridCell>> = Vec::new();
    let mut i: usize = 0;
    while i < v.len()
        invariant
            i <= v@.len(),
            r@.len() == i,
            forall|j: int| 0 <= j < i ==> r@[j]@ == v@[j]@,
        decreases v@.len() - i,
    {
        r.push(copy_row(&v[i]));
        i += 1;
    }
    proof {
        assert(rows_of(r@) =~= rows_of(v@));
    }
    r
}

fn copy_options(v: &Vec<Vec<Vec<GridCell>>>) -> (r: Vec<Vec<Vec<GridCell>>>)
    ensures
        grids_of(r@) == grids_of(v@),
{
    let mut r: Vec<Vec<Vec<GridCell>>> = Vec::new();
    let mut i: usize = 0;
    while i < v.len()
        invariant
            i <= v@.len(),
            r@.len() == i,
            forall|j: int| 0 <= j < i ==> rows_of(r@[j]@) == rows_of(v@[j]@),
        decreases v@.len() - i,
    {
        r.push(copy_grid(&v[i]));
        i += 1;
    }
    proof {
        assert(grids_of(r@) =~= grids_of(v@));
    }
    r
}

impl Clone for Challenge {
    /// A copy with the same value: same id, grids, options and answer.
    fn clone(&self) -> (r: Self)
        ensures
            r@ == self@,
    {
        Challenge {
            id: self.id.clone(),
            grid: copy_grid(&self.grid),
            options: copy_options(&self.options),
            correct_answer: self.correct_answer,
            challenge_type: self.challenge_type,
        }
    }
}

/// The id of the slot-1 (rotation) challenge.
pub open spec fn rotation_id() -> Seq<char> {
    "rotation_1"@
}

/// The id of the slot-2 (color sequence) challenge.
pub open spec fn sequence_id() -> Seq<char> {
    "sequence_1"@
}

/// The id of the slot-3 (transformation) challenge.
pub open spec fn transformation_id() -> Seq<char> {
    "transform_1"@
}

/// A 2x2 grid value, cells given row by row.
pub open spec fn grid2x2(a: Color, b: Color, c: Color, d: Color) -> Seq<Seq<GridCell>> {
    seq![
        seq![GridCell { color: a }, GridCell { color: b }],
        seq![GridCell { color: c }, GridCell { color: d }],
    ]
}

/// The slot-1 puzzle's entire value: recognize the 90-degree rotation of
/// the source grid; option 0 is correct.
pub open spec fn rotation_challenge() -> ChallengeView {
    ChallengeView {
        id: rotation_id(),
        grid: grid2x2(Color::R, Color::B, Color::B, Color::R),
        options: seq![
            grid2x2(Color::B, Color::R, Color::R, Color::B),
            grid2x2(Color::R, Color::R, Color::B, Color::B),
            grid2x2(Color::G, Color::B, Color::B, Color::G),
            grid2x2(Color::R, Color::G, Color::G, Color::R),
        ],
        correct_answer: 0,
        challenge_type: ChallengeType::Rotation,
    }
}

/// The slot-2 puzzle's entire value: continue the color cycle of the
/// uniform source grid; option 1 is correct.
pub open spec fn sequence_challenge() -> ChallengeView {
    ChallengeView {
        id: sequence_id(),
        grid: grid2x2(Color::Y, Color::Y, Color::Y, Color::Y),
        options: seq![
            grid2x2(Color::R, Color::R, Color::R, Color::R),
            grid2x2(Color::R, Color::R, Color::R, Color::R),
            grid2x2(Color::B, Color::B, Color::B, Color::B),
            grid2x2(Color::G, Color::G, Color::G, Color::G),
        ],
        correct_answer: 1,
        challenge_type: ChallengeType::Sequence,
    }
}

/// The slot-3 puzzle's entire value: recognize the diagonal swap of the
/// source grid; option 2 is correct.
pub open spec fn transformation_challenge() -> ChallengeView {
    ChallengeView {
        id: transformation_id(),
        grid: grid2x2(Color::G, Color::R, Color::Y, Color::B),
        options: seq![
            grid2x2(Color::G, Color::Y, Color::R, Color::B),
            grid2x2(Color::R, Color::G, Color::B, Color::Y),
            grid2x2(Color::B, Color::Y, Color::R, Color::G),
            grid2x2(Color::Y, Color::B, Color::G, Color::R),
        ],
        correct_answer: 2,
        challenge_type: ChallengeType::Transformation,
    }
}

fn cell(color: Color) -> (c: GridCell)
    ensures
        c == (GridCell { color }),
{
    GridCell { color }
}

fn row2(a: Color, b: Color) -> (r: Vec<GridCell>)
    ensures
        r@ == seq![GridCell { color: a }, GridCell { color: b }],
{
    let mut r: Vec<GridCell> = Vec::new();
    r.push(cell(a));
    r.push(cell(b));
    proof {
        assert(r@ =~= seq![GridCell { color: a }, GridCell { color: b }]);
    }
    r
}

fn grid2(top: Vec<GridCell>, bottom: Vec<GridCell>) -> (g: Vec<Vec<GridCell>>)
    ensures
        rows_of(g@) == seq![top@, bottom@],
{
    let mut g: Vec<Vec<GridCell>> = Vec::new();
    g.push(top);
    g.push(bottom);
    proof {
        assert(rows_of(g@) =~= seq![g@[0]@, g@[1]@]);
    }
    g
}

/// The slot-1 puzzle: every call returns exactly [`rotation_challenge`].
pub fn create_rotation_challenge() -> (c: Challenge)
    ensures
        c@ == rotation_challenge(),
        c@.well_formed(),
{
    let mut options: Vec<Vec<Vec<GridCell>>> = Vec::new();
    options.push(grid2(row2(Color::B, Color::R), row2(Color::R, Color::B)));
    options.push(grid2(row2(Color::R, Color::R), row2(Color::B, Color::B)));
    options.push(grid2(row2(Color::G, Color::B), row2(Color::B, Color::G)));
    options.push(grid2(row2(Color::R, Color::G), row2(Color::G, Color::R)));
    let c = Challenge {
        id: "rotation_1".to_owned(),
        grid: grid2(row2(Color::R, Color::B), row2(Color::B, Color::R)),
        options,
        correct_answer: 0,
        challenge_type: ChallengeType::Rotation,
    };
    proof {
        assert(c@.options =~= rotation_challenge().options);
        assert(c@ == rotation_challenge());
    }
    c
}

/// The slot-2 puzzle: every call returns exactly [`sequence_challenge`].
pub fn create_color_sequence_challenge() -> (c: Challenge)
    ensures
        c@ == sequence_challenge(),
        c@.well_formed(),
{
    let mut options: Vec<Vec<Vec<GridCell>>> = Vec::new();
    options.push(grid2(row2(Color::R, Color::R), row2(Color::R, Color::R)));
    options.push(grid2(row2(Color::R, Color::R), row2(Color::R, Color::R)));
    options.push(grid2(row2(Color::B, Color::B), row2(Color::B, Color::B)));
    options.push(grid2(row2(Color::G, Color::G), row2(Color::G, Color::G)));
    let c = Challenge {
        id: "sequence_1".to_owned(),
        grid: grid2(row2(Color::Y, Color::Y), row2(Color::Y, Color::Y)),
        options,
        correct_answer: 1,
        challenge_type: ChallengeType::Sequence,
    };
    proof {
        assert(c@.options =~= sequence_challenge().options);
        assert(c@ == sequence_challenge());
    }
    c
}

/// The slot-3 puzzle: every call returns exactly
/// [`transformation_challenge`].
pub fn create_transformation_challenge() -> (c: Challenge)
    ensures
        c@ == transformation_challenge(),
        c@.well_formed(),
{
    let mut options: Vec<Vec<Vec<GridCell>>> = Vec::new();
    options.push(grid2(row2(Color::G, Color::Y), row2(Color::R, Color::B)));
    options.push(grid2(row2(Color::R, Color::G), row2(Color::B, Color::Y)));
    options.push(grid2(row2(Color::B, Color::Y), row2(Color::R, Color::G)));
    options.push(grid2(row2(Color::Y, Color::B), row2(Color::G, Color::R)));
    let c = Challenge {
        id: "transform_1".to_owned(),
        grid: grid2(row2(Color::G, Color::R), row2(Color::Y, Color::B)),
        options,
        correct_answer: 2,
        challenge_type: ChallengeType::Transformation,
    };
    proof {
        assert(c@.options =~= transformation_challenge().options);
        assert(c@ == transformation_challenge());
    }
    c
}

/// The fixed puzzle a well-formed slot number maps to.
pub open spec fn slot_challenge(slot: u8) -> ChallengeView {
    if slot == 1 {
        rotation_challenge()
    } else if slot == 2 {
        sequence_challenge()
    } else {
        transformation_challenge()
    }
}

/// The catalog lookup: slot 1, 2 or 3 yields its fixed challenge, whole and
/// identical on every call; any other slot is a caller error.
pub fn get_definition(slot: u8) -> (r: Result<Challenge, GateError>)
    ensures
        1 <= slot <= 3 <==> r is Ok,
        r matches Ok(c) ==> c@ == slot_challenge(slot) && c@.well_formed(),
        r matches Err(e) ==> e == GateError::InvalidSlot,
{
    match slot {
        1 => Ok(create_rotation_challenge()),
        2 => Ok(create_color_sequence_challenge()),
        3 => Ok(create_transformation_challenge()),
        _ => Err(GateError::InvalidSlot),
    }
}

} // verus!
