use crate::error::RoverError;
use crate::heading::{Coordinate, Rotate};
use crate::pose::{
    all_instructions, boundary_chars, boundary_value, clamp, digit_value,
    document_boundary, has_rover_lines, instruction_chars, is_instruction, pose_chars, pose_value,
    rover_count, rover_outcome, well_formed, Pose,
};
use crate::text::{
    chars_of, count_lines, first_line_with_text, keep, lemma_first_nonempty_line,
    lemma_line_start_increasing, locate_line, CharClass,
};
use vstd::prelude::*;

verus! {

/// A rover: where it stands and which way it faces.
#[derive(Debug, Clone, Copy, PartialEq, Eq, Structural)]
pub struct Rover {
    pub x: i32,
    pub y: i32,
    pub position: Coordinate,
}

impl View for Rover {
    type V = Pose;

    open spec fn view(&self) -> Pose {
        Pose { x: self.x as int, y: self.y as int, heading: self.position }
    }
}

impl Default for Rover {
    /// The rover before its pose is known: at the origin, facing north.
    fn default() -> (r: Rover)
        ensures
            r == (Rover { x: 0, y: 0, position: Coordinate::N }),
    {
        Rover { x: 0, y: 0, position: Coordinate::N }
    }
}

/// The three parts of a document that concern one rover, each reduced to its
/// meaningful characters: the plateau's line, the pose line, the instruction
/// line.
pub type RoverLines = (Vec<char>, Vec<char>, Vec<char>);

/// The value of a decimal digit.
pub fn digit_of(c: char) -> (r: Option<i32>)
    ensures
        match digit_value(c) {
            Some(d) => r == Some(d as i32) && 0 <= d <= 9,
            None => r is None,
        },
{
    match c {
        '0' => Some(0),
        '1' => Some(1),
        '2' => Some(2),
        '3' => Some(3),
        '4' => Some(4),
        '5' => Some(5),
        '6' => Some(6),
        '7' => Some(7),
        '8' => Some(8),
        '9' => Some(9),
        _ => None,
    }
}

/// Reads the plateau's far corner from the numeric characters of its line.
pub fn parse_boundary(boundary: &[char]) -> (r: Result<(i32, i32), RoverError>)
    ensures
        match boundary_value(boundary@) {
            Some(b) => r == Ok::<(i32, i32), RoverError>((b.0 as i32, b.1 as i32)) && 0 <= b.0 <= 9
                && 0 <= b.1 <= 9,
            None => r == Err::<(i32, i32), RoverError>(RoverError::ParseError),
        },
{
    if boundary.len() < 2 {
        return Err(RoverError::ParseError);
    }
    match (digit_of(boundary[0]), digit_of(boundary[1])) {
        (Some(max_x), Some(max_y)) => Ok((max_x, max_y)),
        _ => Err(RoverError::ParseError),
    }
}

/// Reads the plateau's far corner from the first non-empty line of a
/// document's characters. A document without such a line is a `ParseError`.
pub fn read_boundary(text: &[char]) -> (r: Result<(i32, i32), RoverError>)
    ensures
        match document_boundary(text@) {
            Some(b) => r == Ok::<(i32, i32), RoverError>((b.0 as i32, b.1 as i32)) && 0 <= b.0 <= 9
                && 0 <= b.1 <= 9,
            None => r == Err::<(i32, i32), RoverError>(RoverError::ParseError),
        },
{
    proof {
        lemma_first_nonempty_line(text@, 0);
    }
    let at = match first_line_with_text(text) {
        Some(b) => locate_line(text, b),
        None => None,
    };
    match at {
        Some((from, to)) => {
            let digits: Vec<char> = keep(text, from, to, CharClass::Numeric);
            parse_boundary(digits.as_slice())
        },
        None => Err(RoverError::ParseError),
    }
}

/// One coordinate after a step of `d` units, clamped to `0 ..= max`.
fn shift(v: i32, d: i32, max: i32) -> (r: i32)
    requires
        -1 <= d <= 1,
        0 <= max,
    ensures
        r == clamp(v + d, max as int),
{
    let w: i64 = v as i64 + d as i64;
    if w < 0 {
        0
    } else if w > max as i64 {
        max
    } else {
        w as i32
    }
}

/// Cuts the three parts that concern rover `num` out of a document's
/// characters. The plateau's line is the first line that holds a character;
/// the rover's two lines are counted from it.
pub fn split_lines(text: &[char], num: usize) -> (r: Result<RoverLines, RoverError>)
    ensures
        has_rover_lines(text@, num as nat) ==> r is Ok && {
            let (boundary, position, movement) = r->Ok_0;
            &&& boundary@ == boundary_chars(text@)
            &&& position@ == pose_chars(text@, num as nat)
            &&& movement@ == instruction_chars(text@, num as nat)
        },
        !has_rover_lines(text@, num as nat) ==> r == Err::<RoverLines, RoverError>(
            RoverError::ParseError,
        ),
{
    let len: usize = text.len();
    let first: usize = match first_line_with_text(text) {
        Some(b) => b,
        None => {
            return Err(RoverError::ParseError);
        },
    };
    let ghost last = first as nat + 2 * (num as nat) + 2;
    proof {
        lemma_line_start_increasing(text@, 0, last);
    }
    if num > (usize::MAX - 2) / 2 || 2 * num + 2 > len - first {
        return Err(RoverError::ParseError);
    }
    let movement_line: usize = first + 2 * num + 2;
    proof {
        lemma_line_start_increasing(text@, first as nat, last);
        lemma_line_start_increasing(text@, (last - 1) as nat, last);
    }
    match (
        locate_line(text, first),
        locate_line(text, movement_line - 1),
        locate_line(text, movement_line),
    ) {
        (Some(b), Some(p), Some(m)) => {
            let boundary = keep(text, b.0, b.1, CharClass::Numeric);
            let position = keep(text, p.0, p.1, CharClass::Alphanumeric);
            let movement = keep(text, m.0, m.1, CharClass::Alphabetic);
            Ok((boundary, position, movement))
        },
        _ => Err(RoverError::ParseError),
    }
}

impl Rover {
    /// Runs a whole document: reads the plateau from its first non-empty line
    /// and then, for each rover in turn, sets it to its pose and carries out
    /// its instructions. The result holds the rovers' final states in the
    /// order of the document.
    ///
    /// An empty document is `MissingInput`. A document that is not well formed
    /// is a `ParseError`, and no rover is reported.
    pub fn compute_location(command: String) -> (r: Result<Vec<Rover>, RoverError>)
        ensures
            command@.len() == 0 ==> r == Err::<Vec<Rover>, RoverError>(RoverError::MissingInput),
            command@.len() > 0 && !well_formed(command@) ==> r == Err::<Vec<Rover>, RoverError>(
                RoverError::ParseError,
            ),
            well_formed(command@) ==> r is Ok && (r->Ok_0)@.len() == rover_count(command@)
                && forall|k: int|
                0 <= k < (r->Ok_0)@.len() ==> Some((#[trigger] (r->Ok_0)@[k])@) == rover_outcome(
                    command@,
                    k as nat,
                ),
    {
        let text: Vec<char> = chars_of(command.as_str());
        if text.len() == 0 {
            return Err(RoverError::MissingInput);
        }
        let count: usize = (count_lines(text.as_slice()) - 1) / 2;
        let boundary: (i32, i32) = match read_boundary(text.as_slice()) {
            Ok(b) => b,
            Err(e) => {
                return Err(e);
            },
        };
        let mut rovers: Vec<Rover> = Vec::new();
        let mut num: usize = 0;
        while num < count
            invariant
                num <= count,
                count == rover_count(command@),
                text@ == command@,
                command@.len() > 0,
                document_boundary(command@) == Some((boundary.0 as int, boundary.1 as int)),
                0 <= boundary.0,
                0 <= boundary.1,
                rovers@.len() == num,
                forall|k: int|
                    0 <= k < num ==> Some((#[trigger] rovers@[k])@) == rover_outcome(
                        command@,
                        k as nat,
                    ),
            decreases count - num,
        {
            let mut rover = Rover::default();
            match split_lines(text.as_slice(), num) {
                Ok((_, position, movement)) => {
                    if rover.set_initial_position(position.as_slice()).is_err() {
                        assert(rover_outcome(command@, num as nat) is None);
                        return Err(RoverError::ParseError);
                    }
                    if rover.run(boundary, movement.as_slice()).is_err() {
                        assert(rover_outcome(command@, num as nat) is None);
                        return Err(RoverError::ParseError);
                    }
                },
                Err(e) => {
                    assert(rover_outcome(command@, num as nat) is None);
                    return Err(e);
                },
            }
            rovers.push(rover);
            num += 1;
        }
        assert forall|k: nat| k < rover_count(command@) implies (#[trigger] rover_outcome(
            command@,
            k,
        )) is Some by {
            assert(Some(rovers@[k as int]@) == rover_outcome(command@, k));
        }
        Ok(rovers)
    }

    /// Cuts the three parts that concern rover `num` out of a document: the
    /// numeric characters of the plateau's line, the alphabetic and numeric
    /// characters of the rover's pose line, and the alphabetic characters of
    /// its instruction line. The document is cut at every newline; the
    /// plateau's line is the first line `b` that holds a character, and rover
    /// `num` owns lines `b + 2 * num + 1` and `b + 2 * num + 2`. A document
    /// without these lines is a `ParseError`.
    pub fn split_command(position: String, num: usize) -> (r: Result<RoverLines, RoverError>)
        ensures
            has_rover_lines(position@, num as nat) ==> r is Ok && {
                let (boundary, pose, movement) = r->Ok_0;
                &&& boundary@ == boundary_chars(position@)
                &&& pose@ == pose_chars(position@, num as nat)
                &&& movement@ == instruction_chars(position@, num as nat)
            },
            !has_rover_lines(position@, num as nat) ==> r == Err::<RoverLines, RoverError>(
                RoverError::ParseError,
            ),
    {
        let text: Vec<char> = chars_of(position.as_str());
        split_lines(text.as_slice(), num)
    }

    /// Sets the rover to the pose that `position` spells: a digit for `x`, a
    /// digit for `y`, a heading. Where it spells none, the rover stays as it
    /// was and the result is a `ParseError`.
    pub fn set_initial_position(&mut self, position: &[char]) -> (r: Result<&mut Self, RoverError>)
        ensures
            match pose_value(position@) {
                Some(p) => r is Ok && (r->Ok_0)@ == p && *final(self) == *final(r->Ok_0),
                None => r is Err && r->Err_0 == RoverError::ParseError && *final(self) == *old(
                    self,
                ),
            },
    {
        if position.len() < 3 {
            return Err(RoverError::ParseError);
        }
        match (digit_of(position[0]), digit_of(position[1]), Coordinate::from(position[2])) {
            (Some(x), Some(y), Ok(heading)) => {
                self.x = x;
                self.y = y;
                self.position = heading;
                Ok(self)
            },
            _ => Err(RoverError::ParseError),
        }
    }

    /// Turns the rover a quarter turn on the spot.
    pub fn rotate(&mut self, direction: Rotate) -> (ret: &mut Self)
        ensures
            ret@ == old(self)@.rotated(direction),
            ret.x == old(self).x,
            ret.y == old(self).y,
            *final(self) == *final(ret),
    {
        self.position = self.position.turn(direction);
        self
    }

    /// Moves the rover one unit along its heading and clamps it to the
    /// plateau whose far corner is `plane_boundary`: a move over the edge
    /// leaves the rover at the edge.
    pub fn transpose(&mut self, plane_boundary: (i32, i32)) -> (ret: &mut Self)
        requires
            0 <= plane_boundary.0,
            0 <= plane_boundary.1,
        ensures
            ret@ == old(self)@.advanced(plane_boundary.0 as int, plane_boundary.1 as int),
            0 <= ret.x <= plane_boundary.0,
            0 <= ret.y <= plane_boundary.1,
            ret.position == old(self).position,
            *final(self) == *final(ret),
    {
        let (dx, dy): (i32, i32) = match self.position {
            Coordinate::N => (0, 1),
            Coordinate::E => (1, 0),
            Coordinate::S => (0, -1),
            Coordinate::W => (-1, 0),
        };
        self.x = shift(self.x, dx, plane_boundary.0);
        self.y = shift(self.y, dy, plane_boundary.1);
        self
    }

    /// Carries out a sequence of instructions from left to right: `'L'` and
    /// `'R'` turn the rover, `'M'` moves it. Where a character is none of the
    /// three, the rover stays as it was before the first instruction and the
    /// result is a `ParseError`.
    pub fn run(&mut self, boundary: (i32, i32), movement: &[char]) -> (r: Result<(), RoverError>)
        requires
            0 <= boundary.0,
            0 <= boundary.1,
        ensures
            all_instructions(movement@) ==> r is Ok && final(self)@ == old(self)@.after(
                boundary.0 as int,
                boundary.1 as int,
                movement@,
            ),
            !all_instructions(movement@) ==> r == Err::<(), RoverError>(RoverError::ParseError)
                && *final(self) == *old(self),
    {
        let ghost start = self@;
        let mut rover: Rover = *self;
        let mut i: usize = 0;
        assert(movement@.take(0) =~= Seq::<char>::empty());
        while i < movement.len()
            invariant
                i <= movement@.len(),
                0 <= boundary.0,
                0 <= boundary.1,
                forall|j: int| 0 <= j < i ==> is_instruction(#[trigger] movement@[j]),
                rover@ == start.after(boundary.0 as int, boundary.1 as int, movement@.take(i as int)),
            decreases movement@.len() - i,
        {
            let c: char = movement[i];
            proof {
                assert(movement@.take(i + 1).drop_last() =~= movement@.take(i as int));
            }
            if c == 'M' {
                rover.transpose(boundary);
            } else {
                match Rotate::from(c) {
                    Ok(direction) => {
                        rover.rotate(direction);
                    },
                    Err(e) => {
                        return Err(e);
                    },
                }
            }
            i += 1;
        }
        assert(movement@.take(i as int) =~= movement@);
        *self = rover;
        Ok(())
    }
}

} // verus!
