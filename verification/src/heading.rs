use crate::error::RoverError;
use vstd::prelude::*;

verus! {

/// The direction a rover faces. Clockwise the headings follow one another as
/// `N`, `E`, `S`, `W`, and `N` again.
#[derive(Debug, Clone, Copy, PartialEq, Eq, Structural)]
pub enum Coordinate {
    N,
    E,
    S,
    W,
}

/// A quarter turn: `L` counter-clockwise, `R` clockwise.
#[derive(Debug, Clone, Copy, PartialEq, Eq, Structural)]
pub enum Rotate {
    L,
    R,
}

impl Rotate {
    /// The turn that a character stands for, if any.
    pub open spec fn parse(value: char) -> Option<Rotate> {
        if value == 'L' {
            Some(Rotate::L)
        } else if value == 'R' {
            Some(Rotate::R)
        } else {
            None
        }
    }

    /// The number of clockwise quarter turns that amount to this turn.
    pub open spec fn clockwise_steps(self) -> int {
        match self {
            Rotate::L => 3,
            Rotate::R => 1,
        }
    }

    /// Reads a turn from its character: `'L'` or `'R'`. Any other character is
    /// a parse error.
    pub fn from(value: char) -> (r: Result<Rotate, RoverError>)
        ensures
            r == match Rotate::parse(value) {
                Some(d) => Ok::<Rotate, RoverError>(d),
                None => Err(RoverError::ParseError),
            },
    {
        match value {
            'L' => Ok(Rotate::L),
            'R' => Ok(Rotate::R),
            _ => Err(RoverError::ParseError),
        }
    }
}

impl Coordinate {
    /// The heading's place in the clockwise cycle that starts at `N`.
    pub open spec fn index(self) -> int {
        match self {
            Coordinate::N => 0,
            Coordinate::E => 1,
            Coordinate::S => 2,
            Coordinate::W => 3,
        }
    }

    /// The heading at a place of the cycle; places are taken modulo 4.
    pub open spec fn at(i: int) -> Coordinate {
        let k = i % 4;
        if k == 0 {
            Coordinate::N
        } else if k == 1 {
            Coordinate::E
        } else if k == 2 {
            Coordinate::S
        } else {
            Coordinate::W
        }
    }

    /// The heading after one quarter turn.
    pub open spec fn turned(self, direction: Rotate) -> Coordinate {
        Coordinate::at(self.index() + direction.clockwise_steps())
    }

    /// The heading that a character stands for, if any.
    pub open spec fn parse(value: char) -> Option<Coordinate> {
        if value == 'N' {
            Some(Coordinate::N)
        } else if value == 'E' {
            Some(Coordinate::E)
        } else if value == 'S' {
            Some(Coordinate::S)
        } else if value == 'W' {
            Some(Coordinate::W)
        } else {
            None
        }
    }

    /// Reads a heading from its character: `'N'`, `'E'`, `'S'` or `'W'`. Any
    /// other character is a parse error.
    pub fn from(value: char) -> (r: Result<Coordinate, RoverError>)
        ensures
            r == match Coordinate::parse(value) {
                Some(h) => Ok::<Coordinate, RoverError>(h),
                None => Err(RoverError::ParseError),
            },
    {
        match value {
            'N' => Ok(Coordinate::N),
            'E' => Ok(Coordinate::E),
            'S' => Ok(Coordinate::S),
            'W' => Ok(Coordinate::W),
            _ => Err(RoverError::ParseError),
        }
    }

    /// The heading after one quarter turn.
    pub fn turn(self, direction: Rotate) -> (r: Coordinate)
        ensures
            r == self.turned(direction),
    {
        match direction {
            Rotate::L => match self {
                Coordinate::N => Coordinate::W,
                Coordinate::E => Coordinate::N,
                Coordinate::S => Coordinate::E,
                Coordinate::W => Coordinate::S,
            },
            Rotate::R => match self {
                Coordinate::N => Coordinate::E,
                Coordinate::E => Coordinate::S,
                Coordinate::S => Coordinate::W,
                Coordinate::W => Coordinate::N,
            },
        }
    }
}

/// Four quarter turns in one direction bring every heading back to itself.
pub proof fn lemma_four_turns_restore(h: Coordinate, direction: Rotate)
    ensures
        h.turned(direction).turned(direction).turned(direction).turned(direction) == h,
{
}

/// Two quarter turns in one direction reverse a heading, whichever direction
/// was taken; in particular they never restore it.
pub proof fn lemma_two_turns_reverse(h: Coordinate, direction: Rotate)
    ensures
        h.turned(direction).turned(direction) == Coordinate::at(h.index() + 2),
        h.turned(direction).turned(direction) != h,
        h.turned(Rotate::L).turned(Rotate::L) == h.turned(Rotate::R).turned(Rotate::R),
{
}

/// A left turn undoes a right turn, and a right turn undoes a left turn.
pub proof fn lemma_opposite_turns_cancel(h: Coordinate)
    ensures
        h.turned(Rotate::L).turned(Rotate::R) == h,
        h.turned(Rotate::R).turned(Rotate::L) == h,
{
}

/// `at` and `index` are inverse to each other on the four places of the cycle.
pub proof fn lemma_index_at(h: Coordinate)
    ensures
        0 <= h.index() < 4,
        Coordinate::at(h.index()) == h,
{
}

} // verus!
