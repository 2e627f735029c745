use crate::heading::{Coordinate, Rotate};
use crate::text::{
    first_nonempty_line, has_line, kept, lemma_first_nonempty_line,
    lemma_first_nonempty_line_extended, lemma_has_line_iff_newlines, lemma_line_after_first,
    lemma_line_extended, lemma_line_start_increasing, lemma_line_without_newline,
    lemma_single_line, line, line_count, line_end, line_start, newline_count, CharClass,
};
use vstd::prelude::*;

verus! {

/// A rover's state as mathematics sees it: a place on the grid and a heading.
pub struct Pose {
    pub x: int,
    pub y: int,
    pub heading: Coordinate,
}

/// `v` brought into `0 ..= max`: what lies below becomes 0, what lies above
/// becomes `max`.
pub open spec fn clamp(v: int, max: int) -> int {
    if v < 0 {
        0
    } else if v > max {
        max
    } else {
        v
    }
}

/// The value of a decimal digit, `'0'` to `'9'`; no other character has one.
pub open spec fn digit_value(c: char) -> Option<int> {
    if '0' <= c <= '9' {
        Some(c as int - '0' as int)
    } else {
        None
    }
}

/// Whether a character is one of the three instructions: `'L'`, `'R'`, `'M'`.
pub open spec fn is_instruction(c: char) -> bool {
    c == 'M' || Rotate::parse(c) is Some
}

/// Whether every character of a sequence is an instruction.
pub open spec fn all_instructions(s: Seq<char>) -> bool {
    forall|i: int| 0 <= i < s.len() ==> is_instruction(#[trigger] s[i])
}

impl Coordinate {
    /// The unit step that a move takes under this heading, as `(dx, dy)`.
    pub open spec fn displacement(self) -> (int, int) {
        match self {
            Coordinate::N => (0, 1),
            Coordinate::E => (1, 0),
            Coordinate::S => (0, -1),
            Coordinate::W => (-1, 0),
        }
    }
}

impl Pose {
    /// Whether the pose lies on the plateau whose far corner is
    /// `(max_x, max_y)`.
    pub open spec fn within(self, max_x: int, max_y: int) -> bool {
        0 <= self.x <= max_x && 0 <= self.y <= max_y
    }

    /// The pose after a quarter turn: the same place, the heading turned.
    pub open spec fn rotated(self, direction: Rotate) -> Pose {
        Pose { x: self.x, y: self.y, heading: self.heading.turned(direction) }
    }

    /// The pose after a move: one unit along the heading, then both
    /// coordinates clamped to the plateau.
    pub open spec fn advanced(self, max_x: int, max_y: int) -> Pose {
        Pose {
            x: clamp(self.x + self.heading.displacement().0, max_x),
            y: clamp(self.y + self.heading.displacement().1, max_y),
            heading: self.heading,
        }
    }

    /// The pose after one instruction. A character that is no instruction
    /// leaves the pose as it is.
    pub open spec fn step(self, max_x: int, max_y: int, c: char) -> Pose {
        if c == 'M' {
            self.advanced(max_x, max_y)
        } else {
            match Rotate::parse(c) {
                Some(direction) => self.rotated(direction),
                None => self,
            }
        }
    }

    /// The pose after a sequence of instructions, applied from left to right.
    pub open spec fn after(self, max_x: int, max_y: int, instructions: Seq<char>) -> Pose
        decreases instructions.len(),
    {
        if instructions.len() == 0 {
            self
        } else {
            self.after(max_x, max_y, instructions.drop_last()).step(
                max_x,
                max_y,
                instructions.last(),
            )
        }
    }
}

/// The pose that the meaningful characters of a pose line give: two digits
/// and a heading. Characters after the third are not looked at.
pub open spec fn pose_value(p: Seq<char>) -> Option<Pose> {
    if p.len() >= 3 && digit_value(p[0]) is Some && digit_value(p[1]) is Some && Coordinate::parse(
        p[2],
    ) is Some {
        Some(
            Pose {
                x: digit_value(p[0])->0,
                y: digit_value(p[1])->0,
                heading: Coordinate::parse(p[2])->0,
            },
        )
    } else {
        None
    }
}

/// The far corner that the numeric characters of the plateau's line give: the
/// first is `max_x`, the second `max_y`, and both must be digits. Further
/// characters are not looked at.
pub open spec fn boundary_value(b: Seq<char>) -> Option<(int, int)> {
    if b.len() >= 2 && digit_value(b[0]) is Some && digit_value(b[1]) is Some {
        Some((digit_value(b[0])->0, digit_value(b[1])->0))
    } else {
        None
    }
}

/// How many rovers a document describes: after the plateau's line, every two
/// lines are one rover.
pub open spec fn rover_count(doc: Seq<char>) -> nat {
    if line_count(doc) == 0 {
        0
    } else {
        ((line_count(doc) - 1) / 2) as nat
    }
}

/// The index of the plateau's line: the first line of the document that
/// holds a character. A document of empty lines only has none.
pub open spec fn boundary_line(doc: Seq<char>) -> Option<nat> {
    first_nonempty_line(doc, 0)
}

/// The index of the pose line of rover `k`: the rovers' line pairs follow the
/// plateau's line.
pub open spec fn pose_line(doc: Seq<char>, k: nat) -> nat
    recommends
        boundary_line(doc) is Some,
{
    boundary_line(doc)->0 + 2 * k + 1
}

/// The index of the instruction line of rover `k`.
pub open spec fn instruction_line(doc: Seq<char>, k: nat) -> nat
    recommends
        boundary_line(doc) is Some,
{
    boundary_line(doc)->0 + 2 * k + 2
}

/// Whether the document has the plateau's line and both lines of rover `k`.
pub open spec fn has_rover_lines(doc: Seq<char>, k: nat) -> bool {
    boundary_line(doc) is Some && has_line(doc, instruction_line(doc, k))
}

/// The plateau's line, reduced to its numeric characters.
pub open spec fn boundary_chars(doc: Seq<char>) -> Seq<char>
    recommends
        boundary_line(doc) is Some,
{
    kept(line(doc, boundary_line(doc)->0), CharClass::Numeric)
}

/// The plateau's far corner as the document's first non-empty line gives it,
/// or `None` where the document has no such line or the line does not give
/// two digits.
pub open spec fn document_boundary(doc: Seq<char>) -> Option<(int, int)> {
    if boundary_line(doc) is Some {
        boundary_value(boundary_chars(doc))
    } else {
        None
    }
}

/// The pose line of rover `k`, reduced to its meaningful characters.
pub open spec fn pose_chars(doc: Seq<char>, k: nat) -> Seq<char>
    recommends
        has_rover_lines(doc, k),
{
    kept(line(doc, pose_line(doc, k)), CharClass::Alphanumeric)
}

/// The instruction line of rover `k`, reduced to its letters.
pub open spec fn instruction_chars(doc: Seq<char>, k: nat) -> Seq<char>
    recommends
        has_rover_lines(doc, k),
{
    kept(line(doc, instruction_line(doc, k)), CharClass::Alphabetic)
}

/// Where rover `k` of the document ends up, or `None` where the document
/// does not say: the plateau's line or a line of the rover is missing, the
/// plateau's line or the pose line cannot be read, or a letter of the
/// instruction line is no instruction.
pub open spec fn rover_outcome(doc: Seq<char>, k: nat) -> Option<Pose> {
    if !has_rover_lines(doc, k) {
        None
    } else {
        match (document_boundary(doc), pose_value(pose_chars(doc, k))) {
            (Some(b), Some(start)) => if all_instructions(instruction_chars(doc, k)) {
                Some(start.after(b.0, b.1, instruction_chars(doc, k)))
            } else {
                None
            },
            _ => None,
        }
    }
}

/// The document that holds one rover alone: the plateau's line of `doc` and
/// the two lines of its rover `k`.
pub open spec fn rover_alone(doc: Seq<char>, k: nat) -> Seq<char>
    recommends
        has_rover_lines(doc, k),
{
    line(doc, boundary_line(doc)->0) + seq!['\n'] + (line(doc, pose_line(doc, k)) + seq!['\n']
        + line(doc, instruction_line(doc, k)))
}

/// Whether a document can be run: it is not empty, its first non-empty line
/// gives the plateau, and every rover it counts has an outcome.
pub open spec fn well_formed(doc: Seq<char>) -> bool {
    &&& doc.len() > 0
    &&& document_boundary(doc) is Some
    &&& forall|k: nat| k < rover_count(doc) ==> (#[trigger] rover_outcome(doc, k)) is Some
}

/// A turn moves nothing: the place stays, only the heading changes.
pub proof fn lemma_rotated_keeps_place(p: Pose, direction: Rotate)
    ensures
        p.rotated(direction).x == p.x,
        p.rotated(direction).y == p.y,
{
}

/// A left turn and a right turn, in either order, leave a pose as it was, and
/// so do four turns in one direction.
pub proof fn lemma_rotations_cancel(p: Pose, direction: Rotate)
    ensures
        p.rotated(Rotate::L).rotated(Rotate::R) == p,
        p.rotated(Rotate::R).rotated(Rotate::L) == p,
        p.rotated(direction).rotated(direction).rotated(direction).rotated(direction) == p,
{
}

/// Wherever a rover stands and whichever way it faces, a move leaves it on
/// the plateau.
pub proof fn lemma_advanced_within(p: Pose, max_x: int, max_y: int)
    requires
        0 <= max_x,
        0 <= max_y,
    ensures
        p.advanced(max_x, max_y).within(max_x, max_y),
{
}

/// A move keeps the heading and changes at most one coordinate, by at most
/// one unit, when the rover starts on the plateau.
pub proof fn lemma_advanced_one_unit(p: Pose, max_x: int, max_y: int)
    requires
        p.within(max_x, max_y),
    ensures
        p.advanced(max_x, max_y).heading == p.heading,
        p.advanced(max_x, max_y).x == p.x || p.advanced(max_x, max_y).y == p.y,
        -1 <= p.advanced(max_x, max_y).x - p.x <= 1,
        -1 <= p.advanced(max_x, max_y).y - p.y <= 1,
{
}

/// A rover that starts on the plateau is on it after any instructions.
pub proof fn lemma_after_within(p: Pose, max_x: int, max_y: int, instructions: Seq<char>)
    requires
        p.within(max_x, max_y),
    ensures
        p.after(max_x, max_y, instructions).within(max_x, max_y),
    decreases instructions.len(),
{
    if instructions.len() > 0 {
        lemma_after_within(p, max_x, max_y, instructions.drop_last());
    }
}

/// Instructions given in two parts have the effect of the whole.
pub proof fn lemma_after_concat(p: Pose, max_x: int, max_y: int, a: Seq<char>, b: Seq<char>)
    ensures
        p.after(max_x, max_y, a + b) == p.after(max_x, max_y, a).after(max_x, max_y, b),
    decreases b.len(),
{
    if b.len() == 0 {
        assert(a + b =~= a);
    } else {
        assert((a + b).drop_last() =~= a + b.drop_last());
        lemma_after_concat(p, max_x, max_y, a, b.drop_last());
    }
}

/// The plateau's line is the least line of the document that holds a
/// character; a document without one has empty lines only.
pub proof fn lemma_boundary_line_least(doc: Seq<char>)
    ensures
        match boundary_line(doc) {
            Some(b) => {
                &&& has_line(doc, b)
                &&& line(doc, b).len() > 0
                &&& forall|j: nat| j < b ==> (#[trigger] line(doc, j)).len() == 0
            },
            None => forall|j: nat| has_line(doc, j) ==> (#[trigger] line(doc, j)).len() == 0,
        },
{
    lemma_first_nonempty_line(doc, 0);
}

/// In a document that begins with the plateau's line, every rover that the
/// document counts has both its lines: none fails for want of a line.
pub proof fn lemma_counted_rovers_have_lines(doc: Seq<char>, k: nat)
    requires
        boundary_line(doc) == Some(0nat),
        k < rover_count(doc),
    ensures
        has_rover_lines(doc, k),
{
    lemma_has_line_iff_newlines(doc, 2 * k + 2);
    assert(line_count(doc) <= newline_count(doc) + 1);
}

/// A document that is not empty counts at least one line, and one that is
/// empty counts none.
pub proof fn lemma_line_count_positive(doc: Seq<char>)
    ensures
        doc.len() > 0 <==> line_count(doc) > 0,
{
}

/// A rover's outcome depends on the plateau's line and on its own two lines
/// only: two documents that agree on these three lines give rover `k` the
/// same outcome, whatever their other lines say.
pub proof fn lemma_rover_outcome_own_lines(a: Seq<char>, b: Seq<char>, k: nat)
    requires
        has_rover_lines(a, k),
        has_rover_lines(b, k),
        line(a, boundary_line(a)->0) == line(b, boundary_line(b)->0),
        line(a, pose_line(a, k)) == line(b, pose_line(b, k)),
        line(a, instruction_line(a, k)) == line(b, instruction_line(b, k)),
    ensures
        rover_outcome(a, k) == rover_outcome(b, k),
{
}

/// Lines added to a document change nothing for the rovers it already held:
/// rover `k` of `doc` has the same outcome in `doc`, a newline, and `more`.
pub proof fn lemma_rover_outcome_extended(doc: Seq<char>, more: Seq<char>, k: nat)
    requires
        has_rover_lines(doc, k),
    ensures
        rover_outcome(doc + seq!['\n'] + more, k) == rover_outcome(doc, k),
{
    let b = boundary_line(doc)->0;
    lemma_first_nonempty_line(doc, 0);
    lemma_first_nonempty_line_extended(doc, more, 0);
    lemma_line_start_increasing(doc, b + 2 * k + 1, b + 2 * k + 2);
    lemma_line_extended(doc, more, b);
    lemma_line_extended(doc, more, b + 2 * k + 1);
    lemma_line_extended(doc, more, b + 2 * k + 2);
}

/// Each rover fares as it would alone: rover `k` of a document has the
/// outcome of the only rover of the document made of the plateau's line and
/// its own two lines.
pub proof fn lemma_rover_outcome_alone(doc: Seq<char>, k: nat)
    requires
        has_rover_lines(doc, k),
    ensures
        boundary_line(rover_alone(doc, k)) == Some(0nat),
        has_rover_lines(rover_alone(doc, k), 0),
        document_boundary(rover_alone(doc, k)) == document_boundary(doc),
        rover_outcome(rover_alone(doc, k), 0) == rover_outcome(doc, k),
        line(doc, instruction_line(doc, k)).len() > 0 ==> rover_count(rover_alone(doc, k)) == 1,
{
    let b = boundary_line(doc)->0;
    let plateau = line(doc, b);
    let pose = line(doc, pose_line(doc, k));
    let moves = line(doc, instruction_line(doc, k));
    let rest = pose + seq!['\n'] + moves;
    let alone = rover_alone(doc, k);
    lemma_first_nonempty_line(doc, 0);
    lemma_line_start_increasing(doc, b + 2 * k + 1, b + 2 * k + 2);
    lemma_line_without_newline(doc, b);
    lemma_line_without_newline(doc, b + 2 * k + 1);
    lemma_line_without_newline(doc, b + 2 * k + 2);
    lemma_single_line(moves);
    lemma_line_after_first(pose, moves, 0);
    lemma_line_after_first(plateau, rest, 0);
    lemma_line_after_first(plateau, rest, 1);
    assert(line(alone, 0) == plateau);
    assert(line(alone, 1) == pose);
    assert(line(alone, 2) == moves);
    assert(has_line(alone, 2));
    assert(first_nonempty_line(alone, 0) == Some(0nat));
    if moves.len() > 0 {
        lemma_line_after_first(pose, moves, 1);
        lemma_line_after_first(plateau, rest, 2);
        assert(line_start(moves, 1) == line_end(moves, 0) + 1);
        lemma_has_line_iff_newlines(alone, 2);
        lemma_has_line_iff_newlines(alone, 3);
        assert(alone.last() == moves.last());
    }
}

/// A well-formed document stays well formed when one of its rovers is taken
/// alone, and running it alone gives that one rover the outcome it has in the
/// whole document. (A rover without instructions is left out: alone, its
/// document ends in a newline and counts no rover.)
pub proof fn lemma_rover_alone_well_formed(doc: Seq<char>, k: nat)
    requires
        well_formed(doc),
        k < rover_count(doc),
        line(doc, instruction_line(doc, k)).len() > 0,
    ensures
        well_formed(rover_alone(doc, k)),
        rover_count(rover_alone(doc, k)) == 1,
        rover_outcome(rover_alone(doc, k), 0) == rover_outcome(doc, k),
{
    assert(rover_outcome(doc, k) is Some);
    lemma_rover_outcome_alone(doc, k);
    lemma_first_nonempty_line(doc, 0);
}

} // verus!
