use vstd::prelude::*;

verus! {

/// Why a run was refused.
#[derive(Debug, Clone, Copy, PartialEq, Eq, Structural)]
pub enum RoverError {
    /// The document is empty.
    MissingInput,
    /// The document is malformed: a line is missing, a digit or a heading is
    /// not where one is needed, or a letter is no instruction.
    ParseError,
}

} // verus!
