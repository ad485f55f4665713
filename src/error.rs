use vstd::prelude::*;

verus! {

/// Why an operation of the library failed.
#[derive(Clone, Copy, Debug, PartialEq, Eq, Structural)]
pub enum PuzzleError {
    /// A clue line was read or written at an index past the table's size.
    OutOfBounds,
    /// A puzzle file does not follow the puzzle grammar.
    Format,
}

impl PuzzleError {
    /// A sentence that describes the failure.
    pub fn message(&self) -> (s: &'static str) {
        match self {
            PuzzleError::OutOfBounds => "Index out of bounds for constraints",
            PuzzleError::Format => "Puzzle file has improper format",
        }
    }
}

} // verus!
