//! The failures that end a session.

use vstd::prelude::*;

verus! {

/// A failure that no retry mends: the mine concentration does not suit the
/// board, or the machine gave no random seed.
#[derive(Clone, Copy, Debug, PartialEq, Eq, Structural)]
pub enum Fatal {
    /// No place of the search area has a clear neighbourhood.
    CannotFindStart,
    /// A flood of clear cells reached the depth ceiling.
    TooManyClearCells,
    /// The operating system gave no entropy for a seed.
    NoEntropy,
}

impl Fatal {
    /// What to tell the player.
    pub fn message(&self) -> (text: &'static str)
        ensures
            text@ == (match *self {
                Fatal::CannotFindStart => "cannot find valid start; mine concentration is too high"@,
                Fatal::TooManyClearCells => "too many adjacent clear cells; mine concentration is too low"@,
                Fatal::NoEntropy => "cannot draw a random seed"@,
            }),
    {
        match self {
            Fatal::CannotFindStart => "cannot find valid start; mine concentration is too high",
            Fatal::TooManyClearCells => "too many adjacent clear cells; mine concentration is too low",
            Fatal::NoEntropy => "cannot draw a random seed",
        }
    }
}

} // verus!
