//! What can go wrong.
use vstd::prelude::*;

verus! {

/// Why a diarizer or a diarization could not be had.
#[derive(Debug, Clone, Copy, PartialEq, Eq, Structural)]
pub enum DiarizeError {
    /// The engine did not accept its configuration.
    InitializationFailed,
    /// The engine found no segments, or gave no list of them.
    NoSegments,
}

impl DiarizeError {
    /// The error in words.
    pub open spec fn text(self) -> Seq<char> {
        match self {
            DiarizeError::InitializationFailed =>
                "Failed to initialize offline speaker diarization"@,
            DiarizeError::NoSegments => "No segments found or invalid pointer."@,
        }
    }

    /// The error in words, for a report to the user.
    pub fn message(&self) -> (r: &'static str)
        ensures
            r@ == self.text(),
            *self == DiarizeError::InitializationFailed ==> r@
                == "Failed to initialize offline speaker diarization"@,
            *self == DiarizeError::NoSegments ==> r@ == "No segments found or invalid pointer."@,
    {
        match self {
            DiarizeError::InitializationFailed => "Failed to initialize offline speaker diarization",
            DiarizeError::NoSegments => "No segments found or invalid pointer.",
        }
    }
}

} // verus!
