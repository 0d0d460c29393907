//! Phases of a flashing operation.

use vstd::prelude::*;

verus! {

/// The phase a flashing operation is in.
#[derive(Clone, Copy, Debug, PartialEq, Eq, Structural)]
pub enum FlashingPhase {
    Writing,
    Verifying,
    Complete,
}

/// The display text of a phase.
pub open spec fn phase_label(p: FlashingPhase) -> Seq<char> {
    match p {
        FlashingPhase::Writing => "Writing Image"@,
        FlashingPhase::Verifying => "Verifying Integrity"@,
        FlashingPhase::Complete => "Complete"@,
    }
}

impl FlashingPhase {
    /// The display text of this phase.
    pub fn label(&self) -> (s: &'static str)
        ensures
            s@ == phase_label(*self),
    {
        match self {
            FlashingPhase::Writing => "Writing Image",
            FlashingPhase::Verifying => "Verifying Integrity",
            FlashingPhase::Complete => "Complete",
        }
    }
}

} // verus!
