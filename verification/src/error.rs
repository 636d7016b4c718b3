//! The failures that the store reports.

use vstd::prelude::*;

verus! {

/// Why an operation on the store failed. A failed operation leaves the store
/// as it was.
#[derive(Clone, Copy, Debug, PartialEq, Eq, Structural)]
pub enum StoreError {
    /// The address is already a member of the committee.
    DuplicateValidator,
    /// The stakes of the committee add up to more than 64 bits hold.
    StakeOverflow,
}

impl StoreError {
    /// A sentence for the log.
    pub fn message(&self) -> (text: &'static str)
        ensures
            text@ == (match *self {
                StoreError::DuplicateValidator => "Validator already in committee"@,
                StoreError::StakeOverflow => "Failed to calculate total stake - overflow detected"@,
            }),
    {
        match self {
            StoreError::DuplicateValidator => "Validator already in committee",
            StoreError::StakeOverflow => "Failed to calculate total stake - overflow detected",
        }
    }
}

} // verus!
