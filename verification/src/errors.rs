use vstd::prelude::*;

verus! {

/// Why an operation was rejected. Every failure is an ordinary rejected
/// operation: it is returned before any mutation, never after a partial one.
#[derive(Clone, Copy, Debug, PartialEq, Eq, Structural)]
pub enum Error {
    /// Create attempted on a content identity that is already owned.
    StudentExist,
    /// Delete or transfer attempted on a content identity with no current owner.
    StudentNotExist,
    /// Delete or transfer attempted by an identity other than the current owner.
    NotStudentOwner,
    /// Transfer attempted with the recipient equal to the current owner.
    TransferToSelf,
}

} // verus!
