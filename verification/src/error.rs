//! The errors that an operation of the contract reports to its caller.

use vstd::prelude::*;

verus! {

/// Why an operation was refused. A refused operation changes nothing.
#[derive(Clone, Copy, Debug, PartialEq, Eq, Structural)]
pub enum GenericError {
    ProfileNotFound,
    ProfileAlreadyExists,
    GroupNotFound,
    GroupNotAdded,
    AlreadyMember,
    NotMember,
    UserAlreadyInGroup,
}

impl GenericError {
    /// The text that describes the error to a caller.
    pub open spec fn message(self) -> Seq<char> {
        match self {
            GenericError::ProfileNotFound => "Profile not found"@,
            GenericError::ProfileAlreadyExists => "Profile already exists"@,
            GenericError::GroupNotFound => "Group not found"@,
            GenericError::AlreadyMember => "Already a member of this group"@,
            GenericError::NotMember => "Not a member of this group"@,
            GenericError::UserAlreadyInGroup => "User already in group"@,
            GenericError::GroupNotAdded => "Group not added"@,
        }
    }

    /// The text that describes the error to a caller.
    pub fn as_ref(&self) -> (text: &'static str)
        ensures
            text@ == self.message(),
    {
        match self {
            GenericError::ProfileNotFound => "Profile not found",
            GenericError::ProfileAlreadyExists => "Profile already exists",
            GenericError::GroupNotFound => "Group not found",
            GenericError::AlreadyMember => "Already a member of this group",
            GenericError::NotMember => "Not a member of this group",
            GenericError::UserAlreadyInGroup => "User already in group",
            GenericError::GroupNotAdded => "Group not added",
        }
    }
}

} // verus!
