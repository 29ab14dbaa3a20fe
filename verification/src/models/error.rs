//! What the validation of a membership change can find.

use crate::error::GenericError;
use vstd::prelude::*;

verus! {

/// Why a join or a leave was refused before anything was written.
#[derive(Clone, Copy, Debug, PartialEq, Eq, Structural)]
pub enum Error {
    ProfileNotFound,
    GroupNotFound,
    AlreadyMember,
    NotMember,
    UserAlreadyInGroup,
}

impl Error {
    /// The text that describes the error to a caller.
    pub open spec fn message(self) -> Seq<char> {
        match self {
            Error::ProfileNotFound => "Profile not found"@,
            Error::GroupNotFound => "Group not found"@,
            Error::AlreadyMember => "Already a member of this group"@,
            Error::NotMember => "Not a member of this group"@,
            Error::UserAlreadyInGroup => "User already in group"@,
        }
    }

    /// The error of the contract that stands for this finding.
    pub open spec fn generic(self) -> GenericError {
        match self {
            Error::ProfileNotFound => GenericError::ProfileNotFound,
            Error::GroupNotFound => GenericError::GroupNotFound,
            Error::AlreadyMember => GenericError::AlreadyMember,
            Error::NotMember => GenericError::NotMember,
            Error::UserAlreadyInGroup => GenericError::UserAlreadyInGroup,
        }
    }

    /// The text that describes the error to a caller.
    pub fn as_ref(&self) -> (text: &'static str)
        ensures
            text@ == self.message(),
            text@ == self.generic().message(),
    {
        match self {
            Error::ProfileNotFound => "Profile not found",
            Error::GroupNotFound => "Group not found",
            Error::AlreadyMember => "Already a member of this group",
            Error::NotMember => "Not a member of this group",
            Error::UserAlreadyInGroup => "User already in group",
        }
    }

    /// The error of the contract that stands for this finding.
    pub fn to_generic(&self) -> (error: GenericError)
        ensures
            error == self.generic(),
    {
        match self {
            Error::ProfileNotFound => GenericError::ProfileNotFound,
            Error::GroupNotFound => GenericError::GroupNotFound,
            Error::AlreadyMember => GenericError::AlreadyMember,
            Error::NotMember => GenericError::NotMember,
            Error::UserAlreadyInGroup => GenericError::UserAlreadyInGroup,
        }
    }
}

impl From<Error> for GenericError {
    fn from(error: Error) -> (generic: GenericError) {
        error.to_generic()
    }
}

impl vstd::std_specs::convert::FromSpecImpl<Error> for GenericError {
    open spec fn obeys_from_spec() -> bool {
        true
    }

    open spec fn from_spec(error: Error) -> GenericError {
        error.generic()
    }
}

} // verus!
