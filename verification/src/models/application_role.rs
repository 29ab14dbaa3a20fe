//! The role of an account, in the application and inside a group.

use vstd::prelude::*;

verus! {

/// Owner or plain member. A new profile starts as a member.
#[derive(Clone, Copy, Debug, PartialEq, Eq, Structural)]
pub enum ApplicationRole {
    Owner,
    Member,
}

impl View for ApplicationRole {
    type V = ApplicationRole;

    open spec fn view(&self) -> ApplicationRole {
        *self
    }
}

impl Default for ApplicationRole {
    fn default() -> (role: Self)
        ensures
            role == ApplicationRole::Member,
    {
        ApplicationRole::Member
    }
}

impl ApplicationRole {
    /// The role's name as it is shown.
    pub open spec fn label(self) -> Seq<char> {
        match self {
            ApplicationRole::Owner => "Owner"@,
            ApplicationRole::Member => "Member"@,
        }
    }

    /// The role's name as it is shown.
    pub fn as_str(&self) -> (text: &'static str)
        ensures
            text@ == self.label(),
    {
        match self {
            ApplicationRole::Owner => "Owner",
            ApplicationRole::Member => "Member",
        }
    }

    /// The role's name as an owned string.
    pub fn to_string(&self) -> (text: String)
        ensures
            text@ == self.label(),
    {
        self.as_str().to_owned()
    }
}

} // verus!
