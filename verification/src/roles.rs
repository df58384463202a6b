//! Reporter roles and the permission levels that stand for them.

use vstd::prelude::*;

verus! {

/// What a reporter is allowed to do.
#[derive(Clone, Copy, Debug, PartialEq, Eq, Structural)]
pub enum Roles {
    /// May create and update address records.
    Reporter,
    /// May also create and update other reporters.
    Authority,
}

impl Roles {
    /// The permission level that stands for this role: 1 for a reporter, 2 for
    /// an authority.
    pub open spec fn spec_level(self) -> u8 {
        match self {
            Roles::Reporter => 1,
            Roles::Authority => 2,
        }
    }

    /// The role that a permission level stands for, if it stands for one.
    pub open spec fn spec_from_level(level: u8) -> Option<Roles> {
        if level == 1 {
            Some(Roles::Reporter)
        } else if level == 2 {
            Some(Roles::Authority)
        } else {
            None
        }
    }

    /// The permission level that stands for this role.
    #[verifier::when_used_as_spec(spec_level)]
    pub fn level(self) -> (level: u8)
        ensures
            level == self.spec_level(),
            Roles::spec_from_level(level) == Some(self),
    {
        match self {
            Roles::Reporter => 1,
            Roles::Authority => 2,
        }
    }

    /// Reads a permission level: `Some` role for 1 and 2, `None` for every
    /// other number.
    pub fn from_level(level: u8) -> (role: Option<Roles>)
        ensures
            role == Roles::spec_from_level(level),
            role is Some <==> level == 1 || level == 2,
            role matches Some(r) ==> r.spec_level() == level,
    {
        if level == 1 {
            Some(Roles::Reporter)
        } else if level == 2 {
            Some(Roles::Authority)
        } else {
            None
        }
    }
}

} // verus!
