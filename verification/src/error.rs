//! The reasons for which the registry refuses a call.

use vstd::prelude::*;

verus! {

/// A standing that a call can ask of its caller.
#[derive(Clone, Copy, Debug, PartialEq, Eq, Structural)]
pub enum Privilege {
    /// The caller is the owner.
    Owner,
    /// The caller is the owner or holds the role of an authority.
    OwnerOrAuthority,
    /// The caller holds a role, whichever.
    Reporter,
}

/// One of the two kinds of record that the registry keeps.
#[derive(Clone, Copy, Debug, PartialEq, Eq, Structural)]
pub enum Record {
    /// An entry of the reporter table.
    Reporter,
    /// An entry of the address table.
    Address,
}

/// Why a call was refused. A refused call changes nothing.
#[derive(Clone, Copy, Debug, PartialEq, Eq, Structural)]
pub enum ProxyError {
    /// The caller lacks the standing that the call asks for.
    Unauthorized(Privilege),
    /// The permission level stands for no role.
    InvalidRole,
    /// The risk score is above the highest one.
    InvalidRisk,
    /// The record to create is already there.
    AlreadyExists(Record),
    /// The record to read or update is not there.
    NotFound(Record),
    /// The registry to initialize is already in use.
    AlreadyInitialized,
}

impl ProxyError {
    /// The text of [`ProxyError::message`].
    pub open spec fn spec_message(self) -> Seq<char> {
        match self {
            ProxyError::Unauthorized(Privilege::Owner) => "HapiProxy: Only the owner may call this method"@,
            ProxyError::Unauthorized(Privilege::OwnerOrAuthority) => "HapiProxy: Only the owner or authority may call this method"@,
            ProxyError::Unauthorized(Privilege::Reporter) => "HapiProxy: You must be a reporter to perform this action"@,
            ProxyError::InvalidRole => "HapiProxy: Invalid permission level"@,
            ProxyError::InvalidRisk => "HapiProxy: Invalid risk"@,
            ProxyError::AlreadyExists(Record::Reporter) => "HapiProxy: Reporter already exist"@,
            ProxyError::AlreadyExists(Record::Address) => "HapiProxy: Address already exist"@,
            ProxyError::NotFound(Record::Reporter) => "HapiProxy: This account is not a reporter"@,
            ProxyError::NotFound(Record::Address) => "HapiProxy: Address does not exist"@,
            ProxyError::AlreadyInitialized => "HapiProxy: The registry is already initialized"@,
        }
    }

    /// The message with which a refused call is rejected.
    pub fn message(&self) -> (text: String)
        ensures
            text@ == self.spec_message(),
    {
        let text: &str = match self {
            ProxyError::Unauthorized(Privilege::Owner) => "HapiProxy: Only the owner may call this method",
            ProxyError::Unauthorized(Privilege::OwnerOrAuthority) => "HapiProxy: Only the owner or authority may call this method",
            ProxyError::Unauthorized(Privilege::Reporter) => "HapiProxy: You must be a reporter to perform this action",
            ProxyError::InvalidRole => "HapiProxy: Invalid permission level",
            ProxyError::InvalidRisk => "HapiProxy: Invalid risk",
            ProxyError::AlreadyExists(Record::Reporter) => "HapiProxy: Reporter already exist",
            ProxyError::AlreadyExists(Record::Address) => "HapiProxy: Address already exist",
            ProxyError::NotFound(Record::Reporter) => "HapiProxy: This account is not a reporter",
            ProxyError::NotFound(Record::Address) => "HapiProxy: Address does not exist",
            ProxyError::AlreadyInitialized => "HapiProxy: The registry is already initialized",
        };
        text.to_owned()
    }
}

} // verus!
