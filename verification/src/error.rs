use vstd::prelude::*;

verus! {

/// Why an operation on the record store was refused. A refused operation
/// changes nothing.
#[derive(Clone, Copy, Debug, PartialEq, Eq, Structural)]
pub enum ErrorCode {
    /// The caller is not the relayer that the record names.
    Unauthorized,
    /// The action carries no value in a field that its kind needs.
    InvalidActionData,
    /// A record already resides at the owner's address.
    AlreadyExists,
    /// The address operated on is not the one that the record's owner derives.
    AddressMismatch,
    /// The record would outgrow the storage reserved for it.
    StorageFull,
}

impl ErrorCode {
    /// The number under which the host reports this error: 6000 for the
    /// first, and one more for each that follows.
    pub open spec fn code_spec(&self) -> u32 {
        match self {
            ErrorCode::Unauthorized => 6000,
            ErrorCode::InvalidActionData => 6001,
            ErrorCode::AlreadyExists => 6002,
            ErrorCode::AddressMismatch => 6003,
            ErrorCode::StorageFull => 6004,
        }
    }

    /// The number under which the host reports this error.
    pub fn code(&self) -> (r: u32)
        ensures
            r == self.code_spec(),
    {
        match self {
            ErrorCode::Unauthorized => 6000,
            ErrorCode::InvalidActionData => 6001,
            ErrorCode::AlreadyExists => 6002,
            ErrorCode::AddressMismatch => 6003,
            ErrorCode::StorageFull => 6004,
        }
    }

    /// The message shown for this error.
    pub fn message(&self) -> (r: &'static str)
        ensures
            r@ == self.message_spec(),
    {
        match self {
            ErrorCode::Unauthorized => "Unauthorized: Signer does not match the relayer of the user metadata.",
            ErrorCode::InvalidActionData => "Invalid action data provided for the LPv2 action.",
            ErrorCode::AlreadyExists => "User metadata already exists for this authority.",
            ErrorCode::AddressMismatch => "The account is not the user metadata address of its authority.",
            ErrorCode::StorageFull => "The data pointers exceed the space reserved for the user metadata.",
        }
    }

    /// The text of the message of each error.
    pub open spec fn message_spec(&self) -> Seq<char> {
        match self {
            ErrorCode::Unauthorized => "Unauthorized: Signer does not match the relayer of the user metadata."@,
            ErrorCode::InvalidActionData => "Invalid action data provided for the LPv2 action."@,
            ErrorCode::AlreadyExists => "User metadata already exists for this authority."@,
            ErrorCode::AddressMismatch => "The account is not the user metadata address of its authority."@,
            ErrorCode::StorageFull => "The data pointers exceed the space reserved for the user metadata."@,
        }
    }
}

} // verus!
