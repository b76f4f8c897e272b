//! Error kinds of the position lifecycle.
use vstd::prelude::*;

verus! {

/// Why an operation was refused. A refused operation changes nothing.
#[derive(Clone, Copy, Debug, PartialEq, Eq, Structural)]
pub enum PositionError {
    /// A required signer is missing or is not the expected identity.
    AuthorizationFailure,
    /// An account is not at the address derived for it.
    AddressMismatch,
    /// A size floor, a direction, a nonce, an owner or a state check failed.
    InvalidArgument,
    /// A balance or a size would not fit in a `u64`.
    ArithmeticOverflow,
    /// The record is already marked for settlement.
    AlreadyClosed,
    /// The account is not held by this program.
    RecordOwnershipMismatch,
    /// A transfer exceeds what the source may give up.
    InsufficientFunds,
    /// The record's bytes do not hold a record.
    CorruptedRecord,
    /// An instruction names no known operation.
    UnknownOperation,
    /// An instruction's payload is malformed.
    InvalidInstructionData,
}

} // verus!
