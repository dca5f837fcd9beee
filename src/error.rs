use vstd::prelude::*;

verus! {

/// Why a call was refused. A refused call leaves the contract's state as it was.
#[derive(Clone, Copy, Debug, PartialEq, Eq, Structural)]
pub enum LinkDropError {
    /// The caller is not who the call must come from.
    Unauthorized,
    /// No deposit or envelope is held under the presented key.
    UnknownCredential,
    /// No envelope is held under the given key.
    NotFound,
    /// The envelope was not issued by the caller.
    NotOwner,
    /// The key already guards a deposit or an envelope.
    AlreadyExists,
    /// The account already holds a claim on this envelope.
    AlreadyClaimed,
    /// The envelope has paid out to as many claimants as it was made for.
    Exhausted,
    /// The attached deposit does not exceed the access-key fee.
    InsufficientDeposit,
    /// A balance would exceed the largest amount that can be held.
    AmountOverflow,
    /// A refund after a failed account creation could not be booked.
    CompensationFailed,
    /// The account id handed in is not a valid account id of the ledger.
    InvalidAccountIdentifier,
    /// The host reported a callback outcome in a shape the contract does not expect.
    InternalInvariantViolation,
}

} // verus!
