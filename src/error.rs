use vstd::prelude::*;

verus! {

/// Why a transition was refused. A refused transition leaves every record
/// as it was.
#[derive(Debug, Clone, Copy, PartialEq, Eq, Structural)]
pub enum CounterError {
    /// The target address already holds a record.
    AllocationConflict,
    /// The caller produced no valid authorization proof.
    UnauthorizedSigner,
    /// The payer cannot cover the cost of allocating the record.
    InsufficientFunds,
    /// No record exists at the target address.
    RecordNotFound,
    /// The caller is not the record's stored authority.
    AuthorityMismatch,
    /// The counter already holds the largest value it can represent.
    CounterOverflow,
}

} // verus!
