use vstd::prelude::*;

verus! {

/// Why an operation was refused.  Every refusal other than
/// `ExternalCallFailed` means a precondition did not hold; in every case
/// the wallet state is left exactly as it was.
#[derive(Clone, Copy, PartialEq, Eq, Structural, Debug)]
pub enum WalletError {
    /// The caller is not entitled to the operation: administrative
    /// operations accept only the wallet's own address, transactional
    /// operations only a current owner.
    Unauthorized,
    /// The address to add, or to replace with, is already a current owner.
    OwnerAlreadyExists,
    /// The address to remove or replace is not a current owner.
    OwnerNotFound,
    /// The null address was supplied as an owner or as a destination.
    NullAddress,
    /// The resulting pair of owner count and requirement would leave the
    /// bounds 1 <= requirement <= owner count <= maximum.
    InvalidRequirement,
    /// No transaction carries the given id.
    TransactionNotFound,
    /// The caller has already confirmed this transaction.
    AlreadyConfirmed,
    /// The caller has not confirmed this transaction, or an execution
    /// outcome was reported for a transaction with no outbound call
    /// awaiting settlement.
    NotConfirmed,
    /// The transaction has already executed; it cannot run again and its
    /// confirmations are immutable history.
    AlreadyExecuted,
    /// The outbound call did not succeed.  The transaction stays
    /// unexecuted and may be retried.
    ExternalCallFailed,
}

} // verus!
