use crate::models::{ClientId, TransactionId};
use vstd::prelude::*;

verus! {

/// Why an operation was refused.
#[derive(Debug, PartialEq, Eq, Structural, Clone, Copy, Hash)]
pub enum TransactionError {
    /// The client's account is locked.
    AccountLocked { client_id: ClientId },
    /// The transaction would leave the available balance below zero.
    InsufficientFunds { cause_id: TransactionId },
    /// A dispute, resolve or chargeback names a transaction the client does not have.
    TransactionDoesNotExist { ref_id: TransactionId },
    /// The transaction's id has been used before.
    DuplicateTransaction { cause_id: TransactionId },
    /// The transaction is already under dispute.
    TransactionAlreadyDisputed { ref_id: TransactionId },
    /// A resolve or chargeback names a transaction that is not under dispute.
    TransactionNotDisputed { ref_id: TransactionId },
    /// The referenced transaction belongs to another client.
    CrossClientTransaction,
}

} // verus!
