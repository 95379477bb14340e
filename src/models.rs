//! Value types that the ledger works on.
pub mod accounting_operation;
pub mod amount;
pub mod client_id;
pub mod transaction;
pub mod transaction_id;

pub use accounting_operation::AccountingOperation;
pub use amount::{Amount, InvalidNumericalStringError};
pub use client_id::ClientId;
pub use transaction::{Transaction, TransactionKind};
pub use transaction_id::TransactionId;
