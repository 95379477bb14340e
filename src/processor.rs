//! The ledger's state and the state machine that applies operations to it.
pub mod accounting_system;
pub mod client_account;
pub mod errors;
pub mod model;

pub use accounting_system::AccountingSystem;
pub use client_account::{ClientAccount, ClientAccountState};
pub use errors::TransactionError;
pub mod laws;
