use super::{ClientId, Transaction, TransactionId};
use vstd::prelude::*;

verus! {

/// One operation of the input stream.
#[derive(Debug)]
pub enum AccountingOperation {
    Transaction { transaction: Transaction },
    Dispute { client_id: ClientId, ref_id: TransactionId },
    Resolve { client_id: ClientId, ref_id: TransactionId },
    Chargeback { client_id: ClientId, ref_id: TransactionId },
}

impl AccountingOperation {
    /// The client an operation is for.
    pub open spec fn spec_client_id(&self) -> ClientId {
        match self {
            AccountingOperation::Transaction { transaction } => transaction.client_id(),
            AccountingOperation::Dispute { client_id, .. } => *client_id,
            AccountingOperation::Resolve { client_id, .. } => *client_id,
            AccountingOperation::Chargeback { client_id, .. } => *client_id,
        }
    }

    #[verifier::when_used_as_spec(spec_client_id)]
    pub fn client_id(&self) -> (r: ClientId)
        ensures
            r == self.spec_client_id(),
    {
        match self {
            AccountingOperation::Transaction { transaction } => transaction.client_id(),
            AccountingOperation::Dispute { client_id, .. } => *client_id,
            AccountingOperation::Resolve { client_id, .. } => *client_id,
            AccountingOperation::Chargeback { client_id, .. } => *client_id,
        }
    }
}

} // verus!
