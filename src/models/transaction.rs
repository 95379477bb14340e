use super::{Amount, ClientId, TransactionId};
use vstd::prelude::*;

verus! {

/// Whether a transaction brings money in or takes it out.
#[derive(Debug, PartialEq, Eq, Structural, Clone, Copy, Hash)]
pub enum TransactionKind {
    Deposit,
    Withdrawal,
}

/// What the ledger records of a transaction.
pub struct LedgerEntry {
    pub client: u16,
    pub id: u32,
    pub amount: int,
    pub kind: TransactionKind,
}

impl LedgerEntry {
    /// The change the transaction makes to the available balance: the amount
    /// for a deposit, its negation for a withdrawal.
    pub open spec fn signed_amount(self) -> int {
        match self.kind {
            TransactionKind::Deposit => self.amount,
            TransactionKind::Withdrawal => -self.amount,
        }
    }
}

/// A deposit or withdrawal of money for a client.
#[derive(Debug)]
pub struct Transaction {
    client_id: ClientId,
    id: TransactionId,
    amount: Amount,
    kind: TransactionKind,
}

impl Transaction {
    pub closed spec fn view(&self) -> LedgerEntry {
        LedgerEntry { client: self.client_id@, id: self.id@, amount: self.amount@, kind: self.kind }
    }

    pub closed spec fn spec_id(&self) -> TransactionId {
        self.id
    }

    pub closed spec fn spec_client_id(&self) -> ClientId {
        self.client_id
    }

    pub closed spec fn spec_amount(&self) -> Amount {
        self.amount
    }

    /// The view speaks of the parts.
    pub proof fn lemma_view(&self)
        ensures
            self@.client == self.spec_client_id()@,
            self@.id == self.spec_id()@,
            self@.amount == self.spec_amount()@,
    {
    }

    pub fn new(client_id: ClientId, id: TransactionId, amount: Amount, kind: TransactionKind) -> (r: Self)
        ensures
            r.spec_client_id() == client_id,
            r.spec_id() == id,
            r.spec_amount() == amount,
            r@ == (LedgerEntry { client: client_id@, id: id@, amount: amount@, kind }),
    {
        Transaction { client_id, id, amount, kind }
    }

    #[verifier::when_used_as_spec(spec_id)]
    pub fn id(&self) -> (r: TransactionId)
        ensures
            r == self.spec_id(),
            r@ == self@.id,
    {
        self.id
    }

    #[verifier::when_used_as_spec(spec_client_id)]
    pub fn client_id(&self) -> (r: ClientId)
        ensures
            r == self.spec_client_id(),
            r@ == self@.client,
    {
        self.client_id
    }

    pub fn kind(&self) -> (r: TransactionKind)
        ensures
            r == self@.kind,
    {
        self.kind
    }

    pub fn amount(&self) -> (r: &Amount)
        ensures
            *r == self.spec_amount(),
            r@ == self@.amount,
    {
        &self.amount
    }
}

} // verus!
