//! The ledger as mathematical values, and the effect of each operation on it.
use super::errors::TransactionError;
use crate::models::amount::in_amount_range;
use crate::models::transaction::LedgerEntry;
use crate::models::{AccountingOperation, ClientId, TransactionId};
use vstd::prelude::*;

verus! {

/// One client's ledger: balances in ten-thousandths, whether it is locked,
/// the transactions taken, by number, and the numbers under dispute.
pub struct AccountModel {
    pub client: u16,
    pub available: int,
    pub held: int,
    pub locked: bool,
    pub txs: Map<u32, LedgerEntry>,
    pub disputed: Set<u32>,
}

/// The whole ledger: an account per client that has been named, and every
/// transaction number taken so far.
pub struct SystemModel {
    pub accounts: Map<u16, AccountModel>,
    pub seen: Set<u32>,
}

impl AccountModel {
    /// A new account: unlocked, nothing in it.
    pub open spec fn fresh(client: u16) -> AccountModel {
        AccountModel {
            client,
            available: 0,
            held: 0,
            locked: false,
            txs: Map::empty(),
            disputed: Set::empty(),
        }
    }

    /// The total balance, available and held together.
    pub open spec fn total(self) -> int {
        self.available + self.held
    }

    /// The account's own consistency: every disputed number is one of its
    /// transactions, and each transaction is the client's own, filed under
    /// its number.
    pub open spec fn wf(self) -> bool {
        &&& self.disputed.subset_of(self.txs.dom())
        &&& forall|id: u32| #[trigger]
            self.txs.contains_key(id) ==> self.txs[id].client == self.client && self.txs[id].id
                == id
    }

    /// Why a dispute, resolve or chargeback of `ref_id` by `client_id` cannot
    /// find its transaction, if it cannot.
    pub open spec fn lookup_error(self, client_id: ClientId, ref_id: TransactionId) -> Option<
        TransactionError,
    > {
        if !self.txs.contains_key(ref_id@) {
            Some(TransactionError::TransactionDoesNotExist { ref_id })
        } else if self.txs[ref_id@].client != client_id@ {
            Some(TransactionError::CrossClientTransaction)
        } else {
            None
        }
    }

    /// The account and the set of taken numbers after `op`, which is for this
    /// account's client, and the outcome.
    pub open spec fn step(self, seen: Set<u32>, op: AccountingOperation) -> (
        AccountModel,
        Set<u32>,
        Result<(), TransactionError>,
    ) {
        if self.locked {
            (self, seen, Err(TransactionError::AccountLocked { client_id: op.client_id() }))
        } else {
            match op {
                AccountingOperation::Transaction { transaction } => {
                    let t = transaction@;
                    let candidate = self.available + t.signed_amount();
                    if candidate < 0 {
                        (
                            self,
                            seen,
                            Err(TransactionError::InsufficientFunds { cause_id: transaction.id() }),
                        )
                    } else if seen.contains(t.id) {
                        (
                            self,
                            seen,
                            Err(TransactionError::DuplicateTransaction { cause_id: transaction.id() }),
                        )
                    } else {
                        (
                            AccountModel {
                                available: candidate,
                                txs: self.txs.insert(t.id, t),
                                ..self
                            },
                            seen.insert(t.id),
                            Ok(()),
                        )
                    }
                },
                AccountingOperation::Dispute { client_id, ref_id } => {
                    match self.lookup_error(client_id, ref_id) {
                        Some(e) => (self, seen, Err(e)),
                        None => if self.disputed.contains(ref_id@) {
                            (
                                self,
                                seen,
                                Err(TransactionError::TransactionAlreadyDisputed { ref_id }),
                            )
                        } else {
                            let delta = self.txs[ref_id@].signed_amount();
                            (
                                AccountModel {
                                    available: self.available - delta,
                                    held: self.held + delta,
                                    disputed: self.disputed.insert(ref_id@),
                                    ..self
                                },
                                seen,
                                Ok(()),
                            )
                        },
                    }
                },
                AccountingOperation::Resolve { client_id, ref_id } => {
                    match self.lookup_error(client_id, ref_id) {
                        Some(e) => (self, seen, Err(e)),
                        None => if !self.disputed.contains(ref_id@) {
                            (self, seen, Err(TransactionError::TransactionNotDisputed { ref_id }))
                        } else {
                            let delta = self.txs[ref_id@].signed_amount();
                            (
                                AccountModel {
                                    available: self.available + delta,
                                    held: self.held - delta,
                                    disputed: self.disputed.remove(ref_id@),
                                    ..self
                                },
                                seen,
                                Ok(()),
                            )
                        },
                    }
                },
                AccountingOperation::Chargeback { client_id, ref_id } => {
                    match self.lookup_error(client_id, ref_id) {
                        Some(e) => (self, seen, Err(e)),
                        None => if !self.disputed.contains(ref_id@) {
                            (self, seen, Err(TransactionError::TransactionNotDisputed { ref_id }))
                        } else {
                            let delta = self.txs[ref_id@].signed_amount();
                            (
                                AccountModel {
                                    held: self.held - delta,
                                    locked: true,
                                    disputed: self.disputed.remove(ref_id@),
                                    ..self
                                },
                                seen,
                                Ok(()),
                            )
                        },
                    }
                },
            }
        }
    }
}

impl SystemModel {
    /// A ledger with no accounts.
    pub open spec fn empty() -> SystemModel {
        SystemModel { accounts: Map::empty(), seen: Set::empty() }
    }

    /// The account of `client`: the registered one, or a fresh one.
    pub open spec fn account(self, client: u16) -> AccountModel {
        if self.accounts.contains_key(client) {
            self.accounts[client]
        } else {
            AccountModel::fresh(client)
        }
    }

    /// Each account is filed under its client and is consistent, and a
    /// number is taken exactly when some account holds its transaction.
    pub open spec fn wf(self) -> bool {
        &&& forall|c: u16| #[trigger]
            self.accounts.contains_key(c) ==> self.accounts[c].client == c
                && self.accounts[c].wf()
        &&& forall|id: u32| #[trigger]
            self.seen.contains(id) <==> exists|c: u16| #[trigger]
                self.accounts.contains_key(c) && self.accounts[c].txs.contains_key(id)
    }

    /// The ledger after `op`, and its outcome. The account of the operation's
    /// client is registered whatever the outcome.
    pub open spec fn step(self, op: AccountingOperation) -> (SystemModel, Result<(), TransactionError>) {
        let c = op.client_id()@;
        let (a, seen, r) = self.account(c).step(self.seen, op);
        (SystemModel { accounts: self.accounts.insert(c, a), seen }, r)
    }

    /// The balances that `op` leaves can be held as amounts.
    pub open spec fn within_limits(self, op: AccountingOperation) -> bool {
        let a = self.step(op).0.accounts[op.client_id()@];
        in_amount_range(a.available) && in_amount_range(a.held)
    }
}

} // verus!

verus! {

/// An operation keeps its account consistent.
proof fn lemma_account_step_wf(a: AccountModel, seen: Set<u32>, op: AccountingOperation)
    requires
        a.wf(),
        a.client == op.client_id()@,
    ensures
        a.step(seen, op).0.wf(),
        a.step(seen, op).0.client == a.client,
        a.step(seen, op).0.txs.dom().subset_of(a.txs.dom().union(a.step(seen, op).1)),
        a.txs.dom().subset_of(a.step(seen, op).0.txs.dom()),
        seen.subset_of(a.step(seen, op).1),
        a.step(seen, op).1.subset_of(seen.union(a.step(seen, op).0.txs.dom())),
{
    match op {
        AccountingOperation::Transaction { transaction } => {
            transaction.lemma_view();
        },
        _ => {},
    }
}

/// Every operation keeps the ledger consistent: accounts stay filed under
/// their clients, disputes name the account's own transactions, and a number
/// is taken exactly when an account holds its transaction.
pub proof fn lemma_step_preserves_wf(s: SystemModel, op: AccountingOperation)
    requires
        s.wf(),
    ensures
        s.step(op).0.wf(),
{
    let c = op.client_id()@;
    let a = s.account(c);
    let (a2, seen2, r) = a.step(s.seen, op);
    let s2 = s.step(op).0;
    assert(a.wf());
    assert(s2.accounts[c] == a2);
    lemma_account_step_wf(a, s.seen, op);
    assert forall|id: u32| s2.seen.contains(id) implies exists|k: u16| #[trigger]
        s2.accounts.contains_key(k) && s2.accounts[k].txs.contains_key(id) by {
        if s.seen.contains(id) {
            let k = choose|k: u16| #[trigger]
                s.accounts.contains_key(k) && s.accounts[k].txs.contains_key(id);
            if k == c {
                assert(a.txs.contains_key(id));
                assert(s2.accounts.contains_key(c) && s2.accounts[c].txs.contains_key(id));
            } else {
                assert(s2.accounts[k] == s.accounts[k]);
                assert(s2.accounts.contains_key(k) && s2.accounts[k].txs.contains_key(id));
            }
        } else {
            assert(a2.txs.contains_key(id));
            assert(s2.accounts.contains_key(c) && s2.accounts[c].txs.contains_key(id));
        }
    }
    assert forall|id: u32|
        (exists|k: u16| #[trigger]
            s2.accounts.contains_key(k) && s2.accounts[k].txs.contains_key(id)) implies s2.seen.contains(
        id,
    ) by {
        let k = choose|k: u16| #[trigger]
            s2.accounts.contains_key(k) && s2.accounts[k].txs.contains_key(id);
        if k == c {
            if a.txs.contains_key(id) {
                if s.accounts.contains_key(c) {
                    assert(s.accounts.contains_key(c) && s.accounts[c].txs.contains_key(id));
                    assert(s.seen.contains(id));
                }
            }
        } else {
            assert(s.accounts.contains_key(k) && s.accounts[k].txs.contains_key(id));
            assert(s.seen.contains(id));
        }
    }
    assert forall|k: u16| #[trigger] s2.accounts.contains_key(k) implies s2.accounts[k].client == k
        && s2.accounts[k].wf() by {
        if k != c {
            assert(s.accounts.contains_key(k));
        }
    }
}

} // verus!
