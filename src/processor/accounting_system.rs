use std::collections::{HashMap, HashSet};

use super::client_account::{ClientAccount, ClientAccountState};
use super::errors::TransactionError;
use super::model::{lemma_step_preserves_wf, SystemModel};
use crate::models::amount::in_amount_range;
use crate::models::{AccountingOperation, Amount, Transaction, TransactionKind};
use vstd::prelude::*;

verus! {

broadcast use vstd::std_specs::hash::group_hash_axioms;

/// Every client's account, and every transaction number taken.
#[derive(Debug)]
pub struct AccountingSystem {
    client_accounts: HashMap<u16, ClientAccount>,
    seen_transactions: HashSet<u32>,
    /// The registered clients, each once, in the order they were first named.
    client_order: Vec<u16>,
}

impl AccountingSystem {
    pub closed spec fn view(&self) -> SystemModel {
        SystemModel {
            accounts: self.client_accounts@.map_values(|a: ClientAccount| a@),
            seen: self.seen_transactions@,
        }
    }

    /// The ledger is consistent and every registered client is listed once.
    pub closed spec fn wf(&self) -> bool {
        &&& self@.wf()
        &&& self.client_order@.no_duplicates()
        &&& forall|c: u16|
            self.client_accounts@.contains_key(c) <==> #[trigger] self.client_order@.contains(c)
    }

    /// A ledger with no accounts.
    pub fn new() -> (r: Self)
        ensures
            r.wf(),
            r@ == SystemModel::empty(),
    {
        let r = AccountingSystem {
            client_accounts: HashMap::new(),
            seen_transactions: HashSet::new(),
            client_order: Vec::new(),
        };
        assert(r@.accounts =~= Map::empty());
        r
    }

    /// Applies one operation. The account of the operation's client is
    /// registered first, whatever the outcome; a refused operation changes
    /// nothing else.
    pub fn run_operation(&mut self, operation: AccountingOperation) -> (r: Result<(), TransactionError>)
        requires
            old(self).wf(),
            old(self)@.within_limits(operation),
        ensures
            final(self).wf(),
            (final(self)@, r) == old(self)@.step(operation),
    {
        let ghost s0 = self@;
        let ghost order0 = self.client_order@;
        let client_id = operation.client_id();
        let cid = client_id.as_u16();
        let mut account = match self.client_accounts.remove(&cid) {
            Some(a) => a,
            None => {
                self.client_order.push(cid);
                ClientAccount::new(client_id)
            },
        };
        assert(account@ == s0.account(cid));
        let r = apply_operation(&mut account, &mut self.seen_transactions, operation);
        self.client_accounts.insert(cid, account);
        proof {
            let (a2, seen2, r2) = s0.account(cid).step(s0.seen, operation);
            assert(self@.accounts =~= s0.accounts.insert(cid, a2));
            lemma_step_preserves_wf(s0, operation);
            if order0.contains(cid) {
                assert(self.client_order@ == order0);
            } else {
                assert(self.client_order@ == order0.push(cid));
                assert(self.client_order@.no_duplicates());
            }
            assert forall|c: u16|
                self.client_accounts@.contains_key(c) <==> #[trigger] self.client_order@.contains(
                    c,
                ) by {
                if c != cid {
                    assert(self.client_accounts@.contains_key(c) == old(
                        self,
                    ).client_accounts@.contains_key(c));
                    if self.client_order@.contains(c) {
                        let k = choose|k: int|
                            0 <= k < self.client_order@.len() && self.client_order@[k] == c;
                        assert(k < order0.len());
                        assert(order0[k] == c);
                        assert(order0.contains(c));
                    }
                    if old(self).client_accounts@.contains_key(c) {
                        assert(order0.contains(c));
                        let k = choose|k: int| 0 <= k < order0.len() && order0[k] == c;
                        assert(self.client_order@[k] == c);
                    }
                } else {
                    assert(self.client_order@.contains(cid)) by {
                        if !order0.contains(cid) {
                            assert(self.client_order@[order0.len() as int] == cid);
                        }
                    }
                }
            }
        }
        r
    }

    /// Whether the balances that `operation` leaves can be held as amounts,
    /// which `run_operation` asks of its caller.
    pub fn admits(&self, operation: &AccountingOperation) -> (r: bool)
        requires
            self.wf(),
        ensures
            r == self@.within_limits(*operation),
    {
        let client_id = operation.client_id();
        let cid = client_id.as_u16();
        match self.client_accounts.get(&cid) {
            Some(account) => account_admits(account, &self.seen_transactions, operation),
            None => {
                let fresh = ClientAccount::new(client_id);
                account_admits(&fresh, &self.seen_transactions, operation)
            },
        }
    }

    /// Every registered account, each once, in no promised order.
    pub fn iter_accounts(&self) -> (r: Vec<&ClientAccount>)
        requires
            self.wf(),
        ensures
            forall|i: int|
                0 <= i < r@.len() ==> self@.accounts.contains_key(#[trigger] r@[i]@.client)
                    && self@.accounts[r@[i]@.client] == r@[i]@,
            forall|c: u16|
                self@.accounts.contains_key(c) ==> exists|i: int|
                    0 <= i < r@.len() && #[trigger] r@[i]@.client == c,
            forall|i: int, j: int|
                0 <= i < r@.len() && 0 <= j < r@.len() && i != j ==> r@[i]@.client
                    != r@[j]@.client,
    {
        let mut r: Vec<&ClientAccount> = Vec::new();
        let mut i: usize = 0;
        while i < self.client_order.len()
            invariant
                self.wf(),
                i <= self.client_order@.len(),
                r@.len() == i,
                forall|j: int|
                    0 <= j < i ==> self.client_accounts@.contains_key(
                        #[trigger] self.client_order@[j],
                    ),
                forall|j: int|
                    0 <= j < i ==> #[trigger] r@[j] == self.client_accounts@[self.client_order@[j]],
            decreases self.client_order@.len() - i,
        {
            let c = self.client_order[i];
            assert(self.client_order@.contains(c));
            let a = self.client_accounts.get(&c).unwrap();
            assert(*a == self.client_accounts@[c]);
            let ghost r0 = r@;
            r.push(a);
            assert forall|j: int| 0 <= j < i implies r@[j] == r0[j] by {}
            i = i + 1;
        }
        proof {
            assert forall|i: int| 0 <= i < r@.len() implies self@.accounts.contains_key(
                #[trigger] r@[i]@.client,
            ) && self@.accounts[r@[i]@.client] == r@[i]@ by {
                let c = self.client_order@[i];
                assert(self.client_accounts@.contains_key(c));
                assert(r@[i] == self.client_accounts@[c]);
                assert(self@.accounts.contains_key(c));
                assert(self@.accounts[c] == self.client_accounts@[c]@);
                assert(self.client_accounts@[c]@.client == c);
                assert(self@.accounts.contains_key(c));
            }
            assert forall|i: int, j: int|
                0 <= i < r@.len() && 0 <= j < r@.len() && i != j implies r@[i]@.client
                != r@[j]@.client by {
                let ci = self.client_order@[i];
                let cj = self.client_order@[j];
                assert(self.client_accounts@.contains_key(ci));
                assert(self.client_accounts@.contains_key(cj));
                assert(r@[i] == self.client_accounts@[ci]);
                assert(r@[j] == self.client_accounts@[cj]);
                assert(self@.accounts.contains_key(ci));
                assert(self@.accounts[ci] == self.client_accounts@[ci]@);
                assert(self@.accounts.contains_key(cj));
                assert(self@.accounts[cj] == self.client_accounts@[cj]@);
                assert(self.client_accounts@[ci]@.client == ci);
                assert(self.client_accounts@[cj]@.client == cj);
                assert(self@.accounts.contains_key(ci));
                assert(self@.accounts.contains_key(cj));
            }
            assert forall|c: u16| self@.accounts.contains_key(c) implies exists|i: int|
                0 <= i < r@.len() && #[trigger] r@[i]@.client == c by {
                assert(self.client_order@.contains(c));
                let k = choose|k: int| 0 <= k < self.client_order@.len() && self.client_order@[k] == c;
                assert(self.client_accounts@.contains_key(self.client_order@[k]));
                assert(r@[k] == self.client_accounts@[c]);
                assert(self@.accounts.contains_key(c));
                assert(self@.accounts[c] == self.client_accounts@[c]@);
                assert(self.client_accounts@[c]@.client == c);
                assert(r@[k]@.client == c);
            }
        }
        r
    }
}

impl Default for AccountingSystem {
    fn default() -> (r: Self)
        ensures
            r.wf(),
            r@ == SystemModel::empty(),
    {
        AccountingSystem::new()
    }
}

/// The change a transaction makes to the available balance: its amount for a
/// deposit, the negated amount for a withdrawal.
fn normalize_amount(referred_transaction: &Transaction) -> (r: Amount)
    ensures
        r@ == referred_transaction@.signed_amount(),
{
    let amount = *referred_transaction.amount();
    match referred_transaction.kind() {
        TransactionKind::Deposit => amount,
        TransactionKind::Withdrawal => amount.neg(),
    }
}

/// Whether the balances that `operation` leaves in `account` can be held as
/// amounts.
fn account_admits(account: &ClientAccount, seen: &HashSet<u32>, operation: &AccountingOperation) -> (r: bool)
    ensures
        r == (in_amount_range(account@.step(seen@, *operation).0.available) && in_amount_range(
            account@.step(seen@, *operation).0.held,
        )),
{
    let zero = Amount::zero();
    let unchanged = account.available_balance.sum_in_range(&zero) && account.held_balance.sum_in_range(
        &zero,
    );
    if account.state == ClientAccountState::Locked {
        return unchanged;
    }
    match operation {
        AccountingOperation::Transaction { transaction } => {
            let delta = normalize_amount(transaction);
            if account.available_balance.sum_is_negative(&delta) || seen.contains(
                &transaction.id().as_u32(),
            ) {
                unchanged
            } else {
                account.available_balance.sum_in_range(&delta) && account.held_balance.sum_in_range(
                    &zero,
                )
            }
        },
        AccountingOperation::Dispute { client_id, ref_id } => {
            let rid = ref_id.as_u32();
            match account.transactions.get(&rid) {
                None => unchanged,
                Some(referred) => {
                    if client_id.as_u16() != referred.client_id().as_u16()
                        || account.disputed_transactions.contains(&rid) {
                        unchanged
                    } else {
                        let delta = normalize_amount(referred);
                        account.available_balance.sum_in_range(&delta.neg())
                            && account.held_balance.sum_in_range(&delta)
                    }
                },
            }
        },
        AccountingOperation::Resolve { client_id, ref_id } => {
            let rid = ref_id.as_u32();
            match account.transactions.get(&rid) {
                None => unchanged,
                Some(referred) => {
                    if client_id.as_u16() != referred.client_id().as_u16()
                        || !account.disputed_transactions.contains(&rid) {
                        unchanged
                    } else {
                        let delta = normalize_amount(referred);
                        account.available_balance.sum_in_range(&delta)
                            && account.held_balance.sum_in_range(&delta.neg())
                    }
                },
            }
        },
        AccountingOperation::Chargeback { client_id, ref_id } => {
            let rid = ref_id.as_u32();
            match account.transactions.get(&rid) {
                None => unchanged,
                Some(referred) => {
                    if client_id.as_u16() != referred.client_id().as_u16()
                        || !account.disputed_transactions.contains(&rid) {
                        unchanged
                    } else {
                        let delta = normalize_amount(referred);
                        account.available_balance.sum_in_range(&zero)
                            && account.held_balance.sum_in_range(&delta.neg())
                    }
                },
            }
        },
    }
}

/// Applies `operation` to the account of its client.
fn apply_operation(
    account: &mut ClientAccount,
    seen: &mut HashSet<u32>,
    operation: AccountingOperation,
) -> (r: Result<(), TransactionError>)
    requires
        old(account)@.wf(),
        old(account)@.client == operation.client_id()@,
        in_amount_range(old(account)@.step(old(seen)@, operation).0.available),
        in_amount_range(old(account)@.step(old(seen)@, operation).0.held),
    ensures
        (final(account)@, final(seen)@, r) == old(account)@.step(old(seen)@, operation),
{
    if account.state == ClientAccountState::Locked {
        return Err(TransactionError::AccountLocked { client_id: operation.client_id() });
    }
    match operation {
        AccountingOperation::Transaction { transaction } => {
            let delta = normalize_amount(&transaction);
            if account.available_balance.sum_is_negative(&delta) {
                return Err(TransactionError::InsufficientFunds { cause_id: transaction.id() });
            }
            let id = transaction.id().as_u32();
            if seen.contains(&id) {
                return Err(TransactionError::DuplicateTransaction { cause_id: transaction.id() });
            }
            seen.insert(id);
            account.available_balance = account.available_balance.add(delta);
            let ghost t = transaction@;
            account.transactions.insert(id, transaction);
            assert(account@.txs =~= old(account)@.txs.insert(id, t));
        },
        AccountingOperation::Dispute { client_id, ref_id } => {
            let rid = ref_id.as_u32();
            let delta = match account.transactions.get(&rid) {
                None => {
                    return Err(TransactionError::TransactionDoesNotExist { ref_id });
                },
                Some(referred) => {
                    if client_id.as_u16() != referred.client_id().as_u16() {
                        return Err(TransactionError::CrossClientTransaction);
                    }
                    normalize_amount(referred)
                },
            };
            if account.disputed_transactions.contains(&rid) {
                return Err(TransactionError::TransactionAlreadyDisputed { ref_id });
            }
            account.disputed_transactions.insert(rid);
            account.held_balance = account.held_balance.add(delta);
            account.available_balance = account.available_balance.sub(delta);
        },
        AccountingOperation::Resolve { client_id, ref_id } => {
            let rid = ref_id.as_u32();
            let delta = match account.transactions.get(&rid) {
                None => {
                    return Err(TransactionError::TransactionDoesNotExist { ref_id });
                },
                Some(referred) => {
                    if client_id.as_u16() != referred.client_id().as_u16() {
                        return Err(TransactionError::CrossClientTransaction);
                    }
                    normalize_amount(referred)
                },
            };
            if !account.disputed_transactions.contains(&rid) {
                return Err(TransactionError::TransactionNotDisputed { ref_id });
            }
            account.disputed_transactions.remove(&rid);
            account.held_balance = account.held_balance.sub(delta);
            account.available_balance = account.available_balance.add(delta);
        },
        AccountingOperation::Chargeback { client_id, ref_id } => {
            let rid = ref_id.as_u32();
            let delta = match account.transactions.get(&rid) {
                None => {
                    return Err(TransactionError::TransactionDoesNotExist { ref_id });
                },
                Some(referred) => {
                    if client_id.as_u16() != referred.client_id().as_u16() {
                        return Err(TransactionError::CrossClientTransaction);
                    }
                    normalize_amount(referred)
                },
            };
            if !account.disputed_transactions.contains(&rid) {
                return Err(TransactionError::TransactionNotDisputed { ref_id });
            }
            account.disputed_transactions.remove(&rid);
            account.held_balance = account.held_balance.sub(delta);
            account.state = ClientAccountState::Locked;
        },
    }
    Ok(())
}

} // verus!
