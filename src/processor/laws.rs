//! Properties of the ledger that hold over all inputs, proved over the model
//! that `AccountingSystem::run_operation` follows.
use super::errors::TransactionError;
use super::model::SystemModel;
use crate::models::transaction::LedgerEntry;
use crate::models::{AccountingOperation, ClientId, Transaction, TransactionId, TransactionKind};
use vstd::prelude::*;

verus! {

/// The ledger after each operation of `ops`, in order, starting from `s`.
pub open spec fn run_all(s: SystemModel, ops: Seq<AccountingOperation>) -> SystemModel
    decreases ops.len(),
{
    if ops.len() == 0 {
        s
    } else {
        run_all(s, ops.drop_last()).step(ops.last()).0
    }
}

/// The ledger entry an operation brings, when it is a deposit or withdrawal.
pub open spec fn entry_of(op: AccountingOperation) -> LedgerEntry {
    match op {
        AccountingOperation::Transaction { transaction } => transaction@,
        _ => arbitrary(),
    }
}

/// `op` is a deposit of a non-negative amount for `client`.
pub open spec fn is_deposit_for(op: AccountingOperation, client: u16) -> bool {
    match op {
        AccountingOperation::Transaction { transaction } => {
            &&& transaction@.kind == TransactionKind::Deposit
            &&& transaction@.client == client
            &&& transaction@.amount >= 0
        },
        _ => false,
    }
}

/// The sum of the amounts that `ops` bring.
pub open spec fn amount_total(ops: Seq<AccountingOperation>) -> int
    decreases ops.len(),
{
    if ops.len() == 0 {
        0
    } else {
        amount_total(ops.drop_last()) + entry_of(ops.last()).amount
    }
}

/// Deposits of non-negative amounts under distinct transaction numbers, all
/// for one client, leave that client's available balance at their sum,
/// nothing held, and the account unlocked; the taken numbers are theirs.
pub proof fn lemma_deposits_add_up(ops: Seq<AccountingOperation>, client: u16)
    requires
        forall|i: int| 0 <= i < ops.len() ==> #[trigger] is_deposit_for(ops[i], client),
        forall|i: int, j: int|
            0 <= i < ops.len() && 0 <= j < ops.len() && i != j ==> #[trigger] entry_of(ops[i]).id
                != #[trigger] entry_of(ops[j]).id,
    ensures
        run_all(SystemModel::empty(), ops).account(client).available == amount_total(ops),
        run_all(SystemModel::empty(), ops).account(client).held == 0,
        amount_total(ops) >= 0,
        !run_all(SystemModel::empty(), ops).account(client).locked,
        forall|id: u32|
            run_all(SystemModel::empty(), ops).seen.contains(id) <==> exists|i: int|
                0 <= i < ops.len() && #[trigger] entry_of(ops[i]).id == id,
    decreases ops.len(),
{
    if ops.len() > 0 {
        let n = ops.len() - 1;
        let prefix = ops.drop_last();
        assert forall|i: int| 0 <= i < prefix.len() implies #[trigger] is_deposit_for(
            prefix[i],
            client,
        ) by {
            assert(prefix[i] == ops[i]);
        }
        assert forall|i: int, j: int|
            0 <= i < prefix.len() && 0 <= j < prefix.len() && i != j implies #[trigger] entry_of(
            prefix[i],
        ).id != #[trigger] entry_of(prefix[j]).id by {
            assert(prefix[i] == ops[i]);
            assert(prefix[j] == ops[j]);
        }
        lemma_deposits_add_up(prefix, client);
        let s = run_all(SystemModel::empty(), prefix);
        let last = ops.last();
        assert(is_deposit_for(ops[n], client));
        let t = entry_of(last);
        assert(!s.seen.contains(t.id)) by {
            if s.seen.contains(t.id) {
                let i = choose|i: int| 0 <= i < prefix.len() && #[trigger] entry_of(prefix[i]).id == t.id;
                assert(prefix[i] == ops[i]);
                assert(entry_of(ops[i]).id != entry_of(ops[n]).id);
            }
        }
        let s2 = run_all(SystemModel::empty(), ops);
        assert(s2 == s.step(last).0);
        match last {
            AccountingOperation::Transaction { transaction } => {
                transaction.lemma_view();
                assert(last.client_id()@ == client);
                assert(t.signed_amount() == t.amount);
                assert(t.amount >= 0);
                assert(s.account(client).available + t.signed_amount() >= 0);
                assert(s2.seen == s.seen.insert(t.id));
                assert(s2.account(client).available == s.account(client).available + t.amount);
                assert(s2.account(client).held == 0);
                assert(!s2.account(client).locked);
            },
            _ => {},
        }
        assert forall|id: u32| s2.seen.contains(id) <==> exists|i: int|
            0 <= i < ops.len() && #[trigger] entry_of(ops[i]).id == id by {
            if s2.seen.contains(id) {
                if id == t.id {
                    assert(entry_of(ops[n]).id == id);
                } else {
                    assert(s.seen.contains(id));
                    let i = choose|i: int| 0 <= i < prefix.len() && #[trigger] entry_of(prefix[i]).id == id;
                    assert(prefix[i] == ops[i]);
                    assert(entry_of(ops[i]).id == id);
                }
            }
            if exists|i: int| 0 <= i < ops.len() && #[trigger] entry_of(ops[i]).id == id {
                let i = choose|i: int| 0 <= i < ops.len() && #[trigger] entry_of(ops[i]).id == id;
                if i < n {
                    assert(prefix[i] == ops[i]);
                    assert(entry_of(prefix[i]).id == id);
                    assert(s.seen.contains(id));
                }
            }
        }
    }
}

/// A withdrawal of more than the available balance is refused for want of
/// funds, and every account and the taken numbers stay as they were.
pub proof fn lemma_overdraft_refused(s: SystemModel, transaction: Transaction)
    requires
        transaction@.kind == TransactionKind::Withdrawal,
        transaction@.amount > s.account(transaction@.client).available,
        !s.account(transaction@.client).locked,
    ensures
        s.step(AccountingOperation::Transaction { transaction }).1 == Err::<(), TransactionError>(
            TransactionError::InsufficientFunds { cause_id: transaction.id() },
        ),
        forall|k: u16| #[trigger]
            s.step(AccountingOperation::Transaction { transaction }).0.account(k) == s.account(k),
        s.step(AccountingOperation::Transaction { transaction }).0.seen == s.seen,
{
    transaction.lemma_view();
}

/// Once a deposit or withdrawal is taken, any later one under the same
/// number, for whichever client, is refused as a duplicate (unless its
/// account is locked or it lacks funds, which are told first).
pub proof fn lemma_duplicate_refused(s: SystemModel, first: Transaction, second: Transaction)
    requires
        first@.id == second@.id,
        s.step(AccountingOperation::Transaction { transaction: first }).1 is Ok,
        !s.step(AccountingOperation::Transaction { transaction: first }).0.account(
            second@.client,
        ).locked,
        s.step(AccountingOperation::Transaction { transaction: first }).0.account(
            second@.client,
        ).available + second@.signed_amount() >= 0,
    ensures
        s.step(AccountingOperation::Transaction { transaction: first }).0.step(
            AccountingOperation::Transaction { transaction: second },
        ).1 == Err::<(), TransactionError>(
            TransactionError::DuplicateTransaction { cause_id: second.id() },
        ),
{
    first.lemma_view();
    second.lemma_view();
}

/// A dispute followed by a resolve of the same transaction succeeds and gives
/// the client's account back exactly as it was before the dispute.
pub proof fn lemma_dispute_resolve_restores(s: SystemModel, client_id: ClientId, ref_id: TransactionId)
    requires
        s.step(AccountingOperation::Dispute { client_id, ref_id }).1 is Ok,
    ensures
        s.step(AccountingOperation::Dispute { client_id, ref_id }).0.step(
            AccountingOperation::Resolve { client_id, ref_id },
        ).1 is Ok,
        s.step(AccountingOperation::Dispute { client_id, ref_id }).0.step(
            AccountingOperation::Resolve { client_id, ref_id },
        ).0.account(client_id@) == s.account(client_id@),
{
    let a = s.account(client_id@);
    let s1 = s.step(AccountingOperation::Dispute { client_id, ref_id }).0;
    let a1 = s1.account(client_id@);
    assert(a1.disputed == a.disputed.insert(ref_id@));
    assert(a1.disputed.remove(ref_id@) =~= a.disputed);
}

/// A locked account stays locked whatever comes next, and every operation for
/// its client is refused with nothing changed.
pub proof fn lemma_lock_is_terminal(s: SystemModel, op: AccountingOperation, client: u16)
    requires
        s.accounts.contains_key(client),
        s.accounts[client].locked,
    ensures
        s.step(op).0.accounts.contains_key(client),
        s.step(op).0.accounts[client] == s.accounts[client],
        op.client_id()@ == client ==> s.step(op) == (
            s,
            Err::<(), TransactionError>(
                TransactionError::AccountLocked { client_id: op.client_id() },
            ),
        ),
{
    if op.client_id()@ == client {
        assert(s.accounts.insert(client, s.accounts[client]) =~= s.accounts);
    }
}

/// However many operations follow, for whichever clients, a locked account
/// stays exactly as it is.
pub proof fn lemma_locked_account_is_frozen(
    s: SystemModel,
    ops: Seq<AccountingOperation>,
    client: u16,
)
    requires
        s.accounts.contains_key(client),
        s.accounts[client].locked,
    ensures
        run_all(s, ops).accounts.contains_key(client),
        run_all(s, ops).accounts[client] == s.accounts[client],
    decreases ops.len(),
{
    if ops.len() > 0 {
        lemma_locked_account_is_frozen(s, ops.drop_last(), client);
        lemma_lock_is_terminal(run_all(s, ops.drop_last()), ops.last(), client);
    }
}

/// A dispute followed by a chargeback of the same transaction succeeds and
/// locks the account; from then on every operation for the client is refused
/// as locked, with nothing changed.
pub proof fn lemma_chargeback_locks(s: SystemModel, client_id: ClientId, ref_id: TransactionId)
    requires
        s.step(AccountingOperation::Dispute { client_id, ref_id }).1 is Ok,
    ensures
        ({
            let s2 = s.step(AccountingOperation::Dispute { client_id, ref_id }).0.step(
                AccountingOperation::Chargeback { client_id, ref_id },
            );
            &&& s2.1 is Ok
            &&& s2.0.accounts.contains_key(client_id@)
            &&& s2.0.accounts[client_id@].locked
            &&& forall|op: AccountingOperation|
                op.client_id() == client_id ==> #[trigger] s2.0.step(op) == (
                    s2.0,
                    Err::<(), TransactionError>(
                        TransactionError::AccountLocked { client_id },
                    ),
                )
        }),
{
    let s2 = s.step(AccountingOperation::Dispute { client_id, ref_id }).0.step(
        AccountingOperation::Chargeback { client_id, ref_id },
    ).0;
    assert forall|op: AccountingOperation| op.client_id() == client_id implies #[trigger] s2.step(op)
        == (s2, Err::<(), TransactionError>(TransactionError::AccountLocked { client_id })) by {
        lemma_lock_is_terminal(s2, op, client_id@);
    }
}

/// A dispute, resolve or chargeback naming a number the client has no
/// transaction under is refused as unknown, whatever other clients hold.
pub proof fn lemma_unknown_reference_refused(s: SystemModel, client_id: ClientId, ref_id: TransactionId)
    requires
        !s.account(client_id@).txs.contains_key(ref_id@),
        !s.account(client_id@).locked,
    ensures
        s.step(AccountingOperation::Dispute { client_id, ref_id }).1 == Err::<(), TransactionError>(
            TransactionError::TransactionDoesNotExist { ref_id },
        ),
        s.step(AccountingOperation::Resolve { client_id, ref_id }).1 == Err::<(), TransactionError>(
            TransactionError::TransactionDoesNotExist { ref_id },
        ),
        s.step(AccountingOperation::Chargeback { client_id, ref_id }).1 == Err::<
            (),
            TransactionError,
        >(TransactionError::TransactionDoesNotExist { ref_id }),
{
}

} // verus!
