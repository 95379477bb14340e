use std::collections::HashMap;

use rtm_core::models::{AccountingOperation, Amount, ClientId, Transaction, TransactionId, TransactionKind};
use rtm_core::processor::{AccountingSystem, ClientAccountState, TransactionError};

fn deposit(client: u16, tx: u32, amount: Amount) -> AccountingOperation {
    AccountingOperation::Transaction {
        transaction: Transaction::new(ClientId::from(client), TransactionId::from(tx), amount, TransactionKind::Deposit),
    }
}

fn withdrawal(client: u16, tx: u32, amount: Amount) -> AccountingOperation {
    AccountingOperation::Transaction {
        transaction: Transaction::new(
            ClientId::from(client),
            TransactionId::from(tx),
            amount,
            TransactionKind::Withdrawal,
        ),
    }
}

fn dispute(client: u16, tx: u32) -> AccountingOperation {
    AccountingOperation::Dispute { client_id: ClientId::from(client), ref_id: TransactionId::from(tx) }
}

fn resolve(client: u16, tx: u32) -> AccountingOperation {
    AccountingOperation::Resolve { client_id: ClientId::from(client), ref_id: TransactionId::from(tx) }
}

fn chargeback(client: u16, tx: u32) -> AccountingOperation {
    AccountingOperation::Chargeback { client_id: ClientId::from(client), ref_id: TransactionId::from(tx) }
}

fn balances(system: &AccountingSystem, client: u16) -> (Amount, Amount, ClientAccountState) {
    let accounts = system.iter_accounts();
    let account = accounts
        .into_iter()
        .find(|a| a.client_id == ClientId::from(client))
        .unwrap();
    (account.available_balance, account.held_balance, account.state)
}

#[test]
fn test_accounting_system() {
    let mut accounting_system = AccountingSystem::new();
    accounting_system
        .run_operation(AccountingOperation::Transaction {
            transaction: Transaction::new(
                ClientId::from(1),
                TransactionId::from(1),
                Amount::from(100),
                TransactionKind::Deposit,
            ),
        })
        .unwrap();

    let client_accounts = accounting_system.iter_accounts();
    assert_eq!(client_accounts.len(), 1);

    let first = client_accounts[0];
    assert_eq!(first.client_id, ClientId::from(1));
    assert_eq!(first.available_balance, Amount::from(100));
    assert_eq!(first.held_balance, Amount::zero());
    assert_eq!(first.state, ClientAccountState::Normal);
}

#[test]
fn test_accounting_system_2() {
    let mut accounting_system = AccountingSystem::new();
    accounting_system
        .run_operation(AccountingOperation::Transaction {
            transaction: Transaction::new(
                ClientId::from(1),
                TransactionId::from(1),
                Amount::from(1),
                TransactionKind::Deposit,
            ),
        })
        .unwrap();
    accounting_system
        .run_operation(AccountingOperation::Transaction {
            transaction: Transaction::new(
                ClientId::from(2),
                TransactionId::from(2),
                Amount::from(2),
                TransactionKind::Deposit,
            ),
        })
        .unwrap();
    accounting_system
        .run_operation(AccountingOperation::Transaction {
            transaction: Transaction::new(
                ClientId::from(1),
                TransactionId::from(3),
                Amount::from(2),
                TransactionKind::Deposit,
            ),
        })
        .unwrap();
    accounting_system
        .run_operation(AccountingOperation::Transaction {
            transaction: Transaction::new(
                ClientId::from(1),
                TransactionId::from(4),
                Amount::try_from("1.5").unwrap(),
                TransactionKind::Withdrawal,
            ),
        })
        .unwrap();
    accounting_system
        .run_operation(AccountingOperation::Transaction {
            transaction: Transaction::new(
                ClientId::from(2),
                TransactionId::from(5),
                Amount::from(2),
                TransactionKind::Withdrawal,
            ),
        })
        .unwrap();

    let client_accounts = accounting_system
        .iter_accounts()
        .into_iter()
        .map(|c| (c.client_id, c))
        .collect::<HashMap<_, _>>();
    assert_eq!(client_accounts.len(), 2);

    let first = client_accounts.get(&ClientId::from(1)).unwrap();
    assert_eq!(first.client_id, ClientId::from(1));
    assert_eq!(first.available_balance, Amount::try_from("1.5").unwrap());
    assert_eq!(first.held_balance, Amount::zero());
    assert_eq!(first.state, ClientAccountState::Normal);

    let second = client_accounts.get(&ClientId::from(2)).unwrap();
    assert_eq!(second.client_id, ClientId::from(2));
    assert_eq!(second.available_balance, Amount::zero());
    assert_eq!(second.held_balance, Amount::zero());
    assert_eq!(second.state, ClientAccountState::Normal);
}

#[test]
fn test_accounting_system_too_big_withdrawal() {
    let mut accounting_system = AccountingSystem::new();
    accounting_system
        .run_operation(AccountingOperation::Transaction {
            transaction: Transaction::new(
                ClientId::from(1),
                TransactionId::from(1),
                Amount::from(1),
                TransactionKind::Deposit,
            ),
        })
        .unwrap();
    let result = accounting_system.run_operation(AccountingOperation::Transaction {
        transaction: Transaction::new(
            ClientId::from(1),
            TransactionId::from(2),
            Amount::from(2),
            TransactionKind::Withdrawal,
        ),
    });
    assert!(matches!(result, Err(TransactionError::InsufficientFunds { .. })));
}

fn disputed_deposit() -> AccountingSystem {
    let mut system = AccountingSystem::new();
    system.run_operation(deposit(1, 1, Amount::from(1))).unwrap();
    system.run_operation(dispute(1, 1)).unwrap();
    system
}

#[test]
fn test_accounting_system_invalid_transaction_dispute() {
    let mut system = disputed_deposit();
    let result = system.run_operation(dispute(1, 2));
    assert!(matches!(result, Err(TransactionError::TransactionDoesNotExist { .. })));
}

#[test]
fn test_accounting_system_invalid_transaction_resolve() {
    let mut system = disputed_deposit();
    let result = system.run_operation(resolve(1, 2));
    assert!(matches!(result, Err(TransactionError::TransactionDoesNotExist { .. })));
}

#[test]
fn test_accounting_system_invalid_transaction_chargeback() {
    let mut system = disputed_deposit();
    let result = system.run_operation(chargeback(1, 2));
    assert!(matches!(result, Err(TransactionError::TransactionDoesNotExist { .. })));
}

#[test]
fn test_accounting_system_not_disputed_resolve() {
    let mut system = AccountingSystem::new();
    system.run_operation(deposit(1, 1, Amount::from(1))).unwrap();
    let result = system.run_operation(resolve(1, 1));
    assert!(matches!(result, Err(TransactionError::TransactionNotDisputed { .. })));
}

#[test]
fn test_accounting_system_not_disputed_chargeback() {
    let mut system = AccountingSystem::new();
    system.run_operation(deposit(1, 1, Amount::from(1))).unwrap();
    let result = system.run_operation(chargeback(1, 1));
    assert!(matches!(result, Err(TransactionError::TransactionNotDisputed { .. })));
}

#[test]
fn test_accounting_system_already_disputed() {
    let mut system = disputed_deposit();
    let result = system.run_operation(dispute(1, 1));
    assert_eq!(
        result,
        Err(TransactionError::TransactionAlreadyDisputed { ref_id: TransactionId::from(1) })
    );
}

#[test]
fn deposits_only_sum_up() {
    let mut system = AccountingSystem::new();
    system.run_operation(deposit(7, 10, Amount::try_from("1.25").unwrap())).unwrap();
    system.run_operation(deposit(7, 11, Amount::try_from("2.5").unwrap())).unwrap();
    system.run_operation(deposit(7, 12, Amount::from(3))).unwrap();
    let (available, held, state) = balances(&system, 7);
    assert_eq!(available, Amount::try_from("6.75").unwrap());
    assert_eq!(held, Amount::zero());
    assert_eq!(state, ClientAccountState::Normal);
}

#[test]
fn overdraft_leaves_balances_unchanged() {
    let mut system = AccountingSystem::new();
    system.run_operation(deposit(1, 1, Amount::from(3))).unwrap();
    let result = system.run_operation(withdrawal(1, 2, Amount::try_from("3.0001").unwrap()));
    assert_eq!(result, Err(TransactionError::InsufficientFunds { cause_id: TransactionId::from(2) }));
    assert_eq!(balances(&system, 1), (Amount::from(3), Amount::zero(), ClientAccountState::Normal));
}

#[test]
fn withdrawal_of_whole_balance_is_taken() {
    let mut system = AccountingSystem::new();
    system.run_operation(deposit(1, 1, Amount::from(3))).unwrap();
    system.run_operation(withdrawal(1, 2, Amount::from(3))).unwrap();
    assert_eq!(balances(&system, 1), (Amount::zero(), Amount::zero(), ClientAccountState::Normal));
}

#[test]
fn duplicate_id_across_clients_is_refused() {
    let mut system = AccountingSystem::new();
    system.run_operation(deposit(1, 5, Amount::from(1))).unwrap();
    let result = system.run_operation(deposit(2, 5, Amount::from(1)));
    assert_eq!(result, Err(TransactionError::DuplicateTransaction { cause_id: TransactionId::from(5) }));
    assert_eq!(balances(&system, 2), (Amount::zero(), Amount::zero(), ClientAccountState::Normal));
}

#[test]
fn insufficient_funds_is_reported_before_duplicate() {
    let mut system = AccountingSystem::new();
    system.run_operation(deposit(1, 5, Amount::from(1))).unwrap();
    let result = system.run_operation(withdrawal(1, 5, Amount::from(2)));
    assert_eq!(result, Err(TransactionError::InsufficientFunds { cause_id: TransactionId::from(5) }));
}

#[test]
fn dispute_then_resolve_restores_balances() {
    let mut system = AccountingSystem::new();
    system.run_operation(deposit(1, 1, Amount::from(10))).unwrap();
    system.run_operation(withdrawal(1, 2, Amount::try_from("2.5").unwrap())).unwrap();
    let before = balances(&system, 1);
    system.run_operation(dispute(1, 1)).unwrap();
    assert_eq!(
        balances(&system, 1),
        (Amount::try_from("-2.5").unwrap(), Amount::from(10), ClientAccountState::Normal)
    );
    system.run_operation(resolve(1, 1)).unwrap();
    assert_eq!(balances(&system, 1), before);
}

#[test]
fn disputing_a_withdrawal_raises_available() {
    let mut system = AccountingSystem::new();
    system.run_operation(deposit(1, 1, Amount::from(10))).unwrap();
    system.run_operation(withdrawal(1, 2, Amount::from(4))).unwrap();
    system.run_operation(dispute(1, 2)).unwrap();
    assert_eq!(
        balances(&system, 1),
        (Amount::from(10), Amount::from(-4), ClientAccountState::Normal)
    );
}

#[test]
fn chargeback_locks_the_account() {
    let mut system = AccountingSystem::new();
    system.run_operation(deposit(1, 1, Amount::from(5))).unwrap();
    system.run_operation(deposit(1, 2, Amount::from(2))).unwrap();
    system.run_operation(dispute(1, 2)).unwrap();
    system.run_operation(chargeback(1, 2)).unwrap();
    let locked = (Amount::from(5), Amount::zero(), ClientAccountState::Locked);
    assert_eq!(balances(&system, 1), locked);
    let locked_error = Err(TransactionError::AccountLocked { client_id: ClientId::from(1) });
    assert_eq!(system.run_operation(deposit(1, 3, Amount::from(1))), locked_error);
    assert_eq!(system.run_operation(withdrawal(1, 4, Amount::from(1))), locked_error);
    assert_eq!(system.run_operation(dispute(1, 1)), locked_error);
    assert_eq!(system.run_operation(resolve(1, 1)), locked_error);
    assert_eq!(system.run_operation(chargeback(1, 1)), locked_error);
    assert_eq!(balances(&system, 1), locked);
    system.run_operation(deposit(2, 3, Amount::from(1))).unwrap();
}

#[test]
fn scenario_two_clients() {
    let mut system = AccountingSystem::new();
    system.run_operation(deposit(1, 1, Amount::from(1))).unwrap();
    system.run_operation(deposit(2, 2, Amount::from(2))).unwrap();
    system.run_operation(deposit(1, 3, Amount::from(2))).unwrap();
    system.run_operation(withdrawal(1, 4, Amount::try_from("1.5").unwrap())).unwrap();
    system.run_operation(withdrawal(2, 5, Amount::from(2))).unwrap();
    assert_eq!(
        balances(&system, 1),
        (Amount::try_from("1.5").unwrap(), Amount::zero(), ClientAccountState::Normal)
    );
    assert_eq!(balances(&system, 2), (Amount::zero(), Amount::zero(), ClientAccountState::Normal));
}

#[test]
fn scenario_single_deposit() {
    let mut system = AccountingSystem::new();
    system.run_operation(deposit(1, 1, Amount::from(100))).unwrap();
    let (available, held, state) = balances(&system, 1);
    assert_eq!(available, Amount::from(100));
    assert_eq!(held, Amount::zero());
    assert_eq!(available.add(held), Amount::from(100));
    assert_eq!(state, ClientAccountState::Normal);
}

#[test]
fn scenario_dispute_lifecycle() {
    let mut system = AccountingSystem::new();
    system.run_operation(deposit(1, 1, Amount::from(1))).unwrap();
    system.run_operation(dispute(1, 1)).unwrap();
    assert_eq!(balances(&system, 1), (Amount::zero(), Amount::from(1), ClientAccountState::Normal));
    system.run_operation(resolve(1, 1)).unwrap();
    assert_eq!(balances(&system, 1), (Amount::from(1), Amount::zero(), ClientAccountState::Normal));
    system.run_operation(dispute(1, 1)).unwrap();
    assert_eq!(balances(&system, 1), (Amount::zero(), Amount::from(1), ClientAccountState::Normal));
    system.run_operation(chargeback(1, 1)).unwrap();
    assert_eq!(balances(&system, 1), (Amount::zero(), Amount::zero(), ClientAccountState::Locked));
    assert_eq!(
        system.run_operation(deposit(1, 2, Amount::from(1))),
        Err(TransactionError::AccountLocked { client_id: ClientId::from(1) })
    );
}

#[test]
fn reference_to_another_clients_transaction_is_unknown() {
    let mut system = AccountingSystem::new();
    system.run_operation(deposit(1, 1, Amount::from(1))).unwrap();
    let unknown = Err(TransactionError::TransactionDoesNotExist { ref_id: TransactionId::from(1) });
    assert_eq!(system.run_operation(dispute(2, 1)), unknown);
    assert_eq!(system.run_operation(resolve(2, 1)), unknown);
    assert_eq!(system.run_operation(chargeback(2, 1)), unknown);
    assert_eq!(balances(&system, 1), (Amount::from(1), Amount::zero(), ClientAccountState::Normal));
}

#[test]
fn failed_operation_still_registers_the_account() {
    let mut system = AccountingSystem::new();
    let result = system.run_operation(withdrawal(9, 1, Amount::from(1)));
    assert!(result.is_err());
    assert_eq!(system.iter_accounts().len(), 1);
    assert_eq!(balances(&system, 9), (Amount::zero(), Amount::zero(), ClientAccountState::Normal));
}

#[test]
fn admits_refuses_balances_past_the_limit() {
    let mut system = AccountingSystem::new();
    let big = Amount::try_from("5000000000000000000000000").unwrap();
    let first = deposit(1, 1, big);
    assert!(system.admits(&first));
    system.run_operation(first).unwrap();
    assert!(!system.admits(&deposit(1, 2, big)));
    assert!(system.admits(&deposit(2, 2, big)));
    assert!(system.admits(&withdrawal(1, 3, big)));
}
