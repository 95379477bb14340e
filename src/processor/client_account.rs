use std::collections::{HashMap, HashSet};

use super::model::AccountModel;
use crate::models::{Amount, ClientId, Transaction};
use vstd::prelude::*;

verus! {

/// Whether an account still takes operations.
#[derive(Debug, PartialEq, Eq, Structural, Clone, Copy, Hash)]
pub enum ClientAccountState {
    Normal,
    Locked,
}

impl Default for ClientAccountState {
    fn default() -> (r: Self)
        ensures
            r == ClientAccountState::Normal,
    {
        ClientAccountState::Normal
    }
}

/// One client's ledger: balances, lock state, the deposits and withdrawals
/// taken, keyed by transaction number, and the numbers now under dispute.
#[derive(Debug)]
pub struct ClientAccount {
    pub client_id: ClientId,
    pub available_balance: Amount,
    pub held_balance: Amount,
    pub state: ClientAccountState,
    pub transactions: HashMap<u32, Transaction>,
    pub disputed_transactions: HashSet<u32>,
}

impl ClientAccount {
    pub open spec fn view(&self) -> AccountModel {
        AccountModel {
            client: self.client_id@,
            available: self.available_balance@,
            held: self.held_balance@,
            locked: self.state == ClientAccountState::Locked,
            txs: self.transactions@.map_values(|t: Transaction| t@),
            disputed: self.disputed_transactions@,
        }
    }

    /// An empty, unlocked account for `client_id`.
    pub fn new(client_id: ClientId) -> (r: Self)
        ensures
            r@ == AccountModel::fresh(client_id@),
    {
        let r = ClientAccount {
            client_id,
            available_balance: Amount::default(),
            held_balance: Amount::default(),
            state: ClientAccountState::default(),
            transactions: HashMap::new(),
            disputed_transactions: HashSet::new(),
        };
        assert(r@.txs =~= Map::empty());
        r
    }
}

} // verus!
