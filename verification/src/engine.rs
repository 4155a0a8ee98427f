//! The executable engine: the ledger structure and one handler per record
//! kind, each proved to implement its transition rule from `transitions`.

use vstd::prelude::*;

use std::collections::HashMap;

use vstd::std_specs::iter::IteratorSpec;

use crate::state::{account_wf, Account, LedgerView, TransactionMessage, TransactionType, Tx};
use crate::transitions::{
    can_apply, deposit_fits, spec_apply, spec_chargeback, spec_deposit, spec_dispute,
    spec_resolve, spec_withdrawal,
};
use crate::laws::{
    lemma_chargeback_preserves_wf, lemma_deposit_preserves_wf, lemma_dispute_preserves_wf,
    lemma_resolve_preserves_wf, lemma_withdrawal_preserves_wf,
};

verus! {

/// The top-level state container: all stored transactions, all accounts,
/// and the audit log of every message seen, in arrival order.
pub struct AccountTransactions {
    txs_txid: HashMap<u32, Tx>,
    account_client: HashMap<u16, Account>,
    tx_msgs_time: HashMap<u32, TransactionMessage>,
}

impl View for AccountTransactions {
    type V = LedgerView;

    closed spec fn view(&self) -> LedgerView {
        LedgerView {
            txs: self.txs_txid@,
            accounts: self.account_client@,
            msgs: self.tx_msgs_time@,
        }
    }
}

impl AccountTransactions {
    /// An empty ledger: no transactions, no accounts, no log.
    pub fn new() -> (r: AccountTransactions)
        ensures
            r@ == crate::state::empty_ledger(),
            r@.wf(),
    {
        let r = AccountTransactions {
            txs_txid: HashMap::new(),
            tx_msgs_time: HashMap::new(),
            account_client: HashMap::new(),
        };
        proof {
            assert(r@ =~= crate::state::empty_ledger());
        }
        r
    }

    /// Apply a deposit: store the transaction and credit the client's
    /// available funds, creating the account if it is new.
    pub fn deposit_tx(&mut self, transaction_msg: &TransactionMessage)
        requires
            old(self)@.wf(),
            deposit_fits(old(self)@, *transaction_msg),
        ensures
            final(self)@ == spec_deposit(old(self)@, *transaction_msg),
            final(self)@.wf(),
    {
        self.txs_txid.insert(
            transaction_msg.tx,
            Tx {
                tx: transaction_msg.tx,
                tx_type: transaction_msg.tx_type,
                client: transaction_msg.client,
                amount: transaction_msg.amount,
                disputed: false,
            },
        );
        let existing: Option<Account> = match self.account_client.get(&transaction_msg.client) {
            Some(acct) => Some(*acct),
            None => None,
        };
        match existing {
            Some(acct) => {
                let updated = Account {
                    client: acct.client,
                    available: acct.available + transaction_msg.amount,
                    held: acct.held,
                    total: acct.available + transaction_msg.amount + acct.held,
                    locked: acct.locked,
                };
                self.account_client.insert(transaction_msg.client, updated);
            },
            None => {
                let new_acct = Account {
                    client: transaction_msg.client,
                    available: transaction_msg.amount,
                    held: 0,
                    total: transaction_msg.amount,
                    locked: false,
                };
                self.account_client.insert(transaction_msg.client, new_acct);
            },
        }
        proof {
            assert(self@ =~= spec_deposit(old(self)@, *transaction_msg));
            lemma_deposit_preserves_wf(old(self)@, *transaction_msg);
        }
    }

    /// Apply a withdrawal: store the transaction even when the debit is
    /// rejected, debit available funds only when they suffice, and create a
    /// zero account for an unknown client.
    pub fn withdrawal_tx(&mut self, transaction_msg: &TransactionMessage)
        requires
            old(self)@.wf(),
        ensures
            final(self)@ == spec_withdrawal(old(self)@, *transaction_msg),
            final(self)@.wf(),
    {
        self.txs_txid.insert(
            transaction_msg.tx,
            Tx {
                tx: transaction_msg.tx,
                tx_type: transaction_msg.tx_type,
                client: transaction_msg.client,
                amount: transaction_msg.amount,
                disputed: false,
            },
        );
        let existing: Option<Account> = match self.account_client.get(&transaction_msg.client) {
            Some(acct) => Some(*acct),
            None => None,
        };
        match existing {
            Some(acct) => {
                proof {
                    assert(acct == old(self)@.accounts[transaction_msg.client]);
                    assert(account_wf(transaction_msg.client, acct));
                }
                if transaction_msg.amount <= acct.available {
                    let updated = Account {
                        client: acct.client,
                        available: acct.available - transaction_msg.amount,
                        held: acct.held,
                        total: acct.available - transaction_msg.amount + acct.held,
                        locked: acct.locked,
                    };
                    self.account_client.insert(transaction_msg.client, updated);
                }
            },
            None => {
                let new_acct = Account {
                    client: transaction_msg.client,
                    available: 0,
                    held: 0,
                    total: 0,
                    locked: false,
                };
                self.account_client.insert(transaction_msg.client, new_acct);
            },
        }
        proof {
            assert(self@ =~= spec_withdrawal(old(self)@, *transaction_msg));
            lemma_withdrawal_preserves_wf(old(self)@, *transaction_msg);
        }
    }

    /// Apply a dispute: when the referenced transaction exists and the
    /// client's available funds cover its amount, move that amount into
    /// held and mark the transaction disputed.
    pub fn dispute_tx(&mut self, transaction_msg: &TransactionMessage)
        requires
            old(self)@.wf(),
        ensures
            final(self)@ == spec_dispute(old(self)@, *transaction_msg),
            final(self)@.wf(),
    {
        let existing: Option<Account> = match self.account_client.get(&transaction_msg.client) {
            Some(acct) => Some(*acct),
            None => None,
        };
        match existing {
            Some(acct) => {
                proof {
                    assert(acct == old(self)@.accounts[transaction_msg.client]);
                    assert(account_wf(transaction_msg.client, acct));
                }
                let stored: Option<Tx> = match self.txs_txid.get(&transaction_msg.tx) {
                    Some(tx) => Some(*tx),
                    None => None,
                };
                match stored {
                    Some(tx) => {
                        if tx.amount <= acct.available {
                            let updated = Account {
                                client: acct.client,
                                available: acct.available - tx.amount,
                                held: acct.held + tx.amount,
                                total: acct.total,
                                locked: acct.locked,
                            };
                            self.account_client.insert(transaction_msg.client, updated);
                            self.txs_txid.insert(
                                transaction_msg.tx,
                                Tx { disputed: true, ..tx },
                            );
                        }
                    },
                    None => {},
                }
            },
            None => {
                let new_acct = Account {
                    client: transaction_msg.client,
                    available: 0,
                    held: 0,
                    total: 0,
                    locked: false,
                };
                self.account_client.insert(transaction_msg.client, new_acct);
            },
        }
        proof {
            assert(self@ =~= spec_dispute(old(self)@, *transaction_msg));
            lemma_dispute_preserves_wf(old(self)@, *transaction_msg);
        }
    }

    /// Apply a resolve: when the referenced transaction is disputed and the
    /// held funds cover its amount, release the hold back to available and
    /// clear the disputed mark.
    pub fn resolve_tx(&mut self, transaction_msg: &TransactionMessage)
        requires
            old(self)@.wf(),
        ensures
            final(self)@ == spec_resolve(old(self)@, *transaction_msg),
            final(self)@.wf(),
    {
        let existing: Option<Account> = match self.account_client.get(&transaction_msg.client) {
            Some(acct) => Some(*acct),
            None => None,
        };
        match existing {
            Some(acct) => {
                proof {
                    assert(acct == old(self)@.accounts[transaction_msg.client]);
                    assert(account_wf(transaction_msg.client, acct));
                }
                let stored: Option<Tx> = match self.txs_txid.get(&transaction_msg.tx) {
                    Some(tx) => Some(*tx),
                    None => None,
                };
                match stored {
                    Some(tx) => {
                        if tx.disputed && tx.amount <= acct.held {
                            let updated = Account {
                                client: acct.client,
                                available: acct.available + tx.amount,
                                held: acct.held - tx.amount,
                                total: acct.total,
                                locked: acct.locked,
                            };
                            self.account_client.insert(transaction_msg.client, updated);
                            self.txs_txid.insert(
                                transaction_msg.tx,
                                Tx { disputed: false, ..tx },
                            );
                        }
                    },
                    None => {},
                }
            },
            None => {
                let new_acct = Account {
                    client: transaction_msg.client,
                    available: 0,
                    held: 0,
                    total: 0,
                    locked: false,
                };
                self.account_client.insert(transaction_msg.client, new_acct);
            },
        }
        proof {
            assert(self@ =~= spec_resolve(old(self)@, *transaction_msg));
            lemma_resolve_preserves_wf(old(self)@, *transaction_msg);
        }
    }

    /// Apply a chargeback: when the referenced transaction is disputed and
    /// the held funds cover its amount, remove that amount from held (and
    /// from the total), lock the account for good, and clear the disputed
    /// mark.
    pub fn chargeback_tx(&mut self, transaction_msg: &TransactionMessage)
        requires
            old(self)@.wf(),
        ensures
            final(self)@ == spec_chargeback(old(self)@, *transaction_msg),
            final(self)@.wf(),
    {
        let existing: Option<Account> = match self.account_client.get(&transaction_msg.client) {
            Some(acct) => Some(*acct),
            None => None,
        };
        match existing {
            Some(acct) => {
                proof {
                    assert(acct == old(self)@.accounts[transaction_msg.client]);
                    assert(account_wf(transaction_msg.client, acct));
                }
                let stored: Option<Tx> = match self.txs_txid.get(&transaction_msg.tx) {
                    Some(tx) => Some(*tx),
                    None => None,
                };
                match stored {
                    Some(tx) => {
                        if tx.disputed && tx.amount <= acct.held {
                            let updated = Account {
                                client: acct.client,
                                available: acct.available,
                                held: acct.held - tx.amount,
                                total: acct.available + (acct.held - tx.amount),
                                locked: true,
                            };
                            self.account_client.insert(transaction_msg.client, updated);
                            self.txs_txid.insert(
                                transaction_msg.tx,
                                Tx { disputed: false, ..tx },
                            );
                        }
                    },
                    None => {},
                }
            },
            None => {
                let new_acct = Account {
                    client: transaction_msg.client,
                    available: 0,
                    held: 0,
                    total: 0,
                    locked: false,
                };
                self.account_client.insert(transaction_msg.client, new_acct);
            },
        }
        proof {
            assert(self@ =~= spec_chargeback(old(self)@, *transaction_msg));
            lemma_chargeback_preserves_wf(old(self)@, *transaction_msg);
        }
    }

    /// The account of a client, if the ledger knows one.
    pub fn account_of(&self, client: u16) -> (r: Option<Account>)
        ensures
            r == (if self@.accounts.contains_key(client) {
                Some(self@.accounts[client])
            } else {
                None::<Account>
            }),
    {
        match self.account_client.get(&client) {
            Some(acct) => Some(*acct),
            None => None,
        }
    }

    /// The stored transaction under an id, if the ledger knows one.
    pub fn stored_tx(&self, tx: u32) -> (r: Option<Tx>)
        ensures
            r == (if self@.txs.contains_key(tx) {
                Some(self@.txs[tx])
            } else {
                None::<Tx>
            }),
    {
        match self.txs_txid.get(&tx) {
            Some(stored) => Some(*stored),
            None => None,
        }
    }

    /// Every account of the ledger, one entry per client, in no specified
    /// order.
    pub fn accounts_list(&self) -> (v: Vec<Account>)
        requires
            self@.wf(),
        ensures
            v@.len() == self@.accounts.dom().len(),
            forall|k: int|
                0 <= k < v@.len() ==> self@.accounts.contains_key(#[trigger] v@[k].client)
                    && self@.accounts[v@[k].client] == v@[k],
            forall|c: u16|
                self@.accounts.contains_key(c) ==> exists|k: int|
                    0 <= k < v@.len() && v@[k].client == c,
    {
        let mut v: Vec<Account> = Vec::new();
        let ghost pairs = vstd::std_specs::hash::spec_hash_map_iter(
            &self.account_client,
        ).remaining();
        for pair in it: self.account_client.iter()
            invariant
                it.seq() == pairs,
                v@.len() == it.index(),
                forall|k: int| 0 <= k < it.index() ==> v@[k] == *pairs[k].1,
        {
            v.push(*pair.1);
        }
        proof {
            assert(v@.len() == pairs.len());
            assert forall|k: int|
                0 <= k < v@.len() implies self@.accounts.contains_key(#[trigger] v@[k].client)
                && self@.accounts[v@[k].client] == v@[k] by {
                assert(self@.accounts.contains_key(*pairs[k].0));
                assert(account_wf(*pairs[k].0, self@.accounts[*pairs[k].0]));
            }
            assert forall|c: u16| self@.accounts.contains_key(c) implies exists|k: int|
                0 <= k < v@.len() && v@[k].client == c by {
                assert(pairs.contains((&c, &self@.accounts[c])));
                let j = choose|j: int|
                    0 <= j < pairs.len() && pairs[j] == (&c, &self@.accounts[c]);
                assert(account_wf(c, self@.accounts[c]));
                assert(v@[j].client == c);
            }
        }
        v
    }

    /// The engine's single entry point: log the message under its arrival
    /// position, then dispatch to the handler for its kind.
    pub fn handle_tx_message(&mut self, transaction_msg: &TransactionMessage)
        requires
            old(self)@.wf(),
            can_apply(old(self)@, *transaction_msg),
        ensures
            final(self)@ == spec_apply(old(self)@, *transaction_msg),
            final(self)@.wf(),
    {
        self.tx_msgs_time.insert(transaction_msg.tx_time, *transaction_msg);
        proof {
            assert(self@ =~= (LedgerView {
                msgs: old(self)@.msgs.insert(transaction_msg.tx_time, *transaction_msg),
                ..old(self)@
            }));
        }
        match transaction_msg.tx_type {
            TransactionType::DEPOSIT => self.deposit_tx(transaction_msg),
            TransactionType::WITHDRAWAL => self.withdrawal_tx(transaction_msg),
            TransactionType::DISPUTE => self.dispute_tx(transaction_msg),
            TransactionType::RESOLVE => self.resolve_tx(transaction_msg),
            TransactionType::CHARGEBACK => self.chargeback_tx(transaction_msg),
        }
    }
}

} // verus!
