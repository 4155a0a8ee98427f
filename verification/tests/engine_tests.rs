use payments_engine::engine::AccountTransactions;
use payments_engine::state::{TransactionMessage, TransactionType};

fn msg(time: u32, tx: u32, tx_type: TransactionType, client: u16, amount: u64) -> TransactionMessage {
    TransactionMessage { tx_time: time, tx, tx_type, client, amount }
}

fn deposit(time: u32, tx: u32, client: u16, amount: u64) -> TransactionMessage {
    msg(time, tx, TransactionType::DEPOSIT, client, amount)
}

fn withdraw(time: u32, tx: u32, client: u16, amount: u64) -> TransactionMessage {
    msg(time, tx, TransactionType::WITHDRAWAL, client, amount)
}

fn dispute(time: u32, tx: u32, client: u16) -> TransactionMessage {
    msg(time, tx, TransactionType::DISPUTE, client, 0)
}

fn resolve(time: u32, tx: u32, client: u16) -> TransactionMessage {
    msg(time, tx, TransactionType::RESOLVE, client, 0)
}

fn chargeback(time: u32, tx: u32, client: u16) -> TransactionMessage {
    msg(time, tx, TransactionType::CHARGEBACK, client, 0)
}

fn balance_split_holds(ledger: &AccountTransactions, client: u16) -> bool {
    let a = ledger.account_of(client).unwrap();
    a.total == a.available + a.held
}

#[test]
fn scenario_two_deposits_one_withdrawal() {
    let mut ledger = AccountTransactions::new();
    ledger.handle_tx_message(&deposit(1, 1, 1, 100000));
    ledger.handle_tx_message(&deposit(2, 2, 2, 200000));
    ledger.handle_tx_message(&withdraw(3, 3, 1, 50000));

    let a1 = ledger.account_of(1).unwrap();
    assert_eq!(a1.available, 50000);
    assert_eq!(a1.held, 0);
    assert_eq!(a1.total, 50000);
    assert!(!a1.locked);

    let a2 = ledger.account_of(2).unwrap();
    assert_eq!(a2.available, 200000);
    assert_eq!(a2.held, 0);
    assert_eq!(a2.total, 200000);
    assert!(!a2.locked);
}

#[test]
fn scenario_withdrawal_rejected_on_insufficient_funds() {
    let mut ledger = AccountTransactions::new();
    ledger.handle_tx_message(&deposit(1, 1, 1, 50000));
    ledger.handle_tx_message(&withdraw(2, 2, 1, 100000));

    let a1 = ledger.account_of(1).unwrap();
    assert_eq!(a1.available, 50000);
    assert_eq!(a1.total, 50000);

    // the rejected withdrawal is still recorded in the transaction store
    let stored = ledger.stored_tx(2).unwrap();
    assert_eq!(stored.client, 1);
    assert_eq!(stored.amount, 100000);
    assert!(!stored.disputed);
}

#[test]
fn scenario_dispute_then_chargeback() {
    let mut ledger = AccountTransactions::new();
    ledger.handle_tx_message(&deposit(1, 1, 1, 100000));
    ledger.handle_tx_message(&dispute(2, 1, 1));

    let held_state = ledger.account_of(1).unwrap();
    assert_eq!(held_state.available, 0);
    assert_eq!(held_state.held, 100000);
    assert_eq!(held_state.total, 100000);
    assert!(ledger.stored_tx(1).unwrap().disputed);

    ledger.handle_tx_message(&chargeback(3, 1, 1));
    let final_state = ledger.account_of(1).unwrap();
    assert_eq!(final_state.available, 0);
    assert_eq!(final_state.held, 0);
    assert_eq!(final_state.total, 0);
    assert!(final_state.locked);
    assert!(!ledger.stored_tx(1).unwrap().disputed);
}

#[test]
fn scenario_resolve_without_prior_dispute_is_rejected() {
    let mut ledger = AccountTransactions::new();
    ledger.handle_tx_message(&deposit(1, 1, 1, 100000));
    ledger.handle_tx_message(&resolve(2, 1, 1));

    let a1 = ledger.account_of(1).unwrap();
    assert_eq!(a1.available, 100000);
    assert_eq!(a1.held, 0);
    assert_eq!(a1.total, 100000);
    assert!(!a1.locked);
    assert!(!ledger.stored_tx(1).unwrap().disputed);
}

#[test]
fn scenario_dispute_for_unknown_client_creates_zero_account() {
    let mut ledger = AccountTransactions::new();
    ledger.handle_tx_message(&dispute(1, 99, 7));

    let a7 = ledger.account_of(7).unwrap();
    assert_eq!(a7.available, 0);
    assert_eq!(a7.held, 0);
    assert_eq!(a7.total, 0);
    assert!(!a7.locked);
    assert!(ledger.stored_tx(99).is_none());
}

#[test]
fn dispute_then_resolve_restores_balances() {
    let mut ledger = AccountTransactions::new();
    ledger.handle_tx_message(&deposit(1, 1, 1, 70000));
    ledger.handle_tx_message(&deposit(2, 2, 1, 30000));
    let before = ledger.account_of(1).unwrap();

    ledger.handle_tx_message(&dispute(3, 2, 1));
    ledger.handle_tx_message(&resolve(4, 2, 1));

    let after = ledger.account_of(1).unwrap();
    assert_eq!(after.available, before.available);
    assert_eq!(after.held, before.held);
    assert_eq!(after.total, before.total);
    assert_eq!(after.locked, before.locked);
}

#[test]
fn lock_survives_later_operations() {
    let mut ledger = AccountTransactions::new();
    ledger.handle_tx_message(&deposit(1, 1, 1, 100000));
    ledger.handle_tx_message(&dispute(2, 1, 1));
    ledger.handle_tx_message(&chargeback(3, 1, 1));
    assert!(ledger.account_of(1).unwrap().locked);

    // a locked account still takes deposits and withdrawals, and stays locked
    ledger.handle_tx_message(&deposit(4, 4, 1, 20000));
    assert!(ledger.account_of(1).unwrap().locked);
    ledger.handle_tx_message(&withdraw(5, 5, 1, 10000));
    assert!(ledger.account_of(1).unwrap().locked);
    ledger.handle_tx_message(&resolve(6, 4, 1));
    assert!(ledger.account_of(1).unwrap().locked);
}

#[test]
fn balance_split_invariant_holds_at_every_step() {
    let mut ledger = AccountTransactions::new();
    let steps = vec![
        deposit(1, 1, 1, 100000),
        deposit(2, 2, 1, 55555),
        withdraw(3, 3, 1, 4444),
        dispute(4, 2, 1),
        resolve(5, 2, 1),
        dispute(6, 1, 1),
        chargeback(7, 1, 1),
        withdraw(8, 8, 1, 1),
    ];
    for step in &steps {
        ledger.handle_tx_message(step);
        assert!(balance_split_holds(&ledger, 1));
    }
}

#[test]
fn dispute_rejected_when_available_funds_do_not_cover() {
    let mut ledger = AccountTransactions::new();
    ledger.handle_tx_message(&deposit(1, 1, 1, 100000));
    ledger.handle_tx_message(&withdraw(2, 2, 1, 60000));
    // tx 1 is worth 10.0000 but only 4.0000 is available: the hold is refused
    ledger.handle_tx_message(&dispute(3, 1, 1));

    let a1 = ledger.account_of(1).unwrap();
    assert_eq!(a1.available, 40000);
    assert_eq!(a1.held, 0);
    assert!(!ledger.stored_tx(1).unwrap().disputed);
}

#[test]
fn dispute_of_unknown_transaction_changes_nothing() {
    let mut ledger = AccountTransactions::new();
    ledger.handle_tx_message(&deposit(1, 1, 1, 100000));
    ledger.handle_tx_message(&dispute(2, 42, 1));

    let a1 = ledger.account_of(1).unwrap();
    assert_eq!(a1.available, 100000);
    assert_eq!(a1.held, 0);
    assert!(ledger.stored_tx(42).is_none());
}

#[test]
fn withdrawal_for_unknown_client_creates_zero_account() {
    let mut ledger = AccountTransactions::new();
    ledger.handle_tx_message(&withdraw(1, 1, 9, 100000));

    let a9 = ledger.account_of(9).unwrap();
    assert_eq!(a9.available, 0);
    assert_eq!(a9.total, 0);
    assert!(!a9.locked);
    // the withdrawal is still stored
    assert_eq!(ledger.stored_tx(1).unwrap().amount, 100000);
}

#[test]
fn reused_transaction_id_overwrites_stored_transaction() {
    let mut ledger = AccountTransactions::new();
    ledger.handle_tx_message(&deposit(1, 1, 1, 100000));
    ledger.handle_tx_message(&deposit(2, 1, 1, 5000));
    let stored = ledger.stored_tx(1).unwrap();
    assert_eq!(stored.amount, 5000);
    // both deposits were credited all the same
    assert_eq!(ledger.account_of(1).unwrap().available, 105000);
}

#[test]
fn accounts_list_returns_every_account_once() {
    let mut ledger = AccountTransactions::new();
    ledger.handle_tx_message(&deposit(1, 1, 1, 100000));
    ledger.handle_tx_message(&deposit(2, 2, 2, 200000));
    ledger.handle_tx_message(&dispute(3, 9, 3));

    let mut accounts = ledger.accounts_list();
    accounts.sort_by_key(|a| a.client);
    assert_eq!(accounts.len(), 3);
    assert_eq!(accounts[0].client, 1);
    assert_eq!(accounts[0].total, 100000);
    assert_eq!(accounts[1].client, 2);
    assert_eq!(accounts[1].total, 200000);
    assert_eq!(accounts[2].client, 3);
    assert_eq!(accounts[2].total, 0);
}

#[test]
fn empty_ledger_knows_nothing() {
    let ledger = AccountTransactions::new();
    assert!(ledger.account_of(1).is_none());
    assert!(ledger.stored_tx(1).is_none());
    assert!(ledger.accounts_list().is_empty());
}
