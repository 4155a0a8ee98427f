//! The transition rules of the engine, one spec function per record kind.
//! These are the authoritative statement of what applying a record does to
//! the ledger; the executable handlers in `engine` are proved against them.

use vstd::prelude::*;

use crate::state::{stored_tx_of, zero_account, LedgerView, TransactionMessage, TransactionType};
use crate::state::{Account, Tx};

verus! {

/// A deposit into an existing account must not overflow the 64-bit balances:
/// the new total would be `available + held + amount`.
pub open spec fn deposit_fits(l: LedgerView, msg: TransactionMessage) -> bool {
    l.accounts.contains_key(msg.client) ==> l.accounts[msg.client].available
        + l.accounts[msg.client].held + msg.amount <= u64::MAX
}

/// What the engine asks of a record before applying it: only a deposit has a
/// machine limit (its balances must still fit in 64 bits); every other kind
/// is accepted in any state.
pub open spec fn can_apply(l: LedgerView, msg: TransactionMessage) -> bool {
    msg.tx_type is DEPOSIT ==> deposit_fits(l, msg)
}

/// DEPOSIT: store the transaction (last write wins on a reused id), then
/// credit the client's available funds; an unknown client gets a fresh
/// account holding exactly the deposited amount.
pub open spec fn spec_deposit(l: LedgerView, msg: TransactionMessage) -> LedgerView {
    let txs = l.txs.insert(msg.tx, stored_tx_of(msg));
    let accounts = if l.accounts.contains_key(msg.client) {
        let a = l.accounts[msg.client];
        l.accounts.insert(
            msg.client,
            Account {
                client: a.client,
                available: (a.available + msg.amount) as u64,
                held: a.held,
                total: (a.available + msg.amount + a.held) as u64,
                locked: a.locked,
            },
        )
    } else {
        l.accounts.insert(
            msg.client,
            Account {
                client: msg.client,
                available: msg.amount,
                held: 0,
                total: msg.amount,
                locked: false,
            },
        )
    };
    LedgerView { txs, accounts, ..l }
}

/// WITHDRAWAL: store the transaction unconditionally, then debit available
/// funds only when they suffice; an unknown client gets a zero account and
/// the debit is rejected.
pub open spec fn spec_withdrawal(l: LedgerView, msg: TransactionMessage) -> LedgerView {
    let txs = l.txs.insert(msg.tx, stored_tx_of(msg));
    let accounts = if l.accounts.contains_key(msg.client) {
        let a = l.accounts[msg.client];
        if msg.amount <= a.available {
            l.accounts.insert(
                msg.client,
                Account {
                    client: a.client,
                    available: (a.available - msg.amount) as u64,
                    held: a.held,
                    total: (a.available - msg.amount + a.held) as u64,
                    locked: a.locked,
                },
            )
        } else {
            l.accounts
        }
    } else {
        l.accounts.insert(msg.client, zero_account(msg.client))
    };
    LedgerView { txs, accounts, ..l }
}

/// DISPUTE: place a hold for the referenced transaction's amount when the
/// client's available funds cover it, and mark the transaction disputed.
/// Unknown client: a zero account appears and nothing else changes.
/// Unknown transaction or insufficient available funds: no change.
pub open spec fn spec_dispute(l: LedgerView, msg: TransactionMessage) -> LedgerView {
    if !l.accounts.contains_key(msg.client) {
        LedgerView { accounts: l.accounts.insert(msg.client, zero_account(msg.client)), ..l }
    } else if !l.txs.contains_key(msg.tx) {
        l
    } else {
        let a = l.accounts[msg.client];
        let t = l.txs[msg.tx];
        if t.amount <= a.available {
            LedgerView {
                accounts: l.accounts.insert(
                    msg.client,
                    Account {
                        client: a.client,
                        available: (a.available - t.amount) as u64,
                        held: (a.held + t.amount) as u64,
                        total: a.total,
                        locked: a.locked,
                    },
                ),
                txs: l.txs.insert(msg.tx, Tx { disputed: true, ..t }),
                ..l
            }
        } else {
            l
        }
    }
}

/// RESOLVE: release a hold. Only a transaction currently disputed, whose
/// amount the held funds cover, is resolved: the hold moves back to
/// available and the disputed mark is cleared. Unknown client: a zero
/// account appears. Anything else: no change.
pub open spec fn spec_resolve(l: LedgerView, msg: TransactionMessage) -> LedgerView {
    if !l.accounts.contains_key(msg.client) {
        LedgerView { accounts: l.accounts.insert(msg.client, zero_account(msg.client)), ..l }
    } else if !l.txs.contains_key(msg.tx) {
        l
    } else {
        let a = l.accounts[msg.client];
        let t = l.txs[msg.tx];
        if t.disputed && t.amount <= a.held {
            LedgerView {
                accounts: l.accounts.insert(
                    msg.client,
                    Account {
                        client: a.client,
                        available: (a.available + t.amount) as u64,
                        held: (a.held - t.amount) as u64,
                        total: a.total,
                        locked: a.locked,
                    },
                ),
                txs: l.txs.insert(msg.tx, Tx { disputed: false, ..t }),
                ..l
            }
        } else {
            l
        }
    }
}

/// CHARGEBACK: the terminal dispute outcome. Only a transaction currently
/// disputed, whose amount the held funds cover, charges back: the held
/// funds (and with them the total) drop by the amount, the account locks
/// permanently, and the disputed mark is cleared. Unknown client: a zero
/// account appears. Anything else: no change.
pub open spec fn spec_chargeback(l: LedgerView, msg: TransactionMessage) -> LedgerView {
    if !l.accounts.contains_key(msg.client) {
        LedgerView { accounts: l.accounts.insert(msg.client, zero_account(msg.client)), ..l }
    } else if !l.txs.contains_key(msg.tx) {
        l
    } else {
        let a = l.accounts[msg.client];
        let t = l.txs[msg.tx];
        if t.disputed && t.amount <= a.held {
            LedgerView {
                accounts: l.accounts.insert(
                    msg.client,
                    Account {
                        client: a.client,
                        available: a.available,
                        held: (a.held - t.amount) as u64,
                        total: (a.available + (a.held - t.amount)) as u64,
                        locked: true,
                    },
                ),
                txs: l.txs.insert(msg.tx, Tx { disputed: false, ..t }),
                ..l
            }
        } else {
            l
        }
    }
}

/// One step of the engine: log the message under its arrival position, then
/// dispatch on the record kind.
pub open spec fn spec_apply(l: LedgerView, msg: TransactionMessage) -> LedgerView {
    let logged = LedgerView { msgs: l.msgs.insert(msg.tx_time, msg), ..l };
    match msg.tx_type {
        TransactionType::DEPOSIT => spec_deposit(logged, msg),
        TransactionType::WITHDRAWAL => spec_withdrawal(logged, msg),
        TransactionType::DISPUTE => spec_dispute(logged, msg),
        TransactionType::RESOLVE => spec_resolve(logged, msg),
        TransactionType::CHARGEBACK => spec_chargeback(logged, msg),
    }
}

} // verus!
