//! Data model of the payments engine: transaction records, per-client
//! accounts, and the mathematical view of the whole ledger.

use vstd::prelude::*;

verus! {

/// The kind of an incoming transaction record.
#[derive(Clone, Copy, Debug, PartialEq, Eq, Structural)]
pub enum TransactionType {
    WITHDRAWAL,
    DEPOSIT,
    DISPUTE,
    RESOLVE,
    CHARGEBACK,
}

/// A canonical in-memory transaction message: one normalized input record.
/// `amount` is a count of currency subunits (1/10,000 of the display unit).
/// `tx_time` is the monotonic arrival position of the record in the stream.
#[derive(Clone, Copy, Debug, PartialEq, Eq, Structural)]
pub struct TransactionMessage {
    pub tx_time: u32,
    pub tx: u32,
    pub tx_type: TransactionType,
    pub client: u16,
    pub amount: u64,
}

/// A stored transaction: the ledger's retained record of a deposit or
/// withdrawal, referenced later by dispute/resolve/chargeback via `tx`.
/// Only `disputed` ever changes after creation.
#[derive(Clone, Copy, Debug, PartialEq, Eq, Structural)]
pub struct Tx {
    pub tx: u32,
    pub tx_type: TransactionType,
    pub client: u16,
    pub amount: u64,
    pub disputed: bool,
}

/// Per-client balance state. All amounts are currency subunits.
/// Invariant (see `account_wf`): `total == available + held`.
#[derive(Clone, Copy, Debug, PartialEq, Eq, Structural)]
pub struct Account {
    pub client: u16,
    pub available: u64,
    pub held: u64,
    pub total: u64,
    pub locked: bool,
}

/// The mathematical state of the ledger: stored transactions keyed by
/// transaction id, accounts keyed by client id, and the audit log of
/// messages keyed by arrival position.
#[verifier::ext_equal]
pub ghost struct LedgerView {
    pub txs: Map<u32, Tx>,
    pub accounts: Map<u16, Account>,
    pub msgs: Map<u32, TransactionMessage>,
}

/// An account is well formed when it sits under its own client id and its
/// balances split exactly: `total == available + held`.
pub open spec fn account_wf(client: u16, a: Account) -> bool {
    &&& a.client == client
    &&& a.total == a.available + a.held
}

/// A stored transaction sits under its own transaction id.
pub open spec fn tx_wf(txid: u32, t: Tx) -> bool {
    t.tx == txid
}

impl LedgerView {
    /// Well-formedness of the whole ledger: every account and every stored
    /// transaction is well formed under its key.
    pub open spec fn wf(self) -> bool {
        &&& forall|c: u16|
            self.accounts.contains_key(c) ==> account_wf(c, #[trigger] self.accounts[c])
        &&& forall|t: u32| self.txs.contains_key(t) ==> tx_wf(t, #[trigger] self.txs[t])
    }
}

/// The ledger before any record has been applied.
pub open spec fn empty_ledger() -> LedgerView {
    LedgerView {
        txs: Map::<u32, Tx>::empty(),
        accounts: Map::<u16, Account>::empty(),
        msgs: Map::<u32, TransactionMessage>::empty(),
    }
}

/// A freshly created account for a client never seen before.
pub open spec fn zero_account(client: u16) -> Account {
    Account { client, available: 0, held: 0, total: 0, locked: false }
}

/// The stored form of a deposit or withdrawal message.
pub open spec fn stored_tx_of(msg: TransactionMessage) -> Tx {
    Tx {
        tx: msg.tx,
        tx_type: msg.tx_type,
        client: msg.client,
        amount: msg.amount,
        disputed: false,
    }
}

} // verus!
