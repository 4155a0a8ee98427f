//! Proved laws of the engine: the balance-split invariant is preserved by
//! every transition, a dispute followed by its resolve restores the
//! balances exactly, and a locked account never unlocks.

use vstd::prelude::*;

use crate::state::{account_wf, LedgerView, TransactionMessage};
use crate::transitions::{
    can_apply, deposit_fits, spec_apply, spec_chargeback, spec_deposit, spec_dispute,
    spec_resolve, spec_withdrawal,
};

verus! {

/// A deposit that fits keeps every account well formed: in particular
/// `total == available + held` still holds everywhere.
pub proof fn lemma_deposit_preserves_wf(l: LedgerView, msg: TransactionMessage)
    requires
        l.wf(),
        deposit_fits(l, msg),
    ensures
        spec_deposit(l, msg).wf(),
{
}

/// A withdrawal keeps every account well formed.
pub proof fn lemma_withdrawal_preserves_wf(l: LedgerView, msg: TransactionMessage)
    requires
        l.wf(),
    ensures
        spec_withdrawal(l, msg).wf(),
{
}

/// A dispute keeps every account well formed: the hold moves funds between
/// `available` and `held` without touching their sum.
pub proof fn lemma_dispute_preserves_wf(l: LedgerView, msg: TransactionMessage)
    requires
        l.wf(),
    ensures
        spec_dispute(l, msg).wf(),
{
}

/// A resolve keeps every account well formed: the released hold moves back
/// to `available` without touching the sum.
pub proof fn lemma_resolve_preserves_wf(l: LedgerView, msg: TransactionMessage)
    requires
        l.wf(),
    ensures
        spec_resolve(l, msg).wf(),
{
}

/// A chargeback keeps every account well formed: the held funds and the
/// total drop together by the charged amount.
pub proof fn lemma_chargeback_preserves_wf(l: LedgerView, msg: TransactionMessage)
    requires
        l.wf(),
    ensures
        spec_chargeback(l, msg).wf(),
{
}

/// The balance-split invariant: applying any record the engine accepts to a
/// well-formed ledger leaves every account with `total == available + held`.
pub proof fn lemma_apply_preserves_wf(l: LedgerView, msg: TransactionMessage)
    requires
        l.wf(),
        can_apply(l, msg),
    ensures
        spec_apply(l, msg).wf(),
{
    let logged = LedgerView { msgs: l.msgs.insert(msg.tx_time, msg), ..l };
    match msg.tx_type {
        crate::state::TransactionType::DEPOSIT => lemma_deposit_preserves_wf(logged, msg),
        crate::state::TransactionType::WITHDRAWAL => lemma_withdrawal_preserves_wf(logged, msg),
        crate::state::TransactionType::DISPUTE => lemma_dispute_preserves_wf(logged, msg),
        crate::state::TransactionType::RESOLVE => lemma_resolve_preserves_wf(logged, msg),
        crate::state::TransactionType::CHARGEBACK => lemma_chargeback_preserves_wf(logged, msg),
    }
}

/// Monotonic lock: once an account is locked, no record of any kind unlocks
/// it (or removes the account).
pub proof fn lemma_locked_is_monotonic(l: LedgerView, msg: TransactionMessage, client: u16)
    requires
        l.accounts.contains_key(client),
        l.accounts[client].locked,
    ensures
        spec_apply(l, msg).accounts.contains_key(client),
        spec_apply(l, msg).accounts[client].locked,
{
}

/// Reversibility of a hold: a dispute that succeeds, followed at once by a
/// resolve of the same transaction for the same client, returns the
/// account's `available`, `held`, `total` and `locked` to exactly their
/// values before the dispute.
pub proof fn lemma_dispute_then_resolve_restores(
    l: LedgerView,
    dispute: TransactionMessage,
    resolve: TransactionMessage,
)
    requires
        l.wf(),
        dispute.tx_type is DISPUTE,
        resolve.tx_type is RESOLVE,
        resolve.client == dispute.client,
        resolve.tx == dispute.tx,
        l.accounts.contains_key(dispute.client),
        l.txs.contains_key(dispute.tx),
        l.txs[dispute.tx].amount <= l.accounts[dispute.client].available,
    ensures
        ({
            let before = l.accounts[dispute.client];
            let after = spec_apply(spec_apply(l, dispute), resolve).accounts[dispute.client];
            &&& spec_apply(spec_apply(l, dispute), resolve).accounts.contains_key(dispute.client)
            &&& after.available == before.available
            &&& after.held == before.held
            &&& after.total == before.total
            &&& after.locked == before.locked
        }),
{
    assert(account_wf(dispute.client, l.accounts[dispute.client]));
}

} // verus!
