//! General laws of the ledger, proved once and for all over the
//! mathematical model of [`crate::model`]. Since [`crate::Engine::handle`]
//! is proved to follow [`step`] exactly, each law carries over to any
//! sequence of events applied to a live engine.

use vstd::prelude::*;

use crate::errors::ErrorType;
use crate::model::{account_of, report, step, LedgerModel, RecordModel, Status};
use crate::{Amount, ClientId, Event, Transaction, TransactionId};

verus! {

/// The deposit event `client` would file for `tx` over `amount`.
pub open spec fn deposit_event(client: ClientId, tx: TransactionId, amount: Amount) -> Transaction {
    Transaction { client, event: Event::Deposit { tx, amount } }
}

/// The withdrawal event `client` would file for `tx` over `amount`.
pub open spec fn withdrawal_event(
    client: ClientId,
    tx: TransactionId,
    amount: Amount,
) -> Transaction {
    Transaction { client, event: Event::Withdrawal { tx, amount } }
}

/// The dispute event `client` would file against `tx`.
pub open spec fn dispute_event(client: ClientId, tx: TransactionId) -> Transaction {
    Transaction { client, event: Event::Dispute { tx } }
}

/// The resolve event `client` would file against `tx`.
pub open spec fn resolve_event(client: ClientId, tx: TransactionId) -> Transaction {
    Transaction { client, event: Event::Resolve { tx } }
}

/// The chargeback event `client` would file against `tx`.
pub open spec fn chargeback_event(client: ClientId, tx: TransactionId) -> Transaction {
    Transaction { client, event: Event::Chargeback { tx } }
}

/// A rejected event leaves the ledger exactly as it was: every rejection
/// is local to the single event, and mutation is all-or-nothing.
pub proof fn lemma_rejection_mutates_nothing(s: LedgerModel, t: Transaction)
    requires
        step(s, t).1 is Some,
    ensures
        step(s, t).0 == s,
{
}

/// Every reported snapshot satisfies `total == available + held`, for
/// every client, in every state the engine can hold.
pub proof fn lemma_total_is_available_plus_held(s: LedgerModel, c: ClientId)
    requires
        s.inv(),
    ensures
        report(s, c).total.units == report(s, c).available.units + report(s, c).held.units,
{
}

/// Transaction identifiers are globally unique: after a deposit has
/// committed under some identifier, a later deposit reusing it — even one
/// filed by a different client — is rejected with `ReusedTransactionId`
/// and changes nothing. (A reusing deposit with a negative amount is also
/// rejected and also changes nothing, but as `NegativeDeposit`, since that
/// check comes first.)
pub proof fn lemma_reused_transaction_id(
    s: LedgerModel,
    first: Transaction,
    second: Transaction,
    tx: TransactionId,
)
    requires
        first.event matches Event::Deposit { tx: tx1, .. } && tx1 == tx,
        second.event matches Event::Deposit { tx: tx2, amount } && tx2 == tx && amount.units >= 0,
        step(s, first).1 is None,
    ensures
        step(step(s, first).0, second).1 == Some(ErrorType::ReusedTransactionId { tx }),
        step(step(s, first).0, second).0 == step(s, first).0,
{
    assert(step(s, first).0.records.dom().contains(tx));
}

/// A withdrawal exceeding the available balance fails with
/// `InsufficientFunds` and leaves every balance unchanged.
pub proof fn lemma_insufficient_funds(
    s: LedgerModel,
    client: ClientId,
    tx: TransactionId,
    amount: Amount,
)
    requires
        amount.units >= 0,
        !s.records.dom().contains(tx),
        !account_of(s, client).locked,
        account_of(s, client).available < amount.units,
    ensures
        step(s, withdrawal_event(client, tx, amount)) == (
            s,
            Some(ErrorType::InsufficientFunds { client, tx }),
        ),
{
}

/// Dispute → Resolve round-trip is the identity on `(available, held)`:
/// disputing and then resolving the same transaction always succeeds as a
/// pair and returns both balances of every client to their pre-dispute
/// values.
pub proof fn lemma_dispute_resolve_roundtrip(
    s: LedgerModel,
    client: ClientId,
    tx: TransactionId,
    c: ClientId,
)
    requires
        step(s, dispute_event(client, tx)).1 is None,
    ensures
        step(step(s, dispute_event(client, tx)).0, resolve_event(client, tx)).1 is None,
        account_of(
            step(step(s, dispute_event(client, tx)).0, resolve_event(client, tx)).0,
            c,
        ).available == account_of(s, c).available,
        account_of(step(step(s, dispute_event(client, tx)).0, resolve_event(client, tx)).0, c).held
            == account_of(s, c).held,
{
    let s1 = step(s, dispute_event(client, tx)).0;
    let s2 = step(s1, resolve_event(client, tx)).0;
    let r = s.records[tx];
    assert(s1.records[tx] == (RecordModel { status: Status::UnderDispute, ..r }));
    if c == r.client {
        assert(account_of(s2, c).available == account_of(s, c).available);
    }
}

/// Dispute → Chargeback always succeeds as a pair, marks the transaction
/// `Reversed`, permanently removes the disputed amount from `held`, leaves
/// `available` untouched by the chargeback step itself, and locks the
/// owner's account.
pub proof fn lemma_dispute_chargeback(s: LedgerModel, client: ClientId, tx: TransactionId)
    requires
        step(s, dispute_event(client, tx)).1 is None,
    ensures
        step(step(s, dispute_event(client, tx)).0, chargeback_event(client, tx)).1 is None,
        step(step(s, dispute_event(client, tx)).0, chargeback_event(client, tx)).0.records[tx].status
            == Status::Reversed,
        account_of(
            step(step(s, dispute_event(client, tx)).0, chargeback_event(client, tx)).0,
            s.records[tx].client,
        ).locked,
        account_of(
            step(step(s, dispute_event(client, tx)).0, chargeback_event(client, tx)).0,
            s.records[tx].client,
        ).held == account_of(step(s, dispute_event(client, tx)).0, s.records[tx].client).held
            - s.records[tx].amount,
        account_of(
            step(step(s, dispute_event(client, tx)).0, chargeback_event(client, tx)).0,
            s.records[tx].client,
        ).available == account_of(step(s, dispute_event(client, tx)).0, s.records[tx].client).available,
{
}

/// Once an account is locked, every further deposit or withdrawal on it
/// is rejected with `LockedAccount` and changes nothing. (Events that an
/// earlier check already rejects — a negative amount, a reused transaction
/// identifier — fail with that earlier kind instead.)
pub proof fn lemma_locked_account_rejects(
    s: LedgerModel,
    client: ClientId,
    tx: TransactionId,
    amount: Amount,
)
    requires
        account_of(s, client).locked,
        amount.units >= 0,
        !s.records.dom().contains(tx),
    ensures
        step(s, deposit_event(client, tx, amount)) == (
            s,
            Some(ErrorType::LockedAccount { client }),
        ),
        step(s, withdrawal_event(client, tx, amount)) == (
            s,
            Some(ErrorType::LockedAccount { client }),
        ),
{
}

/// Locking blocks deposits and withdrawals only, never the dispute
/// lifecycle: a dispute against a still-undisputed transaction succeeds
/// whether or not the owning account is locked — no check of the lock
/// appears in the dispute rule.
pub proof fn lemma_lock_does_not_block_dispute(s: LedgerModel, client: ClientId, tx: TransactionId)
    requires
        s.records.dom().contains(tx),
        s.records[tx].status == Status::Undisputed,
        s.records[tx].client == client || s.global_dispute,
    ensures
        step(s, dispute_event(client, tx)).1 is None,
{
}

} // verus!
