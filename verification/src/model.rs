//! The mathematical model of the ledger: the state as maps over unbounded
//! integers, and one pure transition function per event kind. The
//! executable engine is proved to follow [`step`] exactly, so every rule of
//! the ledger is stated here, once, in full.

use vstd::prelude::*;

use crate::errors::ErrorType;
use crate::{AccountInfo, Amount, ClientId, Event, Transaction, TransactionId};

verus! {

/// Dispute lifecycle of a recorded transaction. `Reversed` is terminal:
/// once a chargeback has landed, the transaction can never be disputed,
/// resolved or charged back again.
#[derive(Clone, Copy, Debug, PartialEq, Eq, Structural)]
pub enum Status {
    Undisputed,
    UnderDispute,
    Reversed,
}

/// Mathematical state of one client account.
#[verifier::ext_equal]
pub ghost struct AccountModel {
    /// Funds free to withdraw; may go negative while a deposit whose funds
    /// were already spent is under dispute.
    pub available: int,
    /// Funds frozen by open disputes.
    pub held: int,
    /// Permanently true once a chargeback has landed on this account.
    pub locked: bool,
}

/// Mathematical record of one committed deposit or withdrawal. `amount` is
/// signed: positive for a deposit, negative for a withdrawal, so the
/// dispute transitions need a single arithmetic formula.
#[verifier::ext_equal]
pub ghost struct RecordModel {
    pub client: ClientId,
    pub amount: int,
    pub status: Status,
}

/// Mathematical state of the whole engine.
#[verifier::ext_equal]
pub ghost struct LedgerModel {
    pub accounts: Map<ClientId, AccountModel>,
    pub records: Map<TransactionId, RecordModel>,
    /// Policy switch fixed at configuration time: when true, any client may
    /// dispute any transaction; when false, only the original owner may.
    pub global_dispute: bool,
}

/// The state of a client never seen: zero balances, not locked.
pub open spec fn empty_account() -> AccountModel {
    AccountModel { available: 0, held: 0, locked: false }
}

/// The account of `c`, defaulting to the empty account for a client with no
/// ledger state yet.
pub open spec fn account_of(s: LedgerModel, c: ClientId) -> AccountModel {
    if s.accounts.dom().contains(c) {
        s.accounts[c]
    } else {
        empty_account()
    }
}

/// The state a freshly constructed engine starts in.
pub open spec fn empty_ledger() -> LedgerModel {
    LedgerModel { accounts: Map::empty(), records: Map::empty(), global_dispute: false }
}

/// Deposit: reject a negative amount, a reused transaction identifier, or a
/// locked account, in that order; otherwise record the transaction with
/// `+amount` and credit `available`.
pub open spec fn step_deposit(
    s: LedgerModel,
    client: ClientId,
    tx: TransactionId,
    amount: Amount,
) -> (LedgerModel, Option<ErrorType>) {
    if amount.units < 0 {
        (s, Some(ErrorType::NegativeDeposit { tx }))
    } else if s.records.dom().contains(tx) {
        (s, Some(ErrorType::ReusedTransactionId { tx }))
    } else if account_of(s, client).locked {
        (s, Some(ErrorType::LockedAccount { client }))
    } else {
        let a = account_of(s, client);
        let a2 = AccountModel { available: a.available + amount.units, ..a };
        let r = RecordModel { client, amount: amount.units as int, status: Status::Undisputed };
        (
            LedgerModel {
                accounts: s.accounts.insert(client, a2),
                records: s.records.insert(tx, r),
                ..s
            },
            None,
        )
    }
}

/// Withdrawal: reject a negative amount, a reused transaction identifier, a
/// locked account, or insufficient available funds, in that order;
/// otherwise record the transaction with `-amount` and debit `available`.
pub open spec fn step_withdrawal(
    s: LedgerModel,
    client: ClientId,
    tx: TransactionId,
    amount: Amount,
) -> (LedgerModel, Option<ErrorType>) {
    if amount.units < 0 {
        (s, Some(ErrorType::NegativeWithdrawal { tx }))
    } else if s.records.dom().contains(tx) {
        (s, Some(ErrorType::ReusedTransactionId { tx }))
    } else if account_of(s, client).locked {
        (s, Some(ErrorType::LockedAccount { client }))
    } else if account_of(s, client).available < amount.units {
        (s, Some(ErrorType::InsufficientFunds { client, tx }))
    } else {
        let a = account_of(s, client);
        let a2 = AccountModel { available: a.available - amount.units, ..a };
        let r = RecordModel { client, amount: -(amount.units as int), status: Status::Undisputed };
        (
            LedgerModel {
                accounts: s.accounts.insert(client, a2),
                records: s.records.insert(tx, r),
                ..s
            },
            None,
        )
    }
}

/// The checks shared by dispute, resolve and chargeback: the transaction
/// must exist, and it must belong to the filing client unless the
/// `global_dispute` policy is on.
pub open spec fn dispute_target_err(
    s: LedgerModel,
    client: ClientId,
    tx: TransactionId,
) -> Option<ErrorType> {
    if !s.records.dom().contains(tx) {
        Some(ErrorType::UnknownTransactionForDispute { tx })
    } else if s.records[tx].client != client && !s.global_dispute {
        Some(ErrorType::TransactionDoesNotMatchClient { tx, client })
    } else {
        None
    }
}

/// Dispute: the transaction must not already be under dispute or reversed.
/// On success its signed amount moves from `available` to `held` on the
/// owner's account: disputing a deposit freezes positive value, disputing a
/// withdrawal moves a negative amount, so `held` decreases and `available`
/// increases.
pub open spec fn step_dispute(
    s: LedgerModel,
    client: ClientId,
    tx: TransactionId,
) -> (LedgerModel, Option<ErrorType>) {
    if dispute_target_err(s, client, tx) is Some {
        (s, dispute_target_err(s, client, tx))
    } else if s.records[tx].status != Status::Undisputed {
        (s, Some(ErrorType::TransactionAlreadyUnderDispute { tx }))
    } else {
        let r = s.records[tx];
        let a = account_of(s, r.client);
        let a2 = AccountModel { available: a.available - r.amount, held: a.held + r.amount, ..a };
        let r2 = RecordModel { status: Status::UnderDispute, ..r };
        (
            LedgerModel {
                accounts: s.accounts.insert(r.client, a2),
                records: s.records.insert(tx, r2),
                ..s
            },
            None,
        )
    }
}

/// Resolve: the transaction must be under dispute. On success the exact
/// inverse of the dispute transition runs, and the transaction becomes
/// eligible for dispute again.
pub open spec fn step_resolve(
    s: LedgerModel,
    client: ClientId,
    tx: TransactionId,
) -> (LedgerModel, Option<ErrorType>) {
    if dispute_target_err(s, client, tx) is Some {
        (s, dispute_target_err(s, client, tx))
    } else if s.records[tx].status != Status::UnderDispute {
        (s, Some(ErrorType::TransactionNotUnderDispute { tx }))
    } else {
        let r = s.records[tx];
        let a = account_of(s, r.client);
        let a2 = AccountModel { available: a.available + r.amount, held: a.held - r.amount, ..a };
        let r2 = RecordModel { status: Status::Undisputed, ..r };
        (
            LedgerModel {
                accounts: s.accounts.insert(r.client, a2),
                records: s.records.insert(tx, r2),
                ..s
            },
            None,
        )
    }
}

/// Chargeback: the transaction must be under dispute. On success its status
/// becomes `Reversed` (terminal), the disputed amount leaves `held` without
/// returning anywhere, `available` is untouched, and the owner's account is
/// locked for good.
pub open spec fn step_chargeback(
    s: LedgerModel,
    client: ClientId,
    tx: TransactionId,
) -> (LedgerModel, Option<ErrorType>) {
    if dispute_target_err(s, client, tx) is Some {
        (s, dispute_target_err(s, client, tx))
    } else if s.records[tx].status != Status::UnderDispute {
        (s, Some(ErrorType::TransactionNotUnderDispute { tx }))
    } else {
        let r = s.records[tx];
        let a = account_of(s, r.client);
        let a2 = AccountModel { held: a.held - r.amount, locked: true, ..a };
        let r2 = RecordModel { status: Status::Reversed, ..r };
        (
            LedgerModel {
                accounts: s.accounts.insert(r.client, a2),
                records: s.records.insert(tx, r2),
                ..s
            },
            None,
        )
    }
}

/// The whole transition function: what one event does to the ledger, and
/// whether (and why) it is rejected. Rejection leaves the state untouched.
pub open spec fn step(s: LedgerModel, t: Transaction) -> (LedgerModel, Option<ErrorType>) {
    match t.event {
        Event::Deposit { tx, amount } => step_deposit(s, t.client, tx, amount),
        Event::Withdrawal { tx, amount } => step_withdrawal(s, t.client, tx, amount),
        Event::Dispute { tx } => step_dispute(s, t.client, tx),
        Event::Resolve { tx } => step_resolve(s, t.client, tx),
        Event::Chargeback { tx } => step_chargeback(s, t.client, tx),
    }
}

/// `x` is representable as an `i128`.
pub open spec fn fits_i128(x: int) -> bool {
    i128::MIN <= x && x <= i128::MAX
}

/// Both balances of an account, and their sum, are representable.
pub open spec fn account_bounded(a: AccountModel) -> bool {
    &&& fits_i128(a.available)
    &&& fits_i128(a.held)
    &&& fits_i128(a.available + a.held)
}

impl LedgerModel {
    /// Every stored balance, every reported total and every recorded
    /// amount is representable as an `i128`. The executable engine keeps
    /// this invariant at all times.
    pub open spec fn inv(self) -> bool {
        &&& forall|c: ClientId|
            self.accounts.dom().contains(c) ==> account_bounded(#[trigger] self.accounts[c])
        &&& forall|tx: TransactionId|
            self.records.dom().contains(tx) ==> fits_i128(#[trigger] self.records[tx].amount)
    }
}

/// The machine-limit side condition of one step: if the event is accepted,
/// the balances it writes stay representable as `i128`. A rejected event
/// writes nothing, so the condition is vacuous for it.
pub open spec fn step_fits(s: LedgerModel, t: Transaction) -> bool {
    step(s, t).1 is None ==> match t.event {
        Event::Deposit { tx, amount } => {
            let a = account_of(s, t.client);
            &&& a.available + amount.units <= i128::MAX
            &&& a.available + a.held + amount.units <= i128::MAX
        },
        Event::Withdrawal { .. } => true,
        Event::Dispute { tx } => {
            let r = s.records[tx];
            let a = account_of(s, r.client);
            &&& fits_i128(a.available - r.amount)
            &&& fits_i128(a.held + r.amount)
        },
        Event::Resolve { tx } => {
            let r = s.records[tx];
            let a = account_of(s, r.client);
            &&& fits_i128(a.available + r.amount)
            &&& fits_i128(a.held - r.amount)
        },
        Event::Chargeback { tx } => {
            let r = s.records[tx];
            let a = account_of(s, r.client);
            &&& fits_i128(a.held - r.amount)
            &&& fits_i128(a.available + a.held - r.amount)
        },
    }
}

/// The snapshot reported for client `c`: both balances, their sum as
/// `total`, and the lock flag. Under [`LedgerModel::inv`] the casts are
/// exact.
pub open spec fn report(s: LedgerModel, c: ClientId) -> AccountInfo {
    let a = account_of(s, c);
    AccountInfo {
        client: c,
        available: Amount { units: a.available as i128 },
        held: Amount { units: a.held as i128 },
        total: Amount { units: (a.available + a.held) as i128 },
        locked: a.locked,
    }
}

/// Whether `t` is a dispute that will run against a withdrawal: its checks
/// all pass and the recorded signed amount is negative. Legitimate but
/// unusual, so it is surfaced as a non-blocking diagnostic.
pub open spec fn dispute_flags_withdrawal(s: LedgerModel, t: Transaction) -> bool {
    match t.event {
        Event::Dispute { tx } => step(s, t).1 is None && s.records[tx].amount < 0,
        _ => false,
    }
}

/// A step taken under its machine-limit side condition keeps the
/// representability invariant.
pub proof fn lemma_step_preserves_inv(s: LedgerModel, t: Transaction)
    requires
        s.inv(),
        step_fits(s, t),
    ensures
        step(s, t).0.inv(),
{
    let s2 = step(s, t).0;
    if step(s, t).1 is None {
        match t.event {
            Event::Deposit { tx, amount } => {
                assert(account_bounded(s2.accounts[t.client]));
            },
            Event::Withdrawal { tx, amount } => {
                assert(account_bounded(s2.accounts[t.client]));
            },
            Event::Dispute { tx } => {
                assert(account_bounded(s2.accounts[s.records[tx].client]));
            },
            Event::Resolve { tx } => {
                assert(account_bounded(s2.accounts[s.records[tx].client]));
            },
            Event::Chargeback { tx } => {
                assert(account_bounded(s2.accounts[s.records[tx].client]));
            },
        }
    }
}

} // verus!
