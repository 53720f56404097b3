//! A verified ledger engine.
//!
//! The engine ingests a stream of financial events (deposit, withdrawal,
//! dispute, resolve, chargeback), keyed by client and transaction
//! identifiers, and maintains per-client balances under strict consistency
//! rules: globally unique transaction identifiers, all-or-nothing event
//! application, a dispute lifecycle per transaction, and a permanent lock
//! after a chargeback.
//!
//! The transition rules are stated once, mathematically, in [`model`], and
//! the executable [`engine::Engine`] is proved to implement them exactly.
//! General laws about the transition system are proved in [`laws`].

use vstd::prelude::*;

pub mod engine;
pub mod errors;
pub mod laws;
pub mod model;

pub use engine::Engine;

verus! {

/// Identifies a client account.
pub type ClientId = u16;

/// Identifies a deposit or withdrawal; unique across all clients.
pub type TransactionId = u32;

/// Number of [`Amount`] units in one whole currency unit.
pub const UNITS_PER_ONE: i128 = 10000;

/// An exact decimal amount in fixed-point form: `units` counts
/// ten-thousandths of a currency unit, so `units == 12345` stands for
/// `1.2345`. Exact fixed-point arithmetic is used throughout; binary
/// floating point would silently lose precision across repeated
/// addition and subtraction.
#[derive(Clone, Copy, Debug, PartialEq, Eq, Structural)]
pub struct Amount {
    pub units: i128,
}

/// One event of the input stream: the client it was filed by and what it
/// asks for. Dispute, resolve and chargeback carry only a transaction
/// identifier; the account they act on is recovered from the stored record
/// of that transaction.
#[derive(Clone, Copy, Debug)]
pub enum Event {
    Deposit { tx: TransactionId, amount: Amount },
    Withdrawal { tx: TransactionId, amount: Amount },
    Dispute { tx: TransactionId },
    Resolve { tx: TransactionId },
    Chargeback { tx: TransactionId },
}

/// An event together with the client that filed it.
#[derive(Clone, Copy, Debug)]
pub struct Transaction {
    pub client: ClientId,
    pub event: Event,
}

/// A snapshot of one client account: `total` is always
/// `available + held`, and is recomputed, never stored.
#[derive(Clone, Copy, Debug, PartialEq, Eq, Structural)]
pub struct AccountInfo {
    pub client: ClientId,
    pub available: Amount,
    pub held: Amount,
    pub total: Amount,
    pub locked: bool,
}

} // verus!
