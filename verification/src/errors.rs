use vstd::prelude::*;

use crate::{ClientId, TransactionId};

verus! {

/// Why an event was rejected. Each kind carries the offending transaction
/// and/or client identifier. A rejected event never mutates any state.
#[derive(Clone, Copy, Debug, PartialEq, Eq, Structural)]
pub enum ErrorType {
    ReusedTransactionId { tx: TransactionId },
    NegativeWithdrawal { tx: TransactionId },
    NegativeDeposit { tx: TransactionId },
    LockedAccount { client: ClientId },
    InsufficientFunds { client: ClientId, tx: TransactionId },
    UnknownTransactionForDispute { tx: TransactionId },
    TransactionDoesNotMatchClient { tx: TransactionId, client: ClientId },
    TransactionAlreadyUnderDispute { tx: TransactionId },
    TransactionNotUnderDispute { tx: TransactionId },
}

/// Wrapping error type, leaving space for other optional data later.
#[derive(Clone, Copy, Debug, PartialEq, Eq, Structural)]
pub struct Error {
    pub error_type: ErrorType,
}

impl From<ErrorType> for Error {
    fn from(error_type: ErrorType) -> Self {
        Error { error_type }
    }
}

impl vstd::std_specs::convert::FromSpecImpl<ErrorType> for Error {
    open spec fn obeys_from_spec() -> bool {
        true
    }

    open spec fn from_spec(t: ErrorType) -> Self {
        Error { error_type: t }
    }
}

} // verus!
