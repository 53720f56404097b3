//! The executable ledger engine, proved to implement the transition
//! function of [`crate::model`] exactly.

use vstd::prelude::*;

use crate::errors::{Error, ErrorType};
use crate::model::{
    account_bounded, account_of, dispute_flags_withdrawal, empty_ledger, fits_i128, report, step,
    step_fits, AccountModel, LedgerModel, RecordModel, Status,
};
use crate::{AccountInfo, Amount, ClientId, Event, Transaction, TransactionId};

verus! {

broadcast use vstd::std_specs::hash::group_hash_axioms;

/// Stored state of one client account.
#[derive(Clone, Copy)]
struct ClientState {
    available: i128,
    held: i128,
    locked: bool,
}

impl ClientState {
    spec fn model(self) -> AccountModel {
        AccountModel {
            available: self.available as int,
            held: self.held as int,
            locked: self.locked,
        }
    }
}

/// Stored record of one committed deposit or withdrawal.
#[derive(Clone, Copy)]
struct TxRecord {
    client: ClientId,
    amount: i128,
    status: Status,
}

impl TxRecord {
    spec fn model(self) -> RecordModel {
        RecordModel { client: self.client, amount: self.amount as int, status: self.status }
    }
}

/// The ledger engine: all account balances, transaction history and
/// dispute status, updated strictly one event at a time, in arrival order.
pub struct Engine {
    accounts: std::collections::HashMap<ClientId, ClientState>,
    clients: Vec<ClientId>,
    records: std::collections::HashMap<TransactionId, TxRecord>,
    global_dispute: bool,
}

impl View for Engine {
    type V = LedgerModel;

    closed spec fn view(&self) -> LedgerModel {
        LedgerModel {
            accounts: Map::new(
                |c: ClientId| self.accounts@.dom().contains(c),
                |c: ClientId| self.accounts@[c].model(),
            ),
            records: Map::new(
                |tx: TransactionId| self.records@.dom().contains(tx),
                |tx: TransactionId| self.records@[tx].model(),
            ),
            global_dispute: self.global_dispute,
        }
    }
}

impl Engine {
    /// Internal well-formedness: the model invariant holds, and the client
    /// list enumerates exactly the accounts, without duplicates.
    pub closed spec fn wf(&self) -> bool {
        &&& self@.inv()
        &&& self.clients@.no_duplicates()
        &&& forall|c: ClientId|
            #![trigger self.accounts@.dom().contains(c)]
            #![trigger self.clients@.contains(c)]
            self.accounts@.dom().contains(c) <==> self.clients@.contains(c)
    }

    /// A fresh engine: no accounts, no records, owner-only disputes.
    pub fn new() -> (e: Engine)
        ensures
            e.wf(),
            e@ == empty_ledger(),
    {
        let e = Engine {
            accounts: std::collections::HashMap::new(),
            clients: Vec::new(),
            records: std::collections::HashMap::new(),
            global_dispute: false,
        };
        proof {
            assert(e@.accounts =~= empty_ledger().accounts);
            assert(e@.records =~= empty_ledger().records);
            assert(e@ =~= empty_ledger());
        }
        e
    }

    /// The model invariant holds of every well-formed engine; public so
    /// that callers can apply the laws of [`crate::laws`] to a live engine.
    pub proof fn lemma_inv(&self)
        requires
            self.wf(),
        ensures
            self@.inv(),
    {
    }

    /// Turn the deployment-wide dispute policy on or off: when on, any
    /// client may dispute any transaction; when off (the default), only
    /// the transaction's original owner may.
    pub fn set_global_dispute(&mut self, global_dispute: bool)
        requires
            old(self).wf(),
        ensures
            final(self).wf(),
            final(self)@ == (LedgerModel { global_dispute, ..old(self)@ }),
    {
        self.global_dispute = global_dispute;
        proof {
            let tgt = LedgerModel { global_dispute, ..old(self)@ };
            assert(self@.accounts =~= tgt.accounts);
            assert(self@.records =~= tgt.records);
            assert(self@ =~= tgt);
        }
    }

    /// The stored account of `client`, or the all-zero unlocked default.
    fn read_account(&self, client: ClientId) -> (r: ClientState)
        ensures
            r.model() == account_of(self@, client),
    {
        match self.accounts.get(&client) {
            Some(a) => *a,
            None => ClientState { available: 0, held: 0, locked: false },
        }
    }

    /// Write one account and one transaction record in a single committed
    /// mutation; the sole way any event changes the ledger.
    fn commit(&mut self, client: ClientId, st: ClientState, tx: TransactionId, rec: TxRecord)
        requires
            old(self).wf(),
            account_bounded(st.model()),
        ensures
            final(self).wf(),
            final(self)@ == (LedgerModel {
                accounts: old(self)@.accounts.insert(client, st.model()),
                records: old(self)@.records.insert(tx, rec.model()),
                ..old(self)@
            }),
    {
        let ghost m0 = self@;
        let existed = self.accounts.contains_key(&client);
        self.records.insert(tx, rec);
        self.accounts.insert(client, st);
        if !existed {
            self.clients.push(client);
        }
        proof {
            let tgt = LedgerModel {
                accounts: m0.accounts.insert(client, st.model()),
                records: m0.records.insert(tx, rec.model()),
                ..m0
            };
            assert(self@.accounts =~= tgt.accounts);
            assert(self@.records =~= tgt.records);
            assert(self@ =~= tgt);
            if !existed {
                let cl0 = old(self).clients@;
                let cl = self.clients@;
                assert(cl == cl0.push(client));
                assert(!cl0.contains(client));
                assert forall|i: int, j: int|
                    0 <= i < cl.len() && 0 <= j < cl.len() && i != j implies cl[i] != cl[j] by {
                    if i < cl0.len() && j < cl0.len() {
                        assert(cl[i] == cl0[i] && cl[j] == cl0[j]);
                    } else if i == cl0.len() {
                        assert(cl[j] == cl0[j] && cl0.contains(cl0[j]));
                    } else {
                        assert(cl[i] == cl0[i] && cl0.contains(cl0[i]));
                    }
                }
                assert(cl.no_duplicates());
                assert forall|c: ClientId| self.accounts@.dom().contains(c) <==> cl.contains(
                    c,
                ) by {
                    if c == client {
                        assert(cl[cl.len() - 1] == client);
                    } else {
                        assert(cl.contains(c) ==> cl0.contains(c)) by {
                            if cl.contains(c) {
                                let k = choose|k: int| 0 <= k < cl.len() && cl[k] == c;
                                assert(cl0[k] == c);
                            }
                        }
                        assert(cl0.contains(c) ==> cl.contains(c)) by {
                            if cl0.contains(c) {
                                let k = choose|k: int| 0 <= k < cl0.len() && cl0[k] == c;
                                assert(cl[k] == c);
                            }
                        }
                    }
                }
            }
            assert(self@.inv());
        }
    }

    /// Apply one event to the ledger. Either every check of the event's
    /// transition rule passes and the state advances exactly as
    /// [`step`] says, or the event is rejected with the error kind
    /// [`step`] names and nothing at all is mutated. The transaction is
    /// moved in so that it cannot accidentally be applied twice.
    pub fn handle(&mut self, transaction: Transaction) -> (r: Result<(), Error>)
        requires
            old(self).wf(),
            step_fits(old(self)@, transaction),
        ensures
            final(self).wf(),
            final(self)@ == step(old(self)@, transaction).0,
            (match step(old(self)@, transaction).1 {
                Some(k) => r == Err::<(), Error>(Error { error_type: k }),
                None => r == Ok::<(), Error>(()),
            }),
    {
        let ghost m0 = self@;
        let client = transaction.client;
        match transaction.event {
            Event::Deposit { tx, amount } => {
                if amount.units < 0 {
                    return Err(Error { error_type: ErrorType::NegativeDeposit { tx } });
                }
                if self.records.contains_key(&tx) {
                    return Err(Error { error_type: ErrorType::ReusedTransactionId { tx } });
                }
                let acct = self.read_account(client);
                if acct.locked {
                    return Err(Error { error_type: ErrorType::LockedAccount { client } });
                }
                proof {
                    assert(step(m0, transaction).1 is None);
                }
                let st = ClientState { available: acct.available + amount.units, ..acct };
                let rec = TxRecord { client, amount: amount.units, status: Status::Undisputed };
                self.commit(client, st, tx, rec);
                Ok(())
            },
            Event::Withdrawal { tx, amount } => {
                if amount.units < 0 {
                    return Err(Error { error_type: ErrorType::NegativeWithdrawal { tx } });
                }
                if self.records.contains_key(&tx) {
                    return Err(Error { error_type: ErrorType::ReusedTransactionId { tx } });
                }
                let acct = self.read_account(client);
                if acct.locked {
                    return Err(Error { error_type: ErrorType::LockedAccount { client } });
                }
                if acct.available < amount.units {
                    return Err(Error { error_type: ErrorType::InsufficientFunds { client, tx } });
                }
                proof {
                    assert(step(m0, transaction).1 is None);
                }
                let st = ClientState { available: acct.available - amount.units, ..acct };
                let rec = TxRecord { client, amount: -amount.units, status: Status::Undisputed };
                self.commit(client, st, tx, rec);
                Ok(())
            },
            Event::Dispute { tx } => {
                let info = match self.records.get(&tx) {
                    Some(r) => *r,
                    None => {
                        return Err(
                            Error { error_type: ErrorType::UnknownTransactionForDispute { tx } },
                        );
                    },
                };
                if info.client != client && !self.global_dispute {
                    return Err(
                        Error { error_type: ErrorType::TransactionDoesNotMatchClient { tx, client } },
                    );
                }
                if info.status != Status::Undisputed {
                    return Err(
                        Error { error_type: ErrorType::TransactionAlreadyUnderDispute { tx } },
                    );
                }
                proof {
                    assert(step(m0, transaction).1 is None);
                }
                let acct = self.read_account(info.client);
                let st = ClientState {
                    available: acct.available - info.amount,
                    held: acct.held + info.amount,
                    ..acct
                };
                let rec = TxRecord { status: Status::UnderDispute, ..info };
                self.commit(info.client, st, tx, rec);
                Ok(())
            },
            Event::Resolve { tx } => {
                let info = match self.records.get(&tx) {
                    Some(r) => *r,
                    None => {
                        return Err(
                            Error { error_type: ErrorType::UnknownTransactionForDispute { tx } },
                        );
                    },
                };
                if info.client != client && !self.global_dispute {
                    return Err(
                        Error { error_type: ErrorType::TransactionDoesNotMatchClient { tx, client } },
                    );
                }
                if info.status != Status::UnderDispute {
                    return Err(Error { error_type: ErrorType::TransactionNotUnderDispute { tx } });
                }
                proof {
                    assert(step(m0, transaction).1 is None);
                }
                let acct = self.read_account(info.client);
                let st = ClientState {
                    available: acct.available + info.amount,
                    held: acct.held - info.amount,
                    ..acct
                };
                let rec = TxRecord { status: Status::Undisputed, ..info };
                self.commit(info.client, st, tx, rec);
                Ok(())
            },
            Event::Chargeback { tx } => {
                let info = match self.records.get(&tx) {
                    Some(r) => *r,
                    None => {
                        return Err(
                            Error { error_type: ErrorType::UnknownTransactionForDispute { tx } },
                        );
                    },
                };
                if info.client != client && !self.global_dispute {
                    return Err(
                        Error { error_type: ErrorType::TransactionDoesNotMatchClient { tx, client } },
                    );
                }
                if info.status != Status::UnderDispute {
                    return Err(Error { error_type: ErrorType::TransactionNotUnderDispute { tx } });
                }
                proof {
                    assert(step(m0, transaction).1 is None);
                }
                let acct = self.read_account(info.client);
                let st = ClientState { held: acct.held - info.amount, locked: true, ..acct };
                let rec = TxRecord { status: Status::Reversed, ..info };
                self.commit(info.client, st, tx, rec);
                Ok(())
            },
        }
    }

    /// The snapshot of one client account: its balances, their sum as
    /// `total`, and the lock flag; all zero and unlocked for a client
    /// never seen. A pure read, no mutation, no error condition.
    pub fn account_info(&self, client: ClientId) -> (r: AccountInfo)
        requires
            self.wf(),
        ensures
            r == report(self@, client),
    {
        let acct = self.read_account(client);
        proof {
            assert(account_bounded(account_of(self@, client)));
        }
        AccountInfo {
            client,
            available: Amount { units: acct.available },
            held: Amount { units: acct.held },
            total: Amount { units: acct.available + acct.held },
            locked: acct.locked,
        }
    }

    /// One snapshot per client that has ever committed an event, each
    /// exactly as [`account_info`](Engine::account_info) reports it, with
    /// no client repeated. The order is unspecified; consumers must not
    /// depend on it.
    pub fn all_accounts(&self) -> (r: Vec<AccountInfo>)
        requires
            self.wf(),
        ensures
            forall|i: int|
                0 <= i < r@.len() ==> self@.accounts.dom().contains(#[trigger] r@[i].client),
            forall|i: int| 0 <= i < r@.len() ==> #[trigger] r@[i] == report(self@, r@[i].client),
            forall|i: int, j: int|
                0 <= i < r@.len() && 0 <= j < r@.len() && i != j ==> r@[i].client != r@[j].client,
            forall|c: ClientId|
                #[trigger] self@.accounts.dom().contains(c) ==> exists|i: int|
                    0 <= i < r@.len() && (#[trigger] r@[i]).client == c,
    {
        let mut out: Vec<AccountInfo> = Vec::new();
        let mut i: usize = 0;
        while i < self.clients.len()
            invariant
                self.wf(),
                i <= self.clients@.len(),
                out@.len() == i,
                forall|k: int|
                    0 <= k < i ==> (#[trigger] out@[k]) == report(self@, self.clients@[k])
                        && out@[k].client == self.clients@[k],
            decreases self.clients@.len() - i,
        {
            let c = self.clients[i];
            proof {
                assert(self.clients@.contains(self.clients@[i as int]));
            }
            let snap = self.account_info(c);
            out.push(snap);
            i = i + 1;
        }
        proof {
            assert forall|c: ClientId| self@.accounts.dom().contains(c) implies exists|k: int|
                0 <= k < out@.len() && (#[trigger] out@[k]).client == c by {
                assert(self.clients@.contains(c));
                let k = choose|k: int| 0 <= k < self.clients@.len() && self.clients@[k] == c;
                assert(out@[k].client == c);
            }
        }
        out
    }

    /// Whether the machine-limit side condition of [`step`] holds for this
    /// event: an accepted event must keep every balance representable.
    /// Callers should apply events only when this returns true; it can
    /// return false only at astronomical balances.
    pub fn fits(&self, t: &Transaction) -> (r: bool)
        requires
            self.wf(),
        ensures
            r == step_fits(self@, *t),
    {
        match t.event {
            Event::Deposit { tx, amount } => {
                if amount.units < 0 || self.records.contains_key(&tx) {
                    return true;
                }
                let acct = self.read_account(t.client);
                if acct.locked {
                    return true;
                }
                proof {
                    assert(account_bounded(account_of(self@, t.client)));
                }
                let total = acct.available + acct.held;
                sum_in_range(acct.available, amount.units) && sum_in_range(total, amount.units)
            },
            Event::Withdrawal { .. } => true,
            Event::Dispute { tx } => {
                let info = match self.records.get(&tx) {
                    Some(r) => *r,
                    None => {
                        return true;
                    },
                };
                if info.client != t.client && !self.global_dispute {
                    return true;
                }
                if info.status != Status::Undisputed {
                    return true;
                }
                let acct = self.read_account(info.client);
                diff_in_range(acct.available, info.amount) && sum_in_range(acct.held, info.amount)
            },
            Event::Resolve { tx } => {
                let info = match self.records.get(&tx) {
                    Some(r) => *r,
                    None => {
                        return true;
                    },
                };
                if info.client != t.client && !self.global_dispute {
                    return true;
                }
                if info.status != Status::UnderDispute {
                    return true;
                }
                let acct = self.read_account(info.client);
                sum_in_range(acct.available, info.amount) && diff_in_range(acct.held, info.amount)
            },
            Event::Chargeback { tx } => {
                let info = match self.records.get(&tx) {
                    Some(r) => *r,
                    None => {
                        return true;
                    },
                };
                if info.client != t.client && !self.global_dispute {
                    return true;
                }
                if info.status != Status::UnderDispute {
                    return true;
                }
                let acct = self.read_account(info.client);
                proof {
                    assert(account_bounded(account_of(self@, info.client)));
                }
                let total = acct.available + acct.held;
                diff_in_range(acct.held, info.amount) && diff_in_range(total, info.amount)
            },
        }
    }

    /// Whether this event is a dispute that will run against a withdrawal:
    /// a legitimate but unusual case that deserves operator attention,
    /// since the client may already have taken the withdrawn funds. It is
    /// a diagnostic, not an error: the transition is not blocked.
    pub fn dispute_targets_withdrawal(&self, t: &Transaction) -> (r: bool)
        requires
            self.wf(),
        ensures
            r == dispute_flags_withdrawal(self@, *t),
    {
        match t.event {
            Event::Dispute { tx } => {
                let info = match self.records.get(&tx) {
                    Some(r) => *r,
                    None => {
                        return false;
                    },
                };
                (info.client == t.client || self.global_dispute) && info.status
                    == Status::Undisputed && info.amount < 0
            },
            _ => false,
        }
    }
}

impl Default for Engine {
    /// Same as [`Engine::new`].
    fn default() -> (e: Engine)
        ensures
            e.wf(),
            e@ == empty_ledger(),
    {
        Engine::new()
    }
}

/// Whether `a + b` stays representable, computed without overflowing.
fn sum_in_range(a: i128, b: i128) -> (r: bool)
    ensures
        r == fits_i128(a + b),
{
    if b >= 0 {
        a <= i128::MAX - b
    } else {
        a >= i128::MIN - b
    }
}

/// Whether `a - b` stays representable, computed without overflowing.
fn diff_in_range(a: i128, b: i128) -> (r: bool)
    ensures
        r == fits_i128(a - b),
{
    if b >= 0 {
        a >= i128::MIN + b
    } else {
        a <= i128::MAX + b
    }
}

} // verus!
