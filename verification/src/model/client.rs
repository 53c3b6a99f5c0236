//! Clients and their two accounts.

use vstd::prelude::*;
use crate::model::account::{
    Account, AccountView, Available, Held, account_defined, account_exact, account_outcome,
    lemma_account_step,
    lemma_total_empty,
};
use crate::model::transaction::{
    Operation, OperationKind, Pending, Transaction, TransactionData, TransactionReference,
    TransactionView, child_of, signed_units, storno_of,
};
use crate::model::amount::{
    Amount, difference_result, exact_difference, exact_sum, lemma_exact_difference_units,
    lemma_exact_sum_units, representable, sum_result,
};
use crate::model::TransactionError;

verus! {

broadcast use vstd::std_specs::hash::group_hash_axioms;

/// A client's number.
#[derive(Clone, Copy, Debug, PartialEq, Eq, Structural, Hash)]
pub struct ClientId(pub u16);

/// A client: funds available, funds held by disputes, and whether the
/// account is suspended.
#[derive(Debug)]
pub struct Client {
    pub client_id: ClientId,
    pub available: Account<Available>,
    pub held: Account<Held>,
    pub suspended: bool,
}

/// What a client holds.
pub struct ClientView {
    pub client_id: ClientId,
    pub available: AccountView,
    pub held: AccountView,
    pub suspended: bool,
}

impl View for Client {
    type V = ClientView;

    open spec fn view(&self) -> ClientView {
        ClientView {
            client_id: self.client_id,
            available: self.available@,
            held: self.held@,
            suspended: self.suspended,
        }
    }
}

impl ClientView {
    /// Both accounts are well formed.
    pub open spec fn wf(self) -> bool {
        self.available.wf() && self.held.wf()
    }

    /// Both balances are the sums of what their accounts record.
    pub open spec fn explained(self) -> bool {
        self.available.explained() && self.held.explained()
    }
}

/// A client that has just been created.
pub open spec fn fresh_client(client_id: ClientId) -> ClientView {
    ClientView {
        client_id,
        available: AccountView { balance: Amount { mantissa: 0, scale: 0 }, transactions: Map::empty() },
        held: AccountView { balance: Amount { mantissa: 0, scale: 0 }, transactions: Map::empty() },
        suspended: false,
    }
}

/// A new client is well formed.
pub proof fn lemma_fresh_client_wf(client_id: ClientId)
    ensures
        fresh_client(client_id).wf(),
        fresh_client(client_id).explained(),
{
    lemma_total_empty();
    assert(fresh_client(client_id).available.transactions =~= Map::<u128, TransactionView>::empty());
}

/// The amounts a transaction brings along are in range.
pub open spec fn transaction_wf(t: Transaction) -> bool {
    match t {
        Transaction::Deposit(d) => d.operation.amount.wf(),
        Transaction::Withdrawal(d) => d.operation.amount.wf(),
        _ => true,
    }
}

/// The credit to the held account that a dispute of `orig` makes.
pub open spec fn hold_of(orig: TransactionView) -> TransactionView {
    TransactionView {
        client_id: orig.client_id,
        transaction_id: orig.transaction_id,
        kind: OperationKind::Credit,
        amount: orig.amount,
    }
}

/// `t` taken by the held account together with its reversal by the
/// available account: where either account refuses, the first refusal (held
/// first) is answered and nothing changes.
pub open spec fn held_then_available(c: ClientView, t: TransactionView) -> (
    ClientView,
    Result<(), TransactionError>,
) {
    match account_outcome(c.held, t) {
        Err(e) => (c, Err(e)),
        Ok(h) => match account_outcome(c.available, storno_of(t)) {
            Err(e) => (c, Err(e)),
            Ok(a) => (ClientView { held: h, available: a, ..c }, Ok(())),
        },
    }
}

/// What a transaction does to a client, and what is answered.
///
/// A suspended client refuses everything. Deposits and withdrawals go to the
/// available account. A dispute of a recorded credit moves its amount from
/// available to held (a debit, or an unknown identity, is not found). A
/// resolve reverses a held transaction and gives the amount back to
/// available. A chargeback reverses a held transaction and suspends the
/// client. A refused transaction changes nothing.
pub open spec fn client_outcome(c: ClientView, t: Transaction) -> (
    ClientView,
    Result<(), TransactionError>,
) {
    if c.suspended {
        (c, Err(TransactionError::ClientAccountSuspended(c.client_id)))
    } else {
        match t {
            Transaction::Deposit(d) => match account_outcome(c.available, d@) {
                Ok(a) => (ClientView { available: a, ..c }, Ok(())),
                Err(e) => (c, Err(e)),
            },
            Transaction::Withdrawal(d) => match account_outcome(c.available, d@) {
                Ok(a) => (ClientView { available: a, ..c }, Ok(())),
                Err(e) => (c, Err(e)),
            },
            Transaction::Dispute(r) => {
                let id = r.transaction_id;
                if !c.available.transactions.contains_key(id.0) {
                    (c, Err(TransactionError::TransactionNotFound(id)))
                } else if c.available.transactions[id.0].kind == OperationKind::Debit {
                    (c, Err(TransactionError::TransactionNotFound(id)))
                } else {
                    held_then_available(c, hold_of(c.available.transactions[id.0]))
                }
            },
            Transaction::Resolve(r) => {
                let id = r.transaction_id;
                if !c.held.transactions.contains_key(id.0) {
                    (c, Err(TransactionError::TransactionNotFound(id)))
                } else {
                    held_then_available(c, storno_of(c.held.transactions[id.0]))
                }
            },
            Transaction::Chargeback(r) => {
                let id = r.transaction_id;
                if !c.held.transactions.contains_key(id.0) {
                    (c, Err(TransactionError::TransactionNotFound(id)))
                } else {
                    match account_outcome(c.held, storno_of(c.held.transactions[id.0])) {
                        Err(e) => (c, Err(e)),
                        Ok(h) => (ClientView { held: h, suspended: true, ..c }, Ok(())),
                    }
                }
            },
        }
    }
}

/// Where both accounts take their part of `held_then_available`, neither
/// part overflows a `Decimal`.
pub open spec fn held_then_available_defined(c: ClientView, t: TransactionView) -> bool {
    account_outcome(c.held, t) is Ok && account_outcome(c.available, storno_of(t)) is Ok ==> (
    account_defined(c.held, t) && account_defined(c.available, storno_of(t)))
}

/// Where both accounts take their part of `held_then_available`, neither
/// part needs rounding.
pub open spec fn held_then_available_exact(c: ClientView, t: TransactionView) -> bool {
    account_outcome(c.held, t) is Ok && account_outcome(c.available, storno_of(t)) is Ok ==> (
    account_exact(c.held, t) && account_exact(c.available, storno_of(t)))
}

/// The arithmetic of `client_outcome` does not overflow a `Decimal` (where it
/// would, `Decimal`'s `+=` and `-=` panic).
pub open spec fn client_defined(c: ClientView, t: Transaction) -> bool {
    c.suspended || match t {
        Transaction::Deposit(d) => account_defined(c.available, d@),
        Transaction::Withdrawal(d) => account_defined(c.available, d@),
        Transaction::Dispute(r) => {
            let id = r.transaction_id;
            c.available.transactions.contains_key(id.0) && c.available.transactions[id.0].kind
                == OperationKind::Credit ==> held_then_available_defined(
                c,
                hold_of(c.available.transactions[id.0]),
            )
        },
        Transaction::Resolve(r) => {
            let id = r.transaction_id;
            c.held.transactions.contains_key(id.0) ==> held_then_available_defined(
                c,
                storno_of(c.held.transactions[id.0]),
            )
        },
        Transaction::Chargeback(r) => {
            let id = r.transaction_id;
            c.held.transactions.contains_key(id.0) ==> account_defined(
                c.held,
                storno_of(c.held.transactions[id.0]),
            )
        },
    }
}

/// The arithmetic of `client_outcome` needs no rounding.
pub open spec fn client_exact(c: ClientView, t: Transaction) -> bool {
    c.suspended || match t {
        Transaction::Deposit(d) => account_exact(c.available, d@),
        Transaction::Withdrawal(d) => account_exact(c.available, d@),
        Transaction::Dispute(r) => {
            let id = r.transaction_id;
            c.available.transactions.contains_key(id.0) && c.available.transactions[id.0].kind
                == OperationKind::Credit ==> held_then_available_exact(
                c,
                hold_of(c.available.transactions[id.0]),
            )
        },
        Transaction::Resolve(r) => {
            let id = r.transaction_id;
            c.held.transactions.contains_key(id.0) ==> held_then_available_exact(
                c,
                storno_of(c.held.transactions[id.0]),
            )
        },
        Transaction::Chargeback(r) => {
            let id = r.transaction_id;
            c.held.transactions.contains_key(id.0) ==> account_exact(
                c.held,
                storno_of(c.held.transactions[id.0]),
            )
        },
    }
}

/// A client's funds: available plus held.
pub open spec fn funds(c: ClientView) -> int {
    c.available.balance.units() + c.held.balance.units()
}

/// Applying a transaction keeps a client well formed; where no rounding is
/// needed, balances explained by the recorded transactions stay explained.
pub proof fn lemma_client_step(c: ClientView, t: Transaction)
    requires
        c.wf(),
        transaction_wf(t),
        client_defined(c, t),
    ensures
        client_outcome(c, t).0.wf(),
        client_outcome(c, t).0.client_id == c.client_id,
        c.explained() && client_exact(c, t) ==> client_outcome(c, t).0.explained(),
{
    if !c.suspended {
        match t {
            Transaction::Deposit(d) => lemma_account_step(c.available, d@),
            Transaction::Withdrawal(d) => lemma_account_step(c.available, d@),
            Transaction::Dispute(r) => {
                let id = r.transaction_id.0;
                if c.available.transactions.contains_key(id) && c.available.transactions[id].kind
                    == OperationKind::Credit {
                    lemma_held_then_available(c, hold_of(c.available.transactions[id]));
                }
            },
            Transaction::Resolve(r) => {
                let id = r.transaction_id.0;
                if c.held.transactions.contains_key(id) {
                    lemma_held_then_available(c, storno_of(c.held.transactions[id]));
                }
            },
            Transaction::Chargeback(r) => {
                let id = r.transaction_id.0;
                if c.held.transactions.contains_key(id) {
                    lemma_account_step(c.held, storno_of(c.held.transactions[id]));
                }
            },
        }
    }
}

/// `held_then_available` keeps the client well formed; where both accounts
/// take their part without rounding, the held balance moves by the signed
/// value of `t` and the available balance by the opposite.
proof fn lemma_held_then_available(c: ClientView, t: TransactionView)
    requires
        c.wf(),
        t.amount.wf(),
        held_then_available_defined(c, t),
    ensures
        held_then_available(c, t).0.wf(),
        held_then_available(c, t).0.client_id == c.client_id,
        held_then_available(c, t).0.suspended == c.suspended,
        held_then_available(c, t).1 is Err ==> held_then_available(c, t).0 == c,
        held_then_available_exact(c, t) && held_then_available(c, t).1 is Ok ==> {
            let c2 = held_then_available(c, t).0;
            &&& c2.held.balance.units() == c.held.balance.units() + signed_units(t)
            &&& c2.available.balance.units() == c.available.balance.units() - signed_units(t)
        },
        held_then_available_exact(c, t) && c.explained() ==> held_then_available(c, t).0.explained(),
{
    if account_outcome(c.held, t) is Ok && account_outcome(c.available, storno_of(t)) is Ok {
        lemma_account_step(c.held, t);
        lemma_account_step(c.available, storno_of(t));
    }
}

/// A dispute of a credit that the available account records is taken
/// whenever the held account does not yet hold it, its reversal is not yet
/// recorded, and the available balance covers its amount, whatever else is
/// held: the held balance gains the amount and the available balance loses
/// it, as `Decimal` adds and subtracts, and both records grow.
pub proof fn lemma_dispute_accepted(c: ClientView, r: TransactionReference)
    requires
        c.wf(),
        !c.suspended,
        c.available.transactions.contains_key(r.transaction_id.0),
        c.available.transactions[r.transaction_id.0].kind == OperationKind::Credit,
        !c.held.transactions.contains_key(r.transaction_id.0),
        !c.available.transactions.contains_key(child_of(r.transaction_id.0)),
        c.available.balance.units() >= c.available.transactions[r.transaction_id.0].amount.units(),
    ensures
        ({
            let id = r.transaction_id.0;
            let amount = c.available.transactions[id].amount;
            let (c2, res) = client_outcome(c, Transaction::Dispute(r));
            &&& res == Ok::<(), TransactionError>(())
            &&& c2.held.balance == sum_result(c.held.balance, amount)->Some_0
            &&& c2.available.balance == difference_result(c.available.balance, amount)->Some_0
            &&& c2.held.transactions.contains_key(id)
            &&& c2.held.transactions[id].kind == OperationKind::Credit
            &&& c2.held.transactions[id].amount == amount
            &&& c2.available.transactions.contains_key(child_of(id))
            &&& c2.available.transactions[child_of(id)].kind == OperationKind::Debit
            &&& c2.client_id == c.client_id
            &&& c2.suspended == c.suspended
            &&& representable(exact_sum(c.held.balance, amount)) && representable(
                exact_difference(c.available.balance, amount),
            ) ==> {
                &&& c2.held.balance.units() == c.held.balance.units() + amount.units()
                &&& c2.available.balance.units() == c.available.balance.units() - amount.units()
            }
        }),
{
    let id = r.transaction_id.0;
    let amount = c.available.transactions[id].amount;
    assert(c.available.transactions[id].transaction_id.0 == id);
    if representable(exact_sum(c.held.balance, amount)) {
        lemma_exact_sum_units(c.held.balance, amount);
    }
    if representable(exact_difference(c.available.balance, amount)) {
        lemma_exact_difference_units(c.available.balance, amount);
    }
}

/// A resolve of a disputed credit that the held account records is taken
/// whenever neither its reversal nor the reversal's reversal is recorded yet
/// and the held balance covers its amount, whatever else is held: the held
/// balance loses the amount and the available balance gains it.
pub proof fn lemma_resolve_accepted(c: ClientView, r: TransactionReference)
    requires
        c.wf(),
        !c.suspended,
        c.held.transactions.contains_key(r.transaction_id.0),
        c.held.transactions[r.transaction_id.0].kind == OperationKind::Credit,
        !c.held.transactions.contains_key(child_of(r.transaction_id.0)),
        !c.available.transactions.contains_key(child_of(child_of(r.transaction_id.0))),
        c.held.balance.units() >= c.held.transactions[r.transaction_id.0].amount.units(),
    ensures
        ({
            let id = r.transaction_id.0;
            let amount = c.held.transactions[id].amount;
            let (c2, res) = client_outcome(c, Transaction::Resolve(r));
            &&& res == Ok::<(), TransactionError>(())
            &&& c2.held.balance == difference_result(c.held.balance, amount)->Some_0
            &&& c2.available.balance == sum_result(c.available.balance, amount)->Some_0
            &&& c2.held.transactions.contains_key(child_of(id))
            &&& c2.available.transactions.contains_key(child_of(child_of(id)))
            &&& c2.client_id == c.client_id
            &&& c2.suspended == c.suspended
            &&& representable(exact_difference(c.held.balance, amount)) && representable(
                exact_sum(c.available.balance, amount),
            ) ==> {
                &&& c2.held.balance.units() == c.held.balance.units() - amount.units()
                &&& c2.available.balance.units() == c.available.balance.units() + amount.units()
            }
        }),
{
    let id = r.transaction_id.0;
    let amount = c.held.transactions[id].amount;
    assert(c.held.transactions[id].transaction_id.0 == id);
    if representable(exact_difference(c.held.balance, amount)) {
        lemma_exact_difference_units(c.held.balance, amount);
    }
    if representable(exact_sum(c.available.balance, amount)) {
        lemma_exact_sum_units(c.available.balance, amount);
    }
}

/// A chargeback of a disputed credit that the held account records is taken
/// whenever its reversal is not recorded yet and the held balance covers its
/// amount, whatever the available balance: the held balance loses the
/// amount, the available account stays as it was, and the client is
/// suspended.
pub proof fn lemma_chargeback_accepted(c: ClientView, r: TransactionReference)
    requires
        c.wf(),
        !c.suspended,
        c.held.transactions.contains_key(r.transaction_id.0),
        c.held.transactions[r.transaction_id.0].kind == OperationKind::Credit,
        !c.held.transactions.contains_key(child_of(r.transaction_id.0)),
        c.held.balance.units() >= c.held.transactions[r.transaction_id.0].amount.units(),
    ensures
        ({
            let id = r.transaction_id.0;
            let amount = c.held.transactions[id].amount;
            let (c2, res) = client_outcome(c, Transaction::Chargeback(r));
            &&& res == Ok::<(), TransactionError>(())
            &&& c2.held.balance == difference_result(c.held.balance, amount)->Some_0
            &&& c2.available == c.available
            &&& c2.held.transactions.contains_key(child_of(id))
            &&& c2.client_id == c.client_id
            &&& c2.suspended
            &&& representable(exact_difference(c.held.balance, amount)) ==> c2.held.balance.units()
                == c.held.balance.units() - amount.units()
        }),
{
    let id = r.transaction_id.0;
    let amount = c.held.transactions[id].amount;
    assert(c.held.transactions[id].transaction_id.0 == id);
    if representable(exact_difference(c.held.balance, amount)) {
        lemma_exact_difference_units(c.held.balance, amount);
    }
}

/// A refused transaction changes nothing.
pub proof fn lemma_refusal_changes_nothing(c: ClientView, t: Transaction)
    ensures
        client_outcome(c, t).1 is Err ==> client_outcome(c, t).0 == c,
{
}

/// Nothing recorded is ever erased or changed: every transaction an account
/// held before a step it still holds, unchanged, whatever the step answers.
pub proof fn lemma_history_grows(c: ClientView, t: Transaction)
    ensures
        c.available.transactions.submap_of(client_outcome(c, t).0.available.transactions),
        c.held.transactions.submap_of(client_outcome(c, t).0.held.transactions),
{
    lemma_account_history_grows(c.available);
    lemma_account_history_grows(c.held);
}

/// An account's outcome, when taken, keeps every recorded transaction.
proof fn lemma_account_history_grows(a: AccountView)
    ensures
        forall|t: TransactionView| #[trigger]
            account_outcome(a, t) is Ok ==> a.transactions.submap_of(
                account_outcome(a, t)->Ok_0.transactions,
            ),
{
}

/// A suspended client refuses every transaction and stays as it is.
pub proof fn lemma_suspended_refuses(c: ClientView, t: Transaction)
    requires
        c.suspended,
    ensures
        client_outcome(c, t) == (c, Err::<(), TransactionError>(
            TransactionError::ClientAccountSuspended(c.client_id),
        )),
{
}

/// A deposit or withdrawal that is taken without rounding moves the
/// available balance by its signed value and leaves the held account alone.
pub proof fn lemma_deposit_or_withdrawal(c: ClientView, t: Transaction)
    requires
        c.wf(),
        transaction_wf(t),
        client_defined(c, t),
        client_exact(c, t),
        t is Deposit || t is Withdrawal,
        client_outcome(c, t).1 is Ok,
    ensures
        ({
            let c2 = client_outcome(c, t).0;
            let d = match t {
                Transaction::Deposit(d) => d@,
                Transaction::Withdrawal(d) => d@,
                _ => arbitrary(),
            };
            &&& c2.available.balance.units() == c.available.balance.units() + signed_units(d)
            &&& c2.held == c.held
            &&& funds(c2) == funds(c) + signed_units(d)
        }),
{
    match t {
        Transaction::Deposit(d) => lemma_account_step(c.available, d@),
        Transaction::Withdrawal(d) => lemma_account_step(c.available, d@),
        _ => {},
    }
}

/// A dispute that is taken without rounding moves the disputed credit's
/// amount from available to held; the client's funds stay the same.
pub proof fn lemma_dispute_holds_funds(c: ClientView, r: TransactionReference)
    requires
        c.wf(),
        client_defined(c, Transaction::Dispute(r)),
        client_exact(c, Transaction::Dispute(r)),
        client_outcome(c, Transaction::Dispute(r)).1 is Ok,
    ensures
        ({
            let id = r.transaction_id.0;
            let c2 = client_outcome(c, Transaction::Dispute(r)).0;
            let amount = c.available.transactions[id].amount.units();
            &&& c.available.transactions.contains_key(id)
            &&& c.available.transactions[id].kind == OperationKind::Credit
            &&& c2.available.balance.units() == c.available.balance.units() - amount
            &&& c2.held.balance.units() == c.held.balance.units() + amount
            &&& funds(c2) == funds(c)
            &&& c2.suspended == c.suspended
        }),
{
    let id = r.transaction_id.0;
    lemma_held_then_available(c, hold_of(c.available.transactions[id]));
}

/// A resolve that is taken without rounding reverses the held transaction
/// and gives its signed value back to available; the client's funds stay the
/// same.
pub proof fn lemma_resolve_releases_funds(c: ClientView, r: TransactionReference)
    requires
        c.wf(),
        client_defined(c, Transaction::Resolve(r)),
        client_exact(c, Transaction::Resolve(r)),
        client_outcome(c, Transaction::Resolve(r)).1 is Ok,
    ensures
        ({
            let id = r.transaction_id.0;
            let c2 = client_outcome(c, Transaction::Resolve(r)).0;
            let held = signed_units(c.held.transactions[id]);
            &&& c.held.transactions.contains_key(id)
            &&& c2.held.balance.units() == c.held.balance.units() - held
            &&& c2.available.balance.units() == c.available.balance.units() + held
            &&& funds(c2) == funds(c)
            &&& c2.suspended == c.suspended
        }),
{
    let id = r.transaction_id.0;
    lemma_held_then_available(c, storno_of(c.held.transactions[id]));
}

/// A chargeback that is taken without rounding reverses the held
/// transaction, leaves the available account alone and suspends the client.
pub proof fn lemma_chargeback_removes_funds(c: ClientView, r: TransactionReference)
    requires
        c.wf(),
        client_defined(c, Transaction::Chargeback(r)),
        client_exact(c, Transaction::Chargeback(r)),
        client_outcome(c, Transaction::Chargeback(r)).1 is Ok,
    ensures
        ({
            let id = r.transaction_id.0;
            let c2 = client_outcome(c, Transaction::Chargeback(r)).0;
            let held = signed_units(c.held.transactions[id]);
            &&& c.held.transactions.contains_key(id)
            &&& c2.held.balance.units() == c.held.balance.units() - held
            &&& c2.available == c.available
            &&& funds(c2) == funds(c) - held
            &&& c2.suspended
        }),
{
    let id = r.transaction_id.0;
    lemma_account_step(c.held, storno_of(c.held.transactions[id]));
}

/// Resolving a transaction right after disputing it, neither needing
/// rounding, gives both balances their values back.
pub proof fn lemma_dispute_then_resolve(
    c: ClientView,
    dispute: TransactionReference,
    resolve: TransactionReference,
)
    requires
        c.wf(),
        dispute.transaction_id == resolve.transaction_id,
        client_defined(c, Transaction::Dispute(dispute)),
        client_exact(c, Transaction::Dispute(dispute)),
        client_outcome(c, Transaction::Dispute(dispute)).1 is Ok,
        client_defined(client_outcome(c, Transaction::Dispute(dispute)).0, Transaction::Resolve(resolve)),
        client_exact(client_outcome(c, Transaction::Dispute(dispute)).0, Transaction::Resolve(resolve)),
        client_outcome(client_outcome(c, Transaction::Dispute(dispute)).0, Transaction::Resolve(resolve)).1 is Ok,
    ensures
        ({
            let c3 = client_outcome(client_outcome(c, Transaction::Dispute(dispute)).0, Transaction::Resolve(resolve)).0;
            &&& c3.available.balance.units() == c.available.balance.units()
            &&& c3.held.balance.units() == c.held.balance.units()
        }),
{
    let id = dispute.transaction_id.0;
    let c2 = client_outcome(c, Transaction::Dispute(dispute)).0;
    lemma_dispute_holds_funds(c, dispute);
    lemma_client_step(c, Transaction::Dispute(dispute));
    let hold = hold_of(c.available.transactions[id]);
    assert(c2.held.transactions[id] == hold);
    lemma_resolve_releases_funds(c2, resolve);
}

/// Disputing a transaction and then charging it back, neither needing
/// rounding, takes its amount out of the client's funds and suspends the
/// client.
pub proof fn lemma_dispute_then_chargeback(
    c: ClientView,
    dispute: TransactionReference,
    chargeback: TransactionReference,
)
    requires
        c.wf(),
        dispute.transaction_id == chargeback.transaction_id,
        client_defined(c, Transaction::Dispute(dispute)),
        client_exact(c, Transaction::Dispute(dispute)),
        client_outcome(c, Transaction::Dispute(dispute)).1 is Ok,
        client_defined(client_outcome(c, Transaction::Dispute(dispute)).0, Transaction::Chargeback(chargeback)),
        client_exact(client_outcome(c, Transaction::Dispute(dispute)).0, Transaction::Chargeback(chargeback)),
        client_outcome(client_outcome(c, Transaction::Dispute(dispute)).0, Transaction::Chargeback(chargeback)).1 is Ok,
    ensures
        ({
            let amount = c.available.transactions[dispute.transaction_id.0].amount.units();
            let c3 = client_outcome(client_outcome(c, Transaction::Dispute(dispute)).0, Transaction::Chargeback(chargeback)).0;
            &&& c3.available.balance.units() == c.available.balance.units() - amount
            &&& c3.held.balance.units() == c.held.balance.units()
            &&& funds(c3) == funds(c) - amount
            &&& c3.suspended
        }),
{
    let id = dispute.transaction_id.0;
    let c2 = client_outcome(c, Transaction::Dispute(dispute)).0;
    lemma_dispute_holds_funds(c, dispute);
    lemma_client_step(c, Transaction::Dispute(dispute));
    let hold = hold_of(c.available.transactions[id]);
    assert(c2.held.transactions[id] == hold);
    lemma_chargeback_removes_funds(c2, chargeback);
}

/// The pending reversal of a pending transaction: same client and amount,
/// opposite kind, child identity.
fn reversal_of(t: &TransactionData<Pending>) -> (r: TransactionData<Pending>)
    ensures
        r@ == storno_of(t@),
{
    let operation = match t.operation.kind {
        OperationKind::Debit => Operation::credit(t.operation.amount),
        OperationKind::Credit => Operation::debit(t.operation.amount),
    };
    TransactionData { client_id: t.client_id, transaction_id: t.transaction_id.child(), operation }
}

impl Client {
    /// A client with two empty accounts, not suspended.
    pub fn new(client_id: ClientId) -> (r: Self)
        ensures
            r@ == fresh_client(client_id),
            r@.wf(),
            r@.explained(),
    {
        let r = Client { client_id, available: Account::new(), held: Account::new(), suspended: false };
        proof {
            assert(r@.available.transactions =~= Map::<u128, TransactionView>::empty());
            assert(r@.held.transactions =~= Map::<u128, TransactionView>::empty());
        }
        r
    }

    /// Available plus held, as `Decimal` adds them; `None` where the sum
    /// overflows a `Decimal`.
    pub fn total(&self) -> (r: Option<Amount>)
        requires
            self@.wf(),
        ensures
            r == sum_result(self@.available.balance, self@.held.balance),
            representable(exact_sum(self@.available.balance, self@.held.balance)) ==> (r matches Some(
                c,
            ) && c.units() == funds(self@)),
    {
        self.available.balance.checked_add(self.held.balance)
    }

    /// Whether the held account taking `t` and the available account its
    /// reversal stays clear of `Decimal` overflow.
    fn can_hold_then_release(&self, t: &TransactionData<Pending>) -> (r: bool)
        requires
            self@.wf(),
            t.operation.amount.wf(),
        ensures
            r == held_then_available_defined(self@, t@),
    {
        let reversal = reversal_of(t);
        if self.held.refusal(t).is_some() || self.available.refusal(&reversal).is_some() {
            return true;
        }
        self.held.can_take(t) && self.available.can_take(&reversal)
    }

    /// Whether applying `transaction` stays clear of `Decimal` overflow.
    pub fn can_apply(&self, transaction: &Transaction) -> (r: bool)
        requires
            self@.wf(),
            transaction_wf(*transaction),
        ensures
            r == client_defined(self@, *transaction),
    {
        if self.suspended {
            return true;
        }
        match transaction {
            Transaction::Deposit(data) => self.available.can_take(data),
            Transaction::Withdrawal(data) => self.available.can_take(data),
            Transaction::Dispute(reference) => {
                let id = reference.transaction_id;
                match self.available.transactions.get(&id.0) {
                    None => true,
                    Some(orig) => {
                        assert(self@.available.transactions.contains_key(id.0));
                        assert(self@.available.transactions[id.0] == orig@);
                        if orig.operation.kind == OperationKind::Debit {
                            true
                        } else {
                            let hold = TransactionData {
                                client_id: orig.client_id,
                                transaction_id: orig.transaction_id,
                                operation: Operation::credit(orig.operation.amount),
                            };
                            self.can_hold_then_release(&hold)
                        }
                    },
                }
            },
            Transaction::Resolve(reference) => {
                let id = reference.transaction_id;
                match self.held.transactions.get(&id.0) {
                    None => true,
                    Some(held) => {
                        assert(self@.held.transactions.contains_key(id.0));
                        assert(self@.held.transactions[id.0] == held@);
                        let storno = held.storno();
                        self.can_hold_then_release(&storno)
                    },
                }
            },
            Transaction::Chargeback(reference) => {
                let id = reference.transaction_id;
                match self.held.transactions.get(&id.0) {
                    None => true,
                    Some(held) => {
                        assert(self@.held.transactions.contains_key(id.0));
                        assert(self@.held.transactions[id.0] == held@);
                        let storno = held.storno();
                        self.held.can_take(&storno)
                    },
                }
            },
        }
    }

    /// The held account takes `t` and the available account its reversal, as
    /// `held_then_available` says: both refusals are looked for before
    /// anything changes.
    fn hold_then_release(&mut self, t: TransactionData<Pending>) -> (r: Result<(), TransactionError>)
        requires
            old(self)@.wf(),
            t.operation.amount.wf(),
            held_then_available_defined(old(self)@, t@),
        ensures
            final(self)@.wf(),
            (final(self)@, r) == held_then_available(old(self)@, t@),
    {
        if let Some(e) = self.held.refusal(&t) {
            return Err(e);
        }
        let reversal = reversal_of(&t);
        if let Some(e) = self.available.refusal(&reversal) {
            return Err(e);
        }
        let applied = self.held.apply(t)?;
        self.available.apply(applied.storno())?;
        Ok(())
    }

    /// Applies a transaction, as `client_outcome` says; where no rounding is
    /// needed, balances explained by the recorded transactions stay
    /// explained.
    pub fn apply(&mut self, transaction: Transaction) -> (r: Result<(), TransactionError>)
        requires
            old(self)@.wf(),
            transaction_wf(transaction),
            client_defined(old(self)@, transaction),
        ensures
            final(self)@.wf(),
            (final(self)@, r) == client_outcome(old(self)@, transaction),
            old(self)@.explained() && client_exact(old(self)@, transaction)
                ==> final(self)@.explained(),
    {
        proof {
            lemma_client_step(self@, transaction);
        }
        if self.suspended {
            return Err(TransactionError::ClientAccountSuspended(self.client_id));
        }
        match transaction {
            Transaction::Deposit(transaction_data) => {
                self.available.apply(transaction_data)?;
            },
            Transaction::Withdrawal(transaction_data) => {
                self.available.apply(transaction_data)?;
            },
            Transaction::Dispute(transaction_reference) => {
                let id = transaction_reference.transaction_id;
                let applied = match self.available.transactions.get(&id.0) {
                    Some(applied) => applied,
                    None => {
                        return Err(TransactionError::TransactionNotFound(id));
                    },
                };
                if applied.operation.kind == OperationKind::Debit {
                    return Err(TransactionError::TransactionNotFound(id));
                }
                assert(self@.available.transactions.contains_key(id.0));
                assert(self@.available.transactions[id.0] == applied@);
                let deposit = TransactionData {
                    client_id: applied.client_id,
                    transaction_id: applied.transaction_id,
                    operation: Operation::credit(applied.operation.amount),
                };
                self.hold_then_release(deposit)?;
            },
            Transaction::Resolve(transaction_reference) => {
                let id = transaction_reference.transaction_id;
                let storno = match self.held.transactions.get(&id.0) {
                    Some(held) => {
                        assert(self@.held.transactions.contains_key(id.0));
                        assert(self@.held.transactions[id.0] == held@);
                        held.storno()
                    },
                    None => {
                        return Err(TransactionError::TransactionNotFound(id));
                    },
                };
                self.hold_then_release(storno)?;
            },
            Transaction::Chargeback(transaction_reference) => {
                let id = transaction_reference.transaction_id;
                let storno = match self.held.transactions.get(&id.0) {
                    Some(held) => {
                        assert(self@.held.transactions.contains_key(id.0));
                        assert(self@.held.transactions[id.0] == held@);
                        held.storno()
                    },
                    None => {
                        return Err(TransactionError::TransactionNotFound(id));
                    },
                };
                self.held.apply(storno)?;
                self.suspended = true;
            },
        }
        Ok(())
    }
}

} // verus!
