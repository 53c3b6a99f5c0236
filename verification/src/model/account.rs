//! Accounts: a balance and the transactions that explain it.

use vstd::prelude::*;
use std::collections::HashMap;
use core::marker::PhantomData;
use crate::model::amount::{Amount, lemma_exact_difference_units, lemma_exact_sum_units};
use crate::model::transaction::{
    Applied, Operation, OperationKind, Pending, TransactionData, TransactionView, balance_after, balance_defined,
    balance_exact,
    lacks_funds, signed_units, storno_of,
};
use crate::model::TransactionError;

verus! {

broadcast use vstd::std_specs::hash::group_hash_axioms;

/// Marks the account of funds a client may use.
#[derive(Debug)]
pub struct Available;

/// Marks the account of funds held back by disputes.
#[derive(Debug)]
pub struct Held;

/// A balance and the applied transactions, keyed by the value of their
/// identities.
#[derive(Debug)]
pub struct Account<Type> {
    pub balance: Amount,
    pub transactions: HashMap<u128, TransactionData<Applied>>,
    pub status: PhantomData<Type>,
}

/// What an account holds: its balance and its transactions by identity.
pub struct AccountView {
    pub balance: Amount,
    pub transactions: Map<u128, TransactionView>,
}

impl<Type> View for Account<Type> {
    type V = AccountView;

    open spec fn view(&self) -> AccountView {
        AccountView {
            balance: self.balance,
            transactions: self.transactions@.map_values(|t: TransactionData<Applied>| t@),
        }
    }
}

/// One step of summing signed values.
pub open spec fn add_signed() -> spec_fn(int, TransactionView) -> int {
    |acc: int, t: TransactionView| acc + signed_units(t)
}

/// The sum of the signed values of the transactions.
pub open spec fn total(transactions: Map<u128, TransactionView>) -> int {
    transactions.values().fold(0, add_signed())
}

impl AccountView {
    /// The balance and every amount are in range, and every transaction is
    /// filed under its own identity.
    pub open spec fn wf(self) -> bool {
        &&& self.balance.wf()
        &&& self.transactions.dom().finite()
        &&& forall|k: u128| #[trigger]
            self.transactions.contains_key(k) ==> self.transactions[k].transaction_id.0 == k
                && self.transactions[k].amount.wf()
    }

    /// The balance is the sum of the signed values of the recorded
    /// transactions.
    pub open spec fn explained(self) -> bool {
        self.balance.units() == total(self.transactions)
    }
}

/// What taking `t` does to an account: a transaction whose identity is
/// already recorded is refused, then a debit of more than the balance;
/// otherwise the balance moves and `t` is recorded under its identity.
pub open spec fn account_outcome(a: AccountView, t: TransactionView) -> Result<
    AccountView,
    TransactionError,
> {
    if a.transactions.contains_key(t.transaction_id.0) {
        Err(TransactionError::DuplicateTransaction(t.transaction_id))
    } else if lacks_funds(a.balance, t) {
        Err(TransactionError::InsufficientFunds(t.client_id))
    } else {
        Ok(
            AccountView {
                balance: balance_after(a.balance, t),
                transactions: a.transactions.insert(t.transaction_id.0, t),
            },
        )
    }
}

/// Taking `t` does not overflow a `Decimal`.
pub open spec fn account_defined(a: AccountView, t: TransactionView) -> bool {
    a.transactions.contains_key(t.transaction_id.0) || balance_defined(a.balance, t)
}

/// Taking `t` needs no rounding.
pub open spec fn account_exact(a: AccountView, t: TransactionView) -> bool {
    a.transactions.contains_key(t.transaction_id.0) || balance_exact(a.balance, t)
}

/// Summing is the same in any order.
proof fn lemma_add_signed_commutative()
    ensures
        vstd::set::fold::is_fun_commutative(add_signed()),
{
    assert forall|a1: TransactionView, a2: TransactionView, b: int|
        #[trigger] add_signed()(add_signed()(b, a2), a1) == add_signed()(add_signed()(b, a1), a2) by {}
}

/// No transactions sum to zero.
pub proof fn lemma_total_empty()
    ensures
        total(Map::<u128, TransactionView>::empty()) == 0,
{
    assert(Map::<u128, TransactionView>::empty().values() =~= Set::<TransactionView>::empty());
    vstd::set::fold::lemma_fold_empty(0int, add_signed());
}

/// Recording a new transaction under its own identity adds its signed value.
pub proof fn lemma_total_insert(m: Map<u128, TransactionView>, t: TransactionView)
    requires
        m.dom().finite(),
        forall|k: u128| #[trigger] m.contains_key(k) ==> m[k].transaction_id.0 == k,
        !m.contains_key(t.transaction_id.0),
    ensures
        total(m.insert(t.transaction_id.0, t)) == total(m) + signed_units(t),
{
    let k = t.transaction_id.0;
    assert(m.insert(k, t).values() =~= m.values().insert(t)) by {
        assert forall|v: TransactionView| #[trigger] m.insert(k, t).values().contains(v) implies m.values().insert(t).contains(v) by {
            let j = choose|j: u128| #[trigger] m.insert(k, t).contains_key(j) && m.insert(k, t)[j] == v;
            if j != k {
                assert(m.contains_key(j) && m[j] == v);
            }
        }
        assert forall|v: TransactionView| #[trigger] m.values().insert(t).contains(v) implies m.insert(k, t).values().contains(v) by {
            if v != t {
                let j = choose|j: u128| #[trigger] m.contains_key(j) && m[j] == v;
                assert(m.insert(k, t).contains_key(j) && m.insert(k, t)[j] == v);
            } else {
                assert(m.insert(k, t).contains_key(k) && m.insert(k, t)[k] == v);
            }
        }
    }
    assert(!m.values().contains(t)) by {
        if m.values().contains(t) {
            let j = choose|j: u128| #[trigger] m.contains_key(j) && m[j] == t;
            assert(m[j].transaction_id.0 == j);
        }
    }
    vstd::map_lib::lemma_values_finite(m);
    lemma_add_signed_commutative();
    vstd::set::fold::lemma_fold_insert(m.values(), 0int, add_signed(), t);
}

/// Taking a transaction keeps an account well formed; where it needs no
/// rounding, it moves the balance by the transaction's signed value, so a
/// balance explained by the recorded transactions stays explained.
pub proof fn lemma_account_step(a: AccountView, t: TransactionView)
    requires
        a.wf(),
        t.amount.wf(),
        account_defined(a, t),
    ensures
        account_outcome(a, t) matches Ok(b) ==> b.wf(),
        account_exact(a, t) ==> (account_outcome(a, t) matches Ok(b) ==> b.balance.units()
            == a.balance.units() + signed_units(t)),
        account_exact(a, t) && a.explained() ==> (account_outcome(a, t) matches Ok(b)
            ==> b.explained()),
{
    if account_outcome(a, t) is Ok {
        if balance_exact(a.balance, t) {
            match t.kind {
                OperationKind::Credit => lemma_exact_sum_units(a.balance, t.amount),
                OperationKind::Debit => lemma_exact_difference_units(a.balance, t.amount),
            }
        }
        lemma_total_insert(a.transactions, t);
    }
}

/// Taking a transaction and then its reversal, neither needing rounding,
/// leaves the balance's value as it was.
pub proof fn lemma_storno_cancels(a: AccountView, t: TransactionView)
    requires
        a.wf(),
        t.amount.wf(),
        account_defined(a, t),
        account_exact(a, t),
        account_outcome(a, t) is Ok,
        account_defined(account_outcome(a, t)->Ok_0, storno_of(t)),
        account_exact(account_outcome(a, t)->Ok_0, storno_of(t)),
        account_outcome(account_outcome(a, t)->Ok_0, storno_of(t)) is Ok,
    ensures
        (account_outcome(account_outcome(a, t)->Ok_0, storno_of(t))->Ok_0).balance.units()
            == a.balance.units(),
{
    let b = account_outcome(a, t)->Ok_0;
    lemma_account_step(a, t);
    lemma_account_step(b, storno_of(t));
}

impl<Type> Account<Type> {
    /// An empty account: balance zero, no transactions.
    pub fn new() -> (r: Self)
        ensures
            r@.wf(),
            r@.explained(),
            r@.balance == (Amount { mantissa: 0, scale: 0 }),
            r@.transactions == Map::<u128, TransactionView>::empty(),
    {
        let r = Account { balance: Amount::zero(), transactions: HashMap::new(), status: PhantomData };
        proof {
            assert(r@.transactions =~= Map::<u128, TransactionView>::empty());
            lemma_total_empty();
        }
        r
    }

    /// Whether taking `data` stays clear of `Decimal` overflow.
    pub fn can_take(&self, data: &TransactionData<Pending>) -> (r: bool)
        requires
            self@.wf(),
            data.operation.amount.wf(),
        ensures
            r == account_defined(self@, data@),
    {
        if self.transactions.contains_key(&data.transaction_id.0) {
            return true;
        }
        let amount = data.operation.amount;
        match data.operation.kind {
            OperationKind::Credit => self.balance.checked_add(amount).is_some(),
            OperationKind::Debit => self.balance.less_than(&amount) || self.balance.checked_sub(
                amount,
            ).is_some(),
        }
    }

    /// The refusal that taking `data` would meet, if any, as
    /// `account_outcome` says; nothing is changed.
    pub fn refusal(&self, data: &TransactionData<Pending>) -> (r: Option<TransactionError>)
        requires
            self@.wf(),
            data.operation.amount.wf(),
        ensures
            r == match account_outcome(self@, data@) {
                Ok(_) => None::<TransactionError>,
                Err(e) => Some(e),
            },
    {
        if self.transactions.contains_key(&data.transaction_id.0) {
            return Some(TransactionError::DuplicateTransaction(data.transaction_id));
        }
        if data.operation.kind == OperationKind::Debit && self.balance.less_than(
            &data.operation.amount,
        ) {
            return Some(TransactionError::InsufficientFunds(data.client_id));
        }
        None
    }

    /// Takes a pending transaction, as `account_outcome` says: a refused one
    /// leaves the account as it was.
    pub fn apply(&mut self, data: TransactionData<Pending>) -> (r: Result<
        TransactionData<Applied>,
        TransactionError,
    >)
        requires
            old(self)@.wf(),
            data.operation.amount.wf(),
            account_defined(old(self)@, data@),
        ensures
            final(self)@.wf(),
            old(self)@.explained() && account_exact(old(self)@, data@) ==> final(self)@.explained(),
            old(self)@.balance.units() >= 0 && data.operation.amount.units() >= 0
                ==> final(self)@.balance.units() >= 0,
            data.operation.kind == OperationKind::Debit ==> (old(self)@.balance.units() >= 0
                ==> final(self)@.balance.units() >= 0),
            match account_outcome(old(self)@, data@) {
                Ok(a) => final(self)@ == a && (r matches Ok(applied) && applied@ == data@),
                Err(e) => final(self)@ == old(self)@ && r == Err::<
                    TransactionData<Applied>,
                    TransactionError,
                >(e),
            },
    {
        let tx_id = data.transaction_id;
        if self.transactions.contains_key(&tx_id.0) {
            return Err(TransactionError::DuplicateTransaction(tx_id));
        }
        let ghost before = self@;
        let applied = data.apply(self)?;
        let stored = TransactionData {
            client_id: applied.client_id,
            transaction_id: applied.transaction_id,
            operation: Operation {
                kind: applied.operation.kind,
                amount: applied.operation.amount,
                status: PhantomData,
            },
        };
        if self.transactions.insert(tx_id.0, stored).is_some() {
            return Err(TransactionError::DuplicateTransaction(tx_id));
        }
        proof {
            assert(self@.transactions =~= before.transactions.insert(tx_id.0, data@));
            lemma_account_step(before, data@);
        }
        Ok(applied)
    }
}

} // verus!
