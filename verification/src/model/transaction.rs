//! Transactions, their identities and the operations they carry.
//!
//! A transaction is `Pending` until an account takes it and `Applied`
//! afterwards. Reversing an applied operation (a storno) yields a pending one
//! of the opposite kind, whose identity is derived from its parent's.

use vstd::prelude::*;
use core::marker::PhantomData;
use uuid::Uuid;
use crate::model::amount::{
    Amount, difference_result, exact_difference, exact_sum, representable, sum_result,
};
use crate::model::account::Account;
use crate::model::client::ClientId;
use crate::model::TransactionError;

verus! {

/// The namespace under which transaction identities are derived.
pub const UUID_NAMESPACE: u128 = 0x123e4567_e89b_12d3_a456_426614174000u128;

/// What `Uuid::new_v5` returns for a namespace and a name, as a 128-bit value.
pub uninterp spec fn uuid_v5(namespace: u128, name: Seq<u8>) -> u128;

/// `Uuid::new_v5`: the name-based (SHA-1) UUID of `name` in `namespace`, both
/// UUIDs taken as their 128-bit big-endian values.
#[verifier::external_body]
fn uuid_new_v5(namespace: u128, name: &[u8]) -> (r: u128)
    ensures
        r == uuid_v5(namespace, name@),
{
    Uuid::new_v5(&Uuid::from_u128(namespace), name).as_u128()
}

/// The big-endian bytes of a 128-bit value.
pub open spec fn u128_be_bytes(v: u128) -> Seq<u8> {
    seq![
        (v >> 120u128) as u8, (v >> 112u128) as u8, (v >> 104u128) as u8, (v >> 96u128) as u8,
        (v >> 88u128) as u8, (v >> 80u128) as u8, (v >> 72u128) as u8, (v >> 64u128) as u8,
        (v >> 56u128) as u8, (v >> 48u128) as u8, (v >> 40u128) as u8, (v >> 32u128) as u8,
        (v >> 24u128) as u8, (v >> 16u128) as u8, (v >> 8u128) as u8, v as u8,
    ]
}

/// The big-endian bytes of a 32-bit value.
pub open spec fn u32_be_bytes(v: u32) -> Seq<u8> {
    seq![(v >> 24u32) as u8, (v >> 16u32) as u8, (v >> 8u32) as u8, v as u8]
}

/// The identity derived from a number.
pub open spec fn id_of_number(value: u32) -> u128 {
    uuid_v5(UUID_NAMESPACE, u32_be_bytes(value))
}

/// The identity of the child of a transaction identity.
pub open spec fn child_of(id: u128) -> u128 {
    uuid_v5(UUID_NAMESPACE, u128_be_bytes(id))
}

/// A transaction identity: a UUID, held as its 128-bit value.
#[derive(Clone, Copy, Debug, PartialEq, Eq, Structural, Hash)]
pub struct TransactionId(pub u128);

impl TransactionId {
    /// The identity of a transaction derived from this one: the UUID v5 of
    /// this identity's bytes in the transaction namespace.
    pub fn child(&self) -> (r: Self)
        ensures
            r.0 == child_of(self.0),
    {
        let v = self.0;
        let bytes: Vec<u8> = vec![
            (v >> 120u128) as u8, (v >> 112u128) as u8, (v >> 104u128) as u8, (v >> 96u128) as u8,
            (v >> 88u128) as u8, (v >> 80u128) as u8, (v >> 72u128) as u8, (v >> 64u128) as u8,
            (v >> 56u128) as u8, (v >> 48u128) as u8, (v >> 40u128) as u8, (v >> 32u128) as u8,
            (v >> 24u128) as u8, (v >> 16u128) as u8, (v >> 8u128) as u8, v as u8,
        ];
        assert(bytes@ =~= u128_be_bytes(v));
        TransactionId(uuid_new_v5(UUID_NAMESPACE, bytes.as_slice()))
    }
}

impl From<u32> for TransactionId {
    /// The identity of transaction number `value`: the UUID v5 of its
    /// big-endian bytes in the transaction namespace.
    fn from(value: u32) -> (r: Self) {
        let bytes: Vec<u8> = vec![
            (value >> 24u32) as u8,
            (value >> 16u32) as u8,
            (value >> 8u32) as u8,
            value as u8,
        ];
        assert(bytes@ =~= u32_be_bytes(value));
        TransactionId(uuid_new_v5(UUID_NAMESPACE, bytes.as_slice()))
    }
}

impl vstd::std_specs::convert::FromSpecImpl<u32> for TransactionId {
    open spec fn obeys_from_spec() -> bool {
        true
    }

    open spec fn from_spec(v: u32) -> Self {
        TransactionId(id_of_number(v))
    }
}

/// Whether an operation takes money out of an account or puts it in.
#[derive(Clone, Copy, Debug, PartialEq, Eq, Structural)]
pub enum OperationKind {
    Debit,
    Credit,
}

/// The opposite kind.
pub open spec fn reversed(kind: OperationKind) -> OperationKind {
    match kind {
        OperationKind::Debit => OperationKind::Credit,
        OperationKind::Credit => OperationKind::Debit,
    }
}

/// Marks an operation that an account has taken.
#[derive(Clone, Copy, Debug)]
pub struct Applied {}

/// Marks an operation not yet taken by an account.
#[derive(Clone, Copy, Debug)]
pub struct Pending {}

/// A debit or credit of an amount, in state `Status`.
#[derive(Debug)]
pub struct Operation<Status> {
    pub kind: OperationKind,
    pub amount: Amount,
    pub status: PhantomData<Status>,
}

impl<Status> Operation<Status> {
    /// A debit of `amount`.
    pub fn debit(amount: Amount) -> (r: Self)
        ensures
            r.kind == OperationKind::Debit,
            r.amount == amount,
    {
        Operation { kind: OperationKind::Debit, amount, status: PhantomData }
    }

    /// A credit of `amount`.
    pub fn credit(amount: Amount) -> (r: Self)
        ensures
            r.kind == OperationKind::Credit,
            r.amount == amount,
    {
        Operation { kind: OperationKind::Credit, amount, status: PhantomData }
    }
}

impl Operation<Applied> {
    /// The operation that reverses this one: same amount, opposite kind.
    pub fn storno(&self) -> (r: Operation<Pending>)
        ensures
            r.kind == reversed(self.kind),
            r.amount == self.amount,
    {
        match self.kind {
            OperationKind::Debit => Operation::credit(self.amount),
            OperationKind::Credit => Operation::debit(self.amount),
        }
    }
}

/// What a transaction holds, whatever its status.
pub struct TransactionView {
    pub client_id: ClientId,
    pub transaction_id: TransactionId,
    pub kind: OperationKind,
    pub amount: Amount,
}

/// The reversing transaction of `t`: the child identity, the opposite kind.
pub open spec fn storno_of(t: TransactionView) -> TransactionView {
    TransactionView {
        client_id: t.client_id,
        transaction_id: TransactionId(child_of(t.transaction_id.0)),
        kind: reversed(t.kind),
        amount: t.amount,
    }
}

/// Reversing a reversal gives back the client, kind and amount of the
/// original transaction.
pub proof fn lemma_storno_twice(t: TransactionView)
    ensures
        storno_of(storno_of(t)).client_id == t.client_id,
        storno_of(storno_of(t)).kind == t.kind,
        storno_of(storno_of(t)).amount == t.amount,
        signed_units(storno_of(t)) == -signed_units(t),
{
}

/// A transaction of a client, in state `Status`.
#[derive(Debug)]
pub struct TransactionData<Status> {
    pub client_id: ClientId,
    pub transaction_id: TransactionId,
    pub operation: Operation<Status>,
}

impl<Status> View for TransactionData<Status> {
    type V = TransactionView;

    open spec fn view(&self) -> TransactionView {
        TransactionView {
            client_id: self.client_id,
            transaction_id: self.transaction_id,
            kind: self.operation.kind,
            amount: self.operation.amount,
        }
    }
}

/// Whether taking `t` on a balance is refused for want of funds: a debit of
/// more than the balance.
pub open spec fn lacks_funds(balance: Amount, t: TransactionView) -> bool {
    t.kind == OperationKind::Debit && balance.units() < t.amount.units()
}

/// The balance after taking `t`, where funds suffice: as `Decimal` adds or
/// subtracts the amount.
pub open spec fn balance_after(balance: Amount, t: TransactionView) -> Amount {
    match t.kind {
        OperationKind::Credit => sum_result(balance, t.amount)->Some_0,
        OperationKind::Debit => difference_result(balance, t.amount)->Some_0,
    }
}

/// Taking `t` on a balance, where funds suffice, does not overflow a
/// `Decimal` (where it would, `Decimal`'s `+=` and `-=` panic): the result
/// exists, and like every `Decimal` it is in range.
pub open spec fn balance_defined(balance: Amount, t: TransactionView) -> bool {
    lacks_funds(balance, t) || match t.kind {
        OperationKind::Credit => sum_result(balance, t.amount) matches Some(c) && c.wf(),
        OperationKind::Debit => difference_result(balance, t.amount) matches Some(c) && c.wf(),
    }
}

/// Taking `t` on a balance, where funds suffice, needs no rounding: its
/// exact result is representable.
pub open spec fn balance_exact(balance: Amount, t: TransactionView) -> bool {
    lacks_funds(balance, t) || match t.kind {
        OperationKind::Credit => representable(exact_sum(balance, t.amount)),
        OperationKind::Debit => representable(exact_difference(balance, t.amount)),
    }
}

impl TransactionData<Pending> {
    /// Takes this transaction on the balance of `account`: a debit of more
    /// than the balance is refused with `InsufficientFunds`; otherwise the
    /// balance moves by the amount. The recorded transactions are untouched.
    pub fn apply<T>(self, account: &mut Account<T>) -> (r: Result<
        TransactionData<Applied>,
        TransactionError,
    >)
        requires
            old(account).balance.wf(),
            self.operation.amount.wf(),
            balance_defined(old(account).balance, self@),
        ensures
            final(account).transactions@ == old(account).transactions@,
            lacks_funds(old(account).balance, self@) ==> {
                &&& r == Err::<TransactionData<Applied>, TransactionError>(
                    TransactionError::InsufficientFunds(self.client_id),
                )
                &&& final(account).balance == old(account).balance
            },
            !lacks_funds(old(account).balance, self@) ==> {
                &&& r matches Ok(applied) && applied@ == self@
                &&& final(account).balance == balance_after(old(account).balance, self@)
                &&& final(account).balance.wf()
                &&& balance_exact(old(account).balance, self@) ==> final(account).balance.units()
                    == old(account).balance.units() + signed_units(self@)
                &&& self.operation.kind == OperationKind::Debit ==> final(account).balance.units()
                    >= 0
            },
            old(account).balance.units() >= 0 && self.operation.amount.units() >= 0
                ==> final(account).balance.units() >= 0,
    {
        let amount = self.operation.amount;
        let operation = match self.operation.kind {
            OperationKind::Debit => {
                if account.balance.less_than(&amount) {
                    return Err(TransactionError::InsufficientFunds(self.client_id));
                }
                account.balance = account.balance.checked_sub(amount).unwrap();
                Operation::debit(amount)
            },
            OperationKind::Credit => {
                account.balance = account.balance.checked_add(amount).unwrap();
                Operation::credit(amount)
            },
        };
        Ok(TransactionData {
            client_id: self.client_id,
            transaction_id: self.transaction_id,
            operation,
        })
    }
}

impl TransactionData<Applied> {
    /// The transaction that reverses this one: same client and amount, the
    /// opposite kind, and the child of this identity.
    pub fn storno(&self) -> (r: TransactionData<Pending>)
        ensures
            r@ == storno_of(self@),
    {
        TransactionData {
            client_id: self.client_id,
            transaction_id: self.transaction_id.child(),
            operation: self.operation.storno(),
        }
    }
}

/// The signed value of a transaction: its amount's value, negated for a debit.
pub open spec fn signed_units(t: TransactionView) -> int {
    match t.kind {
        OperationKind::Credit => t.amount.units(),
        OperationKind::Debit => -t.amount.units(),
    }
}

/// A reference to an earlier transaction of a client.
#[derive(Clone, Copy, Debug)]
pub struct TransactionReference {
    pub client_id: ClientId,
    pub transaction_id: TransactionId,
}

/// What a client asks of the ledger.
#[derive(Debug)]
pub enum Transaction {
    Deposit(TransactionData<Pending>),
    Withdrawal(TransactionData<Pending>),
    Dispute(TransactionReference),
    Resolve(TransactionReference),
    Chargeback(TransactionReference),
}

} // verus!
