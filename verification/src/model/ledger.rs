//! The ledger: every client, by number.

use vstd::prelude::*;
use std::collections::HashMap;
use crate::model::client::{
    Client, ClientId, ClientView, client_defined, client_exact, client_outcome, fresh_client,
    held_then_available, hold_of,
    lemma_client_step, lemma_fresh_client_wf, transaction_wf,
};
use crate::model::transaction::{Transaction, storno_of};
use crate::model::TransactionError;

verus! {

broadcast use vstd::std_specs::hash::group_hash_axioms;

/// The clients, keyed by their numbers.
#[derive(Debug)]
pub struct Ledger {
    pub clients: HashMap<u16, Client>,
}

impl View for Ledger {
    type V = Map<u16, ClientView>;

    open spec fn view(&self) -> Map<u16, ClientView> {
        self.clients@.map_values(|c: Client| c@)
    }
}

/// Every client is filed under its own number and is well formed.
pub open spec fn ledger_wf(clients: Map<u16, ClientView>) -> bool {
    &&& clients.dom().finite()
    &&& forall|k: u16| #[trigger]
        clients.contains_key(k) ==> clients[k].client_id.0 == k && clients[k].wf()
}

/// Every client's balances are the sums of what their accounts record.
pub open spec fn ledger_explained(clients: Map<u16, ClientView>) -> bool {
    forall|k: u16| #[trigger] clients.contains_key(k) ==> clients[k].explained()
}

/// The client a transaction names.
pub open spec fn client_of(t: Transaction) -> ClientId {
    match t {
        Transaction::Deposit(d) => d.client_id,
        Transaction::Withdrawal(d) => d.client_id,
        Transaction::Dispute(r) => r.client_id,
        Transaction::Resolve(r) => r.client_id,
        Transaction::Chargeback(r) => r.client_id,
    }
}

/// Whether a transaction may create its client: deposits and withdrawals.
pub open spec fn creates_client(t: Transaction) -> bool {
    t is Deposit || t is Withdrawal
}

/// What a transaction does to the ledger, and what is answered: the client
/// it names (created on a deposit or withdrawal where it is new) applies it;
/// disputes, resolves and chargebacks of an unknown client are refused and
/// change nothing.
pub open spec fn ledger_outcome(clients: Map<u16, ClientView>, t: Transaction) -> (
    Map<u16, ClientView>,
    Result<(), TransactionError>,
) {
    let id = client_of(t);
    if clients.contains_key(id.0) {
        let (c, r) = client_outcome(clients[id.0], t);
        (clients.insert(id.0, c), r)
    } else if creates_client(t) {
        let (c, r) = client_outcome(fresh_client(id), t);
        (clients.insert(id.0, c), r)
    } else {
        (clients, Err(TransactionError::ClientDoesNotExist(id)))
    }
}

/// The arithmetic of `ledger_outcome` does not overflow a `Decimal`.
pub open spec fn ledger_defined(clients: Map<u16, ClientView>, t: Transaction) -> bool {
    let id = client_of(t);
    if clients.contains_key(id.0) {
        client_defined(clients[id.0], t)
    } else {
        creates_client(t) ==> client_defined(fresh_client(id), t)
    }
}

/// Accepting a transaction keeps the ledger well formed.
pub proof fn lemma_ledger_step(clients: Map<u16, ClientView>, t: Transaction)
    requires
        ledger_wf(clients),
        transaction_wf(t),
        ledger_defined(clients, t),
    ensures
        ledger_wf(ledger_outcome(clients, t).0),
        ledger_explained(clients) && ledger_exact(clients, t) ==> ledger_explained(
            ledger_outcome(clients, t).0,
        ),
{
    let id = client_of(t);
    if clients.contains_key(id.0) {
        lemma_client_step(clients[id.0], t);
    } else if creates_client(t) {
        lemma_fresh_client_wf(id);
        lemma_client_step(fresh_client(id), t);
    }
}

/// The ledger's step is the step of the client the transaction names: a
/// known client takes it and no number is added or removed; a deposit or
/// withdrawal for an unknown client creates it, whatever it is answered, and
/// the new client is a fresh client after taking it.
pub proof fn lemma_ledger_routing(clients: Map<u16, ClientView>, t: Transaction)
    ensures
        ({
            let id = client_of(t);
            let (after, r) = ledger_outcome(clients, t);
            &&& clients.contains_key(id.0) ==> after.dom() == clients.dom() && (after[id.0], r)
                == client_outcome(clients[id.0], t)
            &&& !clients.contains_key(id.0) && creates_client(t) ==> after.dom()
                == clients.dom().insert(id.0) && (after[id.0], r) == client_outcome(
                fresh_client(id),
                t,
            )
            &&& creates_client(t) ==> after.dom() == clients.dom().insert(id.0)
        }),
{
    let id = client_of(t);
    let after = ledger_outcome(clients, t).0;
    if clients.contains_key(id.0) {
        assert(after.dom() =~= clients.dom());
        assert(clients.dom().insert(id.0) =~= clients.dom());
    } else if creates_client(t) {
        assert(after.dom() =~= clients.dom().insert(id.0));
    }
}

/// Every transaction goes to the client whose number it carries in its data
/// or reference: a deposit or withdrawal for number `k` leaves the ledger
/// holding, under `k`, a client whose number is `k`; a dispute, resolve or
/// chargeback for an unknown number `k` is refused as `ClientDoesNotExist(k)`
/// with nothing changed; and no other number's entry changes.
pub proof fn lemma_routes_by_carried_number(clients: Map<u16, ClientView>, t: Transaction)
    requires
        ledger_wf(clients),
    ensures
        ({
            let carried = match t {
                Transaction::Deposit(d) => d.client_id,
                Transaction::Withdrawal(d) => d.client_id,
                Transaction::Dispute(r) => r.client_id,
                Transaction::Resolve(r) => r.client_id,
                Transaction::Chargeback(r) => r.client_id,
            };
            let (after, res) = ledger_outcome(clients, t);
            &&& (t is Deposit || t is Withdrawal) ==> after.contains_key(carried.0)
                && after[carried.0].client_id == carried
            &&& !(t is Deposit || t is Withdrawal) && !clients.contains_key(carried.0) ==> res
                == Err::<(), TransactionError>(TransactionError::ClientDoesNotExist(carried))
                && after == clients
            &&& clients.contains_key(carried.0) ==> after.contains_key(carried.0)
                && after[carried.0].client_id == carried
            &&& forall|k: u16| k != carried.0 ==> (#[trigger] after.contains_key(k)
                == clients.contains_key(k) && (clients.contains_key(k) ==> after[k] == clients[k]))
        }),
{
    let id = client_of(t);
    if clients.contains_key(id.0) {
        lemma_client_keeps_number(clients[id.0], t);
    } else {
        lemma_client_keeps_number(fresh_client(id), t);
    }
}

/// A transaction taken by a client leaves its number as it was.
proof fn lemma_client_keeps_number(c: ClientView, t: Transaction)
    ensures
        client_outcome(c, t).0.client_id == c.client_id,
{
    if !c.suspended {
        match t {
            Transaction::Dispute(r) => {
                let id = r.transaction_id.0;
                if c.available.transactions.contains_key(id) {
                    let h = hold_of(c.available.transactions[id]);
                    assert(held_then_available(c, h).0.client_id == c.client_id);
                }
            },
            Transaction::Resolve(r) => {
                let id = r.transaction_id.0;
                if c.held.transactions.contains_key(id) {
                    let h = storno_of(c.held.transactions[id]);
                    assert(held_then_available(c, h).0.client_id == c.client_id);
                }
            },
            _ => {},
        }
    }
}

/// A transaction touches no client but the one it names.
pub proof fn lemma_ledger_isolation(clients: Map<u16, ClientView>, t: Transaction, k: u16)
    requires
        k != client_of(t).0,
    ensures
        ledger_outcome(clients, t).0.contains_key(k) == clients.contains_key(k),
        clients.contains_key(k) ==> ledger_outcome(clients, t).0[k] == clients[k],
{
}

/// A dispute, resolve or chargeback for a client the ledger does not know is
/// refused and creates no client; a deposit or withdrawal leaves its client
/// in the ledger, whatever it is answered.
pub proof fn lemma_ledger_clients(clients: Map<u16, ClientView>, t: Transaction)
    ensures
        !clients.contains_key(client_of(t).0) && !creates_client(t) ==> ledger_outcome(clients, t)
            == (clients, Err::<(), TransactionError>(
            TransactionError::ClientDoesNotExist(client_of(t)),
        )),
        creates_client(t) ==> ledger_outcome(clients, t).0.contains_key(client_of(t).0),
{
}

/// The arithmetic of `ledger_outcome` needs no rounding.
pub open spec fn ledger_exact(clients: Map<u16, ClientView>, t: Transaction) -> bool {
    let id = client_of(t);
    if clients.contains_key(id.0) {
        client_exact(clients[id.0], t)
    } else {
        creates_client(t) ==> client_exact(fresh_client(id), t)
    }
}

impl Ledger {
    /// A ledger without clients.
    pub fn new() -> (r: Self)
        ensures
            r@ == Map::<u16, ClientView>::empty(),
            ledger_wf(r@),
            ledger_explained(r@),
    {
        let r = Ledger { clients: HashMap::new() };
        assert(r@ =~= Map::<u16, ClientView>::empty());
        r
    }

    /// The number of the client a transaction names.
    fn client_number(transaction: &Transaction) -> (r: ClientId)
        ensures
            r == client_of(*transaction),
    {
        match transaction {
            Transaction::Deposit(d) => d.client_id,
            Transaction::Withdrawal(d) => d.client_id,
            Transaction::Dispute(r) => r.client_id,
            Transaction::Resolve(r) => r.client_id,
            Transaction::Chargeback(r) => r.client_id,
        }
    }

    /// Whether accepting `transaction` stays clear of `Decimal` overflow.
    pub fn can_accept(&self, transaction: &Transaction) -> (r: bool)
        requires
            ledger_wf(self@),
            transaction_wf(*transaction),
        ensures
            r == ledger_defined(self@, *transaction),
    {
        let id = Self::client_number(transaction);
        match self.clients.get(&id.0) {
            Some(client) => {
                assert(self@.contains_key(id.0));
                client.can_apply(transaction)
            },
            None => {
                let creates = match transaction {
                    Transaction::Deposit(_) => true,
                    Transaction::Withdrawal(_) => true,
                    _ => false,
                };
                if creates {
                    let client = Client::new(id);
                    client.can_apply(transaction)
                } else {
                    true
                }
            },
        }
    }

    /// Accepts a transaction where its arithmetic does not overflow a
    /// `Decimal` (`Some` of what `accept` answers); otherwise answers `None`
    /// and changes nothing.
    pub fn accept_within_range(&mut self, transaction: Transaction) -> (r: Option<
        Result<(), TransactionError>,
    >)
        requires
            ledger_wf(old(self)@),
            transaction_wf(transaction),
        ensures
            ledger_wf(final(self)@),
            ledger_defined(old(self)@, transaction) ==> r == Some(ledger_outcome(old(self)@, transaction).1)
                && final(self)@ == ledger_outcome(old(self)@, transaction).0,
            !ledger_defined(old(self)@, transaction) ==> r is None && final(self)@ == old(self)@,
            ledger_explained(old(self)@) && ledger_exact(old(self)@, transaction)
                ==> ledger_explained(final(self)@),
    {
        if self.can_accept(&transaction) {
            Some(self.accept(transaction))
        } else {
            None
        }
    }

    /// Routes a transaction to the client it names, as `ledger_outcome` says.
    pub fn accept(&mut self, transaction: Transaction) -> (r: Result<(), TransactionError>)
        requires
            ledger_wf(old(self)@),
            transaction_wf(transaction),
            ledger_defined(old(self)@, transaction),
        ensures
            ledger_wf(final(self)@),
            (final(self)@, r) == ledger_outcome(old(self)@, transaction),
            ledger_explained(old(self)@) && ledger_exact(old(self)@, transaction)
                ==> ledger_explained(final(self)@),
    {
        proof {
            lemma_ledger_step(self@, transaction);
        }
        let id = Self::client_number(&transaction);
        let ghost before = self@;
        let mut client = match self.clients.remove(&id.0) {
            Some(client) => {
                assert(before.contains_key(id.0) && before[id.0] == client@);
                client
            },
            None => {
                match transaction {
                    Transaction::Deposit(_) => Client::new(id),
                    Transaction::Withdrawal(_) => Client::new(id),
                    _ => {
                        assert(self@ =~= before);
                        return Err(TransactionError::ClientDoesNotExist(id));
                    },
                }
            },
        };
        let r = client.apply(transaction);
        self.clients.insert(id.0, client);
        assert(self@ =~= ledger_outcome(before, transaction).0);
        r
    }
}

} // verus!
