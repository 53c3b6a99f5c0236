//! The domain model: amounts, transactions, accounts, clients and the ledger.

pub mod account;
pub mod amount;
pub mod client;
pub mod ledger;
pub mod text;
pub mod transaction;

use vstd::prelude::*;
use vstd::string::StringExecFns;
use crate::model::client::ClientId;
use crate::model::text::{decimal_text, push_decimal, push_uuid, uuid_text};
use crate::model::transaction::TransactionId;

verus! {

/// Why a transaction was refused.
#[derive(Clone, Copy, Debug, PartialEq, Eq, Structural)]
pub enum TransactionError {
    InsufficientFunds(ClientId),
    ClientDoesNotExist(ClientId),
    TransactionNotFound(TransactionId),
    DuplicateTransaction(TransactionId),
    ClientAccountSuspended(ClientId),
}

/// The message that tells a refusal.
pub open spec fn message_of(e: TransactionError) -> Seq<char> {
    match e {
        TransactionError::InsufficientFunds(c) => "Insufficient funds for client ClientId("@
            + decimal_text(c.0 as nat) + ")"@,
        TransactionError::TransactionNotFound(t) => "Transaction not found: "@ + uuid_text(t.0),
        TransactionError::DuplicateTransaction(t) => "Duplicate transaction: "@ + uuid_text(t.0),
        TransactionError::ClientAccountSuspended(c) => "Client account is suspended: "@
            + decimal_text(c.0 as nat),
        TransactionError::ClientDoesNotExist(c) => "Client does not exist: "@ + decimal_text(
            c.0 as nat,
        ),
    }
}

impl TransactionError {
    /// The message that tells this refusal: client numbers in decimal,
    /// transaction identities as hyphenated UUIDs.
    pub fn message(&self) -> (r: String)
        ensures
            r@ == message_of(*self),
    {
        let mut s = String::new();
        match self {
            TransactionError::InsufficientFunds(c) => {
                s.append("Insufficient funds for client ClientId(");
                push_decimal(&mut s, c.0 as u32);
                s.append(")");
            },
            TransactionError::TransactionNotFound(t) => {
                s.append("Transaction not found: ");
                push_uuid(&mut s, t.0);
            },
            TransactionError::DuplicateTransaction(t) => {
                s.append("Duplicate transaction: ");
                push_uuid(&mut s, t.0);
            },
            TransactionError::ClientAccountSuspended(c) => {
                s.append("Client account is suspended: ");
                push_decimal(&mut s, c.0 as u32);
            },
            TransactionError::ClientDoesNotExist(c) => {
                s.append("Client does not exist: ");
                push_decimal(&mut s, c.0 as u32);
            },
        }
        s
    }
}

} // verus!
