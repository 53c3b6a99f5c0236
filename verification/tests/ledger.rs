use accountable::model::amount::{Amount, MAX_MANTISSA};
use accountable::model::client::ClientId;
use accountable::model::ledger::Ledger;
use accountable::model::transaction::{
    Operation, Transaction, TransactionData, TransactionId, TransactionReference,
};
use accountable::model::TransactionError;
use rust_decimal::Decimal;

fn decimal(amount: Amount) -> Decimal {
    Decimal::from_i128_with_scale(amount.mantissa, amount.scale)
}

#[test]
fn ledger_creates_client_for_deposit() {
    let client_id = ClientId(1);
    let mut ledger = Ledger::new();

    let result = ledger.accept(Transaction::Deposit(TransactionData {
        client_id,
        transaction_id: TransactionId::from(1),
        operation: Operation::credit(Amount::new(10_000, 4)),
    }));

    assert!(result.is_ok());
    assert!(ledger.clients.contains_key(&client_id.0));
}

#[test]
fn ledger_creates_client_for_withdrawal() {
    let client_id = ClientId(2);
    let mut ledger = Ledger::new();

    let result = ledger.accept(Transaction::Withdrawal(TransactionData {
        client_id,
        transaction_id: TransactionId::from(2),
        operation: Operation::debit(Amount::new(10_000, 4)),
    }));

    assert!(ledger.clients.contains_key(&client_id.0));
    assert!(matches!(result, Err(TransactionError::InsufficientFunds(id)) if id == client_id));
}

#[test]
fn ledger_does_not_create_client_for_missing_reference_transaction() {
    let client_id = ClientId(3);
    let mut ledger = Ledger::new();

    let result = ledger.accept(Transaction::Dispute(TransactionReference {
        client_id,
        transaction_id: TransactionId::from(3),
    }));

    assert!(matches!(result, Err(TransactionError::ClientDoesNotExist(id)) if id == client_id));
    assert!(!ledger.clients.contains_key(&client_id.0));
}

#[test]
fn ledger_keeps_clients_apart() {
    let mut ledger = Ledger::new();
    for (client, tx, amount) in [(1u16, 1u32, 5i64), (2, 2, 7), (1, 3, 1)] {
        let transaction = Transaction::Deposit(TransactionData {
            client_id: ClientId(client),
            transaction_id: TransactionId::from(tx),
            operation: Operation::credit(Amount::new(amount, 0)),
        });
        assert!(ledger.can_accept(&transaction));
        ledger.accept(transaction).unwrap();
    }
    assert_eq!(decimal(ledger.clients[&1].available.balance), Decimal::new(6, 0));
    assert_eq!(decimal(ledger.clients[&2].available.balance), Decimal::new(7, 0));
    let dispute = Transaction::Dispute(TransactionReference {
        client_id: ClientId(2),
        transaction_id: TransactionId::from(1),
    });
    let result = ledger.accept(dispute);
    assert!(matches!(result, Err(TransactionError::TransactionNotFound(_))));
    assert_eq!(decimal(ledger.clients[&1].held.balance), Decimal::ZERO);
}

#[test]
fn ledger_refuses_arithmetic_beyond_decimal_range() {
    let mut ledger = Ledger::new();
    let largest = Amount { mantissa: MAX_MANTISSA, scale: 0 };
    let first = Transaction::Deposit(TransactionData {
        client_id: ClientId(1),
        transaction_id: TransactionId::from(1),
        operation: Operation::credit(largest),
    });
    assert!(ledger.can_accept(&first));
    ledger.accept(first).unwrap();
    assert_eq!(decimal(ledger.clients[&1].available.balance), Decimal::MAX);
    let second = Transaction::Deposit(TransactionData {
        client_id: ClientId(1),
        transaction_id: TransactionId::from(2),
        operation: Operation::credit(Amount::new(1, 0)),
    });
    assert!(!ledger.can_accept(&second));
    let duplicate = Transaction::Deposit(TransactionData {
        client_id: ClientId(1),
        transaction_id: TransactionId::from(1),
        operation: Operation::credit(Amount::new(1, 0)),
    });
    assert!(ledger.can_accept(&duplicate));
    let withdrawal = Transaction::Withdrawal(TransactionData {
        client_id: ClientId(1),
        transaction_id: TransactionId::from(3),
        operation: Operation::debit(Amount::new(1, 0)),
    });
    assert!(ledger.can_accept(&withdrawal));
}

#[test]
fn accept_within_range_refuses_overflow_and_keeps_the_ledger() {
    let mut ledger = Ledger::new();
    let largest = Amount { mantissa: MAX_MANTISSA, scale: 0 };
    let first = Transaction::Deposit(TransactionData {
        client_id: ClientId(4),
        transaction_id: TransactionId::from(1),
        operation: Operation::credit(largest),
    });
    assert!(matches!(ledger.accept_within_range(first), Some(Ok(()))));
    let second = Transaction::Deposit(TransactionData {
        client_id: ClientId(4),
        transaction_id: TransactionId::from(2),
        operation: Operation::credit(Amount::new(1, 0)),
    });
    assert!(ledger.accept_within_range(second).is_none());
    assert_eq!(ledger.clients[&4].available.transactions.len(), 1);
    let unknown = Transaction::Resolve(TransactionReference {
        client_id: ClientId(5),
        transaction_id: TransactionId::from(1),
    });
    assert!(matches!(
        ledger.accept_within_range(unknown),
        Some(Err(TransactionError::ClientDoesNotExist(id))) if id == ClientId(5)
    ));
}

#[test]
fn deposit_needing_rounding_is_accepted() {
    let mut ledger = Ledger::new();
    let eight = Transaction::Deposit(TransactionData {
        client_id: ClientId(6),
        transaction_id: TransactionId::from(1),
        operation: Operation::credit(Amount::new(8, 0)),
    });
    assert!(matches!(ledger.accept_within_range(eight), Some(Ok(()))));
    let tiny = Transaction::Deposit(TransactionData {
        client_id: ClientId(6),
        transaction_id: TransactionId::from(2),
        operation: Operation::credit(Amount::new(1, 28)),
    });
    assert!(matches!(ledger.accept_within_range(tiny), Some(Ok(()))));
    assert_eq!(decimal(ledger.clients[&6].available.balance), Decimal::new(8, 0) + Decimal::new(1, 28));
}

#[test]
fn refusal_messages_name_client_and_transaction() {
    let client = ClientId(4);
    assert_eq!(
        TransactionError::InsufficientFunds(client).message(),
        format!("Insufficient funds for client {:?}", client)
    );
    assert_eq!(TransactionError::ClientDoesNotExist(ClientId(65535)).message(), "Client does not exist: 65535");
    assert_eq!(TransactionError::ClientAccountSuspended(ClientId(0)).message(), "Client account is suspended: 0");
    let id = TransactionId::from(42);
    assert_eq!(
        TransactionError::TransactionNotFound(id).message(),
        format!("Transaction not found: {}", uuid::Uuid::from_u128(id.0))
    );
    assert_eq!(
        TransactionError::DuplicateTransaction(TransactionId(0x0123456789abcdef0011223344556677)).message(),
        "Duplicate transaction: 01234567-89ab-cdef-0011-223344556677"
    );
}
