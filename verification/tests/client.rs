use accountable::model::account::{Account, Available};
use accountable::model::amount::Amount;
use accountable::model::client::{Client, ClientId};
use accountable::model::transaction::{
    Operation, OperationKind, Pending, Transaction, TransactionData, TransactionId,
    TransactionReference,
};
use accountable::model::TransactionError;
use rust_decimal::Decimal;

fn decimal(amount: Amount) -> Decimal {
    Decimal::from_i128_with_scale(amount.mantissa, amount.scale)
}

fn deposit(client_id: ClientId, tx: u32, amount: Amount) -> Transaction {
    Transaction::Deposit(TransactionData {
        client_id,
        transaction_id: TransactionId::from(tx),
        operation: Operation::credit(amount),
    })
}

fn withdrawal(client_id: ClientId, tx: u32, amount: Amount) -> Transaction {
    Transaction::Withdrawal(TransactionData {
        client_id,
        transaction_id: TransactionId::from(tx),
        operation: Operation::debit(amount),
    })
}

fn reference(client_id: ClientId, tx: u32) -> TransactionReference {
    TransactionReference { client_id, transaction_id: TransactionId::from(tx) }
}

fn account_sum<T>(account: &Account<T>) -> Decimal {
    account
        .transactions
        .values()
        .map(|t| match t.operation.kind {
            OperationKind::Credit => decimal(t.operation.amount),
            OperationKind::Debit => -decimal(t.operation.amount),
        })
        .sum()
}

fn assert_balances_explained(client: &Client) {
    assert_eq!(decimal(client.available.balance), account_sum(&client.available));
    assert_eq!(decimal(client.held.balance), account_sum(&client.held));
}

#[test]
fn dispute_moves_funds_from_available_to_held_without_changing_total() {
    let client_id = ClientId(4);
    let tx_id = TransactionId::from(10);
    let amount = Amount::new(15_000, 4);
    let mut client = Client::new(client_id);

    client
        .apply(Transaction::Deposit(TransactionData {
            client_id,
            transaction_id: tx_id,
            operation: Operation::credit(amount),
        }))
        .expect("deposit should succeed");

    client
        .apply(Transaction::Dispute(TransactionReference { client_id, transaction_id: tx_id }))
        .expect("dispute should succeed");

    assert_eq!(decimal(client.available.balance), Decimal::ZERO);
    assert_eq!(decimal(client.held.balance), decimal(amount));
    assert_eq!(decimal(client.available.balance) + decimal(client.held.balance), decimal(amount));
}

#[test]
fn resolve_restores_available_balance_after_dispute() {
    let client_id = ClientId(5);
    let tx_id = TransactionId::from(11);
    let amount = Amount::new(20_000, 4);
    let mut client = Client::new(client_id);

    client
        .apply(Transaction::Deposit(TransactionData {
            client_id,
            transaction_id: tx_id,
            operation: Operation::credit(amount),
        }))
        .expect("deposit should succeed");
    client
        .apply(Transaction::Dispute(TransactionReference { client_id, transaction_id: tx_id }))
        .expect("dispute should succeed");

    client
        .apply(Transaction::Resolve(TransactionReference { client_id, transaction_id: tx_id }))
        .expect("resolve should succeed");

    assert_eq!(decimal(client.available.balance), decimal(amount));
    assert_eq!(decimal(client.held.balance), Decimal::ZERO);
    assert_eq!(decimal(client.available.balance) + decimal(client.held.balance), decimal(amount));
}

#[test]
fn chargeback_removes_funds_and_locks_account() {
    let client_id = ClientId(6);
    let tx_id = TransactionId::from(12);
    let amount = Amount::new(25_000, 4);
    let mut client = Client::new(client_id);

    client
        .apply(Transaction::Deposit(TransactionData {
            client_id,
            transaction_id: tx_id,
            operation: Operation::credit(amount),
        }))
        .expect("deposit should succeed");
    client
        .apply(Transaction::Dispute(TransactionReference { client_id, transaction_id: tx_id }))
        .expect("dispute should succeed");

    client
        .apply(Transaction::Chargeback(TransactionReference { client_id, transaction_id: tx_id }))
        .expect("chargeback should succeed");

    assert_eq!(decimal(client.available.balance), Decimal::ZERO);
    assert_eq!(decimal(client.held.balance), Decimal::ZERO);
    assert_eq!(decimal(client.available.balance) + decimal(client.held.balance), Decimal::ZERO);
    assert!(client.suspended);
}

#[test]
fn withdrawal_beyond_balance_is_refused_and_changes_nothing() {
    let client_id = ClientId(8);
    let mut client = Client::new(client_id);
    client.apply(deposit(client_id, 1, Amount::new(5, 0))).unwrap();
    let result = client.apply(withdrawal(client_id, 2, Amount::new(6, 0)));
    assert!(matches!(result, Err(TransactionError::InsufficientFunds(id)) if id == client_id));
    assert_eq!(decimal(client.available.balance), Decimal::new(5, 0));
    assert_eq!(client.available.transactions.len(), 1);
}

#[test]
fn duplicate_transaction_is_refused() {
    let client_id = ClientId(9);
    let mut client = Client::new(client_id);
    client.apply(deposit(client_id, 1, Amount::new(5, 0))).unwrap();
    let result = client.apply(deposit(client_id, 1, Amount::new(7, 0)));
    assert!(
        matches!(result, Err(TransactionError::DuplicateTransaction(id)) if id == TransactionId::from(1))
    );
    assert_eq!(decimal(client.available.balance), Decimal::new(5, 0));
}

#[test]
fn dispute_of_unknown_or_withdrawn_transaction_is_not_found() {
    let client_id = ClientId(10);
    let mut client = Client::new(client_id);
    client.apply(deposit(client_id, 1, Amount::new(5, 0))).unwrap();
    client.apply(withdrawal(client_id, 2, Amount::new(2, 0))).unwrap();
    let unknown = client.apply(Transaction::Dispute(reference(client_id, 3)));
    assert!(
        matches!(unknown, Err(TransactionError::TransactionNotFound(id)) if id == TransactionId::from(3))
    );
    let withdrawn = client.apply(Transaction::Dispute(reference(client_id, 2)));
    assert!(
        matches!(withdrawn, Err(TransactionError::TransactionNotFound(id)) if id == TransactionId::from(2))
    );
    assert_eq!(decimal(client.available.balance), Decimal::new(3, 0));
    assert_eq!(decimal(client.held.balance), Decimal::ZERO);
}

#[test]
fn resolve_and_chargeback_need_a_held_transaction() {
    let client_id = ClientId(11);
    let mut client = Client::new(client_id);
    client.apply(deposit(client_id, 1, Amount::new(5, 0))).unwrap();
    let resolve = client.apply(Transaction::Resolve(reference(client_id, 1)));
    assert!(matches!(resolve, Err(TransactionError::TransactionNotFound(_))));
    let chargeback = client.apply(Transaction::Chargeback(reference(client_id, 1)));
    assert!(matches!(chargeback, Err(TransactionError::TransactionNotFound(_))));
    assert!(!client.suspended);
}

#[test]
fn suspended_client_refuses_everything() {
    let client_id = ClientId(12);
    let mut client = Client::new(client_id);
    client.apply(deposit(client_id, 1, Amount::new(5, 0))).unwrap();
    client.apply(Transaction::Dispute(reference(client_id, 1))).unwrap();
    client.apply(Transaction::Chargeback(reference(client_id, 1))).unwrap();
    let result = client.apply(deposit(client_id, 2, Amount::new(1, 0)));
    assert!(matches!(result, Err(TransactionError::ClientAccountSuspended(id)) if id == client_id));
    assert_eq!(decimal(client.available.balance), Decimal::ZERO);
    assert!(client.suspended);
}

#[test]
fn second_dispute_of_the_same_transaction_is_a_duplicate() {
    let client_id = ClientId(13);
    let mut client = Client::new(client_id);
    client.apply(deposit(client_id, 1, Amount::new(5, 0))).unwrap();
    client.apply(Transaction::Dispute(reference(client_id, 1))).unwrap();
    let again = client.apply(Transaction::Dispute(reference(client_id, 1)));
    assert!(matches!(again, Err(TransactionError::DuplicateTransaction(_))));
    assert_eq!(decimal(client.held.balance), Decimal::new(5, 0));
    assert_eq!(decimal(client.available.balance), Decimal::ZERO);
}

#[test]
fn refused_dispute_moves_nothing() {
    let client_id = ClientId(1);
    let mut client = Client::new(client_id);
    client.apply(deposit(client_id, 1, Amount::new(10_000, 4))).unwrap();
    client.apply(withdrawal(client_id, 2, Amount::new(10_000, 4))).unwrap();
    let result = client.apply(Transaction::Dispute(reference(client_id, 1)));
    assert!(matches!(result, Err(TransactionError::InsufficientFunds(id)) if id == client_id));
    assert_eq!(decimal(client.available.balance), Decimal::ZERO);
    assert_eq!(decimal(client.held.balance), Decimal::ZERO);
    assert!(client.held.transactions.is_empty());
    assert_eq!(client.available.transactions.len(), 2);
    assert_balances_explained(&client);
}

#[test]
fn refused_resolve_moves_nothing() {
    let client_id = ClientId(16);
    let mut client = Client::new(client_id);
    client.apply(deposit(client_id, 1, Amount::new(4, 0))).unwrap();
    client.apply(Transaction::Dispute(reference(client_id, 1))).unwrap();
    client.apply(Transaction::Resolve(reference(client_id, 1))).unwrap();
    client.apply(Transaction::Dispute(reference(client_id, 1))).unwrap_err();
    let held_before = client.held.transactions.len();
    let again = client.apply(Transaction::Resolve(reference(client_id, 1)));
    assert!(matches!(again, Err(TransactionError::DuplicateTransaction(_))));
    assert_eq!(client.held.transactions.len(), held_before);
    assert_eq!(decimal(client.available.balance), Decimal::new(4, 0));
    assert_eq!(decimal(client.held.balance), Decimal::ZERO);
}

#[test]
fn balances_stay_explained_by_recorded_transactions() {
    let client_id = ClientId(1);
    let mut client = Client::new(client_id);
    let steps: Vec<Transaction> = vec![
        deposit(client_id, 1, Amount::new(10_000, 4)),
        deposit(client_id, 2, Amount::new(2_5, 1)),
        withdrawal(client_id, 3, Amount::new(3, 0)),
        Transaction::Dispute(reference(client_id, 2)),
        Transaction::Dispute(reference(client_id, 3)),
        withdrawal(client_id, 4, Amount::new(100, 0)),
        Transaction::Resolve(reference(client_id, 2)),
        Transaction::Dispute(reference(client_id, 1)),
        Transaction::Resolve(reference(client_id, 1)),
        Transaction::Chargeback(reference(client_id, 1)),
        Transaction::Dispute(reference(client_id, 9)),
        deposit(client_id, 5, Amount::new(1, 2)),
    ];
    for step in steps {
        let _ = client.apply(step);
        assert_balances_explained(&client);
    }
    assert_eq!(decimal(client.available.balance), Decimal::new(51, 2));
    assert_eq!(decimal(client.held.balance), Decimal::ZERO);
    assert!(!client.suspended);
}

#[test]
fn new_account_is_empty() {
    let account: Account<Available> = Account::new();
    assert_eq!(decimal(account.balance), Decimal::ZERO);
    assert!(account.transactions.is_empty());
}

#[test]
fn account_apply_records_the_transaction() {
    let mut account: Account<Available> = Account::new();
    let data: TransactionData<Pending> = TransactionData {
        client_id: ClientId(2),
        transaction_id: TransactionId::from(77),
        operation: Operation::credit(Amount::new(125, 2)),
    };
    let applied = account.apply(data).unwrap();
    assert_eq!(applied.transaction_id, TransactionId::from(77));
    assert_eq!(decimal(account.balance), Decimal::new(125, 2));
    assert!(account.transactions.contains_key(&TransactionId::from(77).0));
}

#[test]
fn applying_a_transaction_then_its_reversal_restores_the_balance() {
    let mut account: Account<Available> = Account::new();
    let data: TransactionData<Pending> = TransactionData {
        client_id: ClientId(2),
        transaction_id: TransactionId::from(1),
        operation: Operation::credit(Amount::new(7, 0)),
    };
    account.apply(data).unwrap();
    let first = account.apply(TransactionData {
        client_id: ClientId(2),
        transaction_id: TransactionId::from(2),
        operation: Operation::credit(Amount::new(333, 2)),
    })
    .unwrap();
    account.apply(first.storno()).unwrap();
    assert_eq!(decimal(account.balance), Decimal::new(7, 0));
    assert_eq!(account.transactions.len(), 3);
}

#[test]
fn recorded_transactions_are_never_removed() {
    let client_id = ClientId(15);
    let mut client = Client::new(client_id);
    let steps: Vec<Transaction> = vec![
        deposit(client_id, 1, Amount::new(4, 0)),
        Transaction::Dispute(reference(client_id, 1)),
        withdrawal(client_id, 2, Amount::new(1, 0)),
        Transaction::Resolve(reference(client_id, 1)),
        Transaction::Dispute(reference(client_id, 1)),
        Transaction::Chargeback(reference(client_id, 1)),
    ];
    let mut seen_available: Vec<u128> = Vec::new();
    let mut seen_held: Vec<u128> = Vec::new();
    for step in steps {
        let _ = client.apply(step);
        for id in &seen_available {
            assert!(client.available.transactions.contains_key(id));
        }
        for id in &seen_held {
            assert!(client.held.transactions.contains_key(id));
        }
        seen_available = client.available.transactions.keys().copied().collect();
        seen_held = client.held.transactions.keys().copied().collect();
    }
    assert_eq!(seen_held.len(), 2);
    assert!(!client.suspended);
}

#[test]
fn deposit_that_needs_rounding_is_taken_as_the_decimal_library_rounds() {
    let client_id = ClientId(17);
    let mut client = Client::new(client_id);
    client.apply(deposit(client_id, 1, Amount::new(8, 0))).unwrap();
    let transaction = deposit(client_id, 2, Amount::new(1, 28));
    assert!(client.can_apply(&transaction));
    client.apply(transaction).unwrap();
    let mut expected = Decimal::new(8, 0);
    expected += Decimal::new(1, 28);
    assert_eq!(decimal(client.available.balance), expected);
    assert_eq!(client.available.transactions.len(), 2);
}

#[test]
fn total_is_available_plus_held() {
    let client_id = ClientId(18);
    let mut client = Client::new(client_id);
    client.apply(deposit(client_id, 1, Amount::new(15, 1))).unwrap();
    client.apply(deposit(client_id, 2, Amount::new(25, 2))).unwrap();
    client.apply(Transaction::Dispute(reference(client_id, 1))).unwrap();
    let total = client.total().unwrap();
    assert_eq!(decimal(total), Decimal::new(175, 2));
    assert_eq!(decimal(client.held.balance), Decimal::new(15, 1));
}

#[test]
fn debit_needing_rounding_never_overdraws() {
    let client_id = ClientId(19);
    let mut client = Client::new(client_id);
    let eight = Amount::new(8, 0);
    client.apply(deposit(client_id, 1, eight)).unwrap();
    let tiny = Amount::new(1, 28);
    client.apply(withdrawal(client_id, 2, tiny)).unwrap();
    let expected = decimal(eight).checked_sub(decimal(tiny)).unwrap();
    assert_eq!(expected, Decimal::new(8, 0));
    assert_eq!(decimal(client.available.balance), expected);
    assert!(decimal(client.available.balance) >= Decimal::ZERO);
}
