use accountable::model::amount::Amount;
use accountable::model::client::ClientId;
use accountable::model::transaction::{
    Applied, Operation, OperationKind, TransactionData, TransactionId, UUID_NAMESPACE,
};
use rust_decimal::Decimal;
use uuid::Uuid;

fn decimal(amount: Amount) -> Decimal {
    Decimal::from_i128_with_scale(amount.mantissa, amount.scale)
}

#[test]
fn storno_reverses_credit_operation_into_debit() {
    let operation = Operation::<Applied>::credit(Amount::new(12_500, 4));

    let storno = operation.storno();

    assert!(matches!(storno.kind, OperationKind::Debit));
    assert_eq!(decimal(storno.amount), Decimal::new(12_500, 4));
}

#[test]
fn storno_reverses_debit_operation_into_credit() {
    let operation = Operation::<Applied>::debit(Amount::new(40_001, 4));

    let storno = operation.storno();

    assert!(matches!(storno.kind, OperationKind::Credit));
    assert_eq!(decimal(storno.amount), Decimal::new(40_001, 4));
}

#[test]
fn transaction_data_storno_preserves_client_and_amount_and_creates_child_tx_id() {
    let original = TransactionData::<Applied> {
        client_id: ClientId(7),
        transaction_id: TransactionId::from(42),
        operation: Operation::credit(Amount::new(15, 1)),
    };

    let storno = original.storno();

    assert_eq!(storno.client_id, original.client_id);
    assert_ne!(storno.transaction_id, original.transaction_id);
    assert_eq!(storno.transaction_id, original.transaction_id.child());
    assert!(matches!(storno.operation.kind, OperationKind::Debit));
    assert_eq!(decimal(storno.operation.amount), decimal(original.operation.amount));
}

#[test]
fn child_transaction_id_is_deterministic_for_the_same_parent() {
    let parent = TransactionId::from(42);

    let first_child = parent.child();
    let second_child = parent.child();

    assert_eq!(first_child, second_child);
    assert_ne!(first_child, parent);
}

#[test]
fn different_parents_produce_different_child_transaction_ids() {
    let first_parent = TransactionId::from(41);
    let second_parent = TransactionId::from(42);

    let first_child = first_parent.child();
    let second_child = second_parent.child();

    assert_ne!(first_parent, second_parent);
    assert_ne!(first_child, second_child);
}

#[test]
fn transaction_id_is_the_v5_uuid_of_the_number() {
    let namespace = Uuid::from_u128(UUID_NAMESPACE);
    let expected = Uuid::new_v5(&namespace, &42u32.to_be_bytes());
    assert_eq!(TransactionId::from(42).0, expected.as_u128());
    assert_eq!(namespace.as_bytes(), &[
        0x12, 0x3e, 0x45, 0x67, 0xe8, 0x9b, 0x12, 0xd3, 0xa4, 0x56, 0x42, 0x66, 0x14, 0x17, 0x40,
        0x00,
    ]);
    assert_eq!(expected.get_version_num(), 5);
}

#[test]
fn child_id_is_the_v5_uuid_of_the_parent_bytes() {
    let namespace = Uuid::from_u128(UUID_NAMESPACE);
    let parent = TransactionId::from(7);
    let expected = Uuid::new_v5(&namespace, Uuid::from_u128(parent.0).as_bytes());
    assert_eq!(parent.child().0, expected.as_u128());
    assert_ne!(parent.child().0, parent.0);
}

#[test]
fn storno_of_a_storno_restores_kind_and_amount() {
    let original = TransactionData::<Applied> {
        client_id: ClientId(3),
        transaction_id: TransactionId::from(5),
        operation: Operation::debit(Amount::new(-250, 2)),
    };
    let first = original.storno();
    let applied = TransactionData::<Applied> {
        client_id: first.client_id,
        transaction_id: first.transaction_id,
        operation: Operation::credit(first.operation.amount),
    };
    let second = applied.storno();
    assert!(matches!(second.operation.kind, OperationKind::Debit));
    assert_eq!(decimal(second.operation.amount), Decimal::new(-250, 2));
    assert_eq!(second.client_id, ClientId(3));
    assert_eq!(second.transaction_id, original.transaction_id.child().child());
}
