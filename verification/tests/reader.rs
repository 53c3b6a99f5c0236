use accountable::model::client::ClientId;
use accountable::model::transaction::{OperationKind, Transaction, TransactionId};
use accountable::reader::{
    HeaderInfo, ReadError, TransactionType, parse_fields, parse_row, parse_transaction_type,
    read_header, trim_text,
};

fn strings(items: &[&str]) -> Vec<String> {
    items.iter().map(|s| s.to_string()).collect()
}

#[test]
fn header_in_any_order_gives_positions() {
    let info = read_header(&strings(&["amount", " tx", "client ", " type "])).unwrap();
    assert_eq!(
        info,
        HeaderInfo { pos_action: 3, pos_client_id: 2, pos_transaction_id: 1, pos_amount: 0 }
    );
}

#[test]
fn unexpected_header_is_refused() {
    let result = read_header(&strings(&["type", "client", " memo ", "amount"]));
    assert!(matches!(result, Err(ReadError::UnexpectedHeader(h)) if h == "memo"));
}

#[test]
fn missing_headers_are_refused() {
    let result = read_header(&strings(&["type", "client", "tx"]));
    assert!(matches!(result, Err(ReadError::MissingHeaders(3))));
    let empty = read_header(&strings(&[]));
    assert!(matches!(empty, Err(ReadError::MissingHeaders(0))));
}

#[test]
fn transaction_types_are_lower_case_names() {
    assert_eq!(parse_transaction_type("deposit"), Some(TransactionType::Deposit));
    assert_eq!(parse_transaction_type("withdrawal"), Some(TransactionType::Withdrawal));
    assert_eq!(parse_transaction_type("dispute"), Some(TransactionType::Dispute));
    assert_eq!(parse_transaction_type("resolve"), Some(TransactionType::Resolve));
    assert_eq!(parse_transaction_type("chargeback"), Some(TransactionType::Chargeback));
    assert_eq!(parse_transaction_type("Deposit"), None);
    assert_eq!(parse_transaction_type("refund"), None);
}

#[test]
fn row_with_deposit_is_read() {
    let info = HeaderInfo { pos_action: 0, pos_client_id: 1, pos_transaction_id: 2, pos_amount: 3 };
    let row = strings(&["deposit", " 1", " 7", " 1.5"]);
    match parse_row(&row, &info).unwrap() {
        Transaction::Deposit(d) => {
            assert_eq!(d.client_id, ClientId(1));
            assert_eq!(d.transaction_id, TransactionId::from(7));
            assert!(matches!(d.operation.kind, OperationKind::Credit));
            assert_eq!((d.operation.amount.mantissa, d.operation.amount.scale), (15, 1));
        },
        other => panic!("unexpected {:?}", other),
    }
}

#[test]
fn row_with_dispute_ignores_amount() {
    let info = HeaderInfo { pos_action: 0, pos_client_id: 1, pos_transaction_id: 2, pos_amount: 3 };
    let row = strings(&["dispute", "2", "+5", ""]);
    match parse_row(&row, &info).unwrap() {
        Transaction::Dispute(r) => {
            assert_eq!(r.client_id, ClientId(2));
            assert_eq!(r.transaction_id, TransactionId::from(5));
        },
        other => panic!("unexpected {:?}", other),
    }
}

#[test]
fn row_errors_come_in_field_order() {
    assert!(matches!(parse_fields("deposit", "70000", "1", "1"), Err(ReadError::InvalidClientId)));
    assert!(matches!(parse_fields("deposit", "-1", "1", "1"), Err(ReadError::InvalidClientId)));
    assert!(matches!(parse_fields("bogus", "1", "x", "1"), Err(ReadError::InvalidTransactionId)));
    assert!(matches!(
        parse_fields("bogus", "1", "4294967296", "1"),
        Err(ReadError::InvalidTransactionId)
    ));
    assert!(matches!(parse_fields("bogus", "1", "2", "1"), Err(ReadError::InvalidTransactionType)));
    assert!(matches!(parse_fields("withdrawal", "1", "2", "abc"), Err(ReadError::InvalidAmount)));
    assert!(matches!(parse_fields("deposit", "", "2", "1"), Err(ReadError::InvalidClientId)));
    assert!(matches!(parse_fields("deposit", "+", "2", "1"), Err(ReadError::InvalidClientId)));
}

#[test]
fn largest_numbers_are_read() {
    match parse_fields("withdrawal", "65535", "4294967295", "0.0001").unwrap() {
        Transaction::Withdrawal(d) => {
            assert_eq!(d.client_id, ClientId(65535));
            assert_eq!(d.transaction_id, TransactionId::from(u32::MAX));
            assert!(matches!(d.operation.kind, OperationKind::Debit));
        },
        other => panic!("unexpected {:?}", other),
    }
}

#[test]
fn trim_matches_the_standard_library() {
    let spaces = [
        '\u{9}', '\u{a}', '\u{b}', '\u{c}', '\u{d}', ' ', '\u{85}', '\u{a0}', '\u{1680}',
        '\u{2000}', '\u{2005}', '\u{200a}', '\u{2028}', '\u{2029}', '\u{202f}', '\u{205f}',
        '\u{3000}',
    ];
    let others = ['x', '1', '\u{200b}', '\u{feff}', '\u{180e}', '-'];
    for &a in spaces.iter().chain(others.iter()) {
        for &b in spaces.iter().chain(others.iter()) {
            let text: String = [a, 'q', b, a, b].iter().collect();
            assert_eq!(trim_text(&text), text.trim());
            let inner: String = [a, b].iter().collect();
            assert_eq!(trim_text(&inner), inner.trim());
        }
    }
    assert_eq!(trim_text("3"), "3");
    assert_eq!(trim_text(" \t 3 \n"), "3");
    assert_eq!(trim_text(""), "");
}

#[test]
fn moving_columns_alike_reads_the_same_transaction() {
    let first = read_header(&strings(&["type", "client", "tx", "amount"])).unwrap();
    let moved = read_header(&strings(&["amount", "type", "tx", "client"])).unwrap();
    let row = strings(&["withdrawal", "3", "9", "2.25"]);
    let moved_row = strings(&["2.25", "withdrawal", "9", "3"]);
    match (parse_row(&row, &first).unwrap(), parse_row(&moved_row, &moved).unwrap()) {
        (Transaction::Withdrawal(a), Transaction::Withdrawal(b)) => {
            assert_eq!(a.client_id, b.client_id);
            assert_eq!(a.transaction_id, b.transaction_id);
            assert_eq!(
                (a.operation.amount.mantissa, a.operation.amount.scale),
                (b.operation.amount.mantissa, b.operation.amount.scale)
            );
        },
        other => panic!("unexpected {:?}", other),
    }
}
