//! Reading transactions from rows of text.
//!
//! A file starts with a header row naming the columns `type`, `client`, `tx`
//! and `amount` in any order; each further row is one transaction. The
//! surrounding whitespace of every field is ignored.

use vstd::prelude::*;
use vstd::string::StrSliceExecFns;
use core::marker::PhantomData;
use crate::model::amount::{Amount, decimal_parse};
use crate::model::client::ClientId;
use crate::model::transaction::{
    Operation, OperationKind, Transaction, TransactionData, TransactionId,
    TransactionReference, id_of_number,
};

verus! {

/// A character of the Unicode `White_Space` property, the whitespace that
/// `char::is_whitespace` and `str::trim` go by.
pub open spec fn is_white_space(c: char) -> bool {
    let v = c as u32;
    ||| 0x9 <= v <= 0xD
    ||| v == 0x20
    ||| v == 0x85
    ||| v == 0xA0
    ||| v == 0x1680
    ||| 0x2000 <= v <= 0x200A
    ||| v == 0x2028
    ||| v == 0x2029
    ||| v == 0x202F
    ||| v == 0x205F
    ||| v == 0x3000
}

/// The first position from `k` on that holds no whitespace (or the end).
pub open spec fn trim_start(text: Seq<char>, k: int) -> int
    decreases text.len() - k,
{
    if 0 <= k < text.len() && is_white_space(text[k]) {
        trim_start(text, k + 1)
    } else {
        k
    }
}

/// The end of `text[..k]` without its trailing whitespace, going no lower
/// than `start`.
pub open spec fn trim_end(text: Seq<char>, start: int, k: int) -> int
    decreases k - start,
{
    if start < k && is_white_space(text[k - 1]) {
        trim_end(text, start, k - 1)
    } else {
        k
    }
}

/// The text without its leading and trailing whitespace, as `str::trim`
/// leaves it.
pub open spec fn trimmed(text: Seq<char>) -> Seq<char> {
    let a = trim_start(text, 0);
    text.subrange(a, trim_end(text, a, text.len() as int))
}

/// Whether a character is whitespace.
fn white_space(c: char) -> (r: bool)
    ensures
        r == is_white_space(c),
{
    let v = c as u32;
    (0x9 <= v && v <= 0xD) || v == 0x20 || v == 0x85 || v == 0xA0 || v == 0x1680 || (0x2000 <= v
        && v <= 0x200A) || v == 0x2028 || v == 0x2029 || v == 0x202F || v == 0x205F || v == 0x3000
}

/// The text without its leading and trailing whitespace.
pub fn trim_text(text: &str) -> (r: &str)
    ensures
        r@ == trimmed(text@),
{
    let n = text.unicode_len();
    let mut a: usize = 0;
    while a < n && white_space(text.get_char(a))
        invariant
            a <= n,
            n == text@.len(),
            trim_start(text@, a as int) == trim_start(text@, 0),
        decreases n - a,
    {
        a = a + 1;
    }
    let mut b: usize = n;
    while b > a && white_space(text.get_char(b - 1))
        invariant
            a <= b <= n,
            n == text@.len(),
            trim_start(text@, 0) == a,
            trim_end(text@, a as int, b as int) == trim_end(text@, a as int, n as int),
        decreases b - a,
    {
        b = b - 1;
    }
    text.substring_char(a, b)
}

/// Why a header or a row could not be read.
#[derive(Debug)]
pub enum ReadError {
    /// A header other than `type`, `client`, `tx` and `amount`.
    UnexpectedHeader(String),
    /// Fewer than four known headers, with how many there were.
    MissingHeaders(usize),
    /// The client field is not a number from 0 to 65535.
    InvalidClientId,
    /// The transaction field is not a number from 0 to 4294967295.
    InvalidTransactionId,
    /// The type field names no kind of transaction.
    InvalidTransactionType,
    /// The amount field of a deposit or withdrawal is not a decimal number.
    InvalidAmount,
}

/// The kinds of transaction a row may name, in lower case.
#[derive(Clone, Copy, Debug, PartialEq, Eq, Structural)]
pub enum TransactionType {
    Deposit,
    Withdrawal,
    Dispute,
    Resolve,
    Chargeback,
}

/// Where the columns stand in a row.
#[derive(Clone, Copy, Debug, PartialEq, Eq, Structural)]
pub struct HeaderInfo {
    pub pos_action: usize,
    pub pos_client_id: usize,
    pub pos_transaction_id: usize,
    pub pos_amount: usize,
}

/// Two texts are equal.
fn text_equals(text: &str, other: &str) -> (r: bool)
    ensures
        r == (text@ == other@),
{
    let n = text.unicode_len();
    let m = other.unicode_len();
    if n != m {
        return false;
    }
    let mut i: usize = 0;
    while i < n
        invariant
            i <= n,
            n == text@.len(),
            m == other@.len(),
            n == m,
            forall|j: int| 0 <= j < i ==> text@[j] == other@[j],
        decreases n - i,
    {
        if text.get_char(i) != other.get_char(i) {
            return false;
        }
        i = i + 1;
    }
    assert(text@ =~= other@);
    true
}

/// The kind of transaction a (trimmed) type field names.
pub open spec fn transaction_type_of(text: Seq<char>) -> Option<TransactionType> {
    if text == "deposit"@ {
        Some(TransactionType::Deposit)
    } else if text == "withdrawal"@ {
        Some(TransactionType::Withdrawal)
    } else if text == "dispute"@ {
        Some(TransactionType::Dispute)
    } else if text == "resolve"@ {
        Some(TransactionType::Resolve)
    } else if text == "chargeback"@ {
        Some(TransactionType::Chargeback)
    } else {
        None
    }
}

/// Reads the kind of transaction a type field names: `deposit`,
/// `withdrawal`, `dispute`, `resolve` or `chargeback`, exactly so.
pub fn parse_transaction_type(text: &str) -> (r: Option<TransactionType>)
    ensures
        r == transaction_type_of(text@),
{
    if text_equals(text, "deposit") {
        Some(TransactionType::Deposit)
    } else if text_equals(text, "withdrawal") {
        Some(TransactionType::Withdrawal)
    } else if text_equals(text, "dispute") {
        Some(TransactionType::Dispute)
    } else if text_equals(text, "resolve") {
        Some(TransactionType::Resolve)
    } else if text_equals(text, "chargeback") {
        Some(TransactionType::Chargeback)
    } else {
        None
    }
}

/// A decimal digit.
pub open spec fn is_digit(c: char) -> bool {
    '0' as u32 <= c as u32 <= '9' as u32
}

/// The number that a sequence of decimal digits writes.
pub open spec fn digits_value(digits: Seq<char>) -> int
    decreases digits.len(),
{
    if digits.len() == 0 {
        0
    } else {
        10 * digits_value(digits.drop_last()) + (digits.last() as u32 - '0' as u32)
    }
}

/// The digits of an unsigned number: the text without one leading `+`.
pub open spec fn unsigned_digits(text: Seq<char>) -> Seq<char> {
    if text.len() > 0 && text[0] == '+' {
        text.drop_first()
    } else {
        text
    }
}

/// The unsigned number a text writes, as `str::parse` reads it: an optional
/// `+`, then one digit or more, the number being at most `max`.
pub open spec fn unsigned_of(text: Seq<char>, max: int) -> Option<int> {
    let d = unsigned_digits(text);
    if d.len() > 0 && (forall|i: int| 0 <= i < d.len() ==> is_digit(#[trigger] d[i]))
        && digits_value(d) <= max {
        Some(digits_value(d))
    } else {
        None
    }
}

/// Digits write a number of at least zero, and a prefix writes no more than
/// the whole.
proof fn lemma_digits_prefix(d: Seq<char>, k: int)
    requires
        0 <= k <= d.len(),
        forall|i: int| 0 <= i < d.len() ==> is_digit(#[trigger] d[i]),
    ensures
        0 <= digits_value(d.subrange(0, k)) <= digits_value(d),
    decreases d.len(),
{
    if d.len() > 0 {
        let p = d.drop_last();
        assert forall|i: int| 0 <= i < p.len() implies is_digit(#[trigger] p[i]) by {
            assert(p[i] == d[i]);
        }
        if k == d.len() {
            assert(d.subrange(0, k) =~= d);
            lemma_digits_prefix(p, p.len() as int);
            assert(p.subrange(0, p.len() as int) =~= p);
        } else {
            lemma_digits_prefix(p, k);
            assert(p.subrange(0, k) =~= d.subrange(0, k));
            lemma_digits_prefix(p, p.len() as int);
            assert(p.subrange(0, p.len() as int) =~= p);
        }
    } else {
        assert(d.subrange(0, k) =~= d);
    }
}

/// Reads an unsigned number of at most `max`, as `str::parse` reads one.
fn parse_unsigned(text: &str, max: u64) -> (r: Option<u64>)
    requires
        max <= u32::MAX,
    ensures
        r matches Some(x) ==> unsigned_of(text@, max as int) == Some(x as int),
        r is None ==> unsigned_of(text@, max as int) is None,
{
    let n = text.unicode_len();
    let mut start: usize = 0;
    if n > 0 && text.get_char(0) == '+' {
        start = 1;
    }
    let ghost d = unsigned_digits(text@);
    assert(d =~= text@.subrange(start as int, n as int));
    if start == n {
        return None;
    }
    let mut acc: u64 = 0;
    let mut i: usize = start;
    while i < n
        invariant
            start <= i <= n,
            n == text@.len(),
            d == text@.subrange(start as int, n as int),
            d == unsigned_digits(text@),
            acc == digits_value(d.subrange(0, i - start)),
            acc <= max <= u32::MAX,
            forall|j: int| 0 <= j < i - start ==> is_digit(#[trigger] d[j]),
        decreases n - i,
    {
        let c = text.get_char(i);
        assert(d[i - start] == c);
        if !('0' <= c && c <= '9') {
            return None;
        }
        let digit = (c as u64) - ('0' as u64);
        assert(d.subrange(0, i - start + 1).drop_last() =~= d.subrange(0, i - start));
        acc = acc * 10 + digit;
        if acc > max {
            proof {
                if forall|j: int| 0 <= j < d.len() ==> is_digit(#[trigger] d[j]) {
                    lemma_digits_prefix(d, i - start + 1);
                }
            }
            return None;
        }
        i = i + 1;
    }
    assert(d.subrange(0, n - start) =~= d);
    Some(acc)
}

/// The transaction a row describes, from its kind, client, identity and
/// amount; a deposit or withdrawal without an amount is refused.
pub open spec fn transaction_of(
    kind: TransactionType,
    client_id: ClientId,
    transaction_id: TransactionId,
    amount: Option<Amount>,
) -> Result<Transaction, ReadError> {
    match kind {
        TransactionType::Deposit => match amount {
            Some(a) => Ok(
                Transaction::Deposit(
                    TransactionData {
                        client_id,
                        transaction_id,
                        operation: Operation {
                            kind: OperationKind::Credit,
                            amount: a,
                            status: PhantomData,
                        },
                    },
                ),
            ),
            None => Err(ReadError::InvalidAmount),
        },
        TransactionType::Withdrawal => match amount {
            Some(a) => Ok(
                Transaction::Withdrawal(
                    TransactionData {
                        client_id,
                        transaction_id,
                        operation: Operation {
                            kind: OperationKind::Debit,
                            amount: a,
                            status: PhantomData,
                        },
                    },
                ),
            ),
            None => Err(ReadError::InvalidAmount),
        },
        TransactionType::Dispute => Ok(
            Transaction::Dispute(TransactionReference { client_id, transaction_id }),
        ),
        TransactionType::Resolve => Ok(
            Transaction::Resolve(TransactionReference { client_id, transaction_id }),
        ),
        TransactionType::Chargeback => Ok(
            Transaction::Chargeback(TransactionReference { client_id, transaction_id }),
        ),
    }
}

/// Builds the transaction a row describes, as `transaction_of` says.
pub fn transaction_from_parts(
    kind: TransactionType,
    client_id: ClientId,
    transaction_id: TransactionId,
    amount: Option<Amount>,
) -> (r: Result<Transaction, ReadError>)
    ensures
        r == transaction_of(kind, client_id, transaction_id, amount),
{
    match kind {
        TransactionType::Deposit => match amount {
            Some(a) => Ok(
                Transaction::Deposit(
                    TransactionData {
                        client_id,
                        transaction_id,
                        operation: Operation::credit(a),
                    },
                ),
            ),
            None => Err(ReadError::InvalidAmount),
        },
        TransactionType::Withdrawal => match amount {
            Some(a) => Ok(
                Transaction::Withdrawal(
                    TransactionData {
                        client_id,
                        transaction_id,
                        operation: Operation::debit(a),
                    },
                ),
            ),
            None => Err(ReadError::InvalidAmount),
        },
        TransactionType::Dispute => Ok(
            Transaction::Dispute(TransactionReference { client_id, transaction_id }),
        ),
        TransactionType::Resolve => Ok(
            Transaction::Resolve(TransactionReference { client_id, transaction_id }),
        ),
        TransactionType::Chargeback => Ok(
            Transaction::Chargeback(TransactionReference { client_id, transaction_id }),
        ),
    }
}

/// The transaction that trimmed fields describe. The client number is read
/// first, then the transaction number, then the type, and the amount only
/// for deposits and withdrawals.
pub open spec fn fields_outcome(
    action: Seq<char>,
    client: Seq<char>,
    transaction: Seq<char>,
    amount: Seq<char>,
) -> Result<Transaction, ReadError> {
    match unsigned_of(client, u16::MAX as int) {
        None => Err(ReadError::InvalidClientId),
        Some(c) => match unsigned_of(transaction, u32::MAX as int) {
            None => Err(ReadError::InvalidTransactionId),
            Some(n) => match transaction_type_of(action) {
                None => Err(ReadError::InvalidTransactionType),
                Some(kind) => transaction_of(
                    kind,
                    ClientId(c as u16),
                    TransactionId(id_of_number(n as u32)),
                    match decimal_parse(amount) {
                        Some(p) => Some(Amount { mantissa: p.0, scale: p.1 }),
                        None => None,
                    },
                ),
            },
        },
    }
}

/// Each type name gives the transaction of the same name, for the client and
/// transaction numbers the row carries: `deposit` a credit and `withdrawal` a
/// debit of the amount read (a deposit or withdrawal whose amount is not a
/// decimal number is refused), `dispute`, `resolve` and `chargeback` a
/// reference to that transaction.
pub proof fn lemma_type_names_give_their_variants(
    action: Seq<char>,
    client: Seq<char>,
    transaction: Seq<char>,
    amount: Seq<char>,
)
    requires
        unsigned_of(client, u16::MAX as int) is Some,
        unsigned_of(transaction, u32::MAX as int) is Some,
    ensures
        ({
            let client_id = ClientId(unsigned_of(client, u16::MAX as int)->Some_0 as u16);
            let transaction_id = TransactionId(
                id_of_number(unsigned_of(transaction, u32::MAX as int)->Some_0 as u32),
            );
            let reference = TransactionReference { client_id, transaction_id };
            let r = fields_outcome(action, client, transaction, amount);
            &&& action == "dispute"@ ==> r == Ok::<Transaction, ReadError>(
                Transaction::Dispute(reference),
            )
            &&& action == "resolve"@ ==> r == Ok::<Transaction, ReadError>(
                Transaction::Resolve(reference),
            )
            &&& action == "chargeback"@ ==> r == Ok::<Transaction, ReadError>(
                Transaction::Chargeback(reference),
            )
            &&& action == "deposit"@ && decimal_parse(amount) is Some ==> (r matches Ok(
                Transaction::Deposit(d),
            ) && d.client_id == client_id && d.transaction_id == transaction_id
                && d.operation.kind == OperationKind::Credit && d.operation.amount.mantissa
                == decimal_parse(amount)->Some_0.0 && d.operation.amount.scale == decimal_parse(
                amount,
            )->Some_0.1)
            &&& action == "withdrawal"@ && decimal_parse(amount) is Some ==> (r matches Ok(
                Transaction::Withdrawal(d),
            ) && d.client_id == client_id && d.transaction_id == transaction_id
                && d.operation.kind == OperationKind::Debit && d.operation.amount.mantissa
                == decimal_parse(amount)->Some_0.0 && d.operation.amount.scale == decimal_parse(
                amount,
            )->Some_0.1)
            &&& (action == "deposit"@ || action == "withdrawal"@) && decimal_parse(amount) is None
                ==> r matches Err(ReadError::InvalidAmount)
        }),
{
    reveal_strlit("deposit");
    reveal_strlit("withdrawal");
    reveal_strlit("dispute");
    reveal_strlit("resolve");
    reveal_strlit("chargeback");
    assert("deposit"@.len() == 7 && "dispute"@.len() == 7 && "resolve"@.len() == 7);
    assert("withdrawal"@.len() == 10 && "chargeback"@.len() == 10);
    assert("deposit"@[1] == 'e' && "dispute"@[1] == 'i' && "resolve"@[0] == 'r');
    assert("deposit"@[0] == 'd' && "dispute"@[0] == 'd');
    assert("withdrawal"@[0] == 'w' && "chargeback"@[0] == 'c');
    assert("deposit"@ != "dispute"@ && "deposit"@ != "resolve"@ && "dispute"@ != "resolve"@);
    assert("withdrawal"@ != "chargeback"@);
    assert("deposit"@ != "withdrawal"@ && "deposit"@ != "chargeback"@);
    assert("dispute"@ != "withdrawal"@ && "dispute"@ != "chargeback"@);
    assert("resolve"@ != "withdrawal"@ && "resolve"@ != "chargeback"@);
}

/// Reads a transaction from its trimmed fields, as `fields_outcome` says.
pub fn parse_fields(action: &str, client: &str, transaction: &str, amount: &str) -> (r: Result<
    Transaction,
    ReadError,
>)
    ensures
        r == fields_outcome(action@, client@, transaction@, amount@),
        r matches Ok(Transaction::Deposit(d)) ==> d.operation.amount.wf(),
        r matches Ok(Transaction::Withdrawal(d)) ==> d.operation.amount.wf(),
{
    let client_id = match parse_unsigned(client, 65535) {
        Some(c) => ClientId(c as u16),
        None => {
            return Err(ReadError::InvalidClientId);
        },
    };
    let number = match parse_unsigned(transaction, 4294967295) {
        Some(n) => n as u32,
        None => {
            return Err(ReadError::InvalidTransactionId);
        },
    };
    let transaction_id = TransactionId::from(number);
    let kind = match parse_transaction_type(action) {
        Some(kind) => kind,
        None => {
            return Err(ReadError::InvalidTransactionType);
        },
    };
    let amount = match kind {
        TransactionType::Deposit => Amount::parse(amount),
        TransactionType::Withdrawal => Amount::parse(amount),
        _ => None,
    };
    transaction_from_parts(kind, client_id, transaction_id, amount)
}

/// Reading a header row from its left: where each known column stands and
/// how many known headers there were, or the first header that is not known.
/// A header seen twice counts twice and keeps its last position.
pub open spec fn scan_headers(names: Seq<Seq<char>>) -> Result<(HeaderInfo, nat), Seq<char>>
    decreases names.len(),
{
    if names.len() == 0 {
        Ok((HeaderInfo { pos_action: 0, pos_client_id: 0, pos_transaction_id: 0, pos_amount: 0 }, 0))
    } else {
        match scan_headers(names.drop_last()) {
            Err(h) => Err(h),
            Ok((info, m)) => {
                let i = (names.len() - 1) as usize;
                let h = names.last();
                if h == "type"@ {
                    Ok((HeaderInfo { pos_action: i, ..info }, m + 1))
                } else if h == "client"@ {
                    Ok((HeaderInfo { pos_client_id: i, ..info }, m + 1))
                } else if h == "tx"@ {
                    Ok((HeaderInfo { pos_transaction_id: i, ..info }, m + 1))
                } else if h == "amount"@ {
                    Ok((HeaderInfo { pos_amount: i, ..info }, m + 1))
                } else {
                    Err(h)
                }
            },
        }
    }
}

/// What reading a header row answers: the first unknown header is refused,
/// then fewer than four known headers; otherwise the column positions.
pub open spec fn header_outcome(names: Seq<Seq<char>>, r: Result<HeaderInfo, ReadError>) -> bool {
    match scan_headers(names) {
        Err(h) => r matches Err(ReadError::UnexpectedHeader(s)) && s@ == h,
        Ok((info, m)) => if m < 4 {
            r matches Err(ReadError::MissingHeaders(k)) && k == m
        } else {
            r == Ok::<HeaderInfo, ReadError>(info)
        },
    }
}

/// The texts of a row of strings.
pub open spec fn texts(row: Seq<String>) -> Seq<Seq<char>> {
    row.map_values(|s: String| s@)
}

/// The trimmed texts of a row of strings.
pub open spec fn trimmed_texts(row: Seq<String>) -> Seq<Seq<char>> {
    row.map_values(|s: String| trimmed(s@))
}

/// Reads the column positions from trimmed header names, as
/// `header_outcome` says.
pub fn header_positions(names: &Vec<String>) -> (r: Result<HeaderInfo, ReadError>)
    ensures
        header_outcome(texts(names@), r),
{
    let ghost all = texts(names@);
    let mut info = HeaderInfo { pos_action: 0, pos_client_id: 0, pos_transaction_id: 0, pos_amount: 0 };
    let mut matches: usize = 0;
    let mut i: usize = 0;
    assert(all.take(0) =~= Seq::<Seq<char>>::empty());
    while i < names.len()
        invariant
            i <= names.len(),
            all == texts(names@),
            matches <= i,
            scan_headers(all.take(i as int)) == Ok::<(HeaderInfo, nat), Seq<char>>((info, matches as nat)),
        decreases names.len() - i,
    {
        let name = names[i].as_str();
        assert(all.take(i + 1).drop_last() =~= all.take(i as int));
        assert(all.take(i + 1).last() == name@);
        if text_equals(name, "type") {
            info.pos_action = i;
        } else if text_equals(name, "client") {
            info.pos_client_id = i;
        } else if text_equals(name, "tx") {
            info.pos_transaction_id = i;
        } else if text_equals(name, "amount") {
            info.pos_amount = i;
        } else {
            assert(scan_headers(all.take(i + 1)) == Err::<(HeaderInfo, nat), Seq<char>>(name@));
            proof {
                lemma_scan_error_persists(all, i as int + 1);
            }
            return Err(ReadError::UnexpectedHeader(names[i].clone()));
        }
        matches = matches + 1;
        i = i + 1;
    }
    assert(all.take(names.len() as int) =~= all);
    if matches < 4 {
        return Err(ReadError::MissingHeaders(matches));
    }
    Ok(info)
}

/// Column order does not matter: four headers naming the four columns once
/// each, in any order, are read as the positions where they stand.
pub proof fn lemma_headers_any_order(names: Seq<Seq<char>>, pa: int, pc: int, pt: int, pm: int)
    requires
        names.len() == 4,
        0 <= pa < 4,
        0 <= pc < 4,
        0 <= pt < 4,
        0 <= pm < 4,
        pa != pc && pa != pt && pa != pm && pc != pt && pc != pm && pt != pm,
        names[pa] == "type"@,
        names[pc] == "client"@,
        names[pt] == "tx"@,
        names[pm] == "amount"@,
    ensures
        header_outcome(
            names,
            Ok::<HeaderInfo, ReadError>(
                HeaderInfo {
                    pos_action: pa as usize,
                    pos_client_id: pc as usize,
                    pos_transaction_id: pt as usize,
                    pos_amount: pm as usize,
                },
            ),
        ),
{
    reveal_strlit("type");
    reveal_strlit("client");
    reveal_strlit("tx");
    reveal_strlit("amount");
    assert("type"@.len() == 4 && "client"@.len() == 6 && "tx"@.len() == 2 && "amount"@.len() == 6);
    assert("client"@[0] == 'c' && "amount"@[0] == 'a');
    assert("type"@ != "client"@ && "type"@ != "tx"@ && "type"@ != "amount"@);
    assert("client"@ != "tx"@ && "client"@ != "amount"@ && "tx"@ != "amount"@);
    let n1 = names.take(1);
    let n2 = names.take(2);
    let n3 = names.take(3);
    assert(n1.drop_last() =~= Seq::<Seq<char>>::empty());
    assert(n2.drop_last() =~= n1);
    assert(n3.drop_last() =~= n2);
    assert(names.drop_last() =~= n3);
    assert(n1.last() == names[0]);
    assert(n2.last() == names[1]);
    assert(n3.last() == names[2]);
    reveal_with_fuel(scan_headers, 5);
}

/// Column order does not matter for whole files: moving the four columns
/// of a header and of a row alike (column `i` of the new order is column
/// `order[i]` of the old one) reads the header as the new positions and the
/// row as the same transaction.
pub proof fn lemma_columns_any_order(
    names: Seq<Seq<char>>,
    row: Seq<Seq<char>>,
    order: Seq<int>,
    pa: int,
    pc: int,
    pt: int,
    pm: int,
    qa: int,
    qc: int,
    qt: int,
    qm: int,
)
    requires
        names.len() == 4,
        row.len() == 4,
        order.len() == 4,
        0 <= pa < 4 && 0 <= pc < 4 && 0 <= pt < 4 && 0 <= pm < 4,
        pa != pc && pa != pt && pa != pm && pc != pt && pc != pm && pt != pm,
        names[pa] == "type"@,
        names[pc] == "client"@,
        names[pt] == "tx"@,
        names[pm] == "amount"@,
        0 <= qa < 4 && 0 <= qc < 4 && 0 <= qt < 4 && 0 <= qm < 4,
        order[qa] == pa && order[qc] == pc && order[qt] == pt && order[qm] == pm,
    ensures
        ({
            let moved_names = Seq::new(4, |i: int| names[order[i]]);
            let moved_row = Seq::new(4, |i: int| row[order[i]]);
            &&& header_outcome(
                names,
                Ok::<HeaderInfo, ReadError>(
                    HeaderInfo {
                        pos_action: pa as usize,
                        pos_client_id: pc as usize,
                        pos_transaction_id: pt as usize,
                        pos_amount: pm as usize,
                    },
                ),
            )
            &&& header_outcome(
                moved_names,
                Ok::<HeaderInfo, ReadError>(
                    HeaderInfo {
                        pos_action: qa as usize,
                        pos_client_id: qc as usize,
                        pos_transaction_id: qt as usize,
                        pos_amount: qm as usize,
                    },
                ),
            )
            &&& fields_outcome(
                trimmed(moved_row[qa]),
                trimmed(moved_row[qc]),
                trimmed(moved_row[qt]),
                trimmed(moved_row[qm]),
            ) == fields_outcome(trimmed(row[pa]), trimmed(row[pc]), trimmed(row[pt]), trimmed(row[pm]))
        }),
{
    let moved_names = Seq::new(4, |i: int| names[order[i]]);
    let moved_row = Seq::new(4, |i: int| row[order[i]]);
    lemma_headers_any_order(names, pa, pc, pt, pm);
    assert(moved_names[qa] == names[pa]);
    assert(moved_names[qc] == names[pc]);
    assert(moved_names[qt] == names[pt]);
    assert(moved_names[qm] == names[pm]);
    lemma_headers_any_order(moved_names, qa, qc, qt, qm);
    assert(moved_row[qa] == row[pa]);
    assert(moved_row[qc] == row[pc]);
    assert(moved_row[qt] == row[pt]);
    assert(moved_row[qm] == row[pm]);
}

/// Once a header is refused, reading on keeps refusing it.
proof fn lemma_scan_error_persists(names: Seq<Seq<char>>, k: int)
    requires
        0 <= k <= names.len(),
        scan_headers(names.take(k)) is Err,
    ensures
        scan_headers(names) == scan_headers(names.take(k)),
    decreases names.len() - k,
{
    if k < names.len() {
        assert(names.take(k + 1).drop_last() =~= names.take(k));
        lemma_scan_error_persists(names, k + 1);
    } else {
        assert(names.take(k) =~= names);
    }
}

/// Reads the header row: trims every header, then reads the column positions
/// as `header_outcome` says.
pub fn read_header(headers: &Vec<String>) -> (r: Result<HeaderInfo, ReadError>)
    ensures
        header_outcome(trimmed_texts(headers@), r),
{
    let mut names: Vec<String> = Vec::new();
    let mut i: usize = 0;
    while i < headers.len()
        invariant
            i <= headers.len(),
            names@.len() == i,
            forall|j: int| 0 <= j < i ==> #[trigger] names@[j]@ == trimmed(headers@[j]@),
        decreases headers.len() - i,
    {
        let name = trim_text(headers[i].as_str()).to_owned();
        names.push(name);
        i = i + 1;
    }
    assert(texts(names@) =~= trimmed_texts(headers@));
    header_positions(&names)
}

/// Reads one row, whose fields stand where `info` says: every field used is
/// trimmed, then read as `fields_outcome` says.
pub fn parse_row(row: &Vec<String>, info: &HeaderInfo) -> (r: Result<Transaction, ReadError>)
    requires
        info.pos_action < row.len(),
        info.pos_client_id < row.len(),
        info.pos_transaction_id < row.len(),
        info.pos_amount < row.len(),
    ensures
        r == fields_outcome(
            trimmed(row@[info.pos_action as int]@),
            trimmed(row@[info.pos_client_id as int]@),
            trimmed(row@[info.pos_transaction_id as int]@),
            trimmed(row@[info.pos_amount as int]@),
        ),
        r matches Ok(Transaction::Deposit(d)) ==> d.operation.amount.wf(),
        r matches Ok(Transaction::Withdrawal(d)) ==> d.operation.amount.wf(),
{
    let action = trim_text(row[info.pos_action].as_str());
    let client = trim_text(row[info.pos_client_id].as_str());
    let transaction = trim_text(row[info.pos_transaction_id].as_str());
    let amount = trim_text(row[info.pos_amount].as_str());
    parse_fields(action, client, transaction, amount)
}

} // verus!
