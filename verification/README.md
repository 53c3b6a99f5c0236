# accountable

A small payments engine. It reads deposits, withdrawals, disputes, resolves
and chargebacks from a CSV file, applies them to client accounts and prints
each client's available, held and total funds and whether the client is
locked.

Every client has two accounts, `available` and `held`. Each account keeps a
balance and the transactions it has taken; a dispute, resolve or chargeback
is carried out as a pair of transactions (the operation and its reversal, a
*storno*) whose identities are derived from the disputed one.

## Layout

- `src/` — the library, with its specifications and proofs:
  - `model/amount.rs`: decimal amounts; arithmetic and parsing are done by
    `rust_decimal`.
  - `model/transaction.rs`: transaction identities (UUID v5 via `uuid`),
    operations, stornos.
  - `model/account.rs`: accounts; as long as no step has had to round, an
    account's balance is the signed sum of the transactions it records.
  - `model/client.rs`: what each kind of transaction does to a client, and
    the laws of disputes, resolves and chargebacks.
  - `model/ledger.rs`: routing transactions to clients.
  - `model/text.rs`: numbers and identities written as text, for messages.
  - `reader.rs`: reading the header row and the transaction rows.
- `app/main.rs` — the command-line program: file reading with `csv`, the
  worker task and channel with `tokio`, logging and printing.
- `tests/` — tests of the library.

## Running

The program in `app/` takes the CSV file's name as its only argument and
writes the accounts, as CSV, to standard output.
