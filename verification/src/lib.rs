//! An in-memory ledger of named accounts, and the line-oriented commands
//! that work on it.
//!
//! Balances and amounts are whole numbers of the smallest unit that the
//! ledger's user counts in, held as `i64`. Contracts speak of a ledger as a
//! `Map<Seq<char>, int>` from account name to balance.
//!
//! - [`bank`]: the ledger, with creation, transfer and query.
//! - [`amount`]: amounts as text, read and written.
//! - [`command`]: the commands on lines of input, and the replies.
//! - [`laws`]: what holds of the ledger's operations in general.

pub mod amount;
pub mod bank;
pub mod command;
pub mod laws;

pub use amount::{format_amount, parse_amount};
pub use bank::{Bank, TransactionError};
pub use command::{
    check_balance, create_account, menu_choice, open_account, perform_transaction, report_balance,
    select, transfer, Response, Selection,
};
