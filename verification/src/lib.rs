//! Reads the rows of a bank statement into transactions, grouped by
//! account.
//!
//! A row holds a date, an account, a description and a debit or a credit.
//! [`Transaction::try_build`] turns one row into a transaction: it reads the
//! date, splits the description into payee and note, and picks the amount.
//! [`parse`] does so for a whole statement and files each transaction under
//! its account in a [`Ledger`].
//!
//! What each function returns is stated over the views of its arguments:
//! texts as sequences of characters, a ledger as a map from account names to
//! sequences of transactions.

pub mod amount;
pub mod batch;
pub mod date;
pub mod error;
pub mod ledger;
pub mod row;
pub mod text;
pub mod transaction;

pub use amount::Amount;
pub use batch::parse;
pub use date::CalendarDate;
pub use error::Error;
pub use ledger::Account;
pub use ledger::Ledger;
pub use row::Row;
pub use transaction::Transaction;
