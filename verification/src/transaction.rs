//! Building a transaction from one row of a statement.

use crate::amount::Amount;
use crate::amount::FALLBACK_BITS;
use crate::date::day_month_year;
use crate::date::parse_day_month_year;
use crate::date::CalendarDate;
use crate::error::Error;
use crate::error::ErrorView;
use crate::row::text_view;
use crate::row::Row;
use crate::row::RowView;
use crate::text::after_hyphen;
use crate::text::before_hyphen;
use crate::text::collapse_spaces;
use crate::text::collapsed;
use crate::text::hyphen_free;
use crate::text::lemma_before_hyphen;
use crate::text::lemma_collapsed_fixed_point;
use crate::text::lemma_collapsed_keeps;
use crate::text::lemma_collapsed_single_spaced;
use crate::text::lemma_trimmed;
use crate::text::tight;
use crate::text::single_spaced;
use crate::text::split_at_hyphen;
use crate::text::trim;
use crate::text::trimmed;
use vstd::prelude::*;

verus! {

/// One movement of money on an account.
#[derive(Clone, Debug, PartialEq, Eq)]
pub struct Transaction {
    pub date: CalendarDate,
    /// What the description says after its first hyphen, if it has one.
    pub note: Option<String>,
    pub amount: Amount,
    /// Kept for a later classification; nothing sets it yet.
    pub is_transfer: bool,
    /// What the description says before its first hyphen, without a run of
    /// spaces.
    pub payee: String,
}

/// A `Transaction` with its texts as sequences of characters.
pub struct TransactionView {
    pub date: CalendarDate,
    pub note: Option<Seq<char>>,
    pub amount: Amount,
    pub is_transfer: bool,
    pub payee: Seq<char>,
}

impl View for Transaction {
    type V = TransactionView;

    open spec fn view(&self) -> TransactionView {
        TransactionView {
            date: self.date,
            note: text_view(self.note),
            amount: self.amount,
            is_transfer: self.is_transfer,
            payee: self.payee@,
        }
    }
}

impl DeepView for Transaction {
    type V = TransactionView;

    open spec fn deep_view(&self) -> TransactionView {
        self@
    }
}

impl TransactionView {
    /// What holds of every transaction built from a row: its payee has no
    /// run of spaces, and it is not marked as a transfer.
    pub open spec fn well_formed(self) -> bool {
        &&& single_spaced(self.payee)
        &&& !self.is_transfer
    }
}

/// The payee of a description: what stands before its first hyphen, trimmed,
/// with every run of spaces collapsed.
pub open spec fn payee_of(description: Seq<char>) -> Seq<char> {
    collapsed(trimmed(before_hyphen(description)))
}

/// The note of a description: what stands after its first hyphen, trimmed.
/// A description without a hyphen has no note.
pub open spec fn note_of(description: Seq<char>) -> Option<Seq<char>> {
    match after_hyphen(description) {
        Some(rest) => Some(trimmed(rest)),
        None => None,
    }
}

/// The transaction of `row`, given the date that was read from its date
/// text. A row without a readable date is rejected before one without a
/// description.
pub open spec fn assembled(date: Option<CalendarDate>, row: RowView) -> Result<
    TransactionView,
    ErrorView,
> {
    match (date, row.description) {
        (None, _) => Err(ErrorView::InvalidDate(row.date)),
        (Some(_), None) => Err(ErrorView::MissingDescription),
        (Some(date), Some(description)) => Ok(
            TransactionView {
                date,
                note: note_of(description),
                amount: Amount::resolved(row.debit, row.credit),
                is_transfer: false,
                payee: payee_of(description),
            },
        ),
    }
}

/// The transaction of `row`, or the reason why it has none.
pub open spec fn built(row: RowView) -> Result<TransactionView, ErrorView> {
    assembled(day_month_year(row.date), row)
}

/// Whether an outcome is the one that the model gives.
pub open spec fn outcome_is(
    outcome: Result<Transaction, Error>,
    model: Result<TransactionView, ErrorView>,
) -> bool {
    match (outcome, model) {
        (Ok(transaction), Ok(view)) => transaction@ == view,
        (Err(error), Err(view)) => error@ == view,
        _ => false,
    }
}

impl Transaction {
    /// Builds the transaction of `row` once its date text has been read:
    /// `date` is the date found there, or `None` if there was none.
    pub fn assemble(date: Option<CalendarDate>, row: Row) -> (outcome: Result<Transaction, Error>)
        ensures
            outcome_is(outcome, assembled(date, row@)),
            outcome is Ok <==> date is Some && row.description is Some,
            outcome matches Ok(t) ==> t@.well_formed(),
            outcome matches Ok(t) ==> (row.debit matches Some(debit) ==> t.amount == debit),
            outcome matches Ok(t) ==> row.debit is None ==> (row.credit matches Some(credit)
                ==> t.amount == credit),
            outcome matches Ok(t) ==> row.debit is None ==> row.credit is None ==> t.amount.bits
                == FALLBACK_BITS,
    {
        let Row { date: date_text, account: _, description, credit, debit } = row;
        let date = match date {
            Some(date) => date,
            None => {
                return Err(Error::InvalidDate(date_text));
            },
        };
        let description = match description {
            Some(description) => description,
            None => {
                return Err(Error::MissingDescription);
            },
        };
        let (before, after) = split_at_hyphen(description.as_str());
        let payee = collapse_spaces(trim(before));
        let note = match after {
            Some(rest) => Some(trim(rest).to_owned()),
            None => None,
        };
        let amount = Amount::resolve(debit, credit);
        Ok(Transaction { date, note, amount, is_transfer: false, payee })
    }

    /// Builds the transaction of `row`: reads its date, splits its
    /// description into payee and note, and picks its amount.
    pub fn try_build(row: Row) -> (outcome: Result<Transaction, Error>)
        ensures
            outcome_is(outcome, built(row@)),
            outcome is Ok <==> day_month_year(row.date@) is Some && row.description is Some,
            outcome matches Ok(t) ==> t@.well_formed() && t.date.in_range(),
            outcome matches Ok(t) ==> (row.debit matches Some(debit) ==> t.amount == debit),
            outcome matches Ok(t) ==> row.debit is None ==> (row.credit matches Some(credit)
                ==> t.amount == credit),
            outcome matches Ok(t) ==> row.debit is None ==> row.credit is None ==> t.amount.bits
                == FALLBACK_BITS,
    {
        let date = parse_day_month_year(row.date.as_str());
        Transaction::assemble(date, row)
    }
}

/// A payee is in normal form: it has no run of spaces, no hyphen, and no
/// white space at either end. Read as a description it is its own payee,
/// without a note: splitting, trimming and collapsing change it no more.
pub proof fn lemma_payee_is_normal(description: Seq<char>)
    ensures
        single_spaced(payee_of(description)),
        hyphen_free(payee_of(description)),
        tight(payee_of(description)),
        payee_of(payee_of(description)) == payee_of(description),
        note_of(payee_of(description)) is None,
{
    let part = before_hyphen(description);
    let payee = payee_of(description);
    lemma_before_hyphen(description);
    lemma_trimmed(part);
    lemma_collapsed_single_spaced(trimmed(part));
    lemma_collapsed_keeps(trimmed(part));
    lemma_before_hyphen(payee);
    lemma_trimmed(payee);
    lemma_collapsed_fixed_point(payee);
}

/// Every transaction that a row gives is well formed.
pub proof fn lemma_built_well_formed(row: RowView)
    ensures
        built(row) matches Ok(t) ==> t.well_formed(),
{
    if let Some(description) = row.description {
        lemma_collapsed_single_spaced(trimmed(before_hyphen(description)));
    }
}

} // verus!

