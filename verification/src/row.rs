//! One decoded line of a statement.

use crate::amount::Amount;
use vstd::prelude::*;

verus! {

/// A line of a statement as the decoder hands it over: the text of its
/// fields, nothing checked. Only the date is always there.
#[derive(Clone, Debug, PartialEq, Eq)]
pub struct Row {
    pub date: String,
    /// The account that the line belongs to.
    pub account: Option<String>,
    /// Payee and note in one text, with a hyphen between them.
    pub description: Option<String>,
    pub credit: Option<Amount>,
    pub debit: Option<Amount>,
}

/// A `Row` with its texts as sequences of characters.
pub struct RowView {
    pub date: Seq<char>,
    pub account: Option<Seq<char>>,
    pub description: Option<Seq<char>>,
    pub credit: Option<Amount>,
    pub debit: Option<Amount>,
}

/// The characters of an optional text.
pub open spec fn text_view(text: Option<String>) -> Option<Seq<char>> {
    match text {
        Some(t) => Some(t@),
        None => None,
    }
}

impl View for Row {
    type V = RowView;

    open spec fn view(&self) -> RowView {
        RowView {
            date: self.date@,
            account: text_view(self.account),
            description: text_view(self.description),
            credit: self.credit,
            debit: self.debit,
        }
    }
}

impl DeepView for Row {
    type V = RowView;

    open spec fn deep_view(&self) -> RowView {
        self@
    }
}

} // verus!
