//! Reading a whole statement: every row becomes a transaction of its
//! account, and the first row that cannot rejects the batch.

use crate::error::Error;
use crate::error::ErrorView;
use crate::ledger::recorded;
use crate::ledger::Ledger;
use crate::ledger::LedgerView;
use crate::row::Row;
use crate::row::RowView;
use crate::transaction::built;
use crate::transaction::lemma_built_well_formed;
use crate::transaction::Transaction;
use crate::transaction::TransactionView;
use vstd::prelude::*;

verus! {

/// What one entry of a statement does to the outcome so far. An entry is a
/// decoded row, or `None` for a line that could not be decoded, which is
/// passed over. Once the batch is rejected it stays so. A row without an
/// account rejects the batch before its other fields are looked at.
pub open spec fn accepted(
    so_far: Result<LedgerView, ErrorView>,
    entry: Option<RowView>,
) -> Result<LedgerView, ErrorView> {
    match (so_far, entry) {
        (Err(error), _) => Err(error),
        (Ok(ledger), None) => Ok(ledger),
        (Ok(ledger), Some(row)) => match (row.account, built(row)) {
            (None, _) => Err(ErrorView::MissingAccount),
            (Some(_), Err(error)) => Err(error),
            (Some(account), Ok(transaction)) => Ok(recorded(ledger, account, transaction)),
        },
    }
}

/// The outcome of taking in all of `entries`, first to last.
pub open spec fn grouped(entries: Seq<Option<RowView>>) -> Result<LedgerView, ErrorView>
    decreases entries.len(),
{
    if entries.len() == 0 {
        Ok(LedgerView::empty())
    } else {
        accepted(grouped(entries.drop_last()), entries.last())
    }
}

/// How many of `entries` a batch with the given limit looks at.
pub open spec fn considered(entries: Seq<Option<RowView>>, limit: nat) -> int {
    if limit <= entries.len() {
        limit as int
    } else {
        entries.len() as int
    }
}

/// The outcome of a batch: that of its first `limit` entries, lines that
/// could not be decoded counted among them. What follows them is not looked
/// at.
pub open spec fn parsed(entries: Seq<Option<RowView>>, limit: nat) -> Result<
    LedgerView,
    ErrorView,
> {
    grouped(entries.take(considered(entries, limit)))
}

/// Whether an outcome is the one that the model gives.
pub open spec fn batch_is(
    outcome: Result<Ledger, Error>,
    model: Result<LedgerView, ErrorView>,
) -> bool {
    match (outcome, model) {
        (Ok(ledger), Ok(view)) => ledger@ == view,
        (Err(error), Err(view)) => error@ == view,
        _ => false,
    }
}

/// Why an entry rejects the batch, if it does: it is a row without an
/// account, or a row that gives no transaction. A line that could not be
/// decoded rejects nothing.
pub open spec fn rejection(entry: Option<RowView>) -> Option<ErrorView> {
    match entry {
        None => None,
        Some(row) => match (row.account, built(row)) {
            (None, _) => Some(ErrorView::MissingAccount),
            (Some(_), Err(error)) => Some(error),
            (Some(_), Ok(_)) => None,
        },
    }
}

/// The transaction that an entry adds to `account`, if it adds one: that of
/// a row of this account.
pub open spec fn entry_of(entry: Option<RowView>, account: Seq<char>) -> Option<TransactionView> {
    match entry {
        Some(row) if row.account == Some(account) => match built(row) {
            Ok(transaction) => Some(transaction),
            Err(_) => None,
        },
        _ => None,
    }
}

/// The transactions of the rows of `account` among `entries`, in the order
/// of the entries.
pub open spec fn transactions_of(
    entries: Seq<Option<RowView>>,
    account: Seq<char>,
) -> Seq<TransactionView> {
    entries.filter_map(|entry: Option<RowView>| entry_of(entry, account))
}

/// One more entry is one more step.
proof fn lemma_grouped_next(entries: Seq<Option<RowView>>, n: int)
    requires
        0 <= n < entries.len(),
    ensures
        grouped(entries.take(n + 1)) == accepted(grouped(entries.take(n)), entries[n]),
{
    assert(entries.take(n + 1).drop_last() =~= entries.take(n));
}

/// A batch that was rejected stays rejected, whatever follows.
pub proof fn lemma_rejection_is_final(entries: Seq<Option<RowView>>, n: int, m: int)
    requires
        0 <= n <= m <= entries.len(),
        grouped(entries.take(n)) is Err,
    ensures
        grouped(entries.take(m)) == grouped(entries.take(n)),
    decreases m - n,
{
    if n < m {
        lemma_rejection_is_final(entries, n, m - 1);
        lemma_grouped_next(entries, m - 1);
    }
}

/// A batch in which no entry is rejected succeeds.
pub proof fn lemma_accepts_all(entries: Seq<Option<RowView>>)
    requires
        forall|i: int| 0 <= i < entries.len() ==> rejection(#[trigger] entries[i]) is None,
    ensures
        grouped(entries) is Ok,
    decreases entries.len(),
{
    if entries.len() > 0 {
        let front = entries.drop_last();
        assert forall|i: int| 0 <= i < front.len() implies rejection(#[trigger] front[i])
            is None by {
            assert(front[i] == entries[i]);
        }
        lemma_accepts_all(front);
        assert(rejection(entries[entries.len() - 1]) is None);
    }
}

/// The first entry that is rejected decides the outcome: the batch fails
/// with its error, though every entry before it was accepted, and whatever
/// comes after it.
pub proof fn lemma_first_rejection(entries: Seq<Option<RowView>>, at: int)
    requires
        0 <= at < entries.len(),
        rejection(entries[at]) is Some,
        forall|i: int| 0 <= i < at ==> rejection(#[trigger] entries[i]) is None,
    ensures
        grouped(entries) == Err::<LedgerView, ErrorView>(rejection(entries[at])->Some_0),
{
    let front = entries.take(at);
    assert forall|i: int| 0 <= i < front.len() implies rejection(#[trigger] front[i]) is None by {
        assert(front[i] == entries[i]);
    }
    lemma_accepts_all(front);
    lemma_grouped_next(entries, at);
    lemma_rejection_is_final(entries, at + 1, entries.len() as int);
    assert(entries.take(entries.len() as int) =~= entries);
}

/// A row without an account fails the batch with `MissingAccount`, though
/// the rows before it were valid: nothing of them is returned.
pub proof fn lemma_missing_account_rejects(entries: Seq<Option<RowView>>, limit: nat, at: int)
    requires
        0 <= at < considered(entries, limit),
        entries[at] matches Some(row) && row.account is None,
        forall|i: int| 0 <= i < at ==> rejection(#[trigger] entries[i]) is None,
    ensures
        parsed(entries, limit) == Err::<LedgerView, ErrorView>(ErrorView::MissingAccount),
{
    let looked_at = entries.take(considered(entries, limit));
    assert(looked_at[at] == entries[at]);
    assert forall|i: int| 0 <= i < at implies rejection(#[trigger] looked_at[i]) is None by {
        assert(looked_at[i] == entries[i]);
    }
    lemma_first_rejection(looked_at, at);
}

/// With a limit of `n`, a batch stops after its first `n` entries though
/// more remain: the outcome is that of those `n` alone. Where all of them
/// are decoded rows that are accepted, the batch succeeds with the ledger of
/// these rows.
pub proof fn lemma_limit_stops_batch(head: Seq<Option<RowView>>, tail: Seq<Option<RowView>>)
    ensures
        parsed(head + tail, head.len()) == grouped(head),
        (forall|i: int| 0 <= i < head.len() ==> rejection(#[trigger] head[i]) is None) ==> parsed(
            head + tail,
            head.len(),
        ) is Ok,
{
    assert((head + tail).take(head.len() as int) =~= head);
    if forall|i: int| 0 <= i < head.len() ==> rejection(#[trigger] head[i]) is None {
        lemma_accepts_all(head);
    }
}

/// A limit that the statement does not reach changes nothing.
pub proof fn lemma_limit_beyond_end(entries: Seq<Option<RowView>>, limit: nat)
    requires
        entries.len() <= limit,
    ensures
        parsed(entries, limit) == grouped(entries),
{
    assert(entries.take(entries.len() as int) =~= entries);
}

/// In the ledger of a batch that succeeded, an account is a key exactly if
/// a row of the batch names it, and its transactions are those of its rows,
/// in the order of the rows. Each of them is well formed.
pub proof fn lemma_grouped_by_account(entries: Seq<Option<RowView>>, account: Seq<char>)
    requires
        grouped(entries) is Ok,
    ensures
        grouped(entries)->Ok_0.contains_key(account) <==> exists|i: int|
            0 <= i < entries.len() && (#[trigger] entries[i] matches Some(row) && row.account
                == Some(account)),
        grouped(entries)->Ok_0.contains_key(account) <==> transactions_of(entries, account).len()
            > 0,
        grouped(entries)->Ok_0.contains_key(account) ==> grouped(entries)->Ok_0[account]
            == transactions_of(entries, account),
        forall|i: int|
            0 <= i < transactions_of(entries, account).len() ==> (#[trigger] transactions_of(
                entries,
                account,
            )[i]).well_formed(),
    decreases entries.len(),
{
    if entries.len() > 0 {
        let front = entries.drop_last();
        let last = entries.last();
        lemma_grouped_by_account(front, account);
        let before = grouped(front)->Ok_0;
        let here = exists|i: int|
            0 <= i < entries.len() && (#[trigger] entries[i] matches Some(row) && row.account
                == Some(account));
        let earlier = exists|i: int|
            0 <= i < front.len() && (#[trigger] front[i] matches Some(row) && row.account == Some(
                account,
            ));
        let now = last matches Some(row) && row.account == Some(account);
        assert(here <==> earlier || now) by {
            if here {
                let i = choose|i: int|
                    0 <= i < entries.len() && (#[trigger] entries[i] matches Some(row)
                        && row.account == Some(account));
                if i < front.len() {
                    assert(front[i] == entries[i]);
                }
            }
            if earlier {
                let i = choose|i: int|
                    0 <= i < front.len() && (#[trigger] front[i] matches Some(row) && row.account
                        == Some(account));
                assert(entries[i] == front[i]);
            }
            if now {
                assert(entries[entries.len() - 1] == last);
            }
        }
        if let Some(row) = last {
            lemma_built_well_formed(row);
        }
        assert(transactions_of(entries, account) =~= match entry_of(last, account) {
            Some(transaction) => transactions_of(front, account).push(transaction),
            None => transactions_of(front, account),
        });
        if !before.contains_key(account) {
            assert(transactions_of(front, account) =~= Seq::empty());
        }
    }
}

/// Groups the rows of a statement by account. `rows` holds one entry for
/// each line in the order of the statement: the decoded row, or `None` for a
/// line that could not be decoded. At most `limit` entries are looked at.
///
/// A line that could not be decoded is passed over. A row without an
/// account, without a description or with an unreadable date rejects the
/// whole batch: nothing of the rows before it is returned.
pub fn parse(rows: Vec<Option<Row>>, limit: usize) -> (outcome: Result<Ledger, Error>)
    ensures
        batch_is(outcome, parsed(rows.deep_view(), limit as nat)),
{
    let ghost entries = rows.deep_view();
    let total: usize = rows.len();
    let mut ledger = Ledger::new();
    let mut count: usize = 0;
    for entry in it: rows
        invariant
            it.seq().len() == total,
            entries == rows.deep_view(),
            entries.len() == total,
            forall|i: int| 0 <= i < total ==> entries[i] == (#[trigger] it.seq()[i]).deep_view(),
            count == it.index(),
            count <= limit,
            grouped(entries.take(count as int)) == Ok::<LedgerView, ErrorView>(ledger@),
    {
        if count == limit {
            return Ok(ledger);
        }
        proof {
            lemma_grouped_next(entries, count as int);
        }
        count = count + 1;
        if let Some(row) = entry {
            let Row { date, account, description, credit, debit } = row;
            let account = match account {
                Some(account) => account,
                None => {
                    proof {
                        lemma_rejection_is_final(
                            entries,
                            count as int,
                            considered(entries, limit as nat),
                        );
                    }
                    return Err(Error::MissingAccount);
                },
            };
            let row = Row { date, account: None, description, credit, debit };
            match Transaction::try_build(row) {
                Ok(transaction) => {
                    ledger.record(account, transaction);
                },
                Err(error) => {
                    proof {
                        lemma_rejection_is_final(
                            entries,
                            count as int,
                            considered(entries, limit as nat),
                        );
                    }
                    return Err(error);
                },
            }
        }
    }
    Ok(ledger)
}

} // verus!
