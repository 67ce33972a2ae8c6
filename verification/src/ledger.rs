//! The transactions of a statement, grouped by account.

use crate::transaction::Transaction;
use crate::transaction::TransactionView;
use vstd::prelude::*;

verus! {

/// The transactions of one account, in the order in which they were
/// recorded.
#[derive(Clone, Debug, PartialEq, Eq)]
pub struct Account {
    pub name: String,
    pub transactions: Vec<Transaction>,
}

/// Transactions grouped by the name of their account. An account is in the
/// ledger from its first transaction on.
#[derive(Debug, PartialEq, Eq)]
pub struct Ledger {
    accounts: Vec<Account>,
}

/// What a ledger stands for: the transactions of each account by its name.
pub type LedgerView = Map<Seq<char>, Seq<TransactionView>>;

/// Whether one of `accounts` is named `name`.
pub open spec fn names(accounts: Seq<Account>, name: Seq<char>) -> bool {
    exists|i: int| 0 <= i < accounts.len() && #[trigger] accounts[i].name@ == name
}

/// The place in `accounts` of an account named `name`.
pub open spec fn place_of(accounts: Seq<Account>, name: Seq<char>) -> int {
    choose|i: int| 0 <= i < accounts.len() && #[trigger] accounts[i].name@ == name
}

/// No two of `accounts` have the same name.
pub open spec fn distinct_names(accounts: Seq<Account>) -> bool {
    forall|i: int, j: int|
        0 <= i < j < accounts.len() ==> #[trigger] accounts[i].name@ != #[trigger] accounts[j].name@
}

/// The map from the name of each of `accounts` to its transactions.
pub open spec fn by_name(accounts: Seq<Account>) -> LedgerView {
    Map::new(
        |name: Seq<char>| names(accounts, name),
        |name: Seq<char>| accounts[place_of(accounts, name)].transactions.deep_view(),
    )
}

/// The ledger after `transaction` was recorded for `account`: it comes last
/// among the transactions of that account, and no other account changes.
pub open spec fn recorded(
    ledger: LedgerView,
    account: Seq<char>,
    transaction: TransactionView,
) -> LedgerView {
    if ledger.contains_key(account) {
        ledger.insert(account, ledger[account].push(transaction))
    } else {
        ledger.insert(account, seq![transaction])
    }
}

/// In a list of distinct names, the account at place `i` is found under its
/// name.
proof fn lemma_by_name_at(accounts: Seq<Account>, i: int)
    requires
        distinct_names(accounts),
        0 <= i < accounts.len(),
    ensures
        by_name(accounts).contains_key(accounts[i].name@),
        by_name(accounts)[accounts[i].name@] == accounts[i].transactions.deep_view(),
        place_of(accounts, accounts[i].name@) == i,
{
    let name = accounts[i].name@;
    let at = place_of(accounts, name);
    assert(0 <= at < accounts.len() && accounts[at].name@ == name);
    if at < i {
        assert(accounts[at].name@ != accounts[i].name@);
    } else if i < at {
        assert(accounts[i].name@ != accounts[at].name@);
    }
}

/// The names of `n` distinct accounts are `n` keys.
proof fn lemma_by_name_len(accounts: Seq<Account>)
    requires
        distinct_names(accounts),
    ensures
        by_name(accounts).dom().finite(),
        by_name(accounts).dom().len() == accounts.len(),
    decreases accounts.len(),
{
    if accounts.len() == 0 {
        assert(by_name(accounts).dom() =~= Set::empty());
    } else {
        let front = accounts.drop_last();
        let last = accounts.last();
        lemma_by_name_len(front);
        assert(!names(front, last.name@)) by {
            if names(front, last.name@) {
                let i = place_of(front, last.name@);
                assert(accounts[i].name@ != accounts[accounts.len() - 1].name@);
            }
        }
        assert(by_name(accounts).dom() =~= by_name(front).dom().insert(last.name@)) by {
            assert forall|name: Seq<char>| names(accounts, name) <==> (names(front, name) || name
                == last.name@) by {
                if names(accounts, name) {
                    let i = place_of(accounts, name);
                    if i < front.len() {
                        assert(front[i].name@ == name);
                    }
                }
                if names(front, name) {
                    let i = place_of(front, name);
                    assert(accounts[i].name@ == name);
                }
                if name == last.name@ {
                    assert(accounts[accounts.len() - 1].name@ == name);
                }
            }
        }
    }
}

/// Putting `account` in the place of one with the same name changes what
/// stands under that name and nothing else.
proof fn lemma_by_name_update(accounts: Seq<Account>, i: int, account: Account)
    requires
        distinct_names(accounts),
        0 <= i < accounts.len(),
        account.name@ == accounts[i].name@,
    ensures
        distinct_names(accounts.update(i, account)),
        by_name(accounts.update(i, account)) == by_name(accounts).insert(
            account.name@,
            account.transactions.deep_view(),
        ),
{
    let after = accounts.update(i, account);
    assert(distinct_names(after)) by {
        assert forall|a: int, b: int| 0 <= a < b < after.len() implies #[trigger] after[a].name@
            != #[trigger] after[b].name@ by {
            assert(accounts[a].name@ != accounts[b].name@);
        }
    }
    let expected = by_name(accounts).insert(account.name@, account.transactions.deep_view());
    assert forall|name: Seq<char>| names(after, name) <==> names(accounts, name) by {
        if names(after, name) {
            let at = place_of(after, name);
            assert(accounts[at].name@ == name);
        }
        if names(accounts, name) {
            let at = place_of(accounts, name);
            assert(after[at].name@ == name);
        }
    }
    assert(names(accounts, account.name@)) by {
        assert(accounts[i].name@ == account.name@);
    }
    assert forall|name: Seq<char>| names(after, name) implies #[trigger] by_name(after)[name]
        == expected[name] by {
        let at = place_of(accounts, name);
        lemma_by_name_at(accounts, at);
        lemma_by_name_at(after, at);
    }
    assert(by_name(after) =~= expected);
}

/// A further account under a new name adds that name and changes nothing
/// else.
proof fn lemma_by_name_push(accounts: Seq<Account>, account: Account)
    requires
        distinct_names(accounts),
        !names(accounts, account.name@),
    ensures
        distinct_names(accounts.push(account)),
        by_name(accounts.push(account)) == by_name(accounts).insert(
            account.name@,
            account.transactions.deep_view(),
        ),
{
    let after = accounts.push(account);
    assert(distinct_names(after)) by {
        assert forall|a: int, b: int| 0 <= a < b < after.len() implies #[trigger] after[a].name@
            != #[trigger] after[b].name@ by {
            if b < accounts.len() {
                assert(accounts[a].name@ != accounts[b].name@);
            } else {
                assert(accounts[a].name@ != account.name@);
            }
        }
    }
    let expected = by_name(accounts).insert(account.name@, account.transactions.deep_view());
    assert forall|name: Seq<char>| names(after, name) <==> (names(accounts, name) || name
        == account.name@) by {
        if names(after, name) {
            let at = place_of(after, name);
            if at < accounts.len() {
                assert(accounts[at].name@ == name);
            }
        }
        if names(accounts, name) {
            let at = place_of(accounts, name);
            assert(after[at].name@ == name);
        }
        if name == account.name@ {
            assert(after[accounts.len() as int].name@ == name);
        }
    }
    assert forall|name: Seq<char>| names(after, name) implies #[trigger] by_name(after)[name]
        == expected[name] by {
        if name == account.name@ {
            lemma_by_name_at(after, accounts.len() as int);
        } else {
            let at = place_of(accounts, name);
            lemma_by_name_at(accounts, at);
            lemma_by_name_at(after, at);
        }
    }
    assert(by_name(after) =~= expected);
}

impl Ledger {
    /// No account occurs twice, and each has at least one transaction.
    #[verifier::type_invariant]
    pub closed spec fn well_formed(&self) -> bool {
        &&& distinct_names(self.accounts@)
        &&& forall|i: int|
            0 <= i < self.accounts.len() ==> (#[trigger] self.accounts[i]).transactions.len() > 0
    }

    /// The transactions of each account, by the account's name.
    pub closed spec fn view(&self) -> LedgerView {
        by_name(self.accounts@)
    }

    /// A ledger without accounts.
    pub fn new() -> (ledger: Ledger)
        ensures
            ledger@ == LedgerView::empty(),
    {
        let ledger = Ledger { accounts: Vec::new() };
        assert(ledger@ =~= LedgerView::empty());
        ledger
    }

    /// The number of accounts.
    pub fn len(&self) -> (n: usize)
        ensures
            self@.dom().finite(),
            n == self@.dom().len(),
    {
        proof {
            use_type_invariant(self);
            lemma_by_name_len(self.accounts@);
        }
        self.accounts.len()
    }

    /// The accounts with their transactions, in the order in which each
    /// account was first recorded.
    pub fn accounts(&self) -> (list: &Vec<Account>)
        ensures
            distinct_names(list@),
            by_name(list@) == self@,
            forall|i: int| 0 <= i < list.len() ==> (#[trigger] list[i]).transactions.len() > 0,
    {
        proof {
            use_type_invariant(self);
        }
        &self.accounts
    }

    /// The transactions of the account named `name`, oldest first, or `None`
    /// for an account that the ledger does not hold.
    pub fn get(&self, name: &str) -> (found: Option<&Vec<Transaction>>)
        ensures
            match found {
                Some(transactions) => self@.contains_key(name@) && transactions.deep_view()
                    == self@[name@] && transactions.len() > 0,
                None => !self@.contains_key(name@),
            },
    {
        proof {
            use_type_invariant(self);
        }
        let wanted: String = name.to_owned();
        let mut i: usize = 0;
        while i < self.accounts.len()
            invariant
                i <= self.accounts.len(),
                wanted@ == name@,
                distinct_names(self.accounts@),
                forall|j: int| 0 <= j < i ==> (#[trigger] self.accounts[j]).name@ != name@,
                forall|j: int|
                    0 <= j < self.accounts.len() ==> (#[trigger] self.accounts[j]).transactions.len()
                        > 0,
            decreases self.accounts.len() - i,
        {
            if self.accounts[i].name == wanted {
                proof {
                    lemma_by_name_at(self.accounts@, i as int);
                }
                return Some(&self.accounts[i].transactions);
            }
            i = i + 1;
        }
        None
    }

    /// Records `transaction` for the account named `account`, after those
    /// that the account already has.
    pub fn record(&mut self, account: String, transaction: Transaction)
        ensures
            final(self)@ == recorded(old(self)@, account@, transaction@),
    {
        proof {
            use_type_invariant(&*self);
        }
        let mut accounts: Vec<Account> = Vec::new();
        std::mem::swap(&mut self.accounts, &mut accounts);
        let ghost before = accounts@;
        let mut i: usize = 0;
        while i < accounts.len()
            invariant
                i <= accounts.len(),
                accounts@ == before,
                before == old(self).accounts@,
                distinct_names(before),
                forall|j: int|
                    0 <= j < before.len() ==> (#[trigger] before[j]).transactions.len() > 0,
                forall|j: int| 0 <= j < i ==> (#[trigger] accounts[j]).name@ != account@,
            decreases accounts.len() - i,
        {
            if accounts[i].name == account {
                accounts[i].transactions.push(transaction);
                proof {
                    lemma_by_name_at(before, i as int);
                    lemma_by_name_update(before, i as int, accounts[i as int]);
                    assert(accounts@ =~= before.update(i as int, accounts[i as int]));
                    let earlier = before[i as int].transactions.deep_view();
                    assert(accounts[i as int].transactions.deep_view() =~= earlier.push(
                        transaction@,
                    ));
                }
                self.accounts = accounts;
                return;
            }
            i = i + 1;
        }
        let mut transactions: Vec<Transaction> = Vec::new();
        transactions.push(transaction);
        let added = Account { name: account, transactions };
        proof {
            lemma_by_name_push(before, added);
            assert(added.transactions.deep_view() =~= seq![transaction@]);
        }
        accounts.push(added);
        self.accounts = accounts;
    }
}

} // verus!
