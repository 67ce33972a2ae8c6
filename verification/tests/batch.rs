use bank_statement::parse;
use bank_statement::Amount;
use bank_statement::CalendarDate;
use bank_statement::Error;
use bank_statement::Ledger;
use bank_statement::Row;
use bank_statement::Transaction;

fn row(account: Option<&str>, date: &str, description: &str, debit: f64) -> Option<Row> {
    Some(Row {
        date: date.to_string(),
        account: account.map(|name| name.to_string()),
        description: Some(description.to_string()),
        credit: None,
        debit: Some(Amount { bits: debit.to_bits() }),
    })
}

fn payees(ledger: &Ledger, account: &str) -> Vec<String> {
    ledger.get(account).unwrap().iter().map(|transaction| transaction.payee.clone()).collect()
}

fn statement() -> Vec<Option<Row>> {
    vec![
        row(Some("12345"), "01/02/2024", "Rent - February", 900.0),
        row(Some("98765"), "02/02/2024", "Grocery Store", 45.5),
        row(Some("12345"), "03/02/2024", "Acme Corp   -  monthly fee", 12.0),
    ]
}

#[test]
fn rows_are_grouped_by_account() {
    let ledger = parse(statement(), 100).unwrap();
    assert_eq!(ledger.len(), 2);
    assert_eq!(payees(&ledger, "12345"), vec!["Rent", "Acme Corp"]);
    assert_eq!(payees(&ledger, "98765"), vec!["Grocery Store"]);
    assert!(ledger.get("55555").is_none());
}

#[test]
fn transactions_keep_the_order_of_their_rows() {
    let ledger = parse(statement(), 100).unwrap();
    let transactions = ledger.get("12345").unwrap();
    assert_eq!(transactions.len(), 2);
    assert_eq!(
        transactions[0],
        Transaction {
            date: CalendarDate { year: 2024, month: 2, day: 1 },
            note: Some("February".to_string()),
            amount: Amount { bits: 900.0f64.to_bits() },
            is_transfer: false,
            payee: "Rent".to_string(),
        }
    );
    assert_eq!(transactions[1].date, CalendarDate { year: 2024, month: 2, day: 3 });
    assert_eq!(transactions[1].note, Some("monthly fee".to_string()));
}

#[test]
fn accounts_come_in_the_order_of_their_first_row() {
    let ledger = parse(statement(), 100).unwrap();
    let names: Vec<&str> = ledger.accounts().iter().map(|account| account.name.as_str()).collect();
    assert_eq!(names, vec!["12345", "98765"]);
    assert_eq!(ledger.accounts()[0].transactions.len(), 2);
    assert_eq!(ledger.accounts()[1].transactions.len(), 1);
}

#[test]
fn empty_statement_gives_empty_ledger() {
    let ledger = parse(Vec::new(), 10).unwrap();
    assert_eq!(ledger.len(), 0);
    assert!(ledger.accounts().is_empty());
    assert!(ledger.get("12345").is_none());
}

#[test]
fn limit_stops_the_batch() {
    let ledger = parse(statement(), 2).unwrap();
    assert_eq!(ledger.len(), 2);
    assert_eq!(payees(&ledger, "12345"), vec!["Rent"]);
    assert_eq!(payees(&ledger, "98765"), vec!["Grocery Store"]);
    let ledger = parse(statement(), 1).unwrap();
    assert_eq!(ledger.len(), 1);
    assert_eq!(payees(&ledger, "12345"), vec!["Rent"]);
}

#[test]
fn limit_of_zero_reads_nothing() {
    let ledger = parse(statement(), 0).unwrap();
    assert_eq!(ledger.len(), 0);
}

#[test]
fn limit_at_or_beyond_the_end_reads_all() {
    for limit in [3, 4, usize::MAX] {
        let ledger = parse(statement(), limit).unwrap();
        assert_eq!(ledger.len(), 2);
        assert_eq!(payees(&ledger, "12345"), vec!["Rent", "Acme Corp"]);
    }
}

#[test]
fn limit_hides_a_bad_row_behind_it() {
    let mut rows = statement();
    rows.push(row(None, "04/02/2024", "No account", 1.0));
    rows.push(row(Some("12345"), "not a date", "Bad date", 1.0));
    let ledger = parse(rows.clone(), 3).unwrap();
    assert_eq!(payees(&ledger, "12345"), vec!["Rent", "Acme Corp"]);
    assert_eq!(parse(rows, 4), Err(Error::MissingAccount));
}

#[test]
fn undecoded_line_is_passed_over() {
    let mut rows = statement();
    rows.insert(1, None);
    rows.push(None);
    let ledger = parse(rows, 100).unwrap();
    assert_eq!(ledger.len(), 2);
    assert_eq!(payees(&ledger, "12345"), vec!["Rent", "Acme Corp"]);
    assert_eq!(payees(&ledger, "98765"), vec!["Grocery Store"]);
}

#[test]
fn undecoded_lines_alone_give_an_empty_ledger() {
    let ledger = parse(vec![None, None, None], 100).unwrap();
    assert_eq!(ledger.len(), 0);
}

#[test]
fn undecoded_line_counts_towards_the_limit() {
    let mut rows = statement();
    rows.insert(0, None);
    let ledger = parse(rows.clone(), 1).unwrap();
    assert_eq!(ledger.len(), 0);
    let ledger = parse(rows, 3).unwrap();
    assert_eq!(payees(&ledger, "12345"), vec!["Rent"]);
    assert_eq!(payees(&ledger, "98765"), vec!["Grocery Store"]);
}

#[test]
fn missing_account_rejects_the_batch() {
    let mut rows = statement();
    rows.push(row(None, "04/02/2024", "No account", 1.0));
    assert_eq!(parse(rows, 100), Err(Error::MissingAccount));
}

#[test]
fn missing_account_in_the_first_row_rejects_the_batch() {
    let mut rows = statement();
    rows.insert(0, row(None, "04/02/2024", "No account", 1.0));
    assert_eq!(parse(rows, 100), Err(Error::MissingAccount));
}

#[test]
fn invalid_date_rejects_the_batch() {
    let mut rows = statement();
    rows.insert(2, row(Some("98765"), "2024-02-03", "Wrong form", 1.0));
    assert_eq!(parse(rows, 100), Err(Error::InvalidDate("2024-02-03".to_string())));
}

#[test]
fn missing_description_rejects_the_batch() {
    let mut rows = statement();
    let mut bare = row(Some("12345"), "04/02/2024", "", 1.0).unwrap();
    bare.description = None;
    rows.push(Some(bare));
    assert_eq!(parse(rows, 100), Err(Error::MissingDescription));
}

#[test]
fn missing_account_comes_before_the_other_errors() {
    let rows = vec![row(None, "not a date", "x", 1.0)];
    assert_eq!(parse(rows, 100), Err(Error::MissingAccount));
}

#[test]
fn first_bad_row_decides_the_error() {
    let rows = vec![
        row(Some("1"), "01/01/2024", "fine", 1.0),
        row(Some("1"), "bad", "bad date", 1.0),
        row(None, "01/01/2024", "no account", 1.0),
    ];
    assert_eq!(parse(rows, 100), Err(Error::InvalidDate("bad".to_string())));
}

#[test]
fn empty_account_name_is_an_account() {
    let rows = vec![row(Some(""), "01/01/2024", "a", 1.0), row(Some(""), "02/01/2024", "b", 1.0)];
    let ledger = parse(rows, 100).unwrap();
    assert_eq!(ledger.len(), 1);
    assert_eq!(payees(&ledger, ""), vec!["a", "b"]);
}

#[test]
fn account_names_are_compared_as_they_are() {
    let rows = vec![
        row(Some("abc"), "01/01/2024", "a", 1.0),
        row(Some("ABC"), "02/01/2024", "b", 1.0),
        row(Some("abc "), "03/01/2024", "c", 1.0),
    ];
    let ledger = parse(rows, 100).unwrap();
    assert_eq!(ledger.len(), 3);
}

#[test]
fn ledger_records_under_the_account() {
    let mut ledger = Ledger::new();
    assert_eq!(ledger.len(), 0);
    let first = Transaction::try_build(row(None, "01/01/2024", "a", 1.0).unwrap()).unwrap();
    let second = Transaction::try_build(row(None, "02/01/2024", "b", 2.0).unwrap()).unwrap();
    let third = Transaction::try_build(row(None, "03/01/2024", "c", 3.0).unwrap()).unwrap();
    ledger.record("x".to_string(), first.clone());
    ledger.record("y".to_string(), second.clone());
    ledger.record("x".to_string(), third.clone());
    assert_eq!(ledger.len(), 2);
    assert_eq!(ledger.get("x"), Some(&vec![first, third]));
    assert_eq!(ledger.get("y"), Some(&vec![second]));
    assert_eq!(ledger.get("z"), None);
}
