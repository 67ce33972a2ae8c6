use bank_statement::amount::FALLBACK_BITS;
use bank_statement::date::parse_day_month_year;
use bank_statement::Amount;
use bank_statement::CalendarDate;
use bank_statement::Error;
use bank_statement::Row;
use bank_statement::Transaction;

fn amount(value: f64) -> Amount {
    Amount { bits: value.to_bits() }
}

fn row(date: &str, description: Option<&str>, credit: Option<f64>, debit: Option<f64>) -> Row {
    Row {
        date: date.to_string(),
        account: Some("12345".to_string()),
        description: description.map(|text| text.to_string()),
        credit: credit.map(amount),
        debit: debit.map(amount),
    }
}

fn fifth_of_march() -> CalendarDate {
    CalendarDate { year: 2024, month: 3, day: 5 }
}

#[test]
fn debit_wins_over_credit() {
    let built = Transaction::try_build(row("05/03/2024", Some("Rent"), Some(7.25), Some(12.5)));
    assert_eq!(built.unwrap().amount, amount(12.5));
}

#[test]
fn debit_alone_is_the_amount() {
    let built = Transaction::try_build(row("05/03/2024", Some("Rent"), None, Some(980.0)));
    let built = built.unwrap();
    assert_eq!(built.amount, amount(980.0));
    assert_eq!(f64::from_bits(built.amount.bits), 980.0);
}

#[test]
fn credit_is_the_amount_without_debit() {
    let built = Transaction::try_build(row("05/03/2024", Some("Salary"), Some(2500.75), None));
    assert_eq!(f64::from_bits(built.unwrap().amount.bits), 2500.75);
}

#[test]
fn amounts_keep_their_sign() {
    let built = Transaction::try_build(row("05/03/2024", Some("Refund"), None, Some(-3.5)));
    assert_eq!(f64::from_bits(built.unwrap().amount.bits), -3.5);
    let built = Transaction::try_build(row("05/03/2024", Some("Refund"), Some(-0.0), None));
    assert_eq!(built.unwrap().amount.bits, (-0.0f64).to_bits());
}

#[test]
fn amount_falls_back_to_sixty_four() {
    let built = Transaction::try_build(row("05/03/2024", Some("Fee"), None, None)).unwrap();
    assert_eq!(f64::from_bits(built.amount.bits), 64.0);
    assert_eq!(built.amount.bits, FALLBACK_BITS);
    assert_eq!(FALLBACK_BITS, 64.0f64.to_bits());
}

#[test]
fn resolve_picks_debit_then_credit_then_fallback() {
    assert_eq!(Amount::resolve(Some(amount(1.0)), Some(amount(2.0))), amount(1.0));
    assert_eq!(Amount::resolve(Some(amount(1.0)), None), amount(1.0));
    assert_eq!(Amount::resolve(None, Some(amount(2.0))), amount(2.0));
    assert_eq!(Amount::resolve(None, None), amount(64.0));
}

#[test]
fn description_splits_into_payee_and_note() {
    let built =
        Transaction::try_build(row("05/03/2024", Some("Acme Corp   -  monthly fee"), None, None))
            .unwrap();
    assert_eq!(built.payee, "Acme Corp");
    assert_eq!(built.note, Some("monthly fee".to_string()));
}

#[test]
fn description_without_hyphen_has_no_note() {
    let built =
        Transaction::try_build(row("05/03/2024", Some("Grocery Store"), None, None)).unwrap();
    assert_eq!(built.payee, "Grocery Store");
    assert_eq!(built.note, None);
}

#[test]
fn payee_has_no_run_of_spaces() {
    let built = Transaction::try_build(row(
        "05/03/2024",
        Some("  City   Water    Works  - bill   for  March "),
        None,
        None,
    ))
    .unwrap();
    assert_eq!(built.payee, "City Water Works");
    assert_eq!(built.note, Some("bill   for  March".to_string()));
}

#[test]
fn payee_keeps_tabs() {
    let built =
        Transaction::try_build(row("05/03/2024", Some("A\t\tB  C-x"), None, None)).unwrap();
    assert_eq!(built.payee, "A\t\tB C");
}

#[test]
fn note_keeps_later_hyphens() {
    let built =
        Transaction::try_build(row("05/03/2024", Some("Shop - order 12-34 - paid"), None, None))
            .unwrap();
    assert_eq!(built.payee, "Shop");
    assert_eq!(built.note, Some("order 12-34 - paid".to_string()));
}

#[test]
fn empty_parts_are_kept() {
    let built = Transaction::try_build(row("05/03/2024", Some(""), None, None)).unwrap();
    assert_eq!(built.payee, "");
    assert_eq!(built.note, None);
    let built = Transaction::try_build(row("05/03/2024", Some(" - "), None, None)).unwrap();
    assert_eq!(built.payee, "");
    assert_eq!(built.note, Some(String::new()));
}

#[test]
fn date_is_day_month_year() {
    let built = Transaction::try_build(row("05/03/2024", Some("Rent"), None, None)).unwrap();
    assert_eq!(built.date, fifth_of_march());
    assert_eq!(built.date.day, 5);
    assert_eq!(built.date.month, 3);
    assert_eq!(built.date.year, 2024);
}

#[test]
fn date_may_leave_out_leading_zeros() {
    let built = Transaction::try_build(row("5/3/2024", Some("Rent"), None, None)).unwrap();
    assert_eq!(built.date, fifth_of_march());
    let built = Transaction::try_build(row("31/12/1999", Some("Rent"), None, None)).unwrap();
    assert_eq!(built.date, CalendarDate { year: 1999, month: 12, day: 31 });
}

#[test]
fn date_in_another_form_is_invalid() {
    let built = Transaction::try_build(row("2024-03-05", Some("Rent"), None, None));
    assert_eq!(built, Err(Error::InvalidDate("2024-03-05".to_string())));
}

#[test]
fn date_that_is_no_day_is_invalid() {
    for text in ["", "05/03", "31/02/2024", "00/01/2024", "05/13/2024", "05/03/2024 x", "today"] {
        let built = Transaction::try_build(row(text, Some("Rent"), None, None));
        assert_eq!(built, Err(Error::InvalidDate(text.to_string())), "{:?}", text);
    }
}

#[test]
fn leap_day_needs_a_leap_year() {
    assert_eq!(
        parse_day_month_year("29/02/2024"),
        Some(CalendarDate { year: 2024, month: 2, day: 29 })
    );
    assert_eq!(parse_day_month_year("29/02/2023"), None);
}

#[test]
fn missing_description_is_an_error() {
    let built = Transaction::try_build(row("05/03/2024", None, Some(1.0), None));
    assert_eq!(built, Err(Error::MissingDescription));
}

#[test]
fn invalid_date_comes_before_missing_description() {
    let built = Transaction::try_build(row("March 5", None, None, None));
    assert_eq!(built, Err(Error::InvalidDate("March 5".to_string())));
}

#[test]
fn is_transfer_is_never_set() {
    let built = Transaction::try_build(row("05/03/2024", Some("Transfer - to savings"), None, None));
    assert!(!built.unwrap().is_transfer);
}

#[test]
fn account_plays_no_part() {
    let mut with = row("05/03/2024", Some("Rent - March"), None, Some(1.5));
    let mut without = with.clone();
    with.account = Some("98765".to_string());
    without.account = None;
    assert_eq!(Transaction::try_build(with), Transaction::try_build(without));
}

#[test]
fn assemble_uses_the_date_it_is_given() {
    let date = CalendarDate { year: 2001, month: 2, day: 3 };
    let built =
        Transaction::assemble(Some(date), row("ignored", Some("Shop  A - note"), None, Some(2.0)));
    assert_eq!(
        built,
        Ok(Transaction {
            date,
            note: Some("note".to_string()),
            amount: amount(2.0),
            is_transfer: false,
            payee: "Shop A".to_string(),
        })
    );
}

#[test]
fn assemble_without_date_is_invalid_date() {
    let built = Transaction::assemble(None, row("05/03/2024", Some("Shop"), None, None));
    assert_eq!(built, Err(Error::InvalidDate("05/03/2024".to_string())));
    let built = Transaction::assemble(None, row("x", None, None, None));
    assert_eq!(built, Err(Error::InvalidDate("x".to_string())));
}

#[test]
fn assemble_without_description_is_missing_description() {
    let built = Transaction::assemble(Some(fifth_of_march()), row("05/03/2024", None, None, None));
    assert_eq!(built, Err(Error::MissingDescription));
}
