use ynab_tui::data_layer::database::filter::{Column, Condition, Operator};
use ynab_tui::data_layer::database::filter_text::{parse_filter, FilterError};
use ynab_tui::data_layer::models::SqlValue;

fn number(column: Column, operator: Operator, value: i64) -> Condition {
    Condition { column, operator, value: SqlValue::Integer(value) }
}

fn text(column: Column, operator: Operator, value: &str) -> Condition {
    Condition { column, operator, value: SqlValue::String(value.to_string()) }
}

#[test]
fn nothing_but_spaces_is_the_empty_filter() {
    assert_eq!(parse_filter(""), Ok(Vec::new()));
    assert_eq!(parse_filter(" "), Ok(Vec::new()));
    assert_eq!(parse_filter("     "), Ok(Vec::new()));
}

#[test]
fn one_condition() {
    assert_eq!(parse_filter("amount<0"), Ok(vec![number(Column::Amount, Operator::Less, 0)]));
    assert_eq!(
        parse_filter("  amount  >=  -4200  "),
        Ok(vec![number(Column::Amount, Operator::GreaterOrEqual, -4200)])
    );
    assert_eq!(parse_filter("memo=rent"), Ok(vec![text(Column::Memo, Operator::Equal, "rent")]));
    assert_eq!(
        parse_filter("memo = monthly rent "),
        Ok(vec![text(Column::Memo, Operator::Equal, "monthly rent")])
    );
    assert_eq!(
        parse_filter("date >= 2023-01-01"),
        Ok(vec![text(Column::Date, Operator::GreaterOrEqual, "2023-01-01")])
    );
}

#[test]
fn every_operator() {
    let cases = [
        ("amount = 1", Operator::Equal),
        ("amount != 1", Operator::NotEqual),
        ("amount < 1", Operator::Less),
        ("amount <= 1", Operator::LessOrEqual),
        ("amount > 1", Operator::Greater),
        ("amount >= 1", Operator::GreaterOrEqual),
    ];
    for (written, operator) in cases {
        assert_eq!(parse_filter(written), Ok(vec![number(Column::Amount, operator, 1)]), "{written}");
    }
}

#[test]
fn every_column() {
    let cases = [
        ("id", Column::Id),
        ("date", Column::Date),
        ("memo", Column::Memo),
        ("account_id", Column::AccountId),
        ("payee_id", Column::PayeeId),
        ("category_id", Column::CategoryId),
        ("transfer_account_id", Column::TransferAccountId),
        ("transfer_transaction_id", Column::TransferTransactionId),
        ("matched_transaction_id", Column::MatchedTransactionId),
    ];
    for (name, column) in cases {
        assert_eq!(
            parse_filter(&format!("{name}=x")),
            Ok(vec![text(column, Operator::Equal, "x")]),
            "{name}"
        );
    }
    assert_eq!(parse_filter("amount=7"), Ok(vec![number(Column::Amount, Operator::Equal, 7)]));
}

#[test]
fn conditions_are_joined_with_an_ampersand() {
    assert_eq!(
        parse_filter("amount < 0 & date >= 2023-01-01 & memo != "),
        Ok(vec![
            number(Column::Amount, Operator::Less, 0),
            text(Column::Date, Operator::GreaterOrEqual, "2023-01-01"),
            text(Column::Memo, Operator::NotEqual, ""),
        ])
    );
}

#[test]
fn the_value_may_hold_operators() {
    assert_eq!(parse_filter("memo=a=b"), Ok(vec![text(Column::Memo, Operator::Equal, "a=b")]));
    assert_eq!(parse_filter("memo<=>"), Ok(vec![text(Column::Memo, Operator::LessOrEqual, ">")]));
    assert_eq!(parse_filter("memo==1"), Ok(vec![text(Column::Memo, Operator::Equal, "=1")]));
    assert_eq!(
        parse_filter("memo='; DROP TABLE transactions; --"),
        Ok(vec![text(Column::Memo, Operator::Equal, "'; DROP TABLE transactions; --")])
    );
}

#[test]
fn a_condition_without_operator_is_refused() {
    assert_eq!(parse_filter("amount"), Err(FilterError::NoOperator));
    assert_eq!(parse_filter("0 = 0 &"), Err(FilterError::UnknownColumn));
    assert_eq!(parse_filter("amount=1&"), Err(FilterError::NoOperator));
    assert_eq!(parse_filter("&amount=1"), Err(FilterError::NoOperator));
    assert_eq!(parse_filter("amount=1&&amount=2"), Err(FilterError::NoOperator));
    assert_eq!(parse_filter("amount ! 1"), Err(FilterError::NoOperator));
    assert_eq!(parse_filter("amount!"), Err(FilterError::NoOperator));
}

#[test]
fn an_unknown_column_is_refused() {
    assert_eq!(parse_filter("budget_id=b1"), Err(FilterError::UnknownColumn));
    assert_eq!(parse_filter("Amount=1"), Err(FilterError::UnknownColumn));
    assert_eq!(parse_filter("=1"), Err(FilterError::UnknownColumn));
    assert_eq!(parse_filter("a mount=1"), Err(FilterError::UnknownColumn));
    assert_eq!(parse_filter("1=1 OR amount=1"), Err(FilterError::UnknownColumn));
}

#[test]
fn an_amount_must_be_an_integer_in_range() {
    assert_eq!(parse_filter("amount="), Err(FilterError::BadNumber));
    assert_eq!(parse_filter("amount=-"), Err(FilterError::BadNumber));
    assert_eq!(parse_filter("amount=+1"), Err(FilterError::BadNumber));
    assert_eq!(parse_filter("amount=1.5"), Err(FilterError::BadNumber));
    assert_eq!(parse_filter("amount=1 000"), Err(FilterError::BadNumber));
    assert_eq!(parse_filter("amount=--1"), Err(FilterError::BadNumber));
    assert_eq!(parse_filter("amount=abc"), Err(FilterError::BadNumber));
    assert_eq!(parse_filter("amount=\u{661}"), Err(FilterError::BadNumber));
    assert_eq!(
        parse_filter("amount=9223372036854775807"),
        Ok(vec![number(Column::Amount, Operator::Equal, i64::MAX)])
    );
    assert_eq!(parse_filter("amount=9223372036854775808"), Err(FilterError::BadNumber));
    assert_eq!(
        parse_filter("amount=-9223372036854775808"),
        Ok(vec![number(Column::Amount, Operator::Equal, i64::MIN)])
    );
    assert_eq!(parse_filter("amount=-9223372036854775809"), Err(FilterError::BadNumber));
    assert_eq!(parse_filter("amount=99999999999999999999999999"), Err(FilterError::BadNumber));
    assert_eq!(parse_filter("amount=000"), Ok(vec![number(Column::Amount, Operator::Equal, 0)]));
    assert_eq!(parse_filter("amount=-0"), Ok(vec![number(Column::Amount, Operator::Equal, 0)]));
    assert_eq!(parse_filter("amount=0012"), Ok(vec![number(Column::Amount, Operator::Equal, 12)]));
}

#[test]
fn the_first_bad_condition_decides() {
    assert_eq!(parse_filter("amount=x & nothing"), Err(FilterError::BadNumber));
    assert_eq!(parse_filter("nothing & amount=x"), Err(FilterError::NoOperator));
    assert_eq!(parse_filter("amount=1 & colour=red & amount=x"), Err(FilterError::UnknownColumn));
}

#[test]
fn letters_beyond_ascii_are_kept() {
    assert_eq!(
        parse_filter("memo = caf\u{e9} \u{1f600} "),
        Ok(vec![text(Column::Memo, Operator::Equal, "caf\u{e9} \u{1f600}")])
    );
}
