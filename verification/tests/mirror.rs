use ynab_tui::data_layer::database::filter::{Column, Condition, Operator};
use ynab_tui::data_layer::database::{QueryEngine, StorageError, SyncReport, Table, Transition};
use ynab_tui::data_layer::models::budget::Budget;
use ynab_tui::data_layer::models::transaction::Transaction;
use ynab_tui::data_layer::models::{Record, SqlValue};

fn budget(id: &str, name: &str) -> Budget {
    Budget {
        id: id.to_string(),
        name: name.to_string(),
        last_modified_on: "2023-04-01T10:00:00+00:00".to_string(),
        first_month: "2022-01-01".to_string(),
        last_month: "2023-04-01".to_string(),
        date_format: "DD/MM/YYYY".to_string(),
    }
}

fn transaction(id: &str, budget_id: &str, amount: i64) -> Transaction {
    Transaction {
        id: id.to_string(),
        budget_id: budget_id.to_string(),
        date: "2023-04-01".to_string(),
        amount,
        memo: None,
        account_id: "a1".to_string(),
        payee_id: None,
        category_id: None,
        transfer_account_id: None,
        transfer_transaction_id: None,
        matched_transaction_id: None,
    }
}

#[test]
fn an_absent_row_is_none() {
    let table: Table<Budget> = Table::new();
    assert_eq!(table.len(), 0);
    assert_eq!(table.select_by_id("b1"), None);
    assert!(table.select_all().is_empty());
}

#[test]
fn insert_then_select() {
    let mut table = Table::new();
    assert_eq!(table.insert(budget("b1", "one")), Ok(()));
    assert_eq!(table.insert(budget("b2", "two")), Ok(()));
    assert_eq!(table.select_by_id("b1"), Some(budget("b1", "one")));
    assert_eq!(table.select_by_id("b2"), Some(budget("b2", "two")));
    assert_eq!(table.select_by_id("b3"), None);
    assert_eq!(table.select_all(), vec![budget("b1", "one"), budget("b2", "two")]);
}

#[test]
fn insert_refuses_a_second_row_with_the_same_id() {
    let mut table = Table::new();
    table.insert(budget("b1", "one")).unwrap();
    assert_eq!(table.insert(budget("b1", "other")), Err(StorageError::DuplicateId));
    assert_eq!(table.select_all(), vec![budget("b1", "one")]);
}

#[test]
fn update_overwrites_in_place() {
    let mut table = Table::new();
    table.insert(budget("b1", "one")).unwrap();
    table.insert(budget("b2", "two")).unwrap();
    table.insert(budget("b3", "three")).unwrap();
    assert_eq!(table.update(budget("b2", "renamed")), Ok(()));
    assert_eq!(
        table.select_all(),
        vec![budget("b1", "one"), budget("b2", "renamed"), budget("b3", "three")]
    );
}

#[test]
fn update_refuses_a_row_that_is_not_there() {
    let mut table = Table::new();
    table.insert(budget("b1", "one")).unwrap();
    assert_eq!(table.update(budget("b2", "two")), Err(StorageError::NoSuchRow));
    assert_eq!(table.select_all(), vec![budget("b1", "one")]);
}

#[test]
fn reconciling_an_unknown_id_inserts() {
    let mut table = Table::new();
    table.insert(budget("b1", "one")).unwrap();
    assert_eq!(table.reconcile_one(budget("b2", "two")), Transition::Insert);
    assert_eq!(table.select_by_id("b2"), Some(budget("b2", "two")));
    assert_eq!(table.len(), 2);
}

#[test]
fn reconciling_a_changed_record_updates() {
    let mut table = Table::new();
    table.insert(budget("b1", "one")).unwrap();
    table.insert(budget("b2", "two")).unwrap();
    assert_eq!(table.reconcile_one(budget("b1", "changed")), Transition::Update);
    assert_eq!(table.select_by_id("b1"), Some(budget("b1", "changed")));
    assert_eq!(table.select_by_id("b2"), Some(budget("b2", "two")));
    assert_eq!(table.len(), 2);
}

#[test]
fn reconciling_an_equal_record_writes_nothing() {
    let mut table = Table::new();
    table.insert(budget("b1", "one")).unwrap();
    assert_eq!(table.reconcile_one(budget("b1", "one")), Transition::NoOp);
    assert_eq!(table.select_all(), vec![budget("b1", "one")]);
}

#[test]
fn a_difference_in_any_one_field_is_an_update() {
    let base = transaction("t1", "b1", 1);
    let mut variants = Vec::new();
    let mut v = base.clone();
    v.budget_id = "b2".to_string();
    variants.push(v);
    let mut v = base.clone();
    v.date = "2023-04-02".to_string();
    variants.push(v);
    let mut v = base.clone();
    v.amount = 2;
    variants.push(v);
    let mut v = base.clone();
    v.memo = Some("".to_string());
    variants.push(v);
    let mut v = base.clone();
    v.account_id = "a2".to_string();
    variants.push(v);
    let mut v = base.clone();
    v.payee_id = Some("p".to_string());
    variants.push(v);
    let mut v = base.clone();
    v.category_id = Some("c".to_string());
    variants.push(v);
    let mut v = base.clone();
    v.transfer_account_id = Some("x".to_string());
    variants.push(v);
    let mut v = base.clone();
    v.transfer_transaction_id = Some("x".to_string());
    variants.push(v);
    let mut v = base.clone();
    v.matched_transaction_id = Some("x".to_string());
    variants.push(v);
    for variant in variants {
        assert!(!base.same(&variant));
        assert!(base != variant);
        let mut table = Table::new();
        table.insert(base.clone()).unwrap();
        assert_eq!(table.reconcile_one(variant.clone()), Transition::Update);
        assert_eq!(table.select_by_id("t1"), Some(variant));
    }
    assert!(base.same(&base.clone()));
    assert_eq!(base.id(), "t1");
}

#[test]
fn a_listing_is_reconciled_in_order() {
    let mut table = Table::new();
    table.insert(budget("b1", "one")).unwrap();
    table.insert(budget("b2", "two")).unwrap();
    let report = table.reconcile(vec![
        budget("b2", "two"),
        budget("b3", "three"),
        budget("b1", "uno"),
        budget("b3", "tres"),
    ]);
    assert_eq!(report, SyncReport { inserted: 1, updated: 2, unchanged: 1 });
    assert_eq!(
        table.select_all(),
        vec![budget("b1", "uno"), budget("b2", "two"), budget("b3", "tres")]
    );
}

#[test]
fn a_second_pass_over_the_same_listing_writes_nothing() {
    let listing = || vec![budget("b1", "one"), budget("b2", "two"), budget("b3", "three")];
    let mut table = Table::new();
    assert_eq!(table.reconcile(listing()), SyncReport { inserted: 3, updated: 0, unchanged: 0 });
    assert_eq!(table.reconcile(listing()), SyncReport { inserted: 0, updated: 0, unchanged: 3 });
    assert_eq!(table.select_all(), listing());
}

#[test]
fn resync_leaves_exactly_the_listing() {
    let mut engine = QueryEngine::new();
    engine.insert_budget(budget("old1", "gone")).unwrap();
    engine.insert_budget(budget("b2", "stale")).unwrap();
    engine.insert_transaction(transaction("t0", "old1", 5)).unwrap();
    engine.remigrate();
    assert!(engine.get_all_budgets().is_empty());
    assert_eq!(engine.get_transaction("t0"), None);
    let listing = || vec![budget("b3", "three"), budget("b1", "one"), budget("b2", "two")];
    let report = engine.reconcile_budgets(listing());
    assert_eq!(report, SyncReport { inserted: 3, updated: 0, unchanged: 0 });
    assert_eq!(engine.get_all_budgets(), listing());
}

#[test]
fn an_id_twice_in_a_listing_is_one_row() {
    let mut table = Table::new();
    let report = table.reconcile(vec![budget("b1", "one"), budget("b1", "uno")]);
    assert_eq!(report, SyncReport { inserted: 1, updated: 1, unchanged: 0 });
    assert_eq!(table.select_all(), vec![budget("b1", "uno")]);
}

#[test]
fn clear_removes_every_row() {
    let mut table = Table::new();
    table.insert(budget("b1", "one")).unwrap();
    table.clear();
    assert_eq!(table.len(), 0);
    assert_eq!(table.insert(budget("b1", "one")), Ok(()));
}

#[test]
fn the_engine_keeps_its_tables_apart() {
    let mut engine = QueryEngine::new();
    assert_eq!(engine.insert_budget(budget("x", "budget")), Ok(()));
    assert_eq!(engine.insert_transaction(transaction("x", "x", 1)), Ok(()));
    assert_eq!(engine.insert_budget(budget("x", "again")), Err(StorageError::DuplicateId));
    assert_eq!(engine.update_budget(budget("y", "none")), Err(StorageError::NoSuchRow));
    assert_eq!(engine.update_transaction(transaction("y", "x", 1)), Err(StorageError::NoSuchRow));
    assert_eq!(engine.update_transaction(transaction("x", "x", 2)), Ok(()));
    assert_eq!(engine.get_budget("x"), Some(budget("x", "budget")));
    assert_eq!(engine.get_transaction("x"), Some(transaction("x", "x", 2)));
    assert_eq!(engine.budgets().len(), 1);
    assert_eq!(engine.transactions().len(), 1);
    assert_eq!(engine.accounts().len(), 0);
    assert_eq!(engine.categories().len(), 0);
    assert_eq!(engine.category_groups().len(), 0);
}

#[test]
fn transactions_are_selected_by_budget() {
    let mut engine = QueryEngine::new();
    engine.insert_transaction(transaction("t1", "b1", 1)).unwrap();
    engine.insert_transaction(transaction("t2", "b2", 2)).unwrap();
    engine.insert_transaction(transaction("t3", "b1", 3)).unwrap();
    assert_eq!(
        engine.get_transactions("b1"),
        vec![transaction("t1", "b1", 1), transaction("t3", "b1", 3)]
    );
    assert_eq!(engine.get_transactions("b2"), vec![transaction("t2", "b2", 2)]);
    assert!(engine.get_transactions("b3").is_empty());
}

fn condition(column: Column, operator: Operator, value: SqlValue) -> Condition {
    Condition { column, operator, value }
}

fn ids(rows: Vec<Transaction>) -> Vec<String> {
    rows.into_iter().map(|t| t.id).collect()
}

fn filled() -> QueryEngine {
    let mut engine = QueryEngine::new();
    let mut t = transaction("t1", "b1", -4200);
    t.memo = Some("rent".to_string());
    t.date = "2023-03-31".to_string();
    engine.insert_transaction(t).unwrap();
    let mut t = transaction("t2", "b1", 1500);
    t.memo = Some("refund".to_string());
    engine.insert_transaction(t).unwrap();
    engine.insert_transaction(transaction("t3", "b1", 0)).unwrap();
    engine.insert_transaction(transaction("t4", "b2", -4200)).unwrap();
    engine
}

#[test]
fn an_empty_filter_keeps_every_transaction_of_the_budget() {
    let engine = filled();
    assert_eq!(ids(engine.get_transactions_where("b1", &Vec::new())), ["t1", "t2", "t3"]);
}

#[test]
fn amounts_are_compared_as_numbers() {
    let engine = filled();
    let by = |operator, amount| {
        ids(engine.get_transactions_where(
            "b1",
            &vec![condition(Column::Amount, operator, SqlValue::Integer(amount))],
        ))
    };
    assert_eq!(by(Operator::Less, 0), ["t1"]);
    assert_eq!(by(Operator::LessOrEqual, 0), ["t1", "t3"]);
    assert_eq!(by(Operator::Equal, 1500), ["t2"]);
    assert_eq!(by(Operator::NotEqual, 1500), ["t1", "t3"]);
    assert_eq!(by(Operator::Greater, -4200), ["t2", "t3"]);
    assert_eq!(by(Operator::GreaterOrEqual, -4200), ["t1", "t2", "t3"]);
    assert_eq!(by(Operator::Greater, i64::MAX), Vec::<String>::new());
    assert_eq!(by(Operator::GreaterOrEqual, i64::MIN), ["t1", "t2", "t3"]);
}

#[test]
fn strings_are_compared_by_their_bytes() {
    let engine = filled();
    let by = |column, operator, text: &str| {
        ids(engine.get_transactions_where(
            "b1",
            &vec![condition(column, operator, SqlValue::String(text.to_string()))],
        ))
    };
    assert_eq!(by(Column::Memo, Operator::Equal, "rent"), ["t1"]);
    assert_eq!(by(Column::Memo, Operator::NotEqual, "rent"), ["t2"]);
    assert_eq!(by(Column::Memo, Operator::Less, "rent"), ["t2"]);
    assert_eq!(by(Column::Memo, Operator::Greater, "ref"), ["t1", "t2"]);
    assert_eq!(by(Column::Memo, Operator::GreaterOrEqual, "refund"), ["t1", "t2"]);
    assert_eq!(by(Column::Memo, Operator::LessOrEqual, "refund"), ["t2"]);
    assert_eq!(by(Column::Date, Operator::Less, "2023-04-01"), ["t1"]);
    assert_eq!(by(Column::Date, Operator::GreaterOrEqual, "2023-04-01"), ["t2", "t3"]);
    assert_eq!(by(Column::Id, Operator::Equal, "t3"), ["t3"]);
    assert_eq!(by(Column::AccountId, Operator::Equal, "a1"), ["t1", "t2", "t3"]);
    assert_eq!(by(Column::Memo, Operator::Greater, ""), ["t1", "t2"]);
    assert_eq!(by(Column::Memo, Operator::Less, "r\u{e9}"), ["t1", "t2"]);
}

#[test]
fn null_and_values_of_another_kind_meet_no_condition() {
    let engine = filled();
    let with = |c: Condition| ids(engine.get_transactions_where("b1", &vec![c]));
    assert!(with(condition(Column::Memo, Operator::Equal, SqlValue::Null)).is_empty());
    assert!(with(condition(Column::Memo, Operator::NotEqual, SqlValue::Null)).is_empty());
    assert!(with(condition(Column::PayeeId, Operator::NotEqual, SqlValue::String("p".to_string()))).is_empty());
    assert!(with(condition(Column::Amount, Operator::Equal, SqlValue::String("0".to_string()))).is_empty());
    assert!(with(condition(Column::Id, Operator::Equal, SqlValue::Integer(1))).is_empty());
    assert!(with(condition(Column::Amount, Operator::Equal, SqlValue::Float(0))).is_empty());
    assert!(with(condition(Column::Id, Operator::Equal, SqlValue::Binary(b"t1".to_vec()))).is_empty());
}

#[test]
fn every_condition_of_a_filter_must_hold() {
    let engine = filled();
    let filter = vec![
        condition(Column::Amount, Operator::Less, SqlValue::Integer(2000)),
        condition(Column::Memo, Operator::GreaterOrEqual, SqlValue::String("ren".to_string())),
    ];
    assert_eq!(ids(engine.get_transactions_where("b1", &filter)), ["t1"]);
    assert!(filter[0].holds_for(&transaction("x", "b9", 1999)));
    assert!(!filter[0].holds_for(&transaction("x", "b9", 2000)));
    assert!(ids(engine.get_transactions_where("b2", &filter)).is_empty());
}
