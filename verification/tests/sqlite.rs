use ynab_tui::data_layer::database::{QueryEngine, CREATE_SCHEMA, DROP_SCHEMA};
use ynab_tui::data_layer::models::account::Account;
use ynab_tui::data_layer::models::budget::Budget;
use ynab_tui::data_layer::models::category::Category;
use ynab_tui::data_layer::models::category_group::CategoryGroup;
use ynab_tui::data_layer::models::enums::AccountTypeString;
use ynab_tui::data_layer::models::transaction::Transaction;
use ynab_tui::data_layer::models::{
    AllSelectable, BindToStatement, IdSelectable, Insertable, ReadFromStatement, SqlValue,
    Statement, Updateable,
};

fn to_sqlite(value: &SqlValue) -> sqlite::Value {
    match value {
        SqlValue::Binary(b) => sqlite::Value::Binary(b.clone()),
        SqlValue::Float(bits) => sqlite::Value::Float(f64::from_bits(*bits)),
        SqlValue::Integer(i) => sqlite::Value::Integer(*i),
        SqlValue::String(s) => sqlite::Value::String(s.clone()),
        SqlValue::Null => sqlite::Value::Null,
    }
}

fn from_sqlite(value: sqlite::Value) -> SqlValue {
    match value {
        sqlite::Value::Binary(b) => SqlValue::Binary(b),
        sqlite::Value::Float(f) => SqlValue::Float(f.to_bits()),
        sqlite::Value::Integer(i) => SqlValue::Integer(i),
        sqlite::Value::String(s) => SqlValue::String(s),
        sqlite::Value::Null => SqlValue::Null,
    }
}

/// Runs a statement of the library on a connection and hands back its rows.
fn run(connection: &sqlite::Connection, statement: &Statement) -> Vec<Vec<(String, SqlValue)>> {
    let mut prepared = connection.prepare(statement.query()).unwrap();
    for (name, value) in statement.bound() {
        prepared.bind((name.as_str(), to_sqlite(value))).unwrap();
    }
    let mut rows = Vec::new();
    while let Ok(sqlite::State::Row) = prepared.next() {
        let names: Vec<String> = prepared.column_names().to_vec();
        let mut row = Vec::new();
        for (i, name) in names.into_iter().enumerate() {
            row.push((name, from_sqlite(prepared.read::<sqlite::Value, _>(i).unwrap())));
        }
        rows.push(row);
    }
    rows
}

fn store() -> sqlite::Connection {
    let connection = sqlite::open(":memory:").unwrap();
    connection.execute(CREATE_SCHEMA).unwrap();
    connection
}

fn insert<T: Insertable + BindToStatement>(connection: &sqlite::Connection, value: T) {
    let mut statement = Statement::prepare(value.query());
    value.bind(&mut statement).unwrap();
    assert!(run(connection, &statement).is_empty());
}

fn update<T: Updateable + BindToStatement>(connection: &sqlite::Connection, value: T) {
    let mut statement = Statement::prepare(value.query());
    value.bind(&mut statement).unwrap();
    assert!(run(connection, &statement).is_empty());
}

fn select_by_id<T: IdSelectable + ReadFromStatement>(
    connection: &sqlite::Connection,
    id: &str,
) -> Option<T> {
    let mut statement = Statement::prepare(T::query());
    statement.bind(":id", SqlValue::String(id.to_string())).unwrap();
    let mut rows = run(connection, &statement);
    assert!(rows.len() <= 1);
    rows.pop().map(|row| {
        statement.set_row(row);
        T::read(&statement).unwrap()
    })
}

fn select_all<T: AllSelectable + ReadFromStatement>(connection: &sqlite::Connection) -> Vec<T> {
    let mut statement = Statement::prepare(T::query());
    run(connection, &statement)
        .into_iter()
        .map(|row| {
            statement.set_row(row);
            T::read(&statement).unwrap()
        })
        .collect()
}

fn transaction(id: &str, amount: i64) -> Transaction {
    Transaction {
        id: id.to_string(),
        budget_id: "b1".to_string(),
        date: "2023-04-01".to_string(),
        amount,
        memo: Some("it's \"quoted\"; -- :memo".to_string()),
        account_id: "a1".to_string(),
        payee_id: None,
        category_id: Some("c1".to_string()),
        transfer_account_id: None,
        transfer_transaction_id: None,
        matched_transaction_id: None,
    }
}

#[test]
fn the_schema_can_be_created_twice_and_dropped() {
    let connection = store();
    connection.execute(CREATE_SCHEMA).unwrap();
    insert(&connection, transaction("t1", 1));
    connection.execute(CREATE_SCHEMA).unwrap();
    assert_eq!(select_all::<Transaction>(&connection).len(), 1);
    connection.execute(DROP_SCHEMA).unwrap();
    connection.execute(DROP_SCHEMA).unwrap();
    connection.execute(CREATE_SCHEMA).unwrap();
    assert!(select_all::<Transaction>(&connection).is_empty());
}

#[test]
fn a_transaction_goes_through_the_store_and_back() {
    let connection = store();
    assert_eq!(select_by_id::<Transaction>(&connection, "t1"), None);
    insert(&connection, transaction("t1", -4200));
    insert(&connection, transaction("t2", 7));
    assert_eq!(select_by_id::<Transaction>(&connection, "t1"), Some(transaction("t1", -4200)));
    update(&connection, transaction("t1", -4500));
    assert_eq!(select_by_id::<Transaction>(&connection, "t1"), Some(transaction("t1", -4500)));
    assert_eq!(
        select_all::<Transaction>(&connection),
        vec![transaction("t1", -4500), transaction("t2", 7)]
    );
}

#[test]
fn every_entity_goes_through_the_store_and_back() {
    let connection = store();
    let budget = Budget {
        id: "b1".to_string(),
        name: "Household".to_string(),
        last_modified_on: "2023-04-01T10:00:00+00:00".to_string(),
        first_month: "2022-01-01".to_string(),
        last_month: "2023-04-01".to_string(),
        date_format: "DD/MM/YYYY".to_string(),
    };
    insert(&connection, budget.clone());
    assert_eq!(select_by_id::<Budget>(&connection, "b1"), Some(budget.clone()));
    let renamed = Budget { name: "Home".to_string(), ..budget };
    update(&connection, renamed.clone());
    assert_eq!(select_all::<Budget>(&connection), vec![renamed]);

    let account = Account {
        id: "a1".to_string(),
        name: "Visa".to_string(),
        account_type: AccountTypeString::LineOfCredit,
        on_budget: true,
        closed: false,
        note: "".to_string(),
        balance: i64::MIN,
        cleared_balance: i64::MAX,
        uncleared_balance: 0,
        transfer_payee_id: Some("p".to_string()),
        direct_import_linked: false,
        direct_import_in_error: true,
    };
    insert(&connection, account.clone());
    assert_eq!(select_by_id::<Account>(&connection, "a1"), Some(account.clone()));
    let closed = Account { closed: true, transfer_payee_id: None, ..account };
    update(&connection, closed.clone());
    assert_eq!(select_all::<Account>(&connection), vec![closed]);

    let group = CategoryGroup { id: "g1".to_string(), name: "Bills".to_string(), hidden: true };
    insert(&connection, group.clone());
    assert_eq!(select_by_id::<CategoryGroup>(&connection, "g1"), Some(group.clone()));
    update(&connection, CategoryGroup { hidden: false, ..group.clone() });
    assert_eq!(
        select_all::<CategoryGroup>(&connection),
        vec![CategoryGroup { hidden: false, ..group }]
    );

    let category = Category {
        id: "c1".to_string(),
        category_group_id: "g1".to_string(),
        name: "Rent".to_string(),
        hidden: false,
        original_category_group_id: None,
        note: Some("monthly".to_string()),
        budgeted: 1_000_000,
        activity: -1_000_000,
        balance: 0,
    };
    insert(&connection, category.clone());
    assert_eq!(select_by_id::<Category>(&connection, "c1"), Some(category.clone()));
    update(&connection, Category { note: None, balance: 5, ..category.clone() });
    assert_eq!(
        select_all::<Category>(&connection),
        vec![Category { note: None, balance: 5, ..category }]
    );
}

#[test]
fn the_store_refuses_what_the_mirror_refuses() {
    let connection = store();
    insert(&connection, transaction("t1", 1));
    let mut statement = Statement::prepare(Insertable::query(&transaction("t1", 2)));
    transaction("t1", 2).bind(&mut statement).unwrap();
    let mut prepared = connection.prepare(statement.query()).unwrap();
    for (name, value) in statement.bound() {
        prepared.bind((name.as_str(), to_sqlite(value))).unwrap();
    }
    assert!(prepared.next().is_err());

    let mut engine = QueryEngine::new();
    engine.insert_transaction(transaction("t1", 1)).unwrap();
    assert!(engine.insert_transaction(transaction("t1", 2)).is_err());
}

#[test]
fn the_store_knows_the_parameters_that_prepare_finds() {
    let connection = store();
    let texts = [
        Insertable::query(&transaction("t", 0)),
        Updateable::query(&transaction("t", 0)),
        <Transaction as IdSelectable>::query(),
        <Transaction as AllSelectable>::query(),
        <Budget as IdSelectable>::query(),
        <Account as AllSelectable>::query(),
    ];
    let candidates = [
        ":id", ":budget_id", ":date", ":amount", ":memo", ":account_id", ":payee_id",
        ":category_id", ":transfer_account_id", ":transfer_transaction_id",
        ":matched_transaction_id", ":name", ":note", ":nothing",
    ];
    for text in texts {
        let library = Statement::prepare(text);
        let prepared = connection.prepare(text).unwrap();
        for candidate in candidates {
            assert_eq!(
                library.has_parameter(candidate),
                prepared.parameter_index(candidate).unwrap().is_some(),
                "{candidate} in {text}"
            );
        }
    }
}

#[test]
fn a_mirror_is_saved_and_loaded() {
    let mut engine = QueryEngine::new();
    engine.insert_transaction(transaction("t1", 1)).unwrap();
    engine.insert_transaction(transaction("t2", 2)).unwrap();
    let connection = store();
    for t in engine.transactions().select_all() {
        insert(&connection, t);
    }
    let mut loaded = QueryEngine::new();
    loaded.reconcile_transactions(select_all::<Transaction>(&connection));
    assert_eq!(loaded.transactions().select_all(), engine.transactions().select_all());
}
