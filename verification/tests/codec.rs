use ynab_tui::data_layer::models::account::Account;
use ynab_tui::data_layer::models::budget::Budget;
use ynab_tui::data_layer::models::category::Category;
use ynab_tui::data_layer::models::category_group::CategoryGroup;
use ynab_tui::data_layer::models::enums::AccountTypeString;
use ynab_tui::data_layer::models::transaction::Transaction;
use ynab_tui::data_layer::models::{
    AllSelectable, BindError, BindToStatement, DecodeError, IdSelectable, Insertable, IntoValue,
    ReadFromStatement, SqlValue, Statement, Updateable,
};

fn names(list: &[&str]) -> Vec<String> {
    list.iter().map(|s| s.to_string()).collect()
}

fn transaction() -> Transaction {
    Transaction {
        id: "t1".to_string(),
        budget_id: "b1".to_string(),
        date: "2023-04-01".to_string(),
        amount: -4200,
        memo: None,
        account_id: "a1".to_string(),
        payee_id: Some("p1".to_string()),
        category_id: None,
        transfer_account_id: None,
        transfer_transaction_id: None,
        matched_transaction_id: Some("m1".to_string()),
    }
}

fn transaction_parameters() -> Vec<String> {
    names(&[
        ":id",
        ":budget_id",
        ":date",
        ":amount",
        ":memo",
        ":account_id",
        ":payee_id",
        ":category_id",
        ":transfer_account_id",
        ":transfer_transaction_id",
        ":matched_transaction_id",
    ])
}

fn account() -> Account {
    Account {
        id: "a1".to_string(),
        name: "Checking".to_string(),
        account_type: AccountTypeString::CreditCard,
        on_budget: true,
        closed: false,
        note: "".to_string(),
        balance: 100_000,
        cleared_balance: 90_000,
        uncleared_balance: 10_000,
        transfer_payee_id: None,
        direct_import_linked: false,
        direct_import_in_error: true,
    }
}

/// Makes the values bound to a statement the columns of its row, each
/// called by the parameter's name without the colon.
fn bound_to_row(s: &mut Statement) {
    let columns = s
        .bound()
        .iter()
        .map(|(name, value)| (name[1..].to_string(), copy(value)))
        .collect();
    s.set_row(columns);
}

fn copy(v: &SqlValue) -> SqlValue {
    match v {
        SqlValue::Binary(b) => SqlValue::Binary(b.clone()),
        SqlValue::Float(f) => SqlValue::Float(*f),
        SqlValue::Integer(i) => SqlValue::Integer(*i),
        SqlValue::String(s) => SqlValue::String(s.clone()),
        SqlValue::Null => SqlValue::Null,
    }
}

#[test]
fn enum_into_value_works_with_serde() {
    let x = AccountTypeString::Checking;
    assert_eq!(x.into_value(), SqlValue::String("checking".to_string()));
}

#[test]
fn every_account_kind_has_its_camel_case_name() {
    let kinds = [
        (AccountTypeString::Checking, "checking"),
        (AccountTypeString::Savings, "savings"),
        (AccountTypeString::Cash, "cash"),
        (AccountTypeString::CreditCard, "creditCard"),
        (AccountTypeString::LineOfCredit, "lineOfCredit"),
        (AccountTypeString::OtherAsset, "otherAsset"),
        (AccountTypeString::OtherLiability, "otherLiability"),
        (AccountTypeString::Mortgage, "mortgage"),
        (AccountTypeString::AutoLoan, "autoLoan"),
        (AccountTypeString::StudentLoan, "studentLoan"),
        (AccountTypeString::PersonalLoan, "personalLoan"),
        (AccountTypeString::MedicalDebt, "medicalDebt"),
        (AccountTypeString::OtherDebt, "otherDebt"),
    ];
    for (kind, name) in kinds {
        assert_eq!(kind.name(), name);
        assert_eq!(AccountTypeString::from_name(name), Some(kind));
        assert_eq!(kind.into_value(), SqlValue::String(name.to_string()));
    }
    assert_eq!(AccountTypeString::from_name("Checking"), None);
    assert_eq!(AccountTypeString::from_name(""), None);
    assert_eq!(AccountTypeString::from_name("credit_card"), None);
}

#[test]
fn absent_is_null_and_booleans_are_integers() {
    assert_eq!(None::<String>.into_value(), SqlValue::Null);
    assert_eq!(Some("x".to_string()).into_value(), SqlValue::String("x".to_string()));
    assert_eq!(true.into_value(), SqlValue::Integer(1));
    assert_eq!(false.into_value(), SqlValue::Integer(0));
    assert_eq!("s".to_string().into_value(), SqlValue::String("s".to_string()));
    assert_eq!((-5i64).into_value(), SqlValue::Integer(-5));
}

#[test]
fn a_transaction_binds_its_fields_in_order() {
    let mut s = Statement::new(Insertable::query(&transaction()), transaction_parameters());
    assert_eq!(transaction().bind(&mut s), Ok(()));
    let expected = vec![
        (":id".to_string(), SqlValue::String("t1".to_string())),
        (":budget_id".to_string(), SqlValue::String("b1".to_string())),
        (":date".to_string(), SqlValue::String("2023-04-01".to_string())),
        (":amount".to_string(), SqlValue::Integer(-4200)),
        (":memo".to_string(), SqlValue::Null),
        (":account_id".to_string(), SqlValue::String("a1".to_string())),
        (":payee_id".to_string(), SqlValue::String("p1".to_string())),
        (":category_id".to_string(), SqlValue::Null),
        (":transfer_account_id".to_string(), SqlValue::Null),
        (":transfer_transaction_id".to_string(), SqlValue::Null),
        (":matched_transaction_id".to_string(), SqlValue::String("m1".to_string())),
    ];
    assert_eq!(s.bound(), &expected);
}

#[test]
fn binding_stops_at_a_parameter_that_the_statement_lacks() {
    let mut s = Statement::new("UPDATE t SET date = :date WHERE id = :id", names(&[":id", ":date"]));
    assert_eq!(transaction().bind(&mut s), Err(BindError::UnknownParameter));
    assert_eq!(s.bound(), &vec![(":id".to_string(), SqlValue::String("t1".to_string()))]);
}

#[test]
fn bind_refuses_an_unknown_name_and_binds_nothing() {
    let mut s = Statement::new("SELECT 1 WHERE 1 = :one", names(&[":one"]));
    assert!(s.has_parameter(":one"));
    assert!(!s.has_parameter("one"));
    assert_eq!(s.bind(":two", SqlValue::Integer(2)), Err(BindError::UnknownParameter));
    assert!(s.bound().is_empty());
    assert_eq!(s.bind(":one", SqlValue::Integer(1)), Ok(()));
    assert_eq!(s.bound(), &vec![(":one".to_string(), SqlValue::Integer(1))]);
    assert_eq!(s.query(), "SELECT 1 WHERE 1 = :one");
}

#[test]
fn bind_iter_keeps_what_came_before_the_failure() {
    let mut s = Statement::new("q", names(&[":a", ":b"]));
    let r = s.bind_iter(vec![
        (":a".to_string(), SqlValue::Integer(1)),
        (":x".to_string(), SqlValue::Integer(2)),
        (":b".to_string(), SqlValue::Integer(3)),
    ]);
    assert_eq!(r, Err(BindError::UnknownParameter));
    assert_eq!(s.bound(), &vec![(":a".to_string(), SqlValue::Integer(1))]);
    assert_eq!(s.bind_iter(Vec::new()), Ok(()));
}

#[test]
fn a_transaction_reads_back_what_it_bound() {
    let mut s = Statement::new(Insertable::query(&transaction()), transaction_parameters());
    transaction().bind(&mut s).unwrap();
    bound_to_row(&mut s);
    assert_eq!(Transaction::read(&s), Ok(transaction()));
}

#[test]
fn an_account_reads_back_what_it_bound() {
    let parameters = names(&[
        ":id",
        ":name",
        ":account_type",
        ":on_budget",
        ":closed",
        ":note",
        ":balance",
        ":cleared_balance",
        ":uncleared_balance",
        ":transfer_payee_id",
        ":direct_import_linked",
        ":direct_import_in_error",
    ]);
    let mut s = Statement::new(Insertable::query(&account()), parameters);
    assert_eq!(account().bind(&mut s), Ok(()));
    assert_eq!(s.bound()[2], (":account_type".to_string(), SqlValue::String("creditCard".to_string())));
    assert_eq!(s.bound()[3], (":on_budget".to_string(), SqlValue::Integer(1)));
    assert_eq!(s.bound()[4], (":closed".to_string(), SqlValue::Integer(0)));
    bound_to_row(&mut s);
    assert_eq!(Account::read(&s), Ok(account()));
}

#[test]
fn budgets_categories_and_groups_read_back_what_they_bound() {
    let budget = Budget {
        id: "b1".to_string(),
        name: "Household".to_string(),
        last_modified_on: "2023-04-01T10:00:00+00:00".to_string(),
        first_month: "2022-01-01".to_string(),
        last_month: "2023-04-01".to_string(),
        date_format: "DD/MM/YYYY".to_string(),
    };
    let mut s = Statement::new(
        Insertable::query(&budget),
        names(&[":id", ":name", ":last_modified_on", ":first_month", ":last_month", ":date_format"]),
    );
    budget.clone().bind(&mut s).unwrap();
    bound_to_row(&mut s);
    assert_eq!(Budget::read(&s), Ok(budget));

    let group = CategoryGroup { id: "g1".to_string(), name: "Bills".to_string(), hidden: true };
    let mut s = Statement::new(Insertable::query(&group), names(&[":id", ":name", ":hidden"]));
    group.clone().bind(&mut s).unwrap();
    assert_eq!(s.bound()[2], (":hidden".to_string(), SqlValue::Integer(1)));
    bound_to_row(&mut s);
    assert_eq!(CategoryGroup::read(&s), Ok(group));

    let category = Category {
        id: "c1".to_string(),
        category_group_id: "g1".to_string(),
        name: "Rent".to_string(),
        hidden: false,
        original_category_group_id: None,
        note: Some("monthly".to_string()),
        budgeted: 1_000_000,
        activity: -1_000_000,
        balance: 0,
    };
    let mut s = Statement::new(
        Insertable::query(&category),
        names(&[
            ":id",
            ":category_group_id",
            ":name",
            ":hidden",
            ":original_category_group_id",
            ":note",
            ":budgeted",
            ":activity",
            ":balance",
        ]),
    );
    category.clone().bind(&mut s).unwrap();
    bound_to_row(&mut s);
    assert_eq!(Category::read(&s), Ok(category));
}

fn row_without(missing: &str) -> Vec<(String, SqlValue)> {
    let mut s = Statement::new("q", transaction_parameters());
    transaction().bind(&mut s).unwrap();
    s.bound()
        .iter()
        .filter(|(name, _)| &name[1..] != missing)
        .map(|(name, value)| (name[1..].to_string(), copy(value)))
        .collect()
}

#[test]
fn a_missing_column_fails_the_read() {
    for column in ["id", "budget_id", "date", "amount", "memo", "account_id", "matched_transaction_id"] {
        let mut s = Statement::new("q", Vec::new());
        s.set_row(row_without(column));
        assert_eq!(Transaction::read(&s), Err(DecodeError::Missing), "{column}");
    }
    let s = Statement::new("q", Vec::new());
    assert_eq!(Transaction::read(&s), Err(DecodeError::Missing));
}

#[test]
fn a_column_of_the_wrong_kind_fails_the_read() {
    let mut row = row_without("amount");
    row.push(("amount".to_string(), SqlValue::String("-4200".to_string())));
    let mut s = Statement::new("q", Vec::new());
    s.set_row(row);
    assert_eq!(Transaction::read(&s), Err(DecodeError::WrongKind));

    let mut row = row_without("id");
    row.push(("id".to_string(), SqlValue::Null));
    let mut s = Statement::new("q", Vec::new());
    s.set_row(row);
    assert_eq!(Transaction::read(&s), Err(DecodeError::WrongKind));

    let mut row = row_without("memo");
    row.push(("memo".to_string(), SqlValue::Integer(0)));
    let mut s = Statement::new("q", Vec::new());
    s.set_row(row);
    assert_eq!(Transaction::read(&s), Err(DecodeError::WrongKind));
}

#[test]
fn the_first_unreadable_field_decides_the_error() {
    let mut row = row_without("date");
    row.retain(|(name, _)| name != "amount");
    row.push(("amount".to_string(), SqlValue::Null));
    let mut s = Statement::new("q", Vec::new());
    s.set_row(row);
    assert_eq!(Transaction::read(&s), Err(DecodeError::Missing));
}

#[test]
fn readers_of_single_columns() {
    let mut s = Statement::new("q", Vec::new());
    s.set_row(vec![
        ("name".to_string(), SqlValue::String("n".to_string())),
        ("count".to_string(), SqlValue::Integer(3)),
        ("off".to_string(), SqlValue::Integer(0)),
        ("nothing".to_string(), SqlValue::Null),
        ("blob".to_string(), SqlValue::Binary(vec![1, 2])),
        ("real".to_string(), SqlValue::Float(1.5f64.to_bits())),
    ]);
    assert_eq!(s.read_text("name"), Ok("n".to_string()));
    assert_eq!(s.read_text("count"), Err(DecodeError::WrongKind));
    assert_eq!(s.read_text("absent"), Err(DecodeError::Missing));
    assert_eq!(s.read_opt_text("nothing"), Ok(None));
    assert_eq!(s.read_opt_text("name"), Ok(Some("n".to_string())));
    assert_eq!(s.read_opt_text("blob"), Err(DecodeError::WrongKind));
    assert_eq!(s.read_opt_text("absent"), Err(DecodeError::Missing));
    assert_eq!(s.read_integer("count"), Ok(3));
    assert_eq!(s.read_integer("real"), Err(DecodeError::WrongKind));
    assert_eq!(s.read_flag("count"), Ok(true));
    assert_eq!(s.read_flag("off"), Ok(false));
    assert_eq!(s.read_flag("nothing"), Err(DecodeError::WrongKind));
    assert_eq!(s.column("blob"), Some(&SqlValue::Binary(vec![1, 2])));
    assert_eq!(s.column("Blob"), None);
}

#[test]
fn an_unknown_account_kind_fails_the_read() {
    let mut s = Statement::new("q", Vec::new());
    s.set_row(vec![
        ("id".to_string(), SqlValue::String("a1".to_string())),
        ("name".to_string(), SqlValue::String("n".to_string())),
        ("account_type".to_string(), SqlValue::String("piggyBank".to_string())),
    ]);
    assert_eq!(Account::read(&s), Err(DecodeError::WrongKind));
}

#[test]
fn statements_name_their_table_and_every_field() {
    let t = transaction();
    assert!(Insertable::query(&t).starts_with("INSERT INTO transactions ("));
    assert!(Updateable::query(&t).starts_with("UPDATE transactions SET "));
    assert!(Updateable::query(&t).ends_with(" WHERE id = :id"));
    assert!(<Transaction as IdSelectable>::query().ends_with(" FROM transactions WHERE id = :id"));
    assert!(<Transaction as AllSelectable>::query().ends_with(" FROM transactions"));
    for parameter in transaction_parameters() {
        assert!(Insertable::query(&t).contains(&parameter), "{parameter}");
        assert!(Updateable::query(&t).contains(&parameter), "{parameter}");
    }
    assert_eq!(
        <CategoryGroup as AllSelectable>::query(),
        "SELECT id, name, hidden FROM category_groups"
    );
    assert_eq!(
        <Budget as IdSelectable>::query(),
        "SELECT id, name, last_modified_on, first_month, last_month, date_format FROM budgets WHERE id = :id"
    );
}

#[test]
fn prepare_finds_the_parameters_of_a_text() {
    let p = |text: &str| -> Vec<String> {
        let mut s = Statement::prepare(text);
        let mut found = Vec::new();
        for candidate in [":id", ":name", ":a", ":a_1", ":b", ":", ":é", "id", ":id2", ":x"] {
            if s.has_parameter(candidate) {
                found.push(candidate.to_string());
            }
        }
        s.reset();
        found
    };
    assert_eq!(p("SELECT * FROM t WHERE id = :id"), [":id"]);
    assert_eq!(p("INSERT INTO t (id, name) VALUES (:id, :name)"), [":id", ":name"]);
    assert_eq!(p("SELECT 1"), Vec::<String>::new());
    assert_eq!(p(""), Vec::<String>::new());
    assert_eq!(p(":"), Vec::<String>::new());
    assert_eq!(p("a : b ::"), Vec::<String>::new());
    assert_eq!(p(":a:b"), [":a", ":b"]);
    assert_eq!(p("::a"), [":a"]);
    assert_eq!(p("x=:a_1,"), [":a_1"]);
    assert_eq!(p(":id2"), [":id2"]);
    assert_eq!(p(":é :x"), [":x"]);
    assert_eq!(p("é:a"), [":a"]);
}

#[test]
fn every_entity_binds_to_its_own_statements() {
    let t = transaction();
    let mut s = Statement::prepare(Insertable::query(&t));
    assert_eq!(t.clone().bind(&mut s), Ok(()));
    assert_eq!(s.bound().len(), 11);
    let mut s = Statement::prepare(Updateable::query(&t));
    assert_eq!(t.bind(&mut s), Ok(()));

    let a = account();
    let mut s = Statement::prepare(Insertable::query(&a));
    assert_eq!(a.clone().bind(&mut s), Ok(()));
    assert_eq!(s.bound().len(), 12);
    let mut s = Statement::prepare(Updateable::query(&a));
    assert_eq!(a.bind(&mut s), Ok(()));

    let g = CategoryGroup { id: "g1".to_string(), name: "Bills".to_string(), hidden: true };
    let mut s = Statement::prepare(Insertable::query(&g));
    assert_eq!(g.clone().bind(&mut s), Ok(()));
    let mut s = Statement::prepare(Updateable::query(&g));
    assert_eq!(g.clone().bind(&mut s), Ok(()));
    let mut s = Statement::prepare(<CategoryGroup as IdSelectable>::query());
    assert_eq!(g.bind(&mut s), Err(BindError::UnknownParameter));
    assert_eq!(s.bound().len(), 1);
    s.reset();
    assert!(s.bound().is_empty());
    assert_eq!(s.bind(":id", SqlValue::String("g1".to_string())), Ok(()));
}
