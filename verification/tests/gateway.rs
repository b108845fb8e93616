use std::cell::RefCell;

use ynab_tui::data_layer::database::filter::{Column, Condition, Operator};
use ynab_tui::data_layer::database::{QueryEngine, SyncReport};
use ynab_tui::data_layer::json::Json;
use ynab_tui::data_layer::models::account::Account;
use ynab_tui::data_layer::models::budget::Budget;
use ynab_tui::data_layer::models::category::Category;
use ynab_tui::data_layer::models::category_group::CategoryGroup;
use ynab_tui::data_layer::models::enums::AccountTypeString;
use ynab_tui::data_layer::models::transaction::Transaction;
use ynab_tui::data_layer::models::{DecodeError, SqlValue};
use ynab_tui::data_layer::payload::{decode_listing, listing, Remote};
use ynab_tui::data_layer::ynab_api::{TransportError, YnabApi};
use ynab_tui::data_layer::{
    add_capped, add_passes, apply_budgets, apply_categories, DataGateway, Pass, Refresh, SyncError,
};

fn gateway() -> DataGateway {
    DataGateway::new(YnabApi::new(None, 1000), QueryEngine::new())
}

fn pass(inserted: usize, updated: usize, unchanged: usize, skipped: usize) -> Pass {
    Pass { report: SyncReport { inserted, updated, unchanged }, skipped }
}

fn transactions_payload(amount: i64) -> String {
    format!(
        "{{\"data\":{{\"transactions\":[{{\"id\":\"t1\",\"date\":\"2023-04-01\",\"amount\":{amount},\"account_id\":\"a1\"}}]}}}}"
    )
}

const BUDGETS_PAYLOAD: &str = "{\"data\":{\"budgets\":[\
    {\"id\":\"b1\",\"name\":\"Household\",\"last_modified_on\":\"2023-04-01T10:00:00+00:00\",\
     \"first_month\":\"2022-01-01\",\"last_month\":\"2023-04-01\",\"date_format\":{\"format\":\"DD/MM/YYYY\"}},\
    {\"id\":\"b2\",\"name\":\"Business\",\"last_modified_on\":\"2023-03-01T10:00:00+00:00\",\
     \"first_month\":\"2021-01-01\",\"last_month\":\"2023-03-01\",\"date_format\":{\"format\":\"YYYY-MM-DD\"}}\
    ],\"default_budget\":null}}";

fn household() -> Budget {
    Budget {
        id: "b1".to_string(),
        name: "Household".to_string(),
        last_modified_on: "2023-04-01T10:00:00+00:00".to_string(),
        first_month: "2022-01-01".to_string(),
        last_month: "2023-04-01".to_string(),
        date_format: "DD/MM/YYYY".to_string(),
    }
}

#[test]
fn transactions_scenario_insert_update_noop() {
    let mut gateway = gateway();
    assert_eq!(gateway.engine().get_transaction("t1"), None);

    let r = gateway.take_transactions("b1", Ok(transactions_payload(-4200)));
    assert_eq!(r, Ok(pass(1, 0, 0, 0)));
    let stored = gateway.engine().get_transaction("t1").unwrap();
    assert_eq!(stored.amount, -4200);
    assert_eq!(stored.budget_id, "b1");

    let r = gateway.take_transactions("b1", Ok(transactions_payload(-4500)));
    assert_eq!(r, Ok(pass(0, 1, 0, 0)));
    assert_eq!(gateway.engine().get_transaction("t1").unwrap().amount, -4500);
    assert_eq!(gateway.get_transactions("b1").len(), 1);

    let r = gateway.take_transactions("b1", Ok(transactions_payload(-4500)));
    assert_eq!(r, Ok(pass(0, 0, 1, 0)));
    assert_eq!(gateway.engine().get_transaction("t1").unwrap().amount, -4500);
}

#[test]
fn a_failed_fetch_changes_nothing() {
    let mut gateway = gateway();
    gateway.take_transactions("b1", Ok(transactions_payload(1))).unwrap();
    let error = || TransportError { message: "timeout".to_string() };
    assert_eq!(gateway.take_transactions("b1", Err(error())), Err(SyncError::Transport(error())));
    assert_eq!(gateway.take_budgets(Err(error())), Err(SyncError::Transport(error())));
    assert_eq!(gateway.take_accounts("b1", Err(error())), Err(SyncError::Transport(error())));
    assert_eq!(gateway.take_categories("b1", Err(error())), Err(SyncError::Transport(error())));
    assert_eq!(gateway.get_transactions("b1").len(), 1);
}

#[test]
fn a_payload_that_is_not_json_changes_nothing() {
    let mut gateway = gateway();
    gateway.take_transactions("b1", Ok(transactions_payload(1))).unwrap();
    let r = gateway.take_transactions("b1", Ok("<html>".to_string()));
    assert_eq!(r, Err(SyncError::Decode(DecodeError::NotJson)));
    assert_eq!(gateway.take_budgets(Ok("".to_string())), Err(SyncError::Decode(DecodeError::NotJson)));
    assert_eq!(gateway.get_transactions("b1").len(), 1);
}

#[test]
fn a_payload_without_the_listing_changes_nothing() {
    let mut gateway = gateway();
    for payload in [
        "{}",
        "[]",
        "{\"data\":{}}",
        "{\"data\":{\"budgets\":[]}}",
        "{\"data\":{\"transactions\":{}}}",
        "{\"transactions\":[]}",
    ] {
        let r = gateway.take_transactions("b1", Ok(payload.to_string()));
        assert_eq!(r, Err(SyncError::Decode(DecodeError::NoListing)), "{payload}");
    }
    assert_eq!(
        gateway.take_budgets(Ok("{\"data\":{\"transactions\":[]}}".to_string())),
        Err(SyncError::Decode(DecodeError::NoListing))
    );
    assert_eq!(
        gateway.take_accounts("b1", Ok("{\"data\":null}".to_string())),
        Err(SyncError::Decode(DecodeError::NoListing))
    );
    assert_eq!(
        gateway.take_categories("b1", Ok("{\"data\":{\"categories\":[]}}".to_string())),
        Err(SyncError::Decode(DecodeError::NoListing))
    );
}

#[test]
fn an_element_that_cannot_be_read_is_skipped() {
    let payload = "{\"data\":{\"transactions\":[\
        {\"id\":\"t1\",\"date\":\"2023-04-01\",\"amount\":1,\"account_id\":\"a1\"},\
        {\"id\":\"t2\",\"date\":\"2023-04-01\",\"amount\":\"two\",\"account_id\":\"a1\"},\
        {\"date\":\"2023-04-01\",\"amount\":3,\"account_id\":\"a1\"},\
        17,\
        {\"id\":\"t5\",\"date\":\"2023-04-01\",\"amount\":5.5,\"account_id\":\"a1\"},\
        {\"id\":\"t6\",\"date\":\"2023-04-02\",\"amount\":6,\"account_id\":\"a2\",\"memo\":null,\"payee_id\":\"p\"}\
        ]}}";
    let mut gateway = gateway();
    let r = gateway.take_transactions("b1", Ok(payload.to_string()));
    assert_eq!(r, Ok(pass(2, 0, 0, 4)));
    let ids: Vec<String> = gateway.get_transactions("b1").into_iter().map(|t| t.id).collect();
    assert_eq!(ids, ["t1", "t6"]);
    assert_eq!(gateway.engine().get_transaction("t6").unwrap().payee_id, Some("p".to_string()));
}

#[test]
fn budgets_are_read_with_their_date_format() {
    let mut gateway = gateway();
    assert_eq!(gateway.take_budgets(Ok(BUDGETS_PAYLOAD.to_string())), Ok(pass(2, 0, 0, 0)));
    let budgets = gateway.get_budgets();
    assert_eq!(budgets.len(), 2);
    assert_eq!(budgets[0], household());
    assert_eq!(budgets[1].date_format, "YYYY-MM-DD");
    assert_eq!(gateway.take_budgets(Ok(BUDGETS_PAYLOAD.to_string())), Ok(pass(0, 0, 2, 0)));
}

#[test]
fn one_element_is_read_field_by_field() {
    let doc = Json::parse(
        "{\"id\":\"a1\",\"name\":\"Visa\",\"type\":\"creditCard\",\"on_budget\":true,\"closed\":false,\
         \"note\":\"n\",\"balance\":-1,\"cleared_balance\":-2,\"uncleared_balance\":1,\
         \"transfer_payee_id\":\"p9\",\"direct_import_linked\":true,\"direct_import_in_error\":false,\
         \"deleted\":false}",
    )
    .unwrap();
    assert_eq!(
        Account::from_json(&doc, "b1"),
        Ok(Account {
            id: "a1".to_string(),
            name: "Visa".to_string(),
            account_type: AccountTypeString::CreditCard,
            on_budget: true,
            closed: false,
            note: "n".to_string(),
            balance: -1,
            cleared_balance: -2,
            uncleared_balance: 1,
            transfer_payee_id: Some("p9".to_string()),
            direct_import_linked: true,
            direct_import_in_error: false,
        })
    );
    let odd = Json::parse("{\"id\":\"a1\",\"name\":\"Visa\",\"type\":\"piggyBank\"}").unwrap();
    assert_eq!(Account::from_json(&odd, "b1"), Err(DecodeError::WrongKind));
    let short = Json::parse("{\"id\":\"a1\",\"name\":\"Visa\",\"type\":\"cash\"}").unwrap();
    assert_eq!(Account::from_json(&short, "b1"), Err(DecodeError::Missing));
    let flag = Json::parse("{\"id\":\"a1\",\"name\":\"Visa\",\"type\":\"cash\",\"on_budget\":1}").unwrap();
    assert_eq!(Account::from_json(&flag, "b1"), Err(DecodeError::WrongKind));
    assert_eq!(Budget::from_json(&Json::Null, ""), Err(DecodeError::Missing));
    let no_format = Json::parse(
        "{\"id\":\"b\",\"name\":\"n\",\"last_modified_on\":\"l\",\"first_month\":\"f\",\"last_month\":\"m\",\"date_format\":\"DMY\"}",
    )
    .unwrap();
    assert_eq!(Budget::from_json(&no_format, ""), Err(DecodeError::Missing));
    let memo = Json::parse("{\"id\":\"t\",\"date\":\"d\",\"amount\":1,\"memo\":5,\"account_id\":\"a\"}").unwrap();
    assert_eq!(Transaction::from_json(&memo, "b1"), Err(DecodeError::WrongKind));
}

#[test]
fn listings_are_found_under_data() {
    let doc = Json::parse("{\"data\":{\"budgets\":[1,2],\"other\":3}}").unwrap();
    assert_eq!(listing(&doc, "budgets").map(|items| items.len()), Ok(2));
    assert_eq!(listing(&doc, "other"), Err(DecodeError::NoListing));
    assert_eq!(listing(&doc, "accounts"), Err(DecodeError::NoListing));
    let (records, skipped) = decode_listing::<Budget>(listing(&doc, "budgets").unwrap(), "");
    assert!(records.is_empty());
    assert_eq!(skipped, 2);
}

#[test]
fn categories_come_with_their_groups() {
    let payload = "{\"data\":{\"category_groups\":[\
        {\"id\":\"g1\",\"name\":\"Bills\",\"hidden\":false,\"deleted\":false,\"categories\":[\
            {\"id\":\"c1\",\"category_group_id\":\"g1\",\"name\":\"Rent\",\"hidden\":false,\"budgeted\":10,\"activity\":-10,\"balance\":0},\
            {\"id\":\"c2\",\"category_group_id\":\"g1\",\"name\":\"Power\",\"hidden\":true,\"note\":\"n\",\"budgeted\":1,\"activity\":2,\"balance\":3},\
            {\"id\":\"c3\"}]},\
        {\"id\":\"g2\",\"name\":\"Fun\",\"hidden\":true,\"deleted\":false},\
        {\"id\":\"g3\",\"hidden\":true,\"categories\":[\
            {\"id\":\"c4\",\"category_group_id\":\"g3\",\"name\":\"Odd\",\"hidden\":false,\"budgeted\":0,\"activity\":0,\"balance\":0}]}\
        ],\"server_knowledge\":7}}";
    let mut gateway = gateway();
    let r = gateway.take_categories("b1", Ok(payload.to_string()));
    assert_eq!(r, Ok((pass(2, 0, 0, 1), pass(3, 0, 0, 1))));
    assert_eq!(
        gateway.engine().category_groups().select_all(),
        vec![
            CategoryGroup { id: "g1".to_string(), name: "Bills".to_string(), hidden: false },
            CategoryGroup { id: "g2".to_string(), name: "Fun".to_string(), hidden: true },
        ]
    );
    let categories = gateway.engine().categories().select_all();
    assert_eq!(categories.len(), 3);
    assert_eq!(
        categories[1],
        Category {
            id: "c2".to_string(),
            category_group_id: "g1".to_string(),
            name: "Power".to_string(),
            hidden: true,
            original_category_group_id: None,
            note: Some("n".to_string()),
            budgeted: 1,
            activity: 2,
            balance: 3,
        }
    );
    assert_eq!(categories[2].id, "c4");

    let mut engine = QueryEngine::new();
    let doc = Json::parse(payload).unwrap();
    assert_eq!(apply_categories(&mut engine, &doc, "b1"), Ok((pass(2, 0, 0, 1), pass(3, 0, 0, 1))));
    assert_eq!(apply_budgets(&mut engine, &doc), Err(DecodeError::NoListing));
}

fn remote(endpoint: &str) -> Result<String, TransportError> {
    match endpoint {
        "/budgets" => Ok(BUDGETS_PAYLOAD.to_string()),
        "/budgets/b1/accounts" => Ok("{\"data\":{\"accounts\":[\
            {\"id\":\"a1\",\"name\":\"Visa\",\"type\":\"creditCard\",\"on_budget\":true,\"closed\":false,\
             \"note\":\"\",\"balance\":0,\"cleared_balance\":0,\"uncleared_balance\":0,\
             \"direct_import_linked\":false,\"direct_import_in_error\":false}]}}"
            .to_string()),
        "/budgets/b2/accounts" => Ok("{\"data\":{\"accounts\":[]}}".to_string()),
        "/budgets/b1/categories" | "/budgets/b2/categories" => {
            Ok("{\"data\":{\"category_groups\":[]}}".to_string())
        }
        "/budgets/b1/transactions" => Ok(transactions_payload(-4200)),
        "/budgets/b2/transactions" => Ok("{\"data\":{\"transactions\":[\
            {\"id\":\"t2\",\"date\":\"2023-04-01\",\"amount\":7,\"account_id\":\"a1\"},\
            {\"id\":\"t3\",\"date\":\"2023-04-01\",\"amount\":8,\"account_id\":\"a1\"},\
            {\"id\":\"broken\"}]}}"
            .to_string()),
        other => Err(TransportError { message: format!("no such endpoint: {other}") }),
    }
}

#[test]
fn a_full_resync_rebuilds_the_mirror() {
    let asked = RefCell::new(Vec::new());
    let fetch = |endpoint: &str| {
        asked.borrow_mut().push(endpoint.to_string());
        remote(endpoint)
    };
    let mut engine = QueryEngine::new();
    engine
        .insert_budget(Budget { id: "gone".to_string(), ..household() })
        .unwrap();
    let mut gateway = DataGateway::new(YnabApi::new(None, 1000), engine);

    let done = gateway.refresh_db(&fetch, 0).unwrap();
    assert_eq!(
        done,
        Refresh {
            budgets: pass(2, 0, 0, 0),
            accounts: pass(1, 0, 0, 0),
            category_groups: pass(0, 0, 0, 0),
            categories: pass(0, 0, 0, 0),
            transactions: pass(3, 0, 0, 1),
        }
    );
    assert_eq!(
        *asked.borrow(),
        [
            "/budgets",
            "/budgets/b1/accounts",
            "/budgets/b1/categories",
            "/budgets/b1/transactions",
            "/budgets/b2/accounts",
            "/budgets/b2/categories",
            "/budgets/b2/transactions",
        ]
    );
    assert_eq!(gateway.get_budgets().len(), 2);
    assert_eq!(gateway.engine().get_budget("gone"), None);
    assert_eq!(gateway.get_transactions("b1").len(), 1);
    assert_eq!(gateway.get_transactions("b2").len(), 2);
    assert_eq!(gateway.engine().accounts().len(), 1);
    assert_eq!(gateway.api().cache_miss(), 7);

    let again = gateway.refresh_db(&fetch, 500).unwrap();
    assert_eq!(again, done);
    assert_eq!(asked.borrow().len(), 7);
    assert_eq!(gateway.api().cache_hit(), 7);
}

#[test]
fn a_resync_stops_at_the_first_listing_that_fails() {
    let fetch = |endpoint: &str| {
        if endpoint == "/budgets/b1/transactions" {
            Err(TransportError { message: "down".to_string() })
        } else {
            remote(endpoint)
        }
    };
    let mut gateway = gateway();
    assert_eq!(
        gateway.refresh_db(&fetch, 0),
        Err(SyncError::Transport(TransportError { message: "down".to_string() }))
    );
    assert_eq!(gateway.get_budgets().len(), 2);
    assert_eq!(gateway.engine().accounts().len(), 1);
    assert!(gateway.get_transactions("b2").is_empty());

    let mut gateway = DataGateway::new(YnabApi::new(None, 1000), QueryEngine::new());
    let nothing = |_: &str| Err(TransportError { message: "offline".to_string() });
    assert!(gateway.refresh_db(&nothing, 0).is_err());
    assert!(gateway.get_budgets().is_empty());
}

#[test]
fn loads_go_through_the_cache() {
    let mut gateway = gateway();
    assert_eq!(gateway.load_budgets(&remote, 0), Ok(pass(2, 0, 0, 0)));
    assert_eq!(gateway.load_accounts("b1", &remote, 0), Ok(pass(1, 0, 0, 0)));
    assert_eq!(gateway.load_transactions("b1", &remote, 0), Ok(pass(1, 0, 0, 0)));
    assert_eq!(gateway.load_categories("b1", &remote, 0), Ok((pass(0, 0, 0, 0), pass(0, 0, 0, 0))));
    assert_eq!((gateway.api().cache_hit(), gateway.api().cache_miss()), (0, 4));
    let offline = |_: &str| Err(TransportError { message: "offline".to_string() });
    assert_eq!(gateway.load_transactions("b1", &offline, 999), Ok(pass(0, 0, 1, 0)));
    assert!(gateway.load_transactions("b1", &offline, 1000).is_err());
    gateway.set_force_refresh(true);
    assert!(gateway.load_budgets(&offline, 1).is_err());
    assert_eq!(gateway.get_budgets().len(), 2);
}

#[test]
fn filtered_transactions_of_a_budget() {
    let mut gateway = gateway();
    gateway.refresh_db(&remote, 0).unwrap();
    let filter =
        vec![Condition { column: Column::Amount, operator: Operator::Greater, value: SqlValue::Integer(7) }];
    let found = gateway.get_transactions_where("b2", &filter);
    assert_eq!(found.len(), 1);
    assert_eq!(found[0].id, "t3");
    assert_eq!(gateway.get_transactions_where("b2", &Vec::new()).len(), 2);
}

#[test]
fn counts_are_capped() {
    assert_eq!(add_capped(2, 3), 5);
    assert_eq!(add_capped(usize::MAX, 1), usize::MAX);
    assert_eq!(add_capped(usize::MAX - 1, 1), usize::MAX);
    assert_eq!(add_passes(pass(1, 2, 3, 4), pass(10, 20, 30, 40)), pass(11, 22, 33, 44));
    assert_eq!(add_passes(pass(0, usize::MAX, 0, 0), pass(0, 5, 0, 1)), pass(0, usize::MAX, 0, 1));
}

#[test]
fn a_pass_without_reset_updates_in_place() {
    let mut gateway = gateway();
    gateway.refresh_db(&remote, 0).unwrap();
    let changed = |endpoint: &str| {
        if endpoint == "/budgets/b1/transactions" {
            Ok(transactions_payload(-4500))
        } else {
            remote(endpoint)
        }
    };
    let done = gateway.refresh(Some("b1"), &changed, 5000).unwrap();
    assert_eq!(
        done,
        Refresh {
            budgets: pass(0, 0, 0, 0),
            accounts: pass(0, 0, 1, 0),
            category_groups: pass(0, 0, 0, 0),
            categories: pass(0, 0, 0, 0),
            transactions: pass(0, 1, 0, 0),
        }
    );
    assert_eq!(gateway.engine().get_transaction("t1").unwrap().amount, -4500);
    assert_eq!(gateway.get_transactions("b2").len(), 2);

    let done = gateway.refresh(None, &changed, 10_000).unwrap();
    assert_eq!(
        done,
        Refresh {
            budgets: pass(0, 0, 2, 0),
            accounts: pass(0, 0, 1, 0),
            category_groups: pass(0, 0, 0, 0),
            categories: pass(0, 0, 0, 0),
            transactions: pass(0, 0, 3, 1),
        }
    );
    assert_eq!(gateway.engine().row_counts(), (2, 1, 0, 0, 3));

    let done = gateway.sync_budget("b2", &remote, 20_000).unwrap();
    assert_eq!(done.transactions, pass(0, 0, 2, 1));
    assert!(gateway.sync_budget("b3", &remote, 20_000).is_err());
}
