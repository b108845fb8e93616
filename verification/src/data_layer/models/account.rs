//! Accounts of a budget.

use vstd::prelude::*;
use crate::data_layer::models::enums::AccountTypeString;
use crate::data_layer::ynab_api::response_models as rm;
use crate::data_layer::models::{
    AllSelectable, BindError, BindToStatement, DecodeError, IdSelectable, Insertable,
    IntoValue, Named, ReadFromStatement, Record, Statement, Updateable, ValueView, flag_in,
    integer_in, kind_in, lemma_value_of_at, named_views, opt_text_in, opt_value, read_kind,
    row_of, text_in,
};
use crate::data_layer::text::{copy_opt_text, opt_text, same_opt_text, same_text};

verus! {

/// One account as the local mirror keeps it. Balances are in milliunits.
#[derive(Debug)]
pub struct Account {
    pub id: String,
    pub name: String,
    pub account_type: AccountTypeString,
    pub on_budget: bool,
    pub closed: bool,
    pub note: String,
    pub balance: i64,
    pub cleared_balance: i64,
    pub uncleared_balance: i64,
    pub transfer_payee_id: Option<String>,
    pub direct_import_linked: bool,
    pub direct_import_in_error: bool,
}

/// An account as a mathematical value.
pub struct AccountView {
    pub id: Seq<char>,
    pub name: Seq<char>,
    pub account_type: AccountTypeString,
    pub on_budget: bool,
    pub closed: bool,
    pub note: Seq<char>,
    pub balance: i64,
    pub cleared_balance: i64,
    pub uncleared_balance: i64,
    pub transfer_payee_id: Option<Seq<char>>,
    pub direct_import_linked: bool,
    pub direct_import_in_error: bool,
}

impl View for Account {
    type V = AccountView;

    open spec fn view(&self) -> AccountView {
        AccountView {
            id: self.id@,
            name: self.name@,
            account_type: self.account_type,
            on_budget: self.on_budget,
            closed: self.closed,
            note: self.note@,
            balance: self.balance,
            cleared_balance: self.cleared_balance,
            uncleared_balance: self.uncleared_balance,
            transfer_payee_id: opt_text(self.transfer_payee_id),
            direct_import_linked: self.direct_import_linked,
            direct_import_in_error: self.direct_import_in_error,
        }
    }
}

impl Record for Account {
    open spec fn key(v: AccountView) -> Seq<char> {
        v.id
    }

    fn id(&self) -> (id: &str) {
        self.id.as_str()
    }

    fn same(&self, other: &Self) -> (same: bool) {
        same_text(self.id.as_str(), other.id.as_str())
            && same_text(self.name.as_str(), other.name.as_str())
            && self.account_type == other.account_type
            && self.on_budget == other.on_budget
            && self.closed == other.closed
            && same_text(self.note.as_str(), other.note.as_str())
            && self.balance == other.balance
            && self.cleared_balance == other.cleared_balance
            && self.uncleared_balance == other.uncleared_balance
            && same_opt_text(&self.transfer_payee_id, &other.transfer_payee_id)
            && self.direct_import_linked == other.direct_import_linked
            && self.direct_import_in_error == other.direct_import_in_error
    }

    fn copy(&self) -> (copy: Self) {
        Account {
            id: self.id.clone(),
            name: self.name.clone(),
            account_type: self.account_type,
            on_budget: self.on_budget,
            closed: self.closed,
            note: self.note.clone(),
            balance: self.balance,
            cleared_balance: self.cleared_balance,
            uncleared_balance: self.uncleared_balance,
            transfer_payee_id: copy_opt_text(&self.transfer_payee_id),
            direct_import_linked: self.direct_import_linked,
            direct_import_in_error: self.direct_import_in_error,
        }
    }
}

impl Clone for Account {
    fn clone(&self) -> (copy: Self)
        ensures
            copy@ == self@,
    {
        self.copy()
    }
}

impl PartialEq for Account {
    fn eq(&self, other: &Self) -> (same: bool) {
        self.same(other)
    }
}

impl Eq for Account {}

impl vstd::std_specs::cmp::PartialEqSpecImpl for Account {
    open spec fn obeys_eq_spec() -> bool {
        true
    }

    open spec fn eq_spec(&self, other: &Self) -> bool {
        self@ == other@
    }
}

/// Inserts one account.
pub const INSERT_ACCOUNT: &'static str =
    "INSERT INTO accounts (id, name, account_type, on_budget, closed, note, balance, \
     cleared_balance, uncleared_balance, transfer_payee_id, direct_import_linked, \
     direct_import_in_error) VALUES (:id, :name, :account_type, :on_budget, :closed, :note, \
     :balance, :cleared_balance, :uncleared_balance, :transfer_payee_id, \
     :direct_import_linked, :direct_import_in_error)";

/// Overwrites the account that has the given `id`.
pub const UPDATE_ACCOUNT: &'static str =
    "UPDATE accounts SET name = :name, account_type = :account_type, on_budget = :on_budget, \
     closed = :closed, note = :note, balance = :balance, cleared_balance = :cleared_balance, \
     uncleared_balance = :uncleared_balance, transfer_payee_id = :transfer_payee_id, \
     direct_import_linked = :direct_import_linked, direct_import_in_error = \
     :direct_import_in_error WHERE id = :id";

/// Selects the account that has the given `id`.
pub const SELECT_ACCOUNT_BY_ID: &'static str =
    "SELECT id, name, account_type, on_budget, closed, note, balance, cleared_balance, \
     uncleared_balance, transfer_payee_id, direct_import_linked, direct_import_in_error FROM \
     accounts WHERE id = :id";

/// Selects every account.
pub const SELECT_ALL_ACCOUNT: &'static str =
    "SELECT id, name, account_type, on_budget, closed, note, balance, cleared_balance, \
     uncleared_balance, transfer_payee_id, direct_import_linked, direct_import_in_error FROM \
     accounts";

impl Insertable for Account {
    open spec fn insert_text() -> Seq<char> {
        INSERT_ACCOUNT@
    }

    fn query(&self) -> &'static str {
        INSERT_ACCOUNT
    }
}

impl Updateable for Account {
    open spec fn update_text() -> Seq<char> {
        UPDATE_ACCOUNT@
    }

    fn query(&self) -> &'static str {
        UPDATE_ACCOUNT
    }
}

impl IdSelectable for Account {
    open spec fn select_by_id_text() -> Seq<char> {
        SELECT_ACCOUNT_BY_ID@
    }

    fn query() -> &'static str {
        SELECT_ACCOUNT_BY_ID
    }
}

impl AllSelectable for Account {
    open spec fn select_all_text() -> Seq<char> {
        SELECT_ALL_ACCOUNT@
    }

    fn query() -> &'static str {
        SELECT_ALL_ACCOUNT
    }
}

impl BindToStatement for Account {
    open spec fn bindings(v: AccountView) -> Seq<(Seq<char>, ValueView)> {
        seq![
            (":id"@, ValueView::String(v.id)),
            (":name"@, ValueView::String(v.name)),
            (":account_type"@, v.account_type.as_value()),
            (":on_budget"@, v.on_budget.as_value()),
            (":closed"@, v.closed.as_value()),
            (":note"@, ValueView::String(v.note)),
            (":balance"@, ValueView::Integer(v.balance)),
            (":cleared_balance"@, ValueView::Integer(v.cleared_balance)),
            (":uncleared_balance"@, ValueView::Integer(v.uncleared_balance)),
            (":transfer_payee_id"@, opt_value(v.transfer_payee_id)),
            (":direct_import_linked"@, v.direct_import_linked.as_value()),
            (":direct_import_in_error"@, v.direct_import_in_error.as_value()),
        ]
    }

    fn bind(self, s: &mut Statement) -> (r: Result<(), BindError>) {
        let mut values: Vec<Named> = Vec::new();
        values.push((":id".to_owned(), self.id.into_value()));
        values.push((":name".to_owned(), self.name.into_value()));
        values.push((":account_type".to_owned(), self.account_type.into_value()));
        values.push((":on_budget".to_owned(), self.on_budget.into_value()));
        values.push((":closed".to_owned(), self.closed.into_value()));
        values.push((":note".to_owned(), self.note.into_value()));
        values.push((":balance".to_owned(), self.balance.into_value()));
        values.push((":cleared_balance".to_owned(), self.cleared_balance.into_value()));
        values.push((":uncleared_balance".to_owned(), self.uncleared_balance.into_value()));
        values.push((":transfer_payee_id".to_owned(), self.transfer_payee_id.into_value()));
        values.push((":direct_import_linked".to_owned(), self.direct_import_linked.into_value()));
        values.push(
            (":direct_import_in_error".to_owned(), self.direct_import_in_error.into_value()),
        );
        proof {
            assert(named_views(values@) =~= Self::bindings(self@));
        }
        s.bind_iter(values)
    }
}

impl ReadFromStatement for Account {
    open spec fn decoded(row: Seq<(Seq<char>, ValueView)>) -> Result<AccountView, DecodeError> {
        let id = text_in(row, "id"@);
        let name = text_in(row, "name"@);
        let account_type = kind_in(row, "account_type"@);
        let on_budget = flag_in(row, "on_budget"@);
        let closed = flag_in(row, "closed"@);
        let note = text_in(row, "note"@);
        let balance = integer_in(row, "balance"@);
        let cleared_balance = integer_in(row, "cleared_balance"@);
        let uncleared_balance = integer_in(row, "uncleared_balance"@);
        let transfer_payee_id = opt_text_in(row, "transfer_payee_id"@);
        let direct_import_linked = flag_in(row, "direct_import_linked"@);
        let direct_import_in_error = flag_in(row, "direct_import_in_error"@);
        if id is Err {
            Err(id->Err_0)
        } else if name is Err {
            Err(name->Err_0)
        } else if account_type is Err {
            Err(account_type->Err_0)
        } else if on_budget is Err {
            Err(on_budget->Err_0)
        } else if closed is Err {
            Err(closed->Err_0)
        } else if note is Err {
            Err(note->Err_0)
        } else if balance is Err {
            Err(balance->Err_0)
        } else if cleared_balance is Err {
            Err(cleared_balance->Err_0)
        } else if uncleared_balance is Err {
            Err(uncleared_balance->Err_0)
        } else if transfer_payee_id is Err {
            Err(transfer_payee_id->Err_0)
        } else if direct_import_linked is Err {
            Err(direct_import_linked->Err_0)
        } else if direct_import_in_error is Err {
            Err(direct_import_in_error->Err_0)
        } else {
            Ok(
                AccountView {
                    id: id->Ok_0,
                    name: name->Ok_0,
                    account_type: account_type->Ok_0,
                    on_budget: on_budget->Ok_0,
                    closed: closed->Ok_0,
                    note: note->Ok_0,
                    balance: balance->Ok_0,
                    cleared_balance: cleared_balance->Ok_0,
                    uncleared_balance: uncleared_balance->Ok_0,
                    transfer_payee_id: transfer_payee_id->Ok_0,
                    direct_import_linked: direct_import_linked->Ok_0,
                    direct_import_in_error: direct_import_in_error->Ok_0,
                },
            )
        }
    }

    fn read(s: &Statement) -> (r: Result<Self, DecodeError>) {
        Ok(
            Account {
                id: s.read_text("id")?,
                name: s.read_text("name")?,
                account_type: read_kind(s, "account_type")?,
                on_budget: s.read_flag("on_budget")?,
                closed: s.read_flag("closed")?,
                note: s.read_text("note")?,
                balance: s.read_integer("balance")?,
                cleared_balance: s.read_integer("cleared_balance")?,
                uncleared_balance: s.read_integer("uncleared_balance")?,
                transfer_payee_id: s.read_opt_text("transfer_payee_id")?,
                direct_import_linked: s.read_flag("direct_import_linked")?,
                direct_import_in_error: s.read_flag("direct_import_in_error")?,
            },
        )
    }
}

/// The account that an account of the remote service describes: field for
/// field what the mirror keeps of it.
impl From<rm::Account> for Account {
    fn from(a: rm::Account) -> (converted: Self) {
        Self {
            id: a.id,
            name: a.name,
            account_type: a.account_type,
            on_budget: a.on_budget,
            closed: a.closed,
            note: a.note,
            balance: a.balance,
            cleared_balance: a.cleared_balance,
            uncleared_balance: a.uncleared_balance,
            transfer_payee_id: a.transfer_payee_id,
            direct_import_linked: a.direct_import_linked,
            direct_import_in_error: a.direct_import_in_error,
        }
    }
}

impl vstd::std_specs::convert::FromSpecImpl<rm::Account> for Account {
    open spec fn obeys_from_spec() -> bool {
        true
    }

    open spec fn from_spec(a: rm::Account) -> Self {
        Self {
            id: a.id,
            name: a.name,
            account_type: a.account_type,
            on_budget: a.on_budget,
            closed: a.closed,
            note: a.note,
            balance: a.balance,
            cleared_balance: a.cleared_balance,
            uncleared_balance: a.uncleared_balance,
            transfer_payee_id: a.transfer_payee_id,
            direct_import_linked: a.direct_import_linked,
            direct_import_in_error: a.direct_import_in_error,
        }
    }
}

/// What an account binds, it reads back: the row made of its bindings decodes
/// to the account itself.
pub proof fn lemma_account_round_trip(v: AccountView)
    ensures
        Account::decoded(row_of(Account::bindings(v))) == Ok::<AccountView, DecodeError>(v),
{
    reveal_strlit(":id");
    reveal_strlit(":name");
    reveal_strlit(":account_type");
    reveal_strlit(":on_budget");
    reveal_strlit(":closed");
    reveal_strlit(":note");
    reveal_strlit(":balance");
    reveal_strlit(":cleared_balance");
    reveal_strlit(":uncleared_balance");
    reveal_strlit(":transfer_payee_id");
    reveal_strlit(":direct_import_linked");
    reveal_strlit(":direct_import_in_error");
    reveal_strlit("id");
    reveal_strlit("name");
    reveal_strlit("account_type");
    reveal_strlit("on_budget");
    reveal_strlit("closed");
    reveal_strlit("note");
    reveal_strlit("balance");
    reveal_strlit("cleared_balance");
    reveal_strlit("uncleared_balance");
    reveal_strlit("transfer_payee_id");
    reveal_strlit("direct_import_linked");
    reveal_strlit("direct_import_in_error");
    crate::data_layer::models::enums::lemma_account_type_name_round_trip(v.account_type);
    let row = row_of(Account::bindings(v));
    assert(row[0].0 =~= "id"@);
    assert(row[1].0 =~= "name"@);
    assert(row[2].0 =~= "account_type"@);
    assert(row[3].0 =~= "on_budget"@);
    assert(row[4].0 =~= "closed"@);
    assert(row[5].0 =~= "note"@);
    assert(row[6].0 =~= "balance"@);
    assert(row[7].0 =~= "cleared_balance"@);
    assert(row[8].0 =~= "uncleared_balance"@);
    assert(row[9].0 =~= "transfer_payee_id"@);
    assert(row[10].0 =~= "direct_import_linked"@);
    assert(row[11].0 =~= "direct_import_in_error"@);
    lemma_value_of_at(row, 0);
    lemma_value_of_at(row, 1);
    lemma_value_of_at(row, 2);
    lemma_value_of_at(row, 3);
    lemma_value_of_at(row, 4);
    assert("note"@[1] != "name"@[1]);
    lemma_value_of_at(row, 5);
    lemma_value_of_at(row, 6);
    lemma_value_of_at(row, 7);
    lemma_value_of_at(row, 8);
    assert("transfer_payee_id"@[0] != "uncleared_balance"@[0]);
    lemma_value_of_at(row, 9);
    lemma_value_of_at(row, 10);
    lemma_value_of_at(row, 11);
}

} // verus!
