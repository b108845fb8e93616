//! Transactions of a budget.

use vstd::prelude::*;
use crate::data_layer::ynab_api::response_models as rm;
use crate::data_layer::models::{
    AllSelectable, BindError, BindToStatement, DecodeError, IdSelectable, Insertable,
    IntoValue, Named, ReadFromStatement, Record, Statement, Updateable, ValueView, integer_in,
    lemma_value_of_at, named_views, opt_text_in, opt_value, row_of, text_in,
};
use crate::data_layer::text::{copy_opt_text, opt_text, same_opt_text, same_text};

verus! {

/// One transaction as the local mirror keeps it. Amounts are in milliunits.
#[derive(Debug)]
pub struct Transaction {
    pub id: String,
    pub budget_id: String,
    pub date: String,
    pub amount: i64,
    pub memo: Option<String>,
    pub account_id: String,
    pub payee_id: Option<String>,
    pub category_id: Option<String>,
    pub transfer_account_id: Option<String>,
    pub transfer_transaction_id: Option<String>,
    pub matched_transaction_id: Option<String>,
}

/// A transaction as a mathematical value.
pub struct TransactionView {
    pub id: Seq<char>,
    pub budget_id: Seq<char>,
    pub date: Seq<char>,
    pub amount: i64,
    pub memo: Option<Seq<char>>,
    pub account_id: Seq<char>,
    pub payee_id: Option<Seq<char>>,
    pub category_id: Option<Seq<char>>,
    pub transfer_account_id: Option<Seq<char>>,
    pub transfer_transaction_id: Option<Seq<char>>,
    pub matched_transaction_id: Option<Seq<char>>,
}

impl View for Transaction {
    type V = TransactionView;

    open spec fn view(&self) -> TransactionView {
        TransactionView {
            id: self.id@,
            budget_id: self.budget_id@,
            date: self.date@,
            amount: self.amount,
            memo: opt_text(self.memo),
            account_id: self.account_id@,
            payee_id: opt_text(self.payee_id),
            category_id: opt_text(self.category_id),
            transfer_account_id: opt_text(self.transfer_account_id),
            transfer_transaction_id: opt_text(self.transfer_transaction_id),
            matched_transaction_id: opt_text(self.matched_transaction_id),
        }
    }
}

impl Record for Transaction {
    open spec fn key(v: TransactionView) -> Seq<char> {
        v.id
    }

    fn id(&self) -> (id: &str) {
        self.id.as_str()
    }

    fn same(&self, other: &Self) -> (same: bool) {
        same_text(self.id.as_str(), other.id.as_str())
            && same_text(self.budget_id.as_str(), other.budget_id.as_str())
            && same_text(self.date.as_str(), other.date.as_str())
            && self.amount == other.amount
            && same_opt_text(&self.memo, &other.memo)
            && same_text(self.account_id.as_str(), other.account_id.as_str())
            && same_opt_text(&self.payee_id, &other.payee_id)
            && same_opt_text(&self.category_id, &other.category_id)
            && same_opt_text(&self.transfer_account_id, &other.transfer_account_id)
            && same_opt_text(&self.transfer_transaction_id, &other.transfer_transaction_id)
            && same_opt_text(&self.matched_transaction_id, &other.matched_transaction_id)
    }

    fn copy(&self) -> (copy: Self) {
        Transaction {
            id: self.id.clone(),
            budget_id: self.budget_id.clone(),
            date: self.date.clone(),
            amount: self.amount,
            memo: copy_opt_text(&self.memo),
            account_id: self.account_id.clone(),
            payee_id: copy_opt_text(&self.payee_id),
            category_id: copy_opt_text(&self.category_id),
            transfer_account_id: copy_opt_text(&self.transfer_account_id),
            transfer_transaction_id: copy_opt_text(&self.transfer_transaction_id),
            matched_transaction_id: copy_opt_text(&self.matched_transaction_id),
        }
    }
}

impl Clone for Transaction {
    fn clone(&self) -> (copy: Self)
        ensures
            copy@ == self@,
    {
        self.copy()
    }
}

impl PartialEq for Transaction {
    fn eq(&self, other: &Self) -> (same: bool) {
        self.same(other)
    }
}

impl Eq for Transaction {}

impl vstd::std_specs::cmp::PartialEqSpecImpl for Transaction {
    open spec fn obeys_eq_spec() -> bool {
        true
    }

    open spec fn eq_spec(&self, other: &Self) -> bool {
        self@ == other@
    }
}

/// Inserts one transaction.
pub const INSERT_TRANSACTION: &'static str =
    "INSERT INTO transactions (id, budget_id, date, amount, memo, account_id, payee_id, \
     category_id, transfer_account_id, transfer_transaction_id, matched_transaction_id) VALUES \
     (:id, :budget_id, :date, :amount, :memo, :account_id, :payee_id, :category_id, \
     :transfer_account_id, :transfer_transaction_id, :matched_transaction_id)";

/// Overwrites the transaction that has the given `id`.
pub const UPDATE_TRANSACTION: &'static str =
    "UPDATE transactions SET budget_id = :budget_id, date = :date, amount = :amount, memo = \
     :memo, account_id = :account_id, payee_id = :payee_id, category_id = :category_id, \
     transfer_account_id = :transfer_account_id, transfer_transaction_id = \
     :transfer_transaction_id, matched_transaction_id = :matched_transaction_id WHERE id = :id";

/// Selects the transaction that has the given `id`.
pub const SELECT_TRANSACTION_BY_ID: &'static str =
    "SELECT id, budget_id, date, amount, memo, account_id, payee_id, category_id, \
     transfer_account_id, transfer_transaction_id, matched_transaction_id FROM transactions \
     WHERE id = :id";

/// Selects every transaction.
pub const SELECT_ALL_TRANSACTION: &'static str =
    "SELECT id, budget_id, date, amount, memo, account_id, payee_id, category_id, \
     transfer_account_id, transfer_transaction_id, matched_transaction_id FROM transactions";

impl Insertable for Transaction {
    open spec fn insert_text() -> Seq<char> {
        INSERT_TRANSACTION@
    }

    fn query(&self) -> &'static str {
        INSERT_TRANSACTION
    }
}

impl Updateable for Transaction {
    open spec fn update_text() -> Seq<char> {
        UPDATE_TRANSACTION@
    }

    fn query(&self) -> &'static str {
        UPDATE_TRANSACTION
    }
}

impl IdSelectable for Transaction {
    open spec fn select_by_id_text() -> Seq<char> {
        SELECT_TRANSACTION_BY_ID@
    }

    fn query() -> &'static str {
        SELECT_TRANSACTION_BY_ID
    }
}

impl AllSelectable for Transaction {
    open spec fn select_all_text() -> Seq<char> {
        SELECT_ALL_TRANSACTION@
    }

    fn query() -> &'static str {
        SELECT_ALL_TRANSACTION
    }
}

impl BindToStatement for Transaction {
    open spec fn bindings(v: TransactionView) -> Seq<(Seq<char>, ValueView)> {
        seq![
            (":id"@, ValueView::String(v.id)),
            (":budget_id"@, ValueView::String(v.budget_id)),
            (":date"@, ValueView::String(v.date)),
            (":amount"@, ValueView::Integer(v.amount)),
            (":memo"@, opt_value(v.memo)),
            (":account_id"@, ValueView::String(v.account_id)),
            (":payee_id"@, opt_value(v.payee_id)),
            (":category_id"@, opt_value(v.category_id)),
            (":transfer_account_id"@, opt_value(v.transfer_account_id)),
            (":transfer_transaction_id"@, opt_value(v.transfer_transaction_id)),
            (":matched_transaction_id"@, opt_value(v.matched_transaction_id)),
        ]
    }

    fn bind(self, s: &mut Statement) -> (r: Result<(), BindError>) {
        let mut values: Vec<Named> = Vec::new();
        values.push((":id".to_owned(), self.id.into_value()));
        values.push((":budget_id".to_owned(), self.budget_id.into_value()));
        values.push((":date".to_owned(), self.date.into_value()));
        values.push((":amount".to_owned(), self.amount.into_value()));
        values.push((":memo".to_owned(), self.memo.into_value()));
        values.push((":account_id".to_owned(), self.account_id.into_value()));
        values.push((":payee_id".to_owned(), self.payee_id.into_value()));
        values.push((":category_id".to_owned(), self.category_id.into_value()));
        values.push((":transfer_account_id".to_owned(), self.transfer_account_id.into_value()));
        values.push(
            (":transfer_transaction_id".to_owned(), self.transfer_transaction_id.into_value()),
        );
        values.push(
            (":matched_transaction_id".to_owned(), self.matched_transaction_id.into_value()),
        );
        proof {
            assert(named_views(values@) =~= Self::bindings(self@));
        }
        s.bind_iter(values)
    }
}

impl ReadFromStatement for Transaction {
    open spec fn decoded(row: Seq<(Seq<char>, ValueView)>) -> Result<TransactionView, DecodeError> {
        let id = text_in(row, "id"@);
        let budget_id = text_in(row, "budget_id"@);
        let date = text_in(row, "date"@);
        let amount = integer_in(row, "amount"@);
        let memo = opt_text_in(row, "memo"@);
        let account_id = text_in(row, "account_id"@);
        let payee_id = opt_text_in(row, "payee_id"@);
        let category_id = opt_text_in(row, "category_id"@);
        let transfer_account_id = opt_text_in(row, "transfer_account_id"@);
        let transfer_transaction_id = opt_text_in(row, "transfer_transaction_id"@);
        let matched_transaction_id = opt_text_in(row, "matched_transaction_id"@);
        if id is Err {
            Err(id->Err_0)
        } else if budget_id is Err {
            Err(budget_id->Err_0)
        } else if date is Err {
            Err(date->Err_0)
        } else if amount is Err {
            Err(amount->Err_0)
        } else if memo is Err {
            Err(memo->Err_0)
        } else if account_id is Err {
            Err(account_id->Err_0)
        } else if payee_id is Err {
            Err(payee_id->Err_0)
        } else if category_id is Err {
            Err(category_id->Err_0)
        } else if transfer_account_id is Err {
            Err(transfer_account_id->Err_0)
        } else if transfer_transaction_id is Err {
            Err(transfer_transaction_id->Err_0)
        } else if matched_transaction_id is Err {
            Err(matched_transaction_id->Err_0)
        } else {
            Ok(
                TransactionView {
                    id: id->Ok_0,
                    budget_id: budget_id->Ok_0,
                    date: date->Ok_0,
                    amount: amount->Ok_0,
                    memo: memo->Ok_0,
                    account_id: account_id->Ok_0,
                    payee_id: payee_id->Ok_0,
                    category_id: category_id->Ok_0,
                    transfer_account_id: transfer_account_id->Ok_0,
                    transfer_transaction_id: transfer_transaction_id->Ok_0,
                    matched_transaction_id: matched_transaction_id->Ok_0,
                },
            )
        }
    }

    fn read(s: &Statement) -> (r: Result<Self, DecodeError>) {
        Ok(
            Transaction {
                id: s.read_text("id")?,
                budget_id: s.read_text("budget_id")?,
                date: s.read_text("date")?,
                amount: s.read_integer("amount")?,
                memo: s.read_opt_text("memo")?,
                account_id: s.read_text("account_id")?,
                payee_id: s.read_opt_text("payee_id")?,
                category_id: s.read_opt_text("category_id")?,
                transfer_account_id: s.read_opt_text("transfer_account_id")?,
                transfer_transaction_id: s.read_opt_text("transfer_transaction_id")?,
                matched_transaction_id: s.read_opt_text("matched_transaction_id")?,
            },
        )
    }
}

impl Transaction {
    /// The transaction that a detailed transaction of the budget `b_id` describes:
    /// field for field what the mirror keeps of it.
    pub fn from_detail(t: rm::TransactionDetail, b_id: &str) -> (converted: Self)
        ensures
            converted@ == (TransactionView {
                id: t.id@,
                budget_id: b_id@,
                date: t.date@,
                amount: t.amount,
                memo: opt_text(t.memo),
                account_id: t.account_id@,
                payee_id: opt_text(t.payee_id),
                category_id: opt_text(t.category_id),
                transfer_account_id: opt_text(t.transfer_account_id),
                transfer_transaction_id: opt_text(t.transfer_transaction_id),
                matched_transaction_id: opt_text(t.matched_transaction_id),
            }),
    {
        Self {
            id: t.id,
            budget_id: b_id.to_owned(),
            date: t.date,
            amount: t.amount,
            memo: t.memo,
            account_id: t.account_id,
            payee_id: t.payee_id,
            category_id: t.category_id,
            transfer_account_id: t.transfer_account_id,
            transfer_transaction_id: t.transfer_transaction_id,
            matched_transaction_id: t.matched_transaction_id,
        }
    }

    /// The transaction that a summarised transaction of the budget `b_id` describes:
    /// field for field what the mirror keeps of it.
    pub fn from_summary(t: rm::TransactionSummary, b_id: &str) -> (converted: Self)
        ensures
            converted@ == (TransactionView {
                id: t.id@,
                budget_id: b_id@,
                date: t.date@,
                amount: t.amount,
                memo: opt_text(t.memo),
                account_id: t.account_id@,
                payee_id: opt_text(t.payee_id),
                category_id: opt_text(t.category_id),
                transfer_account_id: opt_text(t.transfer_account_id),
                transfer_transaction_id: opt_text(t.transfer_transaction_id),
                matched_transaction_id: opt_text(t.matched_transaction_id),
            }),
    {
        Self {
            id: t.id,
            budget_id: b_id.to_owned(),
            date: t.date,
            amount: t.amount,
            memo: t.memo,
            account_id: t.account_id,
            payee_id: t.payee_id,
            category_id: t.category_id,
            transfer_account_id: t.transfer_account_id,
            transfer_transaction_id: t.transfer_transaction_id,
            matched_transaction_id: t.matched_transaction_id,
        }
    }
}

/// What a transaction binds, it reads back: the row made of its bindings decodes
/// to the transaction itself.
pub proof fn lemma_transaction_round_trip(v: TransactionView)
    ensures
        Transaction::decoded(row_of(Transaction::bindings(v))) == Ok::<TransactionView, DecodeError>(v),
{
    reveal_strlit(":id");
    reveal_strlit(":budget_id");
    reveal_strlit(":date");
    reveal_strlit(":amount");
    reveal_strlit(":memo");
    reveal_strlit(":account_id");
    reveal_strlit(":payee_id");
    reveal_strlit(":category_id");
    reveal_strlit(":transfer_account_id");
    reveal_strlit(":transfer_transaction_id");
    reveal_strlit(":matched_transaction_id");
    reveal_strlit("id");
    reveal_strlit("budget_id");
    reveal_strlit("date");
    reveal_strlit("amount");
    reveal_strlit("memo");
    reveal_strlit("account_id");
    reveal_strlit("payee_id");
    reveal_strlit("category_id");
    reveal_strlit("transfer_account_id");
    reveal_strlit("transfer_transaction_id");
    reveal_strlit("matched_transaction_id");
    let row = row_of(Transaction::bindings(v));
    assert(row[0].0 =~= "id"@);
    assert(row[1].0 =~= "budget_id"@);
    assert(row[2].0 =~= "date"@);
    assert(row[3].0 =~= "amount"@);
    assert(row[4].0 =~= "memo"@);
    assert(row[5].0 =~= "account_id"@);
    assert(row[6].0 =~= "payee_id"@);
    assert(row[7].0 =~= "category_id"@);
    assert(row[8].0 =~= "transfer_account_id"@);
    assert(row[9].0 =~= "transfer_transaction_id"@);
    assert(row[10].0 =~= "matched_transaction_id"@);
    lemma_value_of_at(row, 0);
    lemma_value_of_at(row, 1);
    lemma_value_of_at(row, 2);
    lemma_value_of_at(row, 3);
    assert("memo"@[0] != "date"@[0]);
    lemma_value_of_at(row, 4);
    lemma_value_of_at(row, 5);
    lemma_value_of_at(row, 6);
    lemma_value_of_at(row, 7);
    lemma_value_of_at(row, 8);
    lemma_value_of_at(row, 9);
    lemma_value_of_at(row, 10);
}

} // verus!
