//! Budgets of the remote service.

use vstd::prelude::*;
use crate::data_layer::ynab_api::response_models as rm;
use crate::data_layer::models::{
    AllSelectable, BindError, BindToStatement, DecodeError, IdSelectable, Insertable,
    IntoValue, Named, ReadFromStatement, Record, Statement, Updateable, ValueView,
    lemma_value_of_at, named_views, row_of, text_in,
};
use crate::data_layer::text::same_text;

verus! {

/// One budget as the local mirror keeps it.
#[derive(Debug)]
pub struct Budget {
    pub id: String,
    pub name: String,
    pub last_modified_on: String,
    pub first_month: String,
    pub last_month: String,
    pub date_format: String,
}

/// A budget as a mathematical value.
pub struct BudgetView {
    pub id: Seq<char>,
    pub name: Seq<char>,
    pub last_modified_on: Seq<char>,
    pub first_month: Seq<char>,
    pub last_month: Seq<char>,
    pub date_format: Seq<char>,
}

impl View for Budget {
    type V = BudgetView;

    open spec fn view(&self) -> BudgetView {
        BudgetView {
            id: self.id@,
            name: self.name@,
            last_modified_on: self.last_modified_on@,
            first_month: self.first_month@,
            last_month: self.last_month@,
            date_format: self.date_format@,
        }
    }
}

impl Record for Budget {
    open spec fn key(v: BudgetView) -> Seq<char> {
        v.id
    }

    fn id(&self) -> (id: &str) {
        self.id.as_str()
    }

    fn same(&self, other: &Self) -> (same: bool) {
        same_text(self.id.as_str(), other.id.as_str())
            && same_text(self.name.as_str(), other.name.as_str())
            && same_text(self.last_modified_on.as_str(), other.last_modified_on.as_str())
            && same_text(self.first_month.as_str(), other.first_month.as_str())
            && same_text(self.last_month.as_str(), other.last_month.as_str())
            && same_text(self.date_format.as_str(), other.date_format.as_str())
    }

    fn copy(&self) -> (copy: Self) {
        Budget {
            id: self.id.clone(),
            name: self.name.clone(),
            last_modified_on: self.last_modified_on.clone(),
            first_month: self.first_month.clone(),
            last_month: self.last_month.clone(),
            date_format: self.date_format.clone(),
        }
    }
}

impl Clone for Budget {
    fn clone(&self) -> (copy: Self)
        ensures
            copy@ == self@,
    {
        self.copy()
    }
}

impl PartialEq for Budget {
    fn eq(&self, other: &Self) -> (same: bool) {
        self.same(other)
    }
}

impl Eq for Budget {}

impl vstd::std_specs::cmp::PartialEqSpecImpl for Budget {
    open spec fn obeys_eq_spec() -> bool {
        true
    }

    open spec fn eq_spec(&self, other: &Self) -> bool {
        self@ == other@
    }
}

/// Inserts one budget.
pub const INSERT_BUDGET: &'static str =
    "INSERT INTO budgets (id, name, last_modified_on, first_month, last_month, date_format) \
     VALUES (:id, :name, :last_modified_on, :first_month, :last_month, :date_format)";

/// Overwrites the budget that has the given `id`.
pub const UPDATE_BUDGET: &'static str =
    "UPDATE budgets SET name = :name, last_modified_on = :last_modified_on, first_month = \
     :first_month, last_month = :last_month, date_format = :date_format WHERE id = :id";

/// Selects the budget that has the given `id`.
pub const SELECT_BUDGET_BY_ID: &'static str =
    "SELECT id, name, last_modified_on, first_month, last_month, date_format FROM budgets \
     WHERE id = :id";

/// Selects every budget.
pub const SELECT_ALL_BUDGET: &'static str =
    "SELECT id, name, last_modified_on, first_month, last_month, date_format FROM budgets";

impl Insertable for Budget {
    open spec fn insert_text() -> Seq<char> {
        INSERT_BUDGET@
    }

    fn query(&self) -> &'static str {
        INSERT_BUDGET
    }
}

impl Updateable for Budget {
    open spec fn update_text() -> Seq<char> {
        UPDATE_BUDGET@
    }

    fn query(&self) -> &'static str {
        UPDATE_BUDGET
    }
}

impl IdSelectable for Budget {
    open spec fn select_by_id_text() -> Seq<char> {
        SELECT_BUDGET_BY_ID@
    }

    fn query() -> &'static str {
        SELECT_BUDGET_BY_ID
    }
}

impl AllSelectable for Budget {
    open spec fn select_all_text() -> Seq<char> {
        SELECT_ALL_BUDGET@
    }

    fn query() -> &'static str {
        SELECT_ALL_BUDGET
    }
}

impl BindToStatement for Budget {
    open spec fn bindings(v: BudgetView) -> Seq<(Seq<char>, ValueView)> {
        seq![
            (":id"@, ValueView::String(v.id)),
            (":name"@, ValueView::String(v.name)),
            (":last_modified_on"@, ValueView::String(v.last_modified_on)),
            (":first_month"@, ValueView::String(v.first_month)),
            (":last_month"@, ValueView::String(v.last_month)),
            (":date_format"@, ValueView::String(v.date_format)),
        ]
    }

    fn bind(self, s: &mut Statement) -> (r: Result<(), BindError>) {
        let mut values: Vec<Named> = Vec::new();
        values.push((":id".to_owned(), self.id.into_value()));
        values.push((":name".to_owned(), self.name.into_value()));
        values.push((":last_modified_on".to_owned(), self.last_modified_on.into_value()));
        values.push((":first_month".to_owned(), self.first_month.into_value()));
        values.push((":last_month".to_owned(), self.last_month.into_value()));
        values.push((":date_format".to_owned(), self.date_format.into_value()));
        proof {
            assert(named_views(values@) =~= Self::bindings(self@));
        }
        s.bind_iter(values)
    }
}

impl ReadFromStatement for Budget {
    open spec fn decoded(row: Seq<(Seq<char>, ValueView)>) -> Result<BudgetView, DecodeError> {
        let id = text_in(row, "id"@);
        let name = text_in(row, "name"@);
        let last_modified_on = text_in(row, "last_modified_on"@);
        let first_month = text_in(row, "first_month"@);
        let last_month = text_in(row, "last_month"@);
        let date_format = text_in(row, "date_format"@);
        if id is Err {
            Err(id->Err_0)
        } else if name is Err {
            Err(name->Err_0)
        } else if last_modified_on is Err {
            Err(last_modified_on->Err_0)
        } else if first_month is Err {
            Err(first_month->Err_0)
        } else if last_month is Err {
            Err(last_month->Err_0)
        } else if date_format is Err {
            Err(date_format->Err_0)
        } else {
            Ok(
                BudgetView {
                    id: id->Ok_0,
                    name: name->Ok_0,
                    last_modified_on: last_modified_on->Ok_0,
                    first_month: first_month->Ok_0,
                    last_month: last_month->Ok_0,
                    date_format: date_format->Ok_0,
                },
            )
        }
    }

    fn read(s: &Statement) -> (r: Result<Self, DecodeError>) {
        Ok(
            Budget {
                id: s.read_text("id")?,
                name: s.read_text("name")?,
                last_modified_on: s.read_text("last_modified_on")?,
                first_month: s.read_text("first_month")?,
                last_month: s.read_text("last_month")?,
                date_format: s.read_text("date_format")?,
            },
        )
    }
}

/// The budget that a summary of the remote service describes.
impl From<rm::BudgetSummary> for Budget {
    fn from(a: rm::BudgetSummary) -> (converted: Self) {
        Self {
            id: a.id,
            name: a.name,
            last_modified_on: a.last_modified_on,
            first_month: a.first_month,
            last_month: a.last_month,
            date_format: a.date_format.format,
        }
    }
}

impl vstd::std_specs::convert::FromSpecImpl<rm::BudgetSummary> for Budget {
    open spec fn obeys_from_spec() -> bool {
        true
    }

    open spec fn from_spec(a: rm::BudgetSummary) -> Self {
        Self {
            id: a.id,
            name: a.name,
            last_modified_on: a.last_modified_on,
            first_month: a.first_month,
            last_month: a.last_month,
            date_format: a.date_format.format,
        }
    }
}

/// What a budget binds, it reads back: the row made of its bindings decodes
/// to the budget itself.
pub proof fn lemma_budget_round_trip(v: BudgetView)
    ensures
        Budget::decoded(row_of(Budget::bindings(v))) == Ok::<BudgetView, DecodeError>(v),
{
    reveal_strlit(":id");
    reveal_strlit(":name");
    reveal_strlit(":last_modified_on");
    reveal_strlit(":first_month");
    reveal_strlit(":last_month");
    reveal_strlit(":date_format");
    reveal_strlit("id");
    reveal_strlit("name");
    reveal_strlit("last_modified_on");
    reveal_strlit("first_month");
    reveal_strlit("last_month");
    reveal_strlit("date_format");
    let row = row_of(Budget::bindings(v));
    assert(row[0].0 =~= "id"@);
    assert(row[1].0 =~= "name"@);
    assert(row[2].0 =~= "last_modified_on"@);
    assert(row[3].0 =~= "first_month"@);
    assert(row[4].0 =~= "last_month"@);
    assert(row[5].0 =~= "date_format"@);
    lemma_value_of_at(row, 0);
    lemma_value_of_at(row, 1);
    lemma_value_of_at(row, 2);
    lemma_value_of_at(row, 3);
    lemma_value_of_at(row, 4);
    assert("date_format"@[0] != "first_month"@[0]);
    lemma_value_of_at(row, 5);
}

} // verus!
