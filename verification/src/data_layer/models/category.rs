//! Categories of a budget.

use vstd::prelude::*;
use crate::data_layer::ynab_api::response_models as rm;
use crate::data_layer::models::{
    AllSelectable, BindError, BindToStatement, DecodeError, IdSelectable, Insertable,
    IntoValue, Named, ReadFromStatement, Record, Statement, Updateable, ValueView, flag_in,
    integer_in, lemma_value_of_at, named_views, opt_text_in, opt_value, row_of, text_in,
};
use crate::data_layer::text::{copy_opt_text, opt_text, same_opt_text, same_text};

verus! {

/// One category as the local mirror keeps it. Amounts are in milliunits.
#[derive(Debug)]
pub struct Category {
    pub id: String,
    pub category_group_id: String,
    pub name: String,
    pub hidden: bool,
    pub original_category_group_id: Option<String>,
    pub note: Option<String>,
    pub budgeted: i64,
    pub activity: i64,
    pub balance: i64,
}

/// A category as a mathematical value.
pub struct CategoryView {
    pub id: Seq<char>,
    pub category_group_id: Seq<char>,
    pub name: Seq<char>,
    pub hidden: bool,
    pub original_category_group_id: Option<Seq<char>>,
    pub note: Option<Seq<char>>,
    pub budgeted: i64,
    pub activity: i64,
    pub balance: i64,
}

impl View for Category {
    type V = CategoryView;

    open spec fn view(&self) -> CategoryView {
        CategoryView {
            id: self.id@,
            category_group_id: self.category_group_id@,
            name: self.name@,
            hidden: self.hidden,
            original_category_group_id: opt_text(self.original_category_group_id),
            note: opt_text(self.note),
            budgeted: self.budgeted,
            activity: self.activity,
            balance: self.balance,
        }
    }
}

impl Record for Category {
    open spec fn key(v: CategoryView) -> Seq<char> {
        v.id
    }

    fn id(&self) -> (id: &str) {
        self.id.as_str()
    }

    fn same(&self, other: &Self) -> (same: bool) {
        same_text(self.id.as_str(), other.id.as_str())
            && same_text(self.category_group_id.as_str(), other.category_group_id.as_str())
            && same_text(self.name.as_str(), other.name.as_str())
            && self.hidden == other.hidden
            && same_opt_text(&self.original_category_group_id, &other.original_category_group_id)
            && same_opt_text(&self.note, &other.note)
            && self.budgeted == other.budgeted
            && self.activity == other.activity
            && self.balance == other.balance
    }

    fn copy(&self) -> (copy: Self) {
        Category {
            id: self.id.clone(),
            category_group_id: self.category_group_id.clone(),
            name: self.name.clone(),
            hidden: self.hidden,
            original_category_group_id: copy_opt_text(&self.original_category_group_id),
            note: copy_opt_text(&self.note),
            budgeted: self.budgeted,
            activity: self.activity,
            balance: self.balance,
        }
    }
}

impl Clone for Category {
    fn clone(&self) -> (copy: Self)
        ensures
            copy@ == self@,
    {
        self.copy()
    }
}

impl PartialEq for Category {
    fn eq(&self, other: &Self) -> (same: bool) {
        self.same(other)
    }
}

impl Eq for Category {}

impl vstd::std_specs::cmp::PartialEqSpecImpl for Category {
    open spec fn obeys_eq_spec() -> bool {
        true
    }

    open spec fn eq_spec(&self, other: &Self) -> bool {
        self@ == other@
    }
}

/// Inserts one category.
pub const INSERT_CATEGORY: &'static str =
    "INSERT INTO categories (id, category_group_id, name, hidden, original_category_group_id, \
     note, budgeted, activity, balance) VALUES (:id, :category_group_id, :name, :hidden, \
     :original_category_group_id, :note, :budgeted, :activity, :balance)";

/// Overwrites the category that has the given `id`.
pub const UPDATE_CATEGORY: &'static str =
    "UPDATE categories SET category_group_id = :category_group_id, name = :name, hidden = \
     :hidden, original_category_group_id = :original_category_group_id, note = :note, budgeted \
     = :budgeted, activity = :activity, balance = :balance WHERE id = :id";

/// Selects the category that has the given `id`.
pub const SELECT_CATEGORY_BY_ID: &'static str =
    "SELECT id, category_group_id, name, hidden, original_category_group_id, note, budgeted, \
     activity, balance FROM categories WHERE id = :id";

/// Selects every category.
pub const SELECT_ALL_CATEGORY: &'static str =
    "SELECT id, category_group_id, name, hidden, original_category_group_id, note, budgeted, \
     activity, balance FROM categories";

impl Insertable for Category {
    open spec fn insert_text() -> Seq<char> {
        INSERT_CATEGORY@
    }

    fn query(&self) -> &'static str {
        INSERT_CATEGORY
    }
}

impl Updateable for Category {
    open spec fn update_text() -> Seq<char> {
        UPDATE_CATEGORY@
    }

    fn query(&self) -> &'static str {
        UPDATE_CATEGORY
    }
}

impl IdSelectable for Category {
    open spec fn select_by_id_text() -> Seq<char> {
        SELECT_CATEGORY_BY_ID@
    }

    fn query() -> &'static str {
        SELECT_CATEGORY_BY_ID
    }
}

impl AllSelectable for Category {
    open spec fn select_all_text() -> Seq<char> {
        SELECT_ALL_CATEGORY@
    }

    fn query() -> &'static str {
        SELECT_ALL_CATEGORY
    }
}

impl BindToStatement for Category {
    open spec fn bindings(v: CategoryView) -> Seq<(Seq<char>, ValueView)> {
        seq![
            (":id"@, ValueView::String(v.id)),
            (":category_group_id"@, ValueView::String(v.category_group_id)),
            (":name"@, ValueView::String(v.name)),
            (":hidden"@, v.hidden.as_value()),
            (":original_category_group_id"@, opt_value(v.original_category_group_id)),
            (":note"@, opt_value(v.note)),
            (":budgeted"@, ValueView::Integer(v.budgeted)),
            (":activity"@, ValueView::Integer(v.activity)),
            (":balance"@, ValueView::Integer(v.balance)),
        ]
    }

    fn bind(self, s: &mut Statement) -> (r: Result<(), BindError>) {
        let mut values: Vec<Named> = Vec::new();
        values.push((":id".to_owned(), self.id.into_value()));
        values.push((":category_group_id".to_owned(), self.category_group_id.into_value()));
        values.push((":name".to_owned(), self.name.into_value()));
        values.push((":hidden".to_owned(), self.hidden.into_value()));
        values.push(
            (":original_category_group_id".to_owned(), self.original_category_group_id.into_value()),
        );
        values.push((":note".to_owned(), self.note.into_value()));
        values.push((":budgeted".to_owned(), self.budgeted.into_value()));
        values.push((":activity".to_owned(), self.activity.into_value()));
        values.push((":balance".to_owned(), self.balance.into_value()));
        proof {
            assert(named_views(values@) =~= Self::bindings(self@));
        }
        s.bind_iter(values)
    }
}

impl ReadFromStatement for Category {
    open spec fn decoded(row: Seq<(Seq<char>, ValueView)>) -> Result<CategoryView, DecodeError> {
        let id = text_in(row, "id"@);
        let category_group_id = text_in(row, "category_group_id"@);
        let name = text_in(row, "name"@);
        let hidden = flag_in(row, "hidden"@);
        let original_category_group_id = opt_text_in(row, "original_category_group_id"@);
        let note = opt_text_in(row, "note"@);
        let budgeted = integer_in(row, "budgeted"@);
        let activity = integer_in(row, "activity"@);
        let balance = integer_in(row, "balance"@);
        if id is Err {
            Err(id->Err_0)
        } else if category_group_id is Err {
            Err(category_group_id->Err_0)
        } else if name is Err {
            Err(name->Err_0)
        } else if hidden is Err {
            Err(hidden->Err_0)
        } else if original_category_group_id is Err {
            Err(original_category_group_id->Err_0)
        } else if note is Err {
            Err(note->Err_0)
        } else if budgeted is Err {
            Err(budgeted->Err_0)
        } else if activity is Err {
            Err(activity->Err_0)
        } else if balance is Err {
            Err(balance->Err_0)
        } else {
            Ok(
                CategoryView {
                    id: id->Ok_0,
                    category_group_id: category_group_id->Ok_0,
                    name: name->Ok_0,
                    hidden: hidden->Ok_0,
                    original_category_group_id: original_category_group_id->Ok_0,
                    note: note->Ok_0,
                    budgeted: budgeted->Ok_0,
                    activity: activity->Ok_0,
                    balance: balance->Ok_0,
                },
            )
        }
    }

    fn read(s: &Statement) -> (r: Result<Self, DecodeError>) {
        Ok(
            Category {
                id: s.read_text("id")?,
                category_group_id: s.read_text("category_group_id")?,
                name: s.read_text("name")?,
                hidden: s.read_flag("hidden")?,
                original_category_group_id: s.read_opt_text("original_category_group_id")?,
                note: s.read_opt_text("note")?,
                budgeted: s.read_integer("budgeted")?,
                activity: s.read_integer("activity")?,
                balance: s.read_integer("balance")?,
            },
        )
    }
}

/// The category that a category of the remote service describes: field for
/// field what the mirror keeps of it.
impl From<rm::Category> for Category {
    fn from(a: rm::Category) -> (converted: Self) {
        Self {
            id: a.id,
            category_group_id: a.category_group_id,
            name: a.name,
            hidden: a.hidden,
            original_category_group_id: a.original_category_group_id,
            note: a.note,
            budgeted: a.budgeted,
            activity: a.activity,
            balance: a.balance,
        }
    }
}

impl vstd::std_specs::convert::FromSpecImpl<rm::Category> for Category {
    open spec fn obeys_from_spec() -> bool {
        true
    }

    open spec fn from_spec(a: rm::Category) -> Self {
        Self {
            id: a.id,
            category_group_id: a.category_group_id,
            name: a.name,
            hidden: a.hidden,
            original_category_group_id: a.original_category_group_id,
            note: a.note,
            budgeted: a.budgeted,
            activity: a.activity,
            balance: a.balance,
        }
    }
}

/// What a category binds, it reads back: the row made of its bindings decodes
/// to the category itself.
pub proof fn lemma_category_round_trip(v: CategoryView)
    ensures
        Category::decoded(row_of(Category::bindings(v))) == Ok::<CategoryView, DecodeError>(v),
{
    reveal_strlit(":id");
    reveal_strlit(":category_group_id");
    reveal_strlit(":name");
    reveal_strlit(":hidden");
    reveal_strlit(":original_category_group_id");
    reveal_strlit(":note");
    reveal_strlit(":budgeted");
    reveal_strlit(":activity");
    reveal_strlit(":balance");
    reveal_strlit("id");
    reveal_strlit("category_group_id");
    reveal_strlit("name");
    reveal_strlit("hidden");
    reveal_strlit("original_category_group_id");
    reveal_strlit("note");
    reveal_strlit("budgeted");
    reveal_strlit("activity");
    reveal_strlit("balance");
    let row = row_of(Category::bindings(v));
    assert(row[0].0 =~= "id"@);
    assert(row[1].0 =~= "category_group_id"@);
    assert(row[2].0 =~= "name"@);
    assert(row[3].0 =~= "hidden"@);
    assert(row[4].0 =~= "original_category_group_id"@);
    assert(row[5].0 =~= "note"@);
    assert(row[6].0 =~= "budgeted"@);
    assert(row[7].0 =~= "activity"@);
    assert(row[8].0 =~= "balance"@);
    lemma_value_of_at(row, 0);
    lemma_value_of_at(row, 1);
    lemma_value_of_at(row, 2);
    lemma_value_of_at(row, 3);
    lemma_value_of_at(row, 4);
    assert("note"@[1] != "name"@[1]);
    lemma_value_of_at(row, 5);
    lemma_value_of_at(row, 6);
    assert("activity"@[0] != "budgeted"@[0]);
    lemma_value_of_at(row, 7);
    lemma_value_of_at(row, 8);
}

} // verus!
