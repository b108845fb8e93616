//! Category groups of a budget.

use vstd::prelude::*;
use crate::data_layer::ynab_api::response_models as rm;
use crate::data_layer::models::{
    AllSelectable, BindError, BindToStatement, DecodeError, IdSelectable, Insertable,
    IntoValue, Named, ReadFromStatement, Record, Statement, Updateable, ValueView, flag_in,
    lemma_value_of_at, named_views, row_of, text_in,
};
use crate::data_layer::text::same_text;

verus! {

/// One category group as the local mirror keeps it.
#[derive(Debug)]
pub struct CategoryGroup {
    pub id: String,
    pub name: String,
    pub hidden: bool,
}

/// A category group as a mathematical value.
pub struct CategoryGroupView {
    pub id: Seq<char>,
    pub name: Seq<char>,
    pub hidden: bool,
}

impl View for CategoryGroup {
    type V = CategoryGroupView;

    open spec fn view(&self) -> CategoryGroupView {
        CategoryGroupView {
            id: self.id@,
            name: self.name@,
            hidden: self.hidden,
        }
    }
}

impl Record for CategoryGroup {
    open spec fn key(v: CategoryGroupView) -> Seq<char> {
        v.id
    }

    fn id(&self) -> (id: &str) {
        self.id.as_str()
    }

    fn same(&self, other: &Self) -> (same: bool) {
        same_text(self.id.as_str(), other.id.as_str())
            && same_text(self.name.as_str(), other.name.as_str())
            && self.hidden == other.hidden
    }

    fn copy(&self) -> (copy: Self) {
        CategoryGroup {
            id: self.id.clone(),
            name: self.name.clone(),
            hidden: self.hidden,
        }
    }
}

impl Clone for CategoryGroup {
    fn clone(&self) -> (copy: Self)
        ensures
            copy@ == self@,
    {
        self.copy()
    }
}

impl PartialEq for CategoryGroup {
    fn eq(&self, other: &Self) -> (same: bool) {
        self.same(other)
    }
}

impl Eq for CategoryGroup {}

impl vstd::std_specs::cmp::PartialEqSpecImpl for CategoryGroup {
    open spec fn obeys_eq_spec() -> bool {
        true
    }

    open spec fn eq_spec(&self, other: &Self) -> bool {
        self@ == other@
    }
}

/// Inserts one category group.
pub const INSERT_CATEGORY_GROUP: &'static str =
    "INSERT INTO category_groups (id, name, hidden) VALUES (:id, :name, :hidden)";

/// Overwrites the category group that has the given `id`.
pub const UPDATE_CATEGORY_GROUP: &'static str =
    "UPDATE category_groups SET name = :name, hidden = :hidden WHERE id = :id";

/// Selects the category group that has the given `id`.
pub const SELECT_CATEGORY_GROUP_BY_ID: &'static str =
    "SELECT id, name, hidden FROM category_groups WHERE id = :id";

/// Selects every category group.
pub const SELECT_ALL_CATEGORY_GROUP: &'static str =
    "SELECT id, name, hidden FROM category_groups";

impl Insertable for CategoryGroup {
    open spec fn insert_text() -> Seq<char> {
        INSERT_CATEGORY_GROUP@
    }

    fn query(&self) -> &'static str {
        INSERT_CATEGORY_GROUP
    }
}

impl Updateable for CategoryGroup {
    open spec fn update_text() -> Seq<char> {
        UPDATE_CATEGORY_GROUP@
    }

    fn query(&self) -> &'static str {
        UPDATE_CATEGORY_GROUP
    }
}

impl IdSelectable for CategoryGroup {
    open spec fn select_by_id_text() -> Seq<char> {
        SELECT_CATEGORY_GROUP_BY_ID@
    }

    fn query() -> &'static str {
        SELECT_CATEGORY_GROUP_BY_ID
    }
}

impl AllSelectable for CategoryGroup {
    open spec fn select_all_text() -> Seq<char> {
        SELECT_ALL_CATEGORY_GROUP@
    }

    fn query() -> &'static str {
        SELECT_ALL_CATEGORY_GROUP
    }
}

impl BindToStatement for CategoryGroup {
    open spec fn bindings(v: CategoryGroupView) -> Seq<(Seq<char>, ValueView)> {
        seq![
            (":id"@, ValueView::String(v.id)),
            (":name"@, ValueView::String(v.name)),
            (":hidden"@, v.hidden.as_value()),
        ]
    }

    fn bind(self, s: &mut Statement) -> (r: Result<(), BindError>) {
        let mut values: Vec<Named> = Vec::new();
        values.push((":id".to_owned(), self.id.into_value()));
        values.push((":name".to_owned(), self.name.into_value()));
        values.push((":hidden".to_owned(), self.hidden.into_value()));
        proof {
            assert(named_views(values@) =~= Self::bindings(self@));
        }
        s.bind_iter(values)
    }
}

impl ReadFromStatement for CategoryGroup {
    open spec fn decoded(
        row: Seq<(Seq<char>, ValueView)>,
    ) -> Result<CategoryGroupView, DecodeError> {
        let id = text_in(row, "id"@);
        let name = text_in(row, "name"@);
        let hidden = flag_in(row, "hidden"@);
        if id is Err {
            Err(id->Err_0)
        } else if name is Err {
            Err(name->Err_0)
        } else if hidden is Err {
            Err(hidden->Err_0)
        } else {
            Ok(
                CategoryGroupView {
                    id: id->Ok_0,
                    name: name->Ok_0,
                    hidden: hidden->Ok_0,
                },
            )
        }
    }

    fn read(s: &Statement) -> (r: Result<Self, DecodeError>) {
        Ok(
            CategoryGroup {
                id: s.read_text("id")?,
                name: s.read_text("name")?,
                hidden: s.read_flag("hidden")?,
            },
        )
    }
}

/// The category group that a category group of the remote service
/// describes: field for field what the mirror keeps of it.
impl From<rm::CategoryGroup> for CategoryGroup {
    fn from(a: rm::CategoryGroup) -> (converted: Self) {
        Self {
            id: a.id,
            name: a.name,
            hidden: a.hidden,
        }
    }
}

impl vstd::std_specs::convert::FromSpecImpl<rm::CategoryGroup> for CategoryGroup {
    open spec fn obeys_from_spec() -> bool {
        true
    }

    open spec fn from_spec(a: rm::CategoryGroup) -> Self {
        Self {
            id: a.id,
            name: a.name,
            hidden: a.hidden,
        }
    }
}

/// What a category group binds, it reads back: the row made of its bindings decodes
/// to the category group itself.
pub proof fn lemma_category_group_round_trip(v: CategoryGroupView)
    ensures
        CategoryGroup::decoded(row_of(CategoryGroup::bindings(v))) == Ok::<CategoryGroupView, DecodeError>(v),
{
    reveal_strlit(":id");
    reveal_strlit(":name");
    reveal_strlit(":hidden");
    reveal_strlit("id");
    reveal_strlit("name");
    reveal_strlit("hidden");
    let row = row_of(CategoryGroup::bindings(v));
    assert(row[0].0 =~= "id"@);
    assert(row[1].0 =~= "name"@);
    assert(row[2].0 =~= "hidden"@);
    lemma_value_of_at(row, 0);
    lemma_value_of_at(row, 1);
    lemma_value_of_at(row, 2);
}

} // verus!
