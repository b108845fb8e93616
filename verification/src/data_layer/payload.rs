//! Reading the payloads of the remote service into records.
//!
//! A listing arrives as a JSON document: an object whose member `data` holds
//! the listing under its name. Each element is read on its own: one that
//! does not have the expected shape is left out, and counted.

use vstd::prelude::*;
use crate::data_layer::json::Json;
use crate::data_layer::models::account::{Account, AccountView};
use crate::data_layer::models::budget::{Budget, BudgetView};
use crate::data_layer::models::category::{Category, CategoryView};
use crate::data_layer::models::category_group::{CategoryGroup, CategoryGroupView};
use crate::data_layer::models::enums::AccountTypeString;
use crate::data_layer::models::transaction::{Transaction, TransactionView};
use crate::data_layer::models::{DecodeError, Record};

verus! {

/// A required string member.
pub open spec fn text_at(j: Json, key: Seq<char>) -> Result<Seq<char>, DecodeError> {
    match j.field(key) {
        None => Err(DecodeError::Missing),
        Some(Json::Text(s)) => Ok(s@),
        Some(_) => Err(DecodeError::WrongKind),
    }
}

/// An optional string member: a missing member and `null` read as absent.
pub open spec fn opt_text_at(j: Json, key: Seq<char>) -> Result<Option<Seq<char>>, DecodeError> {
    match j.field(key) {
        None => Ok(None),
        Some(Json::Null) => Ok(None),
        Some(Json::Text(s)) => Ok(Some(s@)),
        Some(_) => Err(DecodeError::WrongKind),
    }
}

/// A required integer member: a number that is an integer in the range of
/// `i64`.
pub open spec fn integer_at(j: Json, key: Seq<char>) -> Result<i64, DecodeError> {
    match j.field(key) {
        None => Err(DecodeError::Missing),
        Some(Json::Number(Some(i))) => Ok(i),
        Some(_) => Err(DecodeError::WrongKind),
    }
}

/// A required boolean member.
pub open spec fn flag_at(j: Json, key: Seq<char>) -> Result<bool, DecodeError> {
    match j.field(key) {
        None => Err(DecodeError::Missing),
        Some(Json::Bool(b)) => Ok(b),
        Some(_) => Err(DecodeError::WrongKind),
    }
}

/// A required account kind: a string member that names a kind.
pub open spec fn kind_at(j: Json, key: Seq<char>) -> Result<AccountTypeString, DecodeError> {
    match text_at(j, key) {
        Err(e) => Err(e),
        Ok(name) => match AccountTypeString::named(name) {
            Some(kind) => Ok(kind),
            None => Err(DecodeError::WrongKind),
        },
    }
}

/// A required string member of a required member.
pub open spec fn nested_text_at(
    j: Json,
    outer: Seq<char>,
    inner: Seq<char>,
) -> Result<Seq<char>, DecodeError> {
    match j.field(outer) {
        None => Err(DecodeError::Missing),
        Some(o) => text_at(o, inner),
    }
}

/// The listing called `name` in a document: the elements of the array
/// `data.<name>`.
pub open spec fn listing_at(doc: Json, name: Seq<char>) -> Result<Seq<Json>, DecodeError> {
    match doc.field("data"@) {
        None => Err(DecodeError::NoListing),
        Some(data) => match data.field(name) {
            Some(Json::Array(items)) => Ok(items@),
            _ => Err(DecodeError::NoListing),
        },
    }
}

/// Reads a required string member.
pub fn read_text(j: &Json, key: &str) -> (r: Result<String, DecodeError>)
    ensures
        match r {
            Ok(s) => text_at(*j, key@) == Ok::<Seq<char>, DecodeError>(s@),
            Err(e) => text_at(*j, key@) == Err::<Seq<char>, DecodeError>(e),
        },
{
    match j.get(key) {
        None => Err(DecodeError::Missing),
        Some(Json::Text(s)) => Ok(s.clone()),
        Some(_) => Err(DecodeError::WrongKind),
    }
}

/// Reads an optional string member.
pub fn read_opt_text(j: &Json, key: &str) -> (r: Result<Option<String>, DecodeError>)
    ensures
        match r {
            Ok(s) => opt_text_at(*j, key@) == Ok::<Option<Seq<char>>, DecodeError>(
                crate::data_layer::text::opt_text(s),
            ),
            Err(e) => opt_text_at(*j, key@) == Err::<Option<Seq<char>>, DecodeError>(e),
        },
{
    match j.get(key) {
        None => Ok(None),
        Some(Json::Null) => Ok(None),
        Some(Json::Text(s)) => Ok(Some(s.clone())),
        Some(_) => Err(DecodeError::WrongKind),
    }
}

/// Reads a required integer member.
pub fn read_integer(j: &Json, key: &str) -> (r: Result<i64, DecodeError>)
    ensures
        r == integer_at(*j, key@),
{
    match j.get(key) {
        None => Err(DecodeError::Missing),
        Some(Json::Number(Some(i))) => Ok(*i),
        Some(_) => Err(DecodeError::WrongKind),
    }
}

/// Reads a required boolean member.
pub fn read_flag(j: &Json, key: &str) -> (r: Result<bool, DecodeError>)
    ensures
        r == flag_at(*j, key@),
{
    match j.get(key) {
        None => Err(DecodeError::Missing),
        Some(Json::Bool(b)) => Ok(*b),
        Some(_) => Err(DecodeError::WrongKind),
    }
}

/// Reads a required account kind.
pub fn read_kind(j: &Json, key: &str) -> (r: Result<AccountTypeString, DecodeError>)
    ensures
        r == kind_at(*j, key@),
{
    match read_text(j, key) {
        Err(e) => Err(e),
        Ok(name) => match AccountTypeString::from_name(name.as_str()) {
            Some(kind) => Ok(kind),
            None => Err(DecodeError::WrongKind),
        },
    }
}

/// Reads a required string member of a required member.
pub fn read_nested_text(j: &Json, outer: &str, inner: &str) -> (r: Result<String, DecodeError>)
    ensures
        match r {
            Ok(s) => nested_text_at(*j, outer@, inner@) == Ok::<Seq<char>, DecodeError>(s@),
            Err(e) => nested_text_at(*j, outer@, inner@) == Err::<Seq<char>, DecodeError>(e),
        },
{
    match j.get(outer) {
        None => Err(DecodeError::Missing),
        Some(o) => read_text(o, inner),
    }
}

/// Finds the listing called `name` in a document.
pub fn listing<'a>(doc: &'a Json, name: &str) -> (r: Result<&'a Vec<Json>, DecodeError>)
    ensures
        match r {
            Ok(items) => listing_at(*doc, name@) == Ok::<Seq<Json>, DecodeError>(items@),
            Err(e) => e == DecodeError::NoListing && listing_at(*doc, name@) is Err,
        },
{
    match doc.get("data") {
        None => Err(DecodeError::NoListing),
        Some(data) => match data.get(name) {
            Some(Json::Array(items)) => Ok(items),
            _ => Err(DecodeError::NoListing),
        },
    }
}

/// A record that can be read from an element of a remote listing.
pub trait Remote: Record {
    /// The record that an element holds, or why it holds none: the error of
    /// the first member, in the order of the fields, that cannot be read.
    /// `scope` is the `id` of the budget that was listed.
    spec fn parsed(j: Json, scope: Seq<char>) -> Result<Self::V, DecodeError>;

    /// Reads one element of a listing.
    fn from_json(j: &Json, scope: &str) -> (r: Result<Self, DecodeError>)
        ensures
            match r {
                Ok(v) => Self::parsed(*j, scope@) == Ok::<Self::V, DecodeError>(v@),
                Err(e) => Self::parsed(*j, scope@) == Err::<Self::V, DecodeError>(e),
            },
    ;
}

/// A budget of the listing of budgets. The scope is not used: a budget
/// belongs to no other record.
impl Remote for Budget {
    open spec fn parsed(j: Json, scope: Seq<char>) -> Result<BudgetView, DecodeError> {
        let id = text_at(j, "id"@);
        let name = text_at(j, "name"@);
        let last_modified_on = text_at(j, "last_modified_on"@);
        let first_month = text_at(j, "first_month"@);
        let last_month = text_at(j, "last_month"@);
        let date_format = nested_text_at(j, "date_format"@, "format"@);
        if id is Err {
            Err(id->Err_0)
        } else if name is Err {
            Err(name->Err_0)
        } else if last_modified_on is Err {
            Err(last_modified_on->Err_0)
        } else if first_month is Err {
            Err(first_month->Err_0)
        } else if last_month is Err {
            Err(last_month->Err_0)
        } else if date_format is Err {
            Err(date_format->Err_0)
        } else {
            Ok(
                BudgetView {
                    id: id->Ok_0,
                    name: name->Ok_0,
                    last_modified_on: last_modified_on->Ok_0,
                    first_month: first_month->Ok_0,
                    last_month: last_month->Ok_0,
                    date_format: date_format->Ok_0,
                },
            )
        }
    }

    fn from_json(j: &Json, scope: &str) -> (r: Result<Self, DecodeError>) {
        Ok(
            Budget {
                id: read_text(j, "id")?,
                name: read_text(j, "name")?,
                last_modified_on: read_text(j, "last_modified_on")?,
                first_month: read_text(j, "first_month")?,
                last_month: read_text(j, "last_month")?,
                date_format: read_nested_text(j, "date_format", "format")?,
            },
        )
    }
}

/// A transaction of the listing of a budget. The scope, the `id` of that
/// budget, becomes its `budget_id`.
impl Remote for Transaction {
    open spec fn parsed(j: Json, scope: Seq<char>) -> Result<TransactionView, DecodeError> {
        let id = text_at(j, "id"@);
        let date = text_at(j, "date"@);
        let amount = integer_at(j, "amount"@);
        let memo = opt_text_at(j, "memo"@);
        let account_id = text_at(j, "account_id"@);
        let payee_id = opt_text_at(j, "payee_id"@);
        let category_id = opt_text_at(j, "category_id"@);
        let transfer_account_id = opt_text_at(j, "transfer_account_id"@);
        let transfer_transaction_id = opt_text_at(j, "transfer_transaction_id"@);
        let matched_transaction_id = opt_text_at(j, "matched_transaction_id"@);
        if id is Err {
            Err(id->Err_0)
        } else if date is Err {
            Err(date->Err_0)
        } else if amount is Err {
            Err(amount->Err_0)
        } else if memo is Err {
            Err(memo->Err_0)
        } else if account_id is Err {
            Err(account_id->Err_0)
        } else if payee_id is Err {
            Err(payee_id->Err_0)
        } else if category_id is Err {
            Err(category_id->Err_0)
        } else if transfer_account_id is Err {
            Err(transfer_account_id->Err_0)
        } else if transfer_transaction_id is Err {
            Err(transfer_transaction_id->Err_0)
        } else if matched_transaction_id is Err {
            Err(matched_transaction_id->Err_0)
        } else {
            Ok(
                TransactionView {
                    id: id->Ok_0,
                    budget_id: scope,
                    date: date->Ok_0,
                    amount: amount->Ok_0,
                    memo: memo->Ok_0,
                    account_id: account_id->Ok_0,
                    payee_id: payee_id->Ok_0,
                    category_id: category_id->Ok_0,
                    transfer_account_id: transfer_account_id->Ok_0,
                    transfer_transaction_id: transfer_transaction_id->Ok_0,
                    matched_transaction_id: matched_transaction_id->Ok_0,
                },
            )
        }
    }

    fn from_json(j: &Json, scope: &str) -> (r: Result<Self, DecodeError>) {
        Ok(
            Transaction {
                id: read_text(j, "id")?,
                budget_id: scope.to_owned(),
                date: read_text(j, "date")?,
                amount: read_integer(j, "amount")?,
                memo: read_opt_text(j, "memo")?,
                account_id: read_text(j, "account_id")?,
                payee_id: read_opt_text(j, "payee_id")?,
                category_id: read_opt_text(j, "category_id")?,
                transfer_account_id: read_opt_text(j, "transfer_account_id")?,
                transfer_transaction_id: read_opt_text(j, "transfer_transaction_id")?,
                matched_transaction_id: read_opt_text(j, "matched_transaction_id")?,
            },
        )
    }
}

/// An account of the listing of a budget. The scope is not used.
impl Remote for Account {
    open spec fn parsed(j: Json, scope: Seq<char>) -> Result<AccountView, DecodeError> {
        let id = text_at(j, "id"@);
        let name = text_at(j, "name"@);
        let account_type = kind_at(j, "type"@);
        let on_budget = flag_at(j, "on_budget"@);
        let closed = flag_at(j, "closed"@);
        let note = text_at(j, "note"@);
        let balance = integer_at(j, "balance"@);
        let cleared_balance = integer_at(j, "cleared_balance"@);
        let uncleared_balance = integer_at(j, "uncleared_balance"@);
        let transfer_payee_id = opt_text_at(j, "transfer_payee_id"@);
        let direct_import_linked = flag_at(j, "direct_import_linked"@);
        let direct_import_in_error = flag_at(j, "direct_import_in_error"@);
        if id is Err {
            Err(id->Err_0)
        } else if name is Err {
            Err(name->Err_0)
        } else if account_type is Err {
            Err(account_type->Err_0)
        } else if on_budget is Err {
            Err(on_budget->Err_0)
        } else if closed is Err {
            Err(closed->Err_0)
        } else if note is Err {
            Err(note->Err_0)
        } else if balance is Err {
            Err(balance->Err_0)
        } else if cleared_balance is Err {
            Err(cleared_balance->Err_0)
        } else if uncleared_balance is Err {
            Err(uncleared_balance->Err_0)
        } else if transfer_payee_id is Err {
            Err(transfer_payee_id->Err_0)
        } else if direct_import_linked is Err {
            Err(direct_import_linked->Err_0)
        } else if direct_import_in_error is Err {
            Err(direct_import_in_error->Err_0)
        } else {
            Ok(
                AccountView {
                    id: id->Ok_0,
                    name: name->Ok_0,
                    account_type: account_type->Ok_0,
                    on_budget: on_budget->Ok_0,
                    closed: closed->Ok_0,
                    note: note->Ok_0,
                    balance: balance->Ok_0,
                    cleared_balance: cleared_balance->Ok_0,
                    uncleared_balance: uncleared_balance->Ok_0,
                    transfer_payee_id: transfer_payee_id->Ok_0,
                    direct_import_linked: direct_import_linked->Ok_0,
                    direct_import_in_error: direct_import_in_error->Ok_0,
                },
            )
        }
    }

    fn from_json(j: &Json, scope: &str) -> (r: Result<Self, DecodeError>) {
        Ok(
            Account {
                id: read_text(j, "id")?,
                name: read_text(j, "name")?,
                account_type: read_kind(j, "type")?,
                on_budget: read_flag(j, "on_budget")?,
                closed: read_flag(j, "closed")?,
                note: read_text(j, "note")?,
                balance: read_integer(j, "balance")?,
                cleared_balance: read_integer(j, "cleared_balance")?,
                uncleared_balance: read_integer(j, "uncleared_balance")?,
                transfer_payee_id: read_opt_text(j, "transfer_payee_id")?,
                direct_import_linked: read_flag(j, "direct_import_linked")?,
                direct_import_in_error: read_flag(j, "direct_import_in_error")?,
            },
        )
    }
}

/// A category of the listing of a budget. The scope is not used.
impl Remote for Category {
    open spec fn parsed(j: Json, scope: Seq<char>) -> Result<CategoryView, DecodeError> {
        let id = text_at(j, "id"@);
        let category_group_id = text_at(j, "category_group_id"@);
        let name = text_at(j, "name"@);
        let hidden = flag_at(j, "hidden"@);
        let original_category_group_id = opt_text_at(j, "original_category_group_id"@);
        let note = opt_text_at(j, "note"@);
        let budgeted = integer_at(j, "budgeted"@);
        let activity = integer_at(j, "activity"@);
        let balance = integer_at(j, "balance"@);
        if id is Err {
            Err(id->Err_0)
        } else if category_group_id is Err {
            Err(category_group_id->Err_0)
        } else if name is Err {
            Err(name->Err_0)
        } else if hidden is Err {
            Err(hidden->Err_0)
        } else if original_category_group_id is Err {
            Err(original_category_group_id->Err_0)
        } else if note is Err {
            Err(note->Err_0)
        } else if budgeted is Err {
            Err(budgeted->Err_0)
        } else if activity is Err {
            Err(activity->Err_0)
        } else if balance is Err {
            Err(balance->Err_0)
        } else {
            Ok(
                CategoryView {
                    id: id->Ok_0,
                    category_group_id: category_group_id->Ok_0,
                    name: name->Ok_0,
                    hidden: hidden->Ok_0,
                    original_category_group_id: original_category_group_id->Ok_0,
                    note: note->Ok_0,
                    budgeted: budgeted->Ok_0,
                    activity: activity->Ok_0,
                    balance: balance->Ok_0,
                },
            )
        }
    }

    fn from_json(j: &Json, scope: &str) -> (r: Result<Self, DecodeError>) {
        Ok(
            Category {
                id: read_text(j, "id")?,
                category_group_id: read_text(j, "category_group_id")?,
                name: read_text(j, "name")?,
                hidden: read_flag(j, "hidden")?,
                original_category_group_id: read_opt_text(j, "original_category_group_id")?,
                note: read_opt_text(j, "note")?,
                budgeted: read_integer(j, "budgeted")?,
                activity: read_integer(j, "activity")?,
                balance: read_integer(j, "balance")?,
            },
        )
    }
}

/// A category group of the listing of a budget. The scope is not used.
impl Remote for CategoryGroup {
    open spec fn parsed(j: Json, scope: Seq<char>) -> Result<CategoryGroupView, DecodeError> {
        let id = text_at(j, "id"@);
        let name = text_at(j, "name"@);
        let hidden = flag_at(j, "hidden"@);
        if id is Err {
            Err(id->Err_0)
        } else if name is Err {
            Err(name->Err_0)
        } else if hidden is Err {
            Err(hidden->Err_0)
        } else {
            Ok(
                CategoryGroupView {
                    id: id->Ok_0,
                    name: name->Ok_0,
                    hidden: hidden->Ok_0,
                },
            )
        }
    }

    fn from_json(j: &Json, scope: &str) -> (r: Result<Self, DecodeError>) {
        Ok(
            CategoryGroup {
                id: read_text(j, "id")?,
                name: read_text(j, "name")?,
                hidden: read_flag(j, "hidden")?,
            },
        )
    }
}

/// The records among `items` that can be read, in their order.
pub open spec fn readable<T: Remote>(items: Seq<Json>, scope: Seq<char>) -> Seq<T::V>
    decreases items.len(),
{
    if items.len() == 0 {
        Seq::empty()
    } else {
        match T::parsed(items.last(), scope) {
            Ok(v) => readable::<T>(items.drop_last(), scope).push(v),
            Err(_) => readable::<T>(items.drop_last(), scope),
        }
    }
}

/// How many of `items` cannot be read.
pub open spec fn unreadable<T: Remote>(items: Seq<Json>, scope: Seq<char>) -> nat
    decreases items.len(),
{
    if items.len() == 0 {
        0
    } else {
        let here: nat = if T::parsed(items.last(), scope) is Err {
            1
        } else {
            0
        };
        unreadable::<T>(items.drop_last(), scope) + here
    }
}

/// Every element is either read or counted as unreadable.
pub proof fn lemma_readable_or_not<T: Remote>(items: Seq<Json>, scope: Seq<char>)
    ensures
        readable::<T>(items, scope).len() + unreadable::<T>(items, scope) == items.len(),
    decreases items.len(),
{
    if items.len() > 0 {
        lemma_readable_or_not::<T>(items.drop_last(), scope);
    }
}

/// Reads the elements of a listing: the records that have the expected
/// shape, in their order, and the number of elements that were left out.
pub fn decode_listing<T: Remote>(items: &Vec<Json>, scope: &str) -> (r: (Vec<T>, usize))
    ensures
        crate::data_layer::database::row_views::<T>(r.0@) == readable::<T>(items@, scope@),
        r.1 == unreadable::<T>(items@, scope@),
{
    let mut records: Vec<T> = Vec::new();
    let mut skipped: usize = 0;
    let mut i: usize = 0;
    proof {
        assert(crate::data_layer::database::row_views::<T>(records@) =~= readable::<T>(
            items@.take(0),
            scope@,
        ));
    }
    while i < items.len()
        invariant
            i <= items.len(),
            crate::data_layer::database::row_views::<T>(records@) == readable::<T>(
                items@.take(i as int),
                scope@,
            ),
            skipped == unreadable::<T>(items@.take(i as int), scope@),
            skipped <= i,
        decreases items.len() - i,
    {
        proof {
            let next = items@.take(i as int + 1);
            assert(next.drop_last() =~= items@.take(i as int));
            assert(next.last() == items@[i as int]);
        }
        match T::from_json(&items[i], scope) {
            Ok(record) => {
                let ghost before = crate::data_layer::database::row_views::<T>(records@);
                records.push(record);
                proof {
                    assert(crate::data_layer::database::row_views::<T>(records@) =~= before.push(
                        record@,
                    ));
                }
            },
            Err(_) => {
                skipped = skipped + 1;
            },
        }
        i += 1;
    }
    proof {
        assert(items@.take(items.len() as int) =~= items@);
    }
    (records, skipped)
}

} // verus!
