//! The local mirror: one table per entity type, each keyed by `id`.

pub mod filter;
pub mod filter_text;

use vstd::prelude::*;
use crate::data_layer::database::filter::{Condition, all_hold, condition_views, meets_all};
use crate::data_layer::models::Record;
use crate::data_layer::models::account::{Account, AccountView};
use crate::data_layer::models::budget::{Budget, BudgetView};
use crate::data_layer::models::category::{Category, CategoryView};
use crate::data_layer::models::category_group::{CategoryGroup, CategoryGroupView};
use crate::data_layer::models::transaction::{Transaction, TransactionView};
use crate::data_layer::text::same_text;

verus! {

/// Creates the tables of the mirror in a relational store, where they are
/// not there yet.
pub const CREATE_SCHEMA: &'static str =
    "CREATE TABLE IF NOT EXISTS budgets (id TEXT PRIMARY KEY NOT NULL, name TEXT NOT NULL, \
     last_modified_on TEXT NOT NULL, first_month TEXT NOT NULL, last_month TEXT NOT NULL, \
     date_format TEXT NOT NULL); CREATE TABLE IF NOT EXISTS accounts (id TEXT PRIMARY KEY NOT \
     NULL, name TEXT NOT NULL, account_type TEXT NOT NULL, on_budget INTEGER NOT NULL, closed \
     INTEGER NOT NULL, note TEXT NOT NULL, balance INTEGER NOT NULL, cleared_balance INTEGER \
     NOT NULL, uncleared_balance INTEGER NOT NULL, transfer_payee_id TEXT, \
     direct_import_linked INTEGER NOT NULL, direct_import_in_error INTEGER NOT NULL); CREATE \
     TABLE IF NOT EXISTS category_groups (id TEXT PRIMARY KEY NOT NULL, name TEXT NOT NULL, \
     hidden INTEGER NOT NULL); CREATE TABLE IF NOT EXISTS categories (id TEXT PRIMARY KEY NOT \
     NULL, category_group_id TEXT NOT NULL, name TEXT NOT NULL, hidden INTEGER NOT NULL, \
     original_category_group_id TEXT, note TEXT, budgeted INTEGER NOT NULL, activity INTEGER \
     NOT NULL, balance INTEGER NOT NULL); CREATE TABLE IF NOT EXISTS transactions (id TEXT \
     PRIMARY KEY NOT NULL, budget_id TEXT NOT NULL, date TEXT NOT NULL, amount INTEGER NOT \
     NULL, memo TEXT, account_id TEXT NOT NULL, payee_id TEXT, category_id TEXT, \
     transfer_account_id TEXT, transfer_transaction_id TEXT, matched_transaction_id TEXT);";

/// Drops the tables of the mirror from a relational store.
pub const DROP_SCHEMA: &'static str =
    "DROP TABLE IF EXISTS transactions; DROP TABLE IF EXISTS categories; DROP TABLE IF EXISTS \
     category_groups; DROP TABLE IF EXISTS accounts; DROP TABLE IF EXISTS budgets;";

/// Why a write to the mirror was refused.
#[derive(Debug, Clone, Copy, PartialEq, Eq, Structural)]
pub enum StorageError {
    /// A row with that `id` is there already.
    DuplicateId,
    /// No row has that `id`.
    NoSuchRow,
}

/// What reconciling one remote record does to the mirror.
#[derive(Debug, Clone, Copy, PartialEq, Eq, Structural)]
pub enum Transition {
    /// No row had the record's `id`: the record was inserted.
    Insert,
    /// The row with the record's `id` differed: it was overwritten.
    Update,
    /// The row with the record's `id` was equal: nothing was written.
    NoOp,
}

/// How many records of a listing took each transition.
#[derive(Debug, Clone, Copy, PartialEq, Eq, Structural)]
pub struct SyncReport {
    pub inserted: usize,
    pub updated: usize,
    pub unchanged: usize,
}

/// The rows of a list as mathematical values.
pub open spec fn row_views<T: Record>(rows: Seq<T>) -> Seq<T::V> {
    rows.map_values(|r: T| r@)
}

/// The place of the first row with the given `id`, if there is one.
pub open spec fn position<T: Record>(rows: Seq<T::V>, key: Seq<char>) -> Option<int>
    decreases rows.len(),
{
    if rows.len() == 0 {
        None
    } else if T::key(rows[0]) == key {
        Some(0)
    } else {
        match position::<T>(rows.drop_first(), key) {
            Some(i) => Some(i + 1),
            None => None,
        }
    }
}

/// The first row with the given `id`, if there is one.
pub open spec fn found<T: Record>(rows: Seq<T::V>, key: Seq<char>) -> Option<T::V> {
    match position::<T>(rows, key) {
        Some(i) => Some(rows[i]),
        None => None,
    }
}

/// No `id` occurs twice.
pub open spec fn distinct_keys<T: Record>(rows: Seq<T::V>) -> bool {
    forall|i: int, j: int|
        0 <= i < j < rows.len() ==> T::key(#[trigger] rows[i]) != T::key(#[trigger] rows[j])
}

/// The transition that reconciling `remote` takes on `rows`.
pub open spec fn transition<T: Record>(rows: Seq<T::V>, remote: T::V) -> Transition {
    match found::<T>(rows, T::key(remote)) {
        None => Transition::Insert,
        Some(existing) => if existing == remote {
            Transition::NoOp
        } else {
            Transition::Update
        },
    }
}

/// The rows after `remote` was reconciled: appended where its `id` is new,
/// else put in the place of the row with its `id`.
pub open spec fn upserted<T: Record>(rows: Seq<T::V>, remote: T::V) -> Seq<T::V> {
    match position::<T>(rows, T::key(remote)) {
        None => rows.push(remote),
        Some(i) => rows.update(i, remote),
    }
}

/// The rows after every record of `listing` was reconciled, in order.
pub open spec fn reconciled<T: Record>(rows: Seq<T::V>, listing: Seq<T::V>) -> Seq<T::V>
    decreases listing.len(),
{
    if listing.len() == 0 {
        rows
    } else {
        reconciled::<T>(upserted::<T>(rows, listing[0]), listing.drop_first())
    }
}

/// How many records of `listing` take the transition `t` when the listing is
/// reconciled, in order, starting from `rows`.
pub open spec fn transitions<T: Record>(rows: Seq<T::V>, listing: Seq<T::V>, t: Transition) -> nat
    decreases listing.len(),
{
    if listing.len() == 0 {
        0
    } else {
        let here: nat = if transition::<T>(rows, listing[0]) == t {
            1
        } else {
            0
        };
        here + transitions::<T>(upserted::<T>(rows, listing[0]), listing.drop_first(), t)
    }
}

/// The first row with an `id` is where no earlier row has that `id`.
pub proof fn lemma_position_at<T: Record>(rows: Seq<T::V>, key: Seq<char>, i: int)
    requires
        0 <= i < rows.len(),
        T::key(rows[i]) == key,
        forall|j: int| 0 <= j < i ==> T::key(#[trigger] rows[j]) != key,
    ensures
        position::<T>(rows, key) == Some(i),
    decreases i,
{
    if i > 0 {
        let rest = rows.drop_first();
        assert(rest[i - 1] == rows[i]);
        assert forall|j: int| 0 <= j < i - 1 implies T::key(#[trigger] rest[j]) != key by {
            assert(rest[j] == rows[j + 1]);
        }
        lemma_position_at::<T>(rest, key, i - 1);
    }
}

/// An `id` that no row has is not found; a found place holds the `id`, and
/// no earlier place does.
pub proof fn lemma_position_is_first<T: Record>(rows: Seq<T::V>, key: Seq<char>)
    ensures
        match position::<T>(rows, key) {
            Some(i) => 0 <= i < rows.len() && T::key(rows[i]) == key && forall|j: int|
                0 <= j < i ==> T::key(#[trigger] rows[j]) != key,
            None => forall|j: int| 0 <= j < rows.len() ==> T::key(#[trigger] rows[j]) != key,
        },
    decreases rows.len(),
{
    if rows.len() == 0 {
    } else if T::key(rows[0]) == key {
    } else {
        let rest = rows.drop_first();
        lemma_position_is_first::<T>(rest, key);
        match position::<T>(rest, key) {
            Some(i) => {
                assert(rest[i] == rows[i + 1]);
                assert forall|j: int| 0 <= j < i + 1 implies T::key(#[trigger] rows[j]) != key by {
                    if j > 0 {
                        assert(rest[j - 1] == rows[j]);
                    }
                }
            },
            None => {
                assert forall|j: int| 0 <= j < rows.len() implies T::key(#[trigger] rows[j])
                    != key by {
                    if j > 0 {
                        assert(rest[j - 1] == rows[j]);
                    }
                }
            },
        }
    }
}

/// Reconciling keeps every `id` at most once.
pub proof fn lemma_upserted_distinct<T: Record>(rows: Seq<T::V>, remote: T::V)
    requires
        distinct_keys::<T>(rows),
    ensures
        distinct_keys::<T>(upserted::<T>(rows, remote)),
{
    lemma_position_is_first::<T>(rows, T::key(remote));
    let after = upserted::<T>(rows, remote);
    assert forall|i: int, j: int| 0 <= i < j < after.len() implies T::key(#[trigger] after[i])
        != T::key(#[trigger] after[j]) by {
        match position::<T>(rows, T::key(remote)) {
            None => {
                assert(after[i] == rows[i]);
                if j < rows.len() {
                    assert(after[j] == rows[j]);
                }
            },
            Some(k) => {
                assert(T::key(after[i]) == T::key(rows[i]));
                assert(T::key(after[j]) == T::key(rows[j]));
            },
        }
    }
}

/// One table of the mirror: rows of one entity type, no `id` twice, in the
/// order in which they were inserted.
pub struct Table<T: Record> {
    rows: Vec<T>,
}

impl<T: Record> View for Table<T> {
    type V = Seq<T::V>;

    closed spec fn view(&self) -> Seq<T::V> {
        row_views::<T>(self.rows@)
    }
}

/// The place of the row with the given `id`.
fn place_of<T: Record>(rows: &Vec<T>, id: &str) -> (at: Option<usize>)
    ensures
        match at {
            Some(i) => position::<T>(row_views::<T>(rows@), id@) == Some(i as int) && i < rows.len(),
            None => position::<T>(row_views::<T>(rows@), id@) is None,
        },
{
    let ghost views = row_views::<T>(rows@);
    let mut i: usize = 0;
    while i < rows.len()
        invariant
            i <= rows.len(),
            views == row_views::<T>(rows@),
            forall|j: int| 0 <= j < i ==> T::key(#[trigger] views[j]) != id@,
        decreases rows.len() - i,
    {
        if same_text(rows[i].id(), id) {
            proof {
                lemma_position_at::<T>(views, id@, i as int);
            }
            return Some(i);
        }
        i += 1;
    }
    proof {
        lemma_position_is_first::<T>(views, id@);
    }
    None
}

impl<T: Record> Table<T> {
    #[verifier::type_invariant]
    spec fn keyed(self) -> bool {
        distinct_keys::<T>(row_views::<T>(self.rows@))
    }

    /// An empty table.
    pub fn new() -> (table: Table<T>)
        ensures
            table@ == Seq::<T::V>::empty(),
    {
        let table = Table { rows: Vec::new() };
        proof {
            assert(table@ =~= Seq::<T::V>::empty());
        }
        table
    }

    /// The number of rows. No `id` occurs twice among them.
    pub fn len(&self) -> (n: usize)
        ensures
            n == self@.len(),
            distinct_keys::<T>(self@),
    {
        proof {
            use_type_invariant(self);
        }
        self.rows.len()
    }

    /// The row with the given `id`; an absent row is `None`.
    pub fn select_by_id(&self, id: &str) -> (row: Option<T>)
        ensures
            match row {
                Some(r) => found::<T>(self@, id@) == Some(r@),
                None => found::<T>(self@, id@) is None,
            },
    {
        match place_of(&self.rows, id) {
            Some(i) => Some(self.rows[i].copy()),
            None => None,
        }
    }

    /// Every row, in the order of the table.
    pub fn select_all(&self) -> (rows: Vec<T>)
        ensures
            row_views::<T>(rows@) == self@,
    {
        let mut rows: Vec<T> = Vec::new();
        let mut i: usize = 0;
        while i < self.rows.len()
            invariant
                i <= self.rows.len(),
                rows@.len() == i,
                forall|k: int| 0 <= k < i ==> rows@[k]@ == self.rows@[k]@,
            decreases self.rows.len() - i,
        {
            rows.push(self.rows[i].copy());
            i += 1;
        }
        proof {
            assert(row_views::<T>(rows@) =~= row_views::<T>(self.rows@));
        }
        rows
    }

    /// Inserts a row. Refused, with the table unchanged, where a row has
    /// the same `id` already.
    pub fn insert(&mut self, value: T) -> (r: Result<(), StorageError>)
        ensures
            found::<T>(old(self)@, T::key(value@)) is None ==> r is Ok && final(self)@ == old(
                self,
            )@.push(value@),
            found::<T>(old(self)@, T::key(value@)) is Some ==> r == Err::<(), StorageError>(
                StorageError::DuplicateId,
            ) && final(self)@ == old(self)@,
    {
        proof {
            use_type_invariant(&*self);
            lemma_upserted_distinct::<T>(self@, value@);
        }
        match place_of(&self.rows, value.id()) {
            Some(_) => Err(StorageError::DuplicateId),
            None => {
                let mut rows: Vec<T> = Vec::new();
                std::mem::swap(&mut rows, &mut self.rows);
                rows.push(value);
                proof {
                    assert(row_views::<T>(rows@) =~= old(self)@.push(value@));
                }
                self.rows = rows;
                Ok(())
            },
        }
    }

    /// Overwrites the row that has the `id` of `value`. Refused, with the
    /// table unchanged, where no row has that `id`.
    pub fn update(&mut self, value: T) -> (r: Result<(), StorageError>)
        ensures
            match position::<T>(old(self)@, T::key(value@)) {
                Some(i) => r is Ok && final(self)@ == old(self)@.update(i, value@),
                None => r == Err::<(), StorageError>(StorageError::NoSuchRow) && final(self)@
                    == old(self)@,
            },
    {
        proof {
            use_type_invariant(&*self);
            lemma_upserted_distinct::<T>(self@, value@);
        }
        match place_of(&self.rows, value.id()) {
            None => Err(StorageError::NoSuchRow),
            Some(i) => {
                let mut rows: Vec<T> = Vec::new();
                std::mem::swap(&mut rows, &mut self.rows);
                rows.set(i, value);
                proof {
                    assert(row_views::<T>(rows@) =~= old(self)@.update(i as int, value@));
                }
                self.rows = rows;
                Ok(())
            },
        }
    }

    /// Removes every row.
    pub fn clear(&mut self)
        ensures
            final(self)@ == Seq::<T::V>::empty(),
    {
        self.rows = Vec::new();
        proof {
            assert(self@ =~= Seq::<T::V>::empty());
        }
    }

    /// Reconciles one remote record: inserts it where its `id` is new,
    /// overwrites the row with its `id` where that row differs, and writes
    /// nothing where the row is equal.
    pub fn reconcile_one(&mut self, remote: T) -> (t: Transition)
        ensures
            t == transition::<T>(old(self)@, remote@),
            final(self)@ == upserted::<T>(old(self)@, remote@),
    {
        proof {
            use_type_invariant(&*self);
            lemma_upserted_distinct::<T>(self@, remote@);
        }
        match place_of(&self.rows, remote.id()) {
            None => {
                let mut rows: Vec<T> = Vec::new();
                std::mem::swap(&mut rows, &mut self.rows);
                rows.push(remote);
                proof {
                    assert(row_views::<T>(rows@) =~= old(self)@.push(remote@));
                }
                self.rows = rows;
                Transition::Insert
            },
            Some(i) => {
                if self.rows[i].same(&remote) {
                    proof {
                        assert(old(self)@.update(i as int, remote@) =~= old(self)@);
                    }
                    Transition::NoOp
                } else {
                    let mut rows: Vec<T> = Vec::new();
                    std::mem::swap(&mut rows, &mut self.rows);
                    rows.set(i, remote);
                    proof {
                        assert(row_views::<T>(rows@) =~= old(self)@.update(i as int, remote@));
                    }
                    self.rows = rows;
                    Transition::Update
                }
            },
        }
    }

    /// Reconciles a listing of remote records, in order.
    pub fn reconcile(&mut self, listing: Vec<T>) -> (report: SyncReport)
        ensures
            final(self)@ == reconciled::<T>(old(self)@, row_views::<T>(listing@)),
            report.inserted == transitions::<T>(
                old(self)@,
                row_views::<T>(listing@),
                Transition::Insert,
            ),
            report.updated == transitions::<T>(
                old(self)@,
                row_views::<T>(listing@),
                Transition::Update,
            ),
            report.unchanged == transitions::<T>(
                old(self)@,
                row_views::<T>(listing@),
                Transition::NoOp,
            ),
            report.inserted + report.updated + report.unchanged == listing@.len(),
            final(self)@.len() == old(self)@.len() + report.inserted,
    {
        proof {
            lemma_reconciled_len::<T>(self@, row_views::<T>(listing@));
        }
        let ghost start = self@;
        let ghost all = row_views::<T>(listing@);
        let mut report = SyncReport { inserted: 0, updated: 0, unchanged: 0 };
        let n = listing.len();
        proof {
            assert(all.skip(0) =~= all);
            assert(all.len() == n);
        }
        for remote in it: listing
            invariant
                all == row_views::<T>(it.seq()),
                all.len() <= usize::MAX,
                report.inserted + report.updated + report.unchanged == it.index(),
                reconciled::<T>(start, all) == reconciled::<T>(self@, all.skip(it.index() as int)),
                transitions::<T>(start, all, Transition::Insert) == report.inserted
                    + transitions::<T>(self@, all.skip(it.index() as int), Transition::Insert),
                transitions::<T>(start, all, Transition::Update) == report.updated
                    + transitions::<T>(self@, all.skip(it.index() as int), Transition::Update),
                transitions::<T>(start, all, Transition::NoOp) == report.unchanged
                    + transitions::<T>(self@, all.skip(it.index() as int), Transition::NoOp),
        {
            let ghost i = it.index() as int;
            proof {
                assert(all.skip(i)[0] == remote@);
                assert(all.skip(i).drop_first() =~= all.skip(i + 1));
            }
            match self.reconcile_one(remote) {
                Transition::Insert => {
                    report.inserted = report.inserted + 1;
                },
                Transition::Update => {
                    report.updated = report.updated + 1;
                },
                Transition::NoOp => {
                    report.unchanged = report.unchanged + 1;
                },
            }
        }
        report
    }
}

/// The rows that `keep` holds of, in their order.
pub open spec fn chosen<V>(rows: Seq<V>, keep: spec_fn(V) -> bool) -> Seq<V>
    decreases rows.len(),
{
    if rows.len() == 0 {
        rows
    } else if keep(rows.last()) {
        chosen(rows.drop_last(), keep).push(rows.last())
    } else {
        chosen(rows.drop_last(), keep)
    }
}

/// The transactions of one budget, in their order.
pub open spec fn of_budget(
    rows: Seq<TransactionView>,
    budget_id: Seq<char>,
) -> Seq<TransactionView> {
    chosen(rows, |t: TransactionView| t.budget_id == budget_id)
}

/// The transactions of one budget that meet every condition of a filter, in
/// their order.
pub open spec fn of_budget_where(
    rows: Seq<TransactionView>,
    budget_id: Seq<char>,
    filter: Seq<filter::ConditionView>,
) -> Seq<TransactionView> {
    chosen(rows, |t: TransactionView| t.budget_id == budget_id && all_hold(filter, t))
}

/// The mirror as a mathematical value: the rows of each table, in order.
pub struct MirrorView {
    pub budgets: Seq<BudgetView>,
    pub accounts: Seq<AccountView>,
    pub category_groups: Seq<CategoryGroupView>,
    pub categories: Seq<CategoryView>,
    pub transactions: Seq<TransactionView>,
}

impl MirrorView {
    /// The mirror with no row in any table.
    pub open spec fn empty() -> MirrorView {
        MirrorView {
            budgets: Seq::empty(),
            accounts: Seq::empty(),
            category_groups: Seq::empty(),
            categories: Seq::empty(),
            transactions: Seq::empty(),
        }
    }
}

/// The local mirror: budgets, accounts, category groups, categories and
/// transactions, each in a table keyed by `id`.
pub struct QueryEngine {
    budgets: Table<Budget>,
    accounts: Table<Account>,
    category_groups: Table<CategoryGroup>,
    categories: Table<Category>,
    transactions: Table<Transaction>,
}

impl View for QueryEngine {
    type V = MirrorView;

    closed spec fn view(&self) -> MirrorView {
        MirrorView {
            budgets: self.budgets@,
            accounts: self.accounts@,
            category_groups: self.category_groups@,
            categories: self.categories@,
            transactions: self.transactions@,
        }
    }
}

impl QueryEngine {
    /// A mirror with every table empty.
    pub fn new() -> (engine: QueryEngine)
        ensures
            engine@ == MirrorView::empty(),
    {
        QueryEngine {
            budgets: Table::new(),
            accounts: Table::new(),
            category_groups: Table::new(),
            categories: Table::new(),
            transactions: Table::new(),
        }
    }

    /// The table of budgets.
    pub fn budgets(&self) -> (table: &Table<Budget>)
        ensures
            table@ == self@.budgets,
    {
        &self.budgets
    }

    /// The table of accounts.
    pub fn accounts(&self) -> (table: &Table<Account>)
        ensures
            table@ == self@.accounts,
    {
        &self.accounts
    }

    /// The table of category groups.
    pub fn category_groups(&self) -> (table: &Table<CategoryGroup>)
        ensures
            table@ == self@.category_groups,
    {
        &self.category_groups
    }

    /// The table of categories.
    pub fn categories(&self) -> (table: &Table<Category>)
        ensures
            table@ == self@.categories,
    {
        &self.categories
    }

    /// The table of transactions.
    pub fn transactions(&self) -> (table: &Table<Transaction>)
        ensures
            table@ == self@.transactions,
    {
        &self.transactions
    }

    /// How many rows each table holds: budgets, accounts, category groups,
    /// categories, transactions.
    pub fn row_counts(&self) -> (n: (usize, usize, usize, usize, usize))
        ensures
            n.0 == self@.budgets.len(),
            n.1 == self@.accounts.len(),
            n.2 == self@.category_groups.len(),
            n.3 == self@.categories.len(),
            n.4 == self@.transactions.len(),
    {
        (
            self.budgets.len(),
            self.accounts.len(),
            self.category_groups.len(),
            self.categories.len(),
            self.transactions.len(),
        )
    }

    /// The budget with the given `id`.
    pub fn get_budget(&self, budget_id: &str) -> (budget: Option<Budget>)
        ensures
            match budget {
                Some(b) => found::<Budget>(self@.budgets, budget_id@) == Some(b@),
                None => found::<Budget>(self@.budgets, budget_id@) is None,
            },
    {
        self.budgets.select_by_id(budget_id)
    }

    /// Every budget, in the order of the table.
    pub fn get_all_budgets(&self) -> (budgets: Vec<Budget>)
        ensures
            row_views::<Budget>(budgets@) == self@.budgets,
    {
        self.budgets.select_all()
    }

    /// Inserts a budget. Refused where a budget has the same `id` already.
    pub fn insert_budget(&mut self, budget: Budget) -> (r: Result<(), StorageError>)
        ensures
            found::<Budget>(old(self)@.budgets, budget@.id) is None ==> r is Ok && final(self)@
                == (MirrorView { budgets: old(self)@.budgets.push(budget@), ..old(self)@ }),
            found::<Budget>(old(self)@.budgets, budget@.id) is Some ==> r == Err::<
                (),
                StorageError,
            >(StorageError::DuplicateId) && final(self)@ == old(self)@,
    {
        self.budgets.insert(budget)
    }

    /// Overwrites the budget with the same `id`. Refused where there is none.
    pub fn update_budget(&mut self, budget: Budget) -> (r: Result<(), StorageError>)
        ensures
            match position::<Budget>(old(self)@.budgets, budget@.id) {
                Some(i) => r is Ok && final(self)@ == (MirrorView {
                    budgets: old(self)@.budgets.update(i, budget@),
                    ..old(self)@
                }),
                None => r == Err::<(), StorageError>(StorageError::NoSuchRow) && final(self)@
                    == old(self)@,
            },
    {
        self.budgets.update(budget)
    }

    /// The transaction with the given `id`.
    pub fn get_transaction(&self, transaction_id: &str) -> (transaction: Option<Transaction>)
        ensures
            match transaction {
                Some(t) => found::<Transaction>(self@.transactions, transaction_id@) == Some(t@),
                None => found::<Transaction>(self@.transactions, transaction_id@) is None,
            },
    {
        self.transactions.select_by_id(transaction_id)
    }

    /// Inserts a transaction. Refused where a transaction has the same `id`
    /// already.
    pub fn insert_transaction(&mut self, transaction: Transaction) -> (r: Result<(), StorageError>)
        ensures
            found::<Transaction>(old(self)@.transactions, transaction@.id) is None ==> r is Ok
                && final(self)@ == (MirrorView {
                transactions: old(self)@.transactions.push(transaction@),
                ..old(self)@
            }),
            found::<Transaction>(old(self)@.transactions, transaction@.id) is Some ==> r == Err::<
                (),
                StorageError,
            >(StorageError::DuplicateId) && final(self)@ == old(self)@,
    {
        self.transactions.insert(transaction)
    }

    /// Overwrites the transaction with the same `id`. Refused where there is
    /// none.
    pub fn update_transaction(&mut self, transaction: Transaction) -> (r: Result<(), StorageError>)
        ensures
            match position::<Transaction>(old(self)@.transactions, transaction@.id) {
                Some(i) => r is Ok && final(self)@ == (MirrorView {
                    transactions: old(self)@.transactions.update(i, transaction@),
                    ..old(self)@
                }),
                None => r == Err::<(), StorageError>(StorageError::NoSuchRow) && final(self)@
                    == old(self)@,
            },
    {
        self.transactions.update(transaction)
    }

    /// The transactions of one budget, in the order of the table.
    pub fn get_transactions(&self, budget_id: &str) -> (transactions: Vec<Transaction>)
        ensures
            row_views::<Transaction>(transactions@) == of_budget(self@.transactions, budget_id@),
    {
        let none: Vec<Condition> = Vec::new();
        let rows = self.transactions.select_where(budget_id, &none);
        proof {
            let plain = |t: TransactionView| t.budget_id == budget_id@;
            let filtered = |t: TransactionView|
                t.budget_id == budget_id@ && all_hold(condition_views(none@), t);
            assert forall|t: TransactionView| #[trigger] filtered(t) == plain(t) by {}
            lemma_chosen_same(self@.transactions, filtered, plain);
        }
        rows
    }

    /// The transactions of one budget that meet every condition of the
    /// filter, in the order of the table. An empty filter keeps them all.
    pub fn get_transactions_where(
        &self,
        budget_id: &str,
        filter: &Vec<Condition>,
    ) -> (transactions: Vec<Transaction>)
        ensures
            row_views::<Transaction>(transactions@) == of_budget_where(
                self@.transactions,
                budget_id@,
                condition_views(filter@),
            ),
    {
        self.transactions.select_where(budget_id, filter)
    }

    /// Empties every table: the rows of every entity type are gone.
    pub fn remigrate(&mut self)
        ensures
            final(self)@ == MirrorView::empty(),
    {
        self.budgets.clear();
        self.accounts.clear();
        self.category_groups.clear();
        self.categories.clear();
        self.transactions.clear();
    }

    /// Reconciles a listing of budgets.
    pub fn reconcile_budgets(&mut self, listing: Vec<Budget>) -> (report: SyncReport)
        ensures
            final(self)@ == (MirrorView {
                budgets: reconciled::<Budget>(old(self)@.budgets, row_views::<Budget>(listing@)),
                ..old(self)@
            }),
            report == report_of::<Budget>(old(self)@.budgets, row_views::<Budget>(listing@)),
            final(self)@.budgets.len() == old(self)@.budgets.len() + report.inserted,
    {
        self.budgets.reconcile(listing)
    }

    /// Reconciles a listing of accounts.
    pub fn reconcile_accounts(&mut self, listing: Vec<Account>) -> (report: SyncReport)
        ensures
            final(self)@ == (MirrorView {
                accounts: reconciled::<Account>(old(self)@.accounts, row_views::<Account>(listing@)),
                ..old(self)@
            }),
            report == report_of::<Account>(old(self)@.accounts, row_views::<Account>(listing@)),
            final(self)@.accounts.len() == old(self)@.accounts.len() + report.inserted,
    {
        self.accounts.reconcile(listing)
    }

    /// Reconciles a listing of category groups.
    pub fn reconcile_category_groups(&mut self, listing: Vec<CategoryGroup>) -> (report: SyncReport)
        ensures
            final(self)@ == (MirrorView {
                category_groups: reconciled::<CategoryGroup>(
                    old(self)@.category_groups,
                    row_views::<CategoryGroup>(listing@),
                ),
                ..old(self)@
            }),
            report == report_of::<CategoryGroup>(
                old(self)@.category_groups,
                row_views::<CategoryGroup>(listing@),
            ),
            final(self)@.category_groups.len() == old(self)@.category_groups.len() + report.inserted,
    {
        self.category_groups.reconcile(listing)
    }

    /// Reconciles a listing of categories.
    pub fn reconcile_categories(&mut self, listing: Vec<Category>) -> (report: SyncReport)
        ensures
            final(self)@ == (MirrorView {
                categories: reconciled::<Category>(
                    old(self)@.categories,
                    row_views::<Category>(listing@),
                ),
                ..old(self)@
            }),
            report == report_of::<Category>(old(self)@.categories, row_views::<Category>(listing@)),
            final(self)@.categories.len() == old(self)@.categories.len() + report.inserted,
    {
        self.categories.reconcile(listing)
    }

    /// Reconciles a listing of transactions.
    pub fn reconcile_transactions(&mut self, listing: Vec<Transaction>) -> (report: SyncReport)
        ensures
            final(self)@ == (MirrorView {
                transactions: reconciled::<Transaction>(
                    old(self)@.transactions,
                    row_views::<Transaction>(listing@),
                ),
                ..old(self)@
            }),
            report == report_of::<Transaction>(
                old(self)@.transactions,
                row_views::<Transaction>(listing@),
            ),
            final(self)@.transactions.len() == old(self)@.transactions.len() + report.inserted,
    {
        self.transactions.reconcile(listing)
    }
}

impl Table<Transaction> {
    /// The transactions of one budget that meet every condition of the
    /// filter, in the order of the table.
    pub fn select_where(&self, budget_id: &str, filter: &Vec<Condition>) -> (rows: Vec<Transaction>)
        ensures
            row_views::<Transaction>(rows@) == of_budget_where(
                self@,
                budget_id@,
                condition_views(filter@),
            ),
    {
        let ghost keep = |t: TransactionView|
            t.budget_id == budget_id@ && all_hold(condition_views(filter@), t);
        let ghost all = self@;
        let mut rows: Vec<Transaction> = Vec::new();
        let mut i: usize = 0;
        proof {
            assert(row_views::<Transaction>(rows@) =~= chosen(all.take(0), keep));
        }
        while i < self.rows.len()
            invariant
                i <= self.rows.len(),
                all == self@,
                all == row_views::<Transaction>(self.rows@),
                keep == |t: TransactionView|
                    t.budget_id == budget_id@ && all_hold(condition_views(filter@), t),
                row_views::<Transaction>(rows@) == chosen(all.take(i as int), keep),
            decreases self.rows.len() - i,
        {
            let t = &self.rows[i];
            proof {
                let next = all.take(i as int + 1);
                assert(next.drop_last() =~= all.take(i as int));
                assert(next.last() == t@);
            }
            if same_text(t.budget_id.as_str(), budget_id) && meets_all(filter, t) {
                let ghost before = row_views::<Transaction>(rows@);
                rows.push(t.copy());
                proof {
                    assert(row_views::<Transaction>(rows@) =~= before.push(t@));
                }
            }
            i += 1;
        }
        proof {
            assert(all.take(self.rows.len() as int) =~= all);
        }
        rows
    }
}

/// The report of reconciling `listing` into `rows`.
pub open spec fn report_of<T: Record>(rows: Seq<T::V>, listing: Seq<T::V>) -> SyncReport {
    SyncReport {
        inserted: transitions::<T>(rows, listing, Transition::Insert) as usize,
        updated: transitions::<T>(rows, listing, Transition::Update) as usize,
        unchanged: transitions::<T>(rows, listing, Transition::NoOp) as usize,
    }
}

/// Two tests that agree on every row choose the same rows.
pub proof fn lemma_chosen_same<V>(rows: Seq<V>, a: spec_fn(V) -> bool, b: spec_fn(V) -> bool)
    requires
        forall|v: V| #[trigger] a(v) == b(v),
    ensures
        chosen(rows, a) == chosen(rows, b),
    decreases rows.len(),
{
    if rows.len() > 0 {
        lemma_chosen_same(rows.drop_last(), a, b);
    }
}

/// Reconciling a listing adds one row for each insert, and no other.
pub proof fn lemma_reconciled_len<T: Record>(rows: Seq<T::V>, listing: Seq<T::V>)
    ensures
        reconciled::<T>(rows, listing).len() == rows.len() + transitions::<T>(
            rows,
            listing,
            Transition::Insert,
        ),
    decreases listing.len(),
{
    if listing.len() > 0 {
        lemma_position_is_first::<T>(rows, T::key(listing[0]));
        lemma_reconciled_len::<T>(upserted::<T>(rows, listing[0]), listing.drop_first());
    }
}

/// A record whose `id` no row has is inserted, once, and is then the row
/// with that `id`.
pub proof fn lemma_reconcile_inserts<T: Record>(rows: Seq<T::V>, remote: T::V)
    requires
        distinct_keys::<T>(rows),
        found::<T>(rows, T::key(remote)) is None,
    ensures
        transition::<T>(rows, remote) == Transition::Insert,
        transitions::<T>(rows, seq![remote], Transition::Insert) == 1,
        transitions::<T>(rows, seq![remote], Transition::Update) == 0,
        reconciled::<T>(rows, seq![remote]) == rows.push(remote),
        found::<T>(reconciled::<T>(rows, seq![remote]), T::key(remote)) == Some(remote),
{
    let listing = seq![remote];
    assert(listing.drop_first() =~= Seq::<T::V>::empty());
    reveal_with_fuel(transitions, 3);
    assert(reconciled::<T>(rows, listing) == reconciled::<T>(
        upserted::<T>(rows, remote),
        listing.drop_first(),
    ));
    lemma_position_is_first::<T>(rows, T::key(remote));
    let after = rows.push(remote);
    assert forall|j: int| 0 <= j < rows.len() implies T::key(#[trigger] after[j]) != T::key(
        remote,
    ) by {
        assert(after[j] == rows[j]);
    }
    lemma_position_at::<T>(after, T::key(remote), rows.len() as int);
}

/// A record that differs from the row with its `id` overwrites that row,
/// once, and nothing is inserted: the row with that `id` is then the record,
/// and every other row is as it was.
pub proof fn lemma_reconcile_updates<T: Record>(rows: Seq<T::V>, remote: T::V)
    requires
        distinct_keys::<T>(rows),
        found::<T>(rows, T::key(remote)) is Some,
        found::<T>(rows, T::key(remote)) != Some(remote),
    ensures
        transition::<T>(rows, remote) == Transition::Update,
        transitions::<T>(rows, seq![remote], Transition::Update) == 1,
        transitions::<T>(rows, seq![remote], Transition::Insert) == 0,
        reconciled::<T>(rows, seq![remote]).len() == rows.len(),
        found::<T>(reconciled::<T>(rows, seq![remote]), T::key(remote)) == Some(remote),
        forall|i: int|
            0 <= i < rows.len() && T::key(#[trigger] rows[i]) != T::key(remote) ==> reconciled::<T>(
                rows,
                seq![remote],
            )[i] == rows[i],
{
    let listing = seq![remote];
    assert(listing.drop_first() =~= Seq::<T::V>::empty());
    reveal_with_fuel(transitions, 3);
    assert(reconciled::<T>(rows, listing) == reconciled::<T>(
        upserted::<T>(rows, remote),
        listing.drop_first(),
    ));
    lemma_position_is_first::<T>(rows, T::key(remote));
    let at = position::<T>(rows, T::key(remote))->Some_0;
    let after = rows.update(at, remote);
    assert forall|j: int| 0 <= j < at implies T::key(#[trigger] after[j]) != T::key(remote) by {
        assert(after[j] == rows[j]);
    }
    lemma_position_at::<T>(after, T::key(remote), at);
}

/// A record that equals the row with its `id` writes nothing: the rows stay
/// as they are.
pub proof fn lemma_reconcile_is_noop<T: Record>(rows: Seq<T::V>, remote: T::V)
    requires
        found::<T>(rows, T::key(remote)) == Some(remote),
    ensures
        transition::<T>(rows, remote) == Transition::NoOp,
        transitions::<T>(rows, seq![remote], Transition::Insert) == 0,
        transitions::<T>(rows, seq![remote], Transition::Update) == 0,
        reconciled::<T>(rows, seq![remote]) == rows,
{
    let listing = seq![remote];
    assert(listing.drop_first() =~= Seq::<T::V>::empty());
    reveal_with_fuel(transitions, 3);
    assert(reconciled::<T>(rows, listing) == reconciled::<T>(
        upserted::<T>(rows, remote),
        listing.drop_first(),
    ));
    lemma_position_is_first::<T>(rows, T::key(remote));
    let at = position::<T>(rows, T::key(remote))->Some_0;
    assert(rows.update(at, remote) =~= rows);
}

/// A listing in which no `id` occurs twice, reconciled into rows that hold
/// none of its `id`s, is appended as it is: every record is an insert.
pub proof fn lemma_reconcile_appends<T: Record>(rows: Seq<T::V>, listing: Seq<T::V>)
    requires
        distinct_keys::<T>(listing),
        forall|i: int, j: int|
            0 <= i < rows.len() && 0 <= j < listing.len() ==> T::key(#[trigger] rows[i]) != T::key(
                #[trigger] listing[j],
            ),
    ensures
        reconciled::<T>(rows, listing) == rows + listing,
        transitions::<T>(rows, listing, Transition::Insert) == listing.len(),
        transitions::<T>(rows, listing, Transition::Update) == 0,
        transitions::<T>(rows, listing, Transition::NoOp) == 0,
    decreases listing.len(),
{
    if listing.len() == 0 {
        assert(rows + listing =~= rows);
    } else {
        let first = listing[0];
        let rest = listing.drop_first();
        lemma_position_is_first::<T>(rows, T::key(first));
        if position::<T>(rows, T::key(first)) is Some {
            let at = position::<T>(rows, T::key(first))->Some_0;
            assert(T::key(rows[at]) != T::key(listing[0]));
        }
        let next = rows.push(first);
        assert(upserted::<T>(rows, first) == next);
        assert forall|i: int, j: int| 0 <= i < j < rest.len() implies T::key(#[trigger] rest[i])
            != T::key(#[trigger] rest[j]) by {
            assert(rest[i] == listing[i + 1]);
            assert(rest[j] == listing[j + 1]);
        }
        assert forall|i: int, j: int| 0 <= i < next.len() && 0 <= j < rest.len() implies T::key(
            #[trigger] next[i],
        ) != T::key(#[trigger] rest[j]) by {
            assert(rest[j] == listing[j + 1]);
            if i < rows.len() {
                assert(next[i] == rows[i]);
            } else {
                assert(next[i] == listing[0]);
            }
        }
        lemma_reconcile_appends::<T>(next, rest);
        assert(next + rest =~= rows + listing);
    }
}

/// A reconciled record is the row with its `id`.
pub proof fn lemma_upserted_is_found<T: Record>(rows: Seq<T::V>, remote: T::V)
    ensures
        found::<T>(upserted::<T>(rows, remote), T::key(remote)) == Some(remote),
{
    let key = T::key(remote);
    lemma_position_is_first::<T>(rows, key);
    let after = upserted::<T>(rows, remote);
    match position::<T>(rows, key) {
        None => {
            assert forall|j: int| 0 <= j < rows.len() implies T::key(#[trigger] after[j]) != key by {
                assert(after[j] == rows[j]);
            }
            lemma_position_at::<T>(after, key, rows.len() as int);
        },
        Some(at) => {
            assert forall|j: int| 0 <= j < at implies T::key(#[trigger] after[j]) != key by {
                assert(after[j] == rows[j]);
            }
            lemma_position_at::<T>(after, key, at);
        },
    }
}

/// Reconciling a record leaves the rows with every other `id` as they are.
pub proof fn lemma_upserted_keeps_others<T: Record>(rows: Seq<T::V>, remote: T::V, key: Seq<char>)
    requires
        key != T::key(remote),
    ensures
        found::<T>(upserted::<T>(rows, remote), key) == found::<T>(rows, key),
{
    lemma_position_is_first::<T>(rows, T::key(remote));
    lemma_position_is_first::<T>(rows, key);
    let after = upserted::<T>(rows, remote);
    assert forall|j: int| 0 <= j < rows.len() implies (T::key(#[trigger] after[j]) == key) == (T::key(
        rows[j],
    ) == key) by {
        if after[j] != rows[j] {
            assert(after[j] == remote);
        }
    }
    match position::<T>(rows, key) {
        Some(at) => {
            assert(after[at] == rows[at]);
            lemma_position_at::<T>(after, key, at);
        },
        None => {
            lemma_position_is_first::<T>(after, key);
            if position::<T>(after, key) is Some {
                let at = position::<T>(after, key)->Some_0;
                if at < rows.len() {
                    assert(T::key(after[at]) == key);
                } else {
                    assert(after[at] == remote);
                }
            }
        },
    }
}

/// Reconciling a listing leaves the rows whose `id` the listing does not
/// hold as they are.
pub proof fn lemma_reconciled_keeps_others<T: Record>(
    rows: Seq<T::V>,
    listing: Seq<T::V>,
    key: Seq<char>,
)
    requires
        forall|j: int| 0 <= j < listing.len() ==> T::key(#[trigger] listing[j]) != key,
    ensures
        found::<T>(reconciled::<T>(rows, listing), key) == found::<T>(rows, key),
    decreases listing.len(),
{
    if listing.len() > 0 {
        let rest = listing.drop_first();
        assert forall|j: int| 0 <= j < rest.len() implies T::key(#[trigger] rest[j]) != key by {
            assert(rest[j] == listing[j + 1]);
        }
        lemma_upserted_keeps_others::<T>(rows, listing[0], key);
        lemma_reconciled_keeps_others::<T>(upserted::<T>(rows, listing[0]), rest, key);
    }
}

/// After a listing in which no `id` occurs twice was reconciled, every
/// record of it is the row with its `id`.
pub proof fn lemma_reconciled_holds_listing<T: Record>(rows: Seq<T::V>, listing: Seq<T::V>, j: int)
    requires
        distinct_keys::<T>(listing),
        0 <= j < listing.len(),
    ensures
        found::<T>(reconciled::<T>(rows, listing), T::key(listing[j])) == Some(listing[j]),
    decreases listing.len(),
{
    let rest = listing.drop_first();
    let next = upserted::<T>(rows, listing[0]);
    assert forall|a: int, b: int| 0 <= a < b < rest.len() implies T::key(#[trigger] rest[a])
        != T::key(#[trigger] rest[b]) by {
        assert(rest[a] == listing[a + 1]);
        assert(rest[b] == listing[b + 1]);
    }
    if j == 0 {
        lemma_upserted_is_found::<T>(rows, listing[0]);
        assert forall|b: int| 0 <= b < rest.len() implies T::key(#[trigger] rest[b]) != T::key(
            listing[0],
        ) by {
            assert(rest[b] == listing[b + 1]);
        }
        lemma_reconciled_keeps_others::<T>(next, rest, T::key(listing[0]));
    } else {
        assert(rest[j - 1] == listing[j]);
        lemma_reconciled_holds_listing::<T>(next, rest, j - 1);
    }
}

/// Where every record of a listing is the row with its `id`, reconciling the
/// listing writes nothing.
pub proof fn lemma_reconcile_present_is_noop<T: Record>(rows: Seq<T::V>, listing: Seq<T::V>)
    requires
        forall|j: int|
            0 <= j < listing.len() ==> found::<T>(rows, T::key(#[trigger] listing[j])) == Some(
                listing[j],
            ),
    ensures
        reconciled::<T>(rows, listing) == rows,
        transitions::<T>(rows, listing, Transition::Insert) == 0,
        transitions::<T>(rows, listing, Transition::Update) == 0,
        transitions::<T>(rows, listing, Transition::NoOp) == listing.len(),
    decreases listing.len(),
{
    if listing.len() > 0 {
        let rest = listing.drop_first();
        assert(found::<T>(rows, T::key(listing[0])) == Some(listing[0]));
        lemma_position_is_first::<T>(rows, T::key(listing[0]));
        let at = position::<T>(rows, T::key(listing[0]))->Some_0;
        assert(rows.update(at, listing[0]) =~= rows);
        assert forall|j: int| 0 <= j < rest.len() implies found::<T>(
            rows,
            T::key(#[trigger] rest[j]),
        ) == Some(rest[j]) by {
            assert(rest[j] == listing[j + 1]);
        }
        lemma_reconcile_present_is_noop::<T>(rows, rest);
    }
}

/// A sync pass is idempotent: a second pass over the same listing, in which
/// no `id` occurs twice, writes nothing and leaves the rows as the first
/// pass left them.
pub proof fn lemma_second_pass_is_noop<T: Record>(rows: Seq<T::V>, listing: Seq<T::V>)
    requires
        distinct_keys::<T>(listing),
    ensures
        ({
            let once = reconciled::<T>(rows, listing);
            &&& reconciled::<T>(once, listing) == once
            &&& transitions::<T>(once, listing, Transition::Insert) == 0
            &&& transitions::<T>(once, listing, Transition::Update) == 0
            &&& transitions::<T>(once, listing, Transition::NoOp) == listing.len()
        }),
{
    let once = reconciled::<T>(rows, listing);
    assert forall|j: int| 0 <= j < listing.len() implies found::<T>(
        once,
        T::key(#[trigger] listing[j]),
    ) == Some(listing[j]) by {
        lemma_reconciled_holds_listing::<T>(rows, listing, j);
    }
    lemma_reconcile_present_is_noop::<T>(once, listing);
}

/// A full resync is wipe-then-rebuild: reconciling a listing in which no
/// `id` occurs twice into an emptied table leaves exactly the records of the
/// listing, whatever the table held before it was emptied.
pub proof fn lemma_resync_rebuilds<T: Record>(listing: Seq<T::V>)
    requires
        distinct_keys::<T>(listing),
    ensures
        reconciled::<T>(Seq::<T::V>::empty(), listing) == listing,
        transitions::<T>(Seq::<T::V>::empty(), listing, Transition::Insert) == listing.len(),
{
    lemma_reconcile_appends::<T>(Seq::<T::V>::empty(), listing);
    assert(Seq::<T::V>::empty() + listing =~= listing);
}

} // verus!
