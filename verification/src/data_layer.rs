//! The data layer: response cache, row codec, local mirror and the gateway
//! that reconciles the mirror with what the remote service lists.

pub mod text;
pub mod json;
pub mod ynab_api;
pub mod models;
pub mod database;
pub mod payload;

use vstd::prelude::*;
use crate::data_layer::database::filter::{Condition, condition_views};
use crate::data_layer::database::{
    MirrorView, QueryEngine, SyncReport, of_budget, of_budget_where, reconciled, report_of,
    row_views,
};
use crate::data_layer::json::{Json, parsed_json};
use crate::data_layer::models::DecodeError;
use crate::data_layer::models::account::Account;
use crate::data_layer::models::budget::Budget;
use crate::data_layer::models::category::{Category, CategoryView};
use crate::data_layer::models::category_group::CategoryGroup;
use crate::data_layer::models::transaction::Transaction;
use crate::data_layer::payload::{decode_listing, listing, listing_at, readable, unreadable};
use crate::data_layer::ynab_api::{
    BUDGETS, CacheView, TransportError, YnabApi, accounts_endpoint, accounts_path,
    categories_endpoint, categories_path, fetched, transactions_endpoint, transactions_path,
};

pub use crate::data_layer::ynab_api::SyncError;

verus! {

/// What one pass over a listing did: how its records were reconciled, and
/// how many elements were left out because they could not be read.
#[derive(Debug, Clone, Copy, PartialEq, Eq, Structural)]
pub struct Pass {
    pub report: SyncReport,
    pub skipped: usize,
}

/// The categories that the category groups of a listing hold, as far as
/// they can be read, group by group.
pub open spec fn categories_in(groups: Seq<Json>, scope: Seq<char>) -> Seq<CategoryView>
    decreases groups.len(),
{
    if groups.len() == 0 {
        Seq::empty()
    } else {
        categories_in(groups.drop_last(), scope) + (match groups.last().field("categories"@) {
            Some(Json::Array(items)) => readable::<Category>(items@, scope),
            _ => Seq::empty(),
        })
    }
}

/// How many categories in the category groups of a listing cannot be read,
/// counted up to the largest `usize`.
pub open spec fn categories_skipped(groups: Seq<Json>, scope: Seq<char>) -> usize
    decreases groups.len(),
{
    if groups.len() == 0 {
        0
    } else {
        capped_sum(
            categories_skipped(groups.drop_last(), scope),
            match groups.last().field("categories"@) {
                Some(Json::Array(items)) => unreadable::<Category>(items@, scope) as usize,
                _ => 0,
            },
        )
    }
}

/// The sum of two counts, or the largest `usize` where the sum is larger.
pub open spec fn capped_sum(a: usize, b: usize) -> usize {
    if a + b <= usize::MAX {
        (a + b) as usize
    } else {
        usize::MAX
    }
}

/// The sum of two counts, or the largest `usize` where the sum is larger.
pub fn add_capped(a: usize, b: usize) -> (sum: usize)
    ensures
        sum == capped_sum(a, b),
{
    if a <= usize::MAX - b {
        a + b
    } else {
        usize::MAX
    }
}

/// The mirror after the budgets of a document were reconciled. A document
/// without the listing changes nothing.
pub open spec fn budgets_applied(mirror: MirrorView, doc: Json) -> MirrorView {
    match listing_at(doc, "budgets"@) {
        Ok(items) => MirrorView {
            budgets: reconciled::<Budget>(mirror.budgets, readable::<Budget>(items, Seq::empty())),
            ..mirror
        },
        Err(_) => mirror,
    }
}

/// What reconciling the budgets of a document reports.
pub open spec fn budgets_outcome(mirror: MirrorView, doc: Json) -> Result<Pass, DecodeError> {
    match listing_at(doc, "budgets"@) {
        Ok(items) => Ok(
            Pass {
                report: report_of::<Budget>(
                    mirror.budgets,
                    readable::<Budget>(items, Seq::empty()),
                ),
                skipped: unreadable::<Budget>(items, Seq::empty()) as usize,
            },
        ),
        Err(_) => Err(DecodeError::NoListing),
    }
}

/// The mirror after the accounts of a document were reconciled.
pub open spec fn accounts_applied(
    mirror: MirrorView,
    doc: Json,
    budget_id: Seq<char>,
) -> MirrorView {
    match listing_at(doc, "accounts"@) {
        Ok(items) => MirrorView {
            accounts: reconciled::<Account>(mirror.accounts, readable::<Account>(items, budget_id)),
            ..mirror
        },
        Err(_) => mirror,
    }
}

/// What reconciling the accounts of a document reports.
pub open spec fn accounts_outcome(
    mirror: MirrorView,
    doc: Json,
    budget_id: Seq<char>,
) -> Result<Pass, DecodeError> {
    match listing_at(doc, "accounts"@) {
        Ok(items) => Ok(
            Pass {
                report: report_of::<Account>(mirror.accounts, readable::<Account>(items, budget_id)),
                skipped: unreadable::<Account>(items, budget_id) as usize,
            },
        ),
        Err(_) => Err(DecodeError::NoListing),
    }
}

/// The mirror after the transactions of a document were reconciled as
/// transactions of the budget `budget_id`.
pub open spec fn transactions_applied(
    mirror: MirrorView,
    doc: Json,
    budget_id: Seq<char>,
) -> MirrorView {
    match listing_at(doc, "transactions"@) {
        Ok(items) => MirrorView {
            transactions: reconciled::<Transaction>(
                mirror.transactions,
                readable::<Transaction>(items, budget_id),
            ),
            ..mirror
        },
        Err(_) => mirror,
    }
}

/// What reconciling the transactions of a document reports.
pub open spec fn transactions_outcome(
    mirror: MirrorView,
    doc: Json,
    budget_id: Seq<char>,
) -> Result<Pass, DecodeError> {
    match listing_at(doc, "transactions"@) {
        Ok(items) => Ok(
            Pass {
                report: report_of::<Transaction>(
                    mirror.transactions,
                    readable::<Transaction>(items, budget_id),
                ),
                skipped: unreadable::<Transaction>(items, budget_id) as usize,
            },
        ),
        Err(_) => Err(DecodeError::NoListing),
    }
}

/// The mirror after the category groups of a document, and then the
/// categories that they hold, were reconciled.
pub open spec fn categories_applied(
    mirror: MirrorView,
    doc: Json,
    budget_id: Seq<char>,
) -> MirrorView {
    match listing_at(doc, "category_groups"@) {
        Ok(items) => MirrorView {
            category_groups: reconciled::<CategoryGroup>(
                mirror.category_groups,
                readable::<CategoryGroup>(items, budget_id),
            ),
            categories: reconciled::<Category>(mirror.categories, categories_in(items, budget_id)),
            ..mirror
        },
        Err(_) => mirror,
    }
}

/// What reconciling the category groups and the categories of a document
/// reports: first for the groups, then for the categories.
pub open spec fn categories_outcome(
    mirror: MirrorView,
    doc: Json,
    budget_id: Seq<char>,
) -> Result<(Pass, Pass), DecodeError> {
    match listing_at(doc, "category_groups"@) {
        Ok(items) => Ok(
            (
                Pass {
                    report: report_of::<CategoryGroup>(
                        mirror.category_groups,
                        readable::<CategoryGroup>(items, budget_id),
                    ),
                    skipped: unreadable::<CategoryGroup>(items, budget_id) as usize,
                },
                Pass {
                    report: report_of::<Category>(
                        mirror.categories,
                        categories_in(items, budget_id),
                    ),
                    skipped: categories_skipped(items, budget_id),
                },
            ),
        ),
        Err(_) => Err(DecodeError::NoListing),
    }
}

/// Reconciles the budgets that a document lists.
pub fn apply_budgets(engine: &mut QueryEngine, doc: &Json) -> (r: Result<Pass, DecodeError>)
    ensures
        final(engine)@ == budgets_applied(old(engine)@, *doc),
        r == budgets_outcome(old(engine)@, *doc),
        r matches Ok(pass) ==> final(engine)@.budgets.len() == old(engine)@.budgets.len()
            + pass.report.inserted,
{
    match listing(doc, "budgets") {
        Err(e) => Err(e),
        Ok(items) => {
            proof {
                crate::data_layer::payload::lemma_readable_or_not::<Budget>(items@, Seq::empty());
                reveal_strlit("");
                assert(""@ =~= Seq::<char>::empty());
            }
            let (records, skipped) = decode_listing::<Budget>(items, "");
            let report = engine.reconcile_budgets(records);
            Ok(Pass { report, skipped })
        },
    }
}

/// Reconciles the accounts that a document lists.
pub fn apply_accounts(
    engine: &mut QueryEngine,
    doc: &Json,
    budget_id: &str,
) -> (r: Result<Pass, DecodeError>)
    ensures
        final(engine)@ == accounts_applied(old(engine)@, *doc, budget_id@),
        r == accounts_outcome(old(engine)@, *doc, budget_id@),
        r matches Ok(pass) ==> final(engine)@.accounts.len() == old(engine)@.accounts.len()
            + pass.report.inserted,
{
    match listing(doc, "accounts") {
        Err(e) => Err(e),
        Ok(items) => {
            let (records, skipped) = decode_listing::<Account>(items, budget_id);
            let report = engine.reconcile_accounts(records);
            Ok(Pass { report, skipped })
        },
    }
}

/// Reconciles the transactions that a document lists for the budget
/// `budget_id`.
pub fn apply_transactions(
    engine: &mut QueryEngine,
    doc: &Json,
    budget_id: &str,
) -> (r: Result<Pass, DecodeError>)
    ensures
        final(engine)@ == transactions_applied(old(engine)@, *doc, budget_id@),
        r == transactions_outcome(old(engine)@, *doc, budget_id@),
        r matches Ok(pass) ==> final(engine)@.transactions.len() == old(
            engine,
        )@.transactions.len() + pass.report.inserted,
{
    match listing(doc, "transactions") {
        Err(e) => Err(e),
        Ok(items) => {
            let (records, skipped) = decode_listing::<Transaction>(items, budget_id);
            let report = engine.reconcile_transactions(records);
            Ok(Pass { report, skipped })
        },
    }
}

/// Reconciles the category groups that a document lists, and then the
/// categories that they hold.
pub fn apply_categories(
    engine: &mut QueryEngine,
    doc: &Json,
    budget_id: &str,
) -> (r: Result<(Pass, Pass), DecodeError>)
    ensures
        final(engine)@ == categories_applied(old(engine)@, *doc, budget_id@),
        r == categories_outcome(old(engine)@, *doc, budget_id@),
        r matches Ok(passes) ==> final(engine)@.category_groups.len() == old(
            engine,
        )@.category_groups.len() + passes.0.report.inserted && final(engine)@.categories.len()
            == old(engine)@.categories.len() + passes.1.report.inserted,
{
    match listing(doc, "category_groups") {
        Err(e) => Err(e),
        Ok(items) => {
            let (groups, groups_skipped) = decode_listing::<CategoryGroup>(items, budget_id);
            let mut categories: Vec<Category> = Vec::new();
            let mut skipped: usize = 0;
            let mut i: usize = 0;
            proof {
                assert(row_views::<Category>(categories@) =~= categories_in(
                    items@.take(0),
                    budget_id@,
                ));
            }
            while i < items.len()
                invariant
                    i <= items.len(),
                    row_views::<Category>(categories@) == categories_in(
                        items@.take(i as int),
                        budget_id@,
                    ),
                    skipped == categories_skipped(items@.take(i as int), budget_id@),
                decreases items.len() - i,
            {
                proof {
                    let next = items@.take(i as int + 1);
                    assert(next.drop_last() =~= items@.take(i as int));
                    assert(next.last() == items@[i as int]);
                }
                match items[i].get("categories") {
                    Some(Json::Array(held)) => {
                        let ghost before = row_views::<Category>(categories@);
                        let (mut more, left_out) = decode_listing::<Category>(held, budget_id);
                        let ghost added = row_views::<Category>(more@);
                        categories.append(&mut more);
                        proof {
                            assert(row_views::<Category>(categories@) =~= before + added);
                        }
                        skipped = add_capped(skipped, left_out);
                    },
                    _ => {
                        proof {
                            assert(row_views::<Category>(categories@) + Seq::<CategoryView>::empty()
                                =~= row_views::<Category>(categories@));
                        }
                        skipped = add_capped(skipped, 0);
                    },
                }
                i += 1;
            }
            proof {
                assert(items@.take(items.len() as int) =~= items@);
            }
            let groups_report = engine.reconcile_category_groups(groups);
            let report = engine.reconcile_categories(categories);
            Ok((Pass { report: groups_report, skipped: groups_skipped }, Pass { report, skipped }))
        },
    }
}

/// What becomes of the mirror, and what is reported, when the answer to a
/// request for the budgets comes in: a failed fetch and a payload that is not
/// JSON change nothing.
pub open spec fn budgets_taken(
    mirror: MirrorView,
    answer: Result<String, TransportError>,
) -> (MirrorView, Result<Pass, SyncError>) {
    match answer {
        Err(e) => (mirror, Err(SyncError::Transport(e))),
        Ok(payload) => match parsed_json(payload@) {
            None => (mirror, Err(SyncError::Decode(DecodeError::NotJson))),
            Some(doc) => (
                budgets_applied(mirror, doc),
                match budgets_outcome(mirror, doc) {
                    Ok(pass) => Ok(pass),
                    Err(e) => Err(SyncError::Decode(e)),
                },
            ),
        },
    }
}

/// What becomes of the mirror, and what is reported, when the answer to a
/// request for the accounts of a budget comes in.
pub open spec fn accounts_taken(
    mirror: MirrorView,
    budget_id: Seq<char>,
    answer: Result<String, TransportError>,
) -> (MirrorView, Result<Pass, SyncError>) {
    match answer {
        Err(e) => (mirror, Err(SyncError::Transport(e))),
        Ok(payload) => match parsed_json(payload@) {
            None => (mirror, Err(SyncError::Decode(DecodeError::NotJson))),
            Some(doc) => (
                accounts_applied(mirror, doc, budget_id),
                match accounts_outcome(mirror, doc, budget_id) {
                    Ok(pass) => Ok(pass),
                    Err(e) => Err(SyncError::Decode(e)),
                },
            ),
        },
    }
}

/// What becomes of the mirror, and what is reported, when the answer to a
/// request for the transactions of a budget comes in.
pub open spec fn transactions_taken(
    mirror: MirrorView,
    budget_id: Seq<char>,
    answer: Result<String, TransportError>,
) -> (MirrorView, Result<Pass, SyncError>) {
    match answer {
        Err(e) => (mirror, Err(SyncError::Transport(e))),
        Ok(payload) => match parsed_json(payload@) {
            None => (mirror, Err(SyncError::Decode(DecodeError::NotJson))),
            Some(doc) => (
                transactions_applied(mirror, doc, budget_id),
                match transactions_outcome(mirror, doc, budget_id) {
                    Ok(pass) => Ok(pass),
                    Err(e) => Err(SyncError::Decode(e)),
                },
            ),
        },
    }
}

/// What becomes of the mirror, and what is reported, when the answer to a
/// request for the categories of a budget comes in.
pub open spec fn categories_taken(
    mirror: MirrorView,
    budget_id: Seq<char>,
    answer: Result<String, TransportError>,
) -> (MirrorView, Result<(Pass, Pass), SyncError>) {
    match answer {
        Err(e) => (mirror, Err(SyncError::Transport(e))),
        Ok(payload) => match parsed_json(payload@) {
            None => (mirror, Err(SyncError::Decode(DecodeError::NotJson))),
            Some(doc) => (
                categories_applied(mirror, doc, budget_id),
                match categories_outcome(mirror, doc, budget_id) {
                    Ok(passes) => Ok(passes),
                    Err(e) => Err(SyncError::Decode(e)),
                },
            ),
        },
    }
}

/// The gateway as a mathematical value.
pub struct GatewayView {
    pub api: CacheView,
    pub engine: MirrorView,
}

/// What a full resync did, table by table.
#[derive(Debug, Clone, Copy, PartialEq, Eq, Structural)]
pub struct Refresh {
    pub budgets: Pass,
    pub accounts: Pass,
    pub category_groups: Pass,
    pub categories: Pass,
    pub transactions: Pass,
}

/// The sum of two passes; every count but the inserted rows is capped at
/// the largest `usize`.
pub open spec fn passes_sum(a: Pass, b: Pass) -> Pass {
    Pass {
        report: SyncReport {
            inserted: capped_sum(a.report.inserted, b.report.inserted),
            updated: capped_sum(a.report.updated, b.report.updated),
            unchanged: capped_sum(a.report.unchanged, b.report.unchanged),
        },
        skipped: capped_sum(a.skipped, b.skipped),
    }
}

/// The sum of two passes.
pub fn add_passes(a: Pass, b: Pass) -> (sum: Pass)
    ensures
        sum == passes_sum(a, b),
{
    Pass {
        report: SyncReport {
            inserted: add_capped(a.report.inserted, b.report.inserted),
            updated: add_capped(a.report.updated, b.report.updated),
            unchanged: add_capped(a.report.unchanged, b.report.unchanged),
        },
        skipped: add_capped(a.skipped, b.skipped),
    }
}

/// What [`DataGateway::load_budgets`] does: the cache answers a request for
/// the budgets, and the answer is taken.
pub open spec fn budgets_loaded<F>(
    before: GatewayView,
    after: GatewayView,
    fetch: &F,
    now: int,
    r: Result<Pass, SyncError>,
) -> bool
    where F: Fn(&str) -> Result<String, TransportError>
{
    exists|answer: Result<String, TransportError>|
        {
            &&& #[trigger] fetched(before.api, after.api, fetch, BUDGETS, answer, now)
            &&& budgets_taken(before.engine, answer) == (after.engine, r)
        }
}

/// What [`DataGateway::load_accounts`] does: the cache answers a request for
/// the accounts of the budget, and the answer is taken.
pub open spec fn accounts_loaded<F>(
    before: GatewayView,
    after: GatewayView,
    budget_id: Seq<char>,
    fetch: &F,
    now: int,
    r: Result<Pass, SyncError>,
) -> bool
    where F: Fn(&str) -> Result<String, TransportError>
{
    exists|answer: Result<String, TransportError>, endpoint: &str|
        {
            &&& #[trigger] fetched(before.api, after.api, fetch, endpoint, answer, now)
            &&& endpoint@ == accounts_path(budget_id)
            &&& accounts_taken(before.engine, budget_id, answer) == (after.engine, r)
        }
}

/// What [`DataGateway::load_categories`] does: the cache answers a request
/// for the categories of the budget, and the answer is taken.
pub open spec fn categories_loaded<F>(
    before: GatewayView,
    after: GatewayView,
    budget_id: Seq<char>,
    fetch: &F,
    now: int,
    r: Result<(Pass, Pass), SyncError>,
) -> bool
    where F: Fn(&str) -> Result<String, TransportError>
{
    exists|answer: Result<String, TransportError>, endpoint: &str|
        {
            &&& #[trigger] fetched(before.api, after.api, fetch, endpoint, answer, now)
            &&& endpoint@ == categories_path(budget_id)
            &&& categories_taken(before.engine, budget_id, answer) == (after.engine, r)
        }
}

/// What [`DataGateway::load_transactions`] does: the cache answers a request
/// for the transactions of the budget, and the answer is taken.
pub open spec fn transactions_loaded<F>(
    before: GatewayView,
    after: GatewayView,
    budget_id: Seq<char>,
    fetch: &F,
    now: int,
    r: Result<Pass, SyncError>,
) -> bool
    where F: Fn(&str) -> Result<String, TransportError>
{
    exists|answer: Result<String, TransportError>, endpoint: &str|
        {
            &&& #[trigger] fetched(before.api, after.api, fetch, endpoint, answer, now)
            &&& endpoint@ == transactions_path(budget_id, None)
            &&& transactions_taken(before.engine, budget_id, answer) == (after.engine, r)
        }
}

/// The pass that did nothing.
pub open spec fn nothing_done() -> Pass {
    Pass { report: SyncReport { inserted: 0, updated: 0, unchanged: 0 }, skipped: 0 }
}

/// What [`DataGateway::sync_budget`] does: the accounts, then the
/// categories, then the transactions of the budget are loaded, and the first
/// load that fails ends the sync with its error.
pub open spec fn budget_synced<F>(
    before: GatewayView,
    after: GatewayView,
    budget_id: Seq<char>,
    fetch: &F,
    now: int,
    r: Result<Refresh, SyncError>,
) -> bool
    where F: Fn(&str) -> Result<String, TransportError>
{
    exists|first: GatewayView, a: Result<Pass, SyncError>|
        {
            &&& #[trigger] accounts_loaded(before, first, budget_id, fetch, now, a)
            &&& match a {
                Err(e) => after == first && r == Err::<Refresh, SyncError>(e),
                Ok(accounts) => exists|second: GatewayView, c: Result<(Pass, Pass), SyncError>|
                    {
                        &&& #[trigger] categories_loaded(first, second, budget_id, fetch, now, c)
                        &&& match c {
                            Err(e) => after == second && r == Err::<Refresh, SyncError>(e),
                            Ok(held) => exists|t: Result<Pass, SyncError>|
                                {
                                    &&& #[trigger] transactions_loaded(
                                        second,
                                        after,
                                        budget_id,
                                        fetch,
                                        now,
                                        t,
                                    )
                                    &&& match t {
                                        Err(e) => r == Err::<Refresh, SyncError>(e),
                                        Ok(transactions) => r == Ok::<Refresh, SyncError>(
                                            Refresh {
                                                budgets: nothing_done(),
                                                accounts,
                                                category_groups: held.0,
                                                categories: held.1,
                                                transactions,
                                            },
                                        ),
                                    }
                                },
                        }
                    },
            }
        }
}

/// What was done so far, and what a sync of one more budget did, summed.
pub open spec fn refresh_sum(sofar: Refresh, owned: Refresh) -> Refresh {
    Refresh {
        budgets: sofar.budgets,
        accounts: passes_sum(sofar.accounts, owned.accounts),
        category_groups: passes_sum(sofar.category_groups, owned.category_groups),
        categories: passes_sum(sofar.categories, owned.categories),
        transactions: passes_sum(sofar.transactions, owned.transactions),
    }
}

/// What syncing the budgets with the given `id`s does, one after the other:
/// the first sync that fails ends the pass with its error, and what the
/// others did is summed onto `sofar`.
pub open spec fn budgets_synced<F>(
    before: GatewayView,
    after: GatewayView,
    ids: Seq<Seq<char>>,
    fetch: &F,
    now: int,
    sofar: Refresh,
    r: Result<Refresh, SyncError>,
) -> bool
    where F: Fn(&str) -> Result<String, TransportError>
    decreases ids.len(),
{
    if ids.len() == 0 {
        after == before && r == Ok::<Refresh, SyncError>(sofar)
    } else {
        exists|next: GatewayView, owned: Result<Refresh, SyncError>|
            {
                &&& #[trigger] budget_synced(before, next, ids[0], fetch, now, owned)
                &&& match owned {
                    Err(e) => after == next && r == Err::<Refresh, SyncError>(e),
                    Ok(o) => budgets_synced(
                        next,
                        after,
                        ids.drop_first(),
                        fetch,
                        now,
                        refresh_sum(sofar, o),
                        r,
                    ),
                }
            }
    }
}

/// The `id`s of budgets, in their order.
pub open spec fn budget_ids(budgets: Seq<crate::data_layer::models::budget::BudgetView>) -> Seq<
    Seq<char>,
> {
    budgets.map_values(|b: crate::data_layer::models::budget::BudgetView| b.id)
}

/// What [`DataGateway::refresh`] does. With a budget: what that budget owns
/// is synced. Without one: the budgets are loaded, and then the budgets that
/// the mirror holds are synced in their order.
pub open spec fn refreshed<F>(
    before: GatewayView,
    after: GatewayView,
    budget_id: Option<Seq<char>>,
    fetch: &F,
    now: int,
    r: Result<Refresh, SyncError>,
) -> bool
    where F: Fn(&str) -> Result<String, TransportError>
{
    match budget_id {
        Some(id) => budget_synced(before, after, id, fetch, now, r),
        None => exists|listed: GatewayView, b: Result<Pass, SyncError>|
            {
                &&& #[trigger] budgets_loaded(before, listed, fetch, now, b)
                &&& match b {
                    Err(e) => after == listed && r == Err::<Refresh, SyncError>(e),
                    Ok(budgets) => budgets_synced(
                        listed,
                        after,
                        budget_ids(listed.engine.budgets),
                        fetch,
                        now,
                        Refresh {
                            budgets,
                            accounts: nothing_done(),
                            category_groups: nothing_done(),
                            categories: nothing_done(),
                            transactions: nothing_done(),
                        },
                        r,
                    ),
                }
            },
    }
}

/// Whether each table grew by as many rows as `done` reports inserted.
pub open spec fn grown(before: MirrorView, after: MirrorView, done: Refresh) -> bool {
    &&& after.budgets.len() == before.budgets.len() + done.budgets.report.inserted
    &&& after.accounts.len() == before.accounts.len() + done.accounts.report.inserted
    &&& after.category_groups.len() == before.category_groups.len()
        + done.category_groups.report.inserted
    &&& after.categories.len() == before.categories.len() + done.categories.report.inserted
    &&& after.transactions.len() == before.transactions.len() + done.transactions.report.inserted
}

/// Whether every row of the mirror was inserted in the resync that `done`
/// reports: the mirror was rebuilt, nothing in it is older.
pub open spec fn rebuilt(mirror: MirrorView, done: Refresh) -> bool {
    &&& mirror.budgets.len() == done.budgets.report.inserted
    &&& mirror.accounts.len() == done.accounts.report.inserted
    &&& mirror.category_groups.len() == done.category_groups.report.inserted
    &&& mirror.categories.len() == done.categories.report.inserted
    &&& mirror.transactions.len() == done.transactions.report.inserted
}

/// A pass that did nothing.
pub fn no_pass() -> (pass: Pass)
    ensures
        pass == (Pass {
            report: SyncReport { inserted: 0, updated: 0, unchanged: 0 },
            skipped: 0,
        }),
{
    Pass { report: SyncReport { inserted: 0, updated: 0, unchanged: 0 }, skipped: 0 }
}

/// The gateway: the one place that knows both what the remote service says
/// and what the mirror holds.
pub struct DataGateway {
    api: YnabApi,
    engine: QueryEngine,
}

impl View for DataGateway {
    type V = GatewayView;

    closed spec fn view(&self) -> GatewayView {
        GatewayView { api: self.api@, engine: self.engine@ }
    }
}

impl DataGateway {
    /// A gateway over a cache and a mirror.
    pub fn new(api: YnabApi, engine: QueryEngine) -> (gateway: DataGateway)
        ensures
            gateway@.api == api@,
            gateway@.engine == engine@,
    {
        DataGateway { api, engine }
    }

    /// The cache.
    pub fn api(&self) -> (api: &YnabApi)
        ensures
            api@ == self@.api,
    {
        &self.api
    }

    /// The mirror.
    pub fn engine(&self) -> (engine: &QueryEngine)
        ensures
            engine@ == self@.engine,
    {
        &self.engine
    }

    /// Switches forced refreshing of the cache on or off.
    pub fn set_force_refresh(&mut self, on: bool)
        ensures
            final(self)@.engine == old(self)@.engine,
            final(self)@.api == (CacheView { force_refresh: on, ..old(self)@.api }),
    {
        self.api.set_force_refresh(on);
    }

    /// Every budget of the mirror.
    pub fn get_budgets(&self) -> (budgets: Vec<Budget>)
        ensures
            row_views::<Budget>(budgets@) == self@.engine.budgets,
    {
        self.engine.get_all_budgets()
    }

    /// The transactions of one budget.
    pub fn get_transactions(&self, budget_id: &str) -> (transactions: Vec<Transaction>)
        ensures
            row_views::<Transaction>(transactions@) == of_budget(
                self@.engine.transactions,
                budget_id@,
            ),
    {
        self.engine.get_transactions(budget_id)
    }

    /// The transactions of one budget that meet every condition of the
    /// filter. An empty filter keeps them all.
    pub fn get_transactions_where(
        &self,
        budget_id: &str,
        query: &Vec<Condition>,
    ) -> (transactions: Vec<Transaction>)
        ensures
            row_views::<Transaction>(transactions@) == of_budget_where(
                self@.engine.transactions,
                budget_id@,
                condition_views(query@),
            ),
    {
        self.engine.get_transactions_where(budget_id, query)
    }

    /// Takes the answer to a request for the budgets and reconciles them.
    pub fn take_budgets(
        &mut self,
        answer: Result<String, TransportError>,
    ) -> (r: Result<Pass, SyncError>)
        ensures
            final(self)@.api == old(self)@.api,
            (final(self)@.engine, r) == budgets_taken(old(self)@.engine, answer),
            r matches Ok(pass) ==> final(self)@.engine.budgets.len() == old(self)@.engine.budgets.len()
                + pass.report.inserted,
            final(self)@.engine == (MirrorView {
                budgets: final(self)@.engine.budgets,
                ..old(self)@.engine
            }),
    {
        match answer {
            Err(e) => Err(SyncError::Transport(e)),
            Ok(payload) => match Json::parse(payload.as_str()) {
                None => Err(SyncError::Decode(DecodeError::NotJson)),
                Some(doc) => match apply_budgets(&mut self.engine, &doc) {
                    Ok(pass) => Ok(pass),
                    Err(e) => Err(SyncError::Decode(e)),
                },
            },
        }
    }

    /// Takes the answer to a request for the accounts of a budget and
    /// reconciles them.
    pub fn take_accounts(
        &mut self,
        budget_id: &str,
        answer: Result<String, TransportError>,
    ) -> (r: Result<Pass, SyncError>)
        ensures
            final(self)@.api == old(self)@.api,
            (final(self)@.engine, r) == accounts_taken(old(self)@.engine, budget_id@, answer),
            r matches Ok(pass) ==> final(self)@.engine.accounts.len() == old(
                self,
            )@.engine.accounts.len() + pass.report.inserted,
            final(self)@.engine == (MirrorView {
                accounts: final(self)@.engine.accounts,
                ..old(self)@.engine
            }),
    {
        match answer {
            Err(e) => Err(SyncError::Transport(e)),
            Ok(payload) => match Json::parse(payload.as_str()) {
                None => Err(SyncError::Decode(DecodeError::NotJson)),
                Some(doc) => match apply_accounts(&mut self.engine, &doc, budget_id) {
                    Ok(pass) => Ok(pass),
                    Err(e) => Err(SyncError::Decode(e)),
                },
            },
        }
    }

    /// Takes the answer to a request for the transactions of a budget and
    /// reconciles them.
    pub fn take_transactions(
        &mut self,
        budget_id: &str,
        answer: Result<String, TransportError>,
    ) -> (r: Result<Pass, SyncError>)
        ensures
            final(self)@.api == old(self)@.api,
            (final(self)@.engine, r) == transactions_taken(old(self)@.engine, budget_id@, answer),
            r matches Ok(pass) ==> final(self)@.engine.transactions.len() == old(
                self,
            )@.engine.transactions.len() + pass.report.inserted,
            final(self)@.engine == (MirrorView {
                transactions: final(self)@.engine.transactions,
                ..old(self)@.engine
            }),
    {
        match answer {
            Err(e) => Err(SyncError::Transport(e)),
            Ok(payload) => match Json::parse(payload.as_str()) {
                None => Err(SyncError::Decode(DecodeError::NotJson)),
                Some(doc) => match apply_transactions(&mut self.engine, &doc, budget_id) {
                    Ok(pass) => Ok(pass),
                    Err(e) => Err(SyncError::Decode(e)),
                },
            },
        }
    }

    /// Takes the answer to a request for the categories of a budget and
    /// reconciles the category groups and their categories.
    pub fn take_categories(
        &mut self,
        budget_id: &str,
        answer: Result<String, TransportError>,
    ) -> (r: Result<(Pass, Pass), SyncError>)
        ensures
            final(self)@.api == old(self)@.api,
            (final(self)@.engine, r) == categories_taken(old(self)@.engine, budget_id@, answer),
            r matches Ok(passes) ==> final(self)@.engine.category_groups.len() == old(
                self,
            )@.engine.category_groups.len() + passes.0.report.inserted
                && final(self)@.engine.categories.len() == old(self)@.engine.categories.len()
                + passes.1.report.inserted,
            final(self)@.engine == (MirrorView {
                category_groups: final(self)@.engine.category_groups,
                categories: final(self)@.engine.categories,
                ..old(self)@.engine
            }),
    {
        match answer {
            Err(e) => Err(SyncError::Transport(e)),
            Ok(payload) => match Json::parse(payload.as_str()) {
                None => Err(SyncError::Decode(DecodeError::NotJson)),
                Some(doc) => match apply_categories(&mut self.engine, &doc, budget_id) {
                    Ok(passes) => Ok(passes),
                    Err(e) => Err(SyncError::Decode(e)),
                },
            },
        }
    }

    /// Asks the cache for the budgets and reconciles them. What the cache
    /// answers depends on `fetch`; whatever it answers is taken as
    /// [`DataGateway::take_budgets`] says.
    pub fn load_budgets<F>(&mut self, fetch: &F, now: i64) -> (r: Result<Pass, SyncError>)
        where F: Fn(&str) -> Result<String, TransportError>
        requires
            fetch.requires((BUDGETS,)),
        ensures
            budgets_loaded(old(self)@, final(self)@, fetch, now as int, r),
            r matches Ok(pass) ==> final(self)@.engine.budgets.len() == old(self)@.engine.budgets.len()
                + pass.report.inserted,
            final(self)@.engine == (MirrorView {
                budgets: final(self)@.engine.budgets,
                ..old(self)@.engine
            }),
            final(self)@.api.refresh_duration == old(self)@.api.refresh_duration,
            final(self)@.api.force_refresh == old(self)@.api.force_refresh,
    {
        let answer = self.api.get(BUDGETS, fetch, now);
        let ghost given = answer;
        let r = self.take_budgets(answer);
        proof {
            assert(fetched(old(self)@.api, self@.api, fetch, BUDGETS, given, now as int));
        }
        r
    }

    /// Asks the cache for the accounts of a budget and reconciles them.
    pub fn load_accounts<F>(
        &mut self,
        budget_id: &str,
        fetch: &F,
        now: i64,
    ) -> (r: Result<Pass, SyncError>)
        where F: Fn(&str) -> Result<String, TransportError>
        requires
            forall|endpoint: &str| #[trigger] fetch.requires((endpoint,)),
        ensures
            accounts_loaded(old(self)@, final(self)@, budget_id@, fetch, now as int, r),
            r matches Ok(pass) ==> final(self)@.engine.accounts.len() == old(
                self,
            )@.engine.accounts.len() + pass.report.inserted,
            final(self)@.engine == (MirrorView {
                accounts: final(self)@.engine.accounts,
                ..old(self)@.engine
            }),
            final(self)@.api.refresh_duration == old(self)@.api.refresh_duration,
            final(self)@.api.force_refresh == old(self)@.api.force_refresh,
    {
        let endpoint = accounts_endpoint(budget_id);
        let asked_for = endpoint.as_str();
        let answer = self.api.get(asked_for, fetch, now);
        let ghost given = answer;
        let r = self.take_accounts(budget_id, answer);
        proof {
            assert(fetched(old(self)@.api, self@.api, fetch, asked_for, given, now as int));
        }
        r
    }

    /// Asks the cache for the transactions of a budget and reconciles them.
    pub fn load_transactions<F>(
        &mut self,
        budget_id: &str,
        fetch: &F,
        now: i64,
    ) -> (r: Result<Pass, SyncError>)
        where F: Fn(&str) -> Result<String, TransportError>
        requires
            forall|endpoint: &str| #[trigger] fetch.requires((endpoint,)),
        ensures
            transactions_loaded(old(self)@, final(self)@, budget_id@, fetch, now as int, r),
            r matches Ok(pass) ==> final(self)@.engine.transactions.len() == old(
                self,
            )@.engine.transactions.len() + pass.report.inserted,
            final(self)@.engine == (MirrorView {
                transactions: final(self)@.engine.transactions,
                ..old(self)@.engine
            }),
            final(self)@.api.refresh_duration == old(self)@.api.refresh_duration,
            final(self)@.api.force_refresh == old(self)@.api.force_refresh,
    {
        let endpoint = transactions_endpoint(budget_id, None);
        let asked_for = endpoint.as_str();
        let answer = self.api.get(asked_for, fetch, now);
        let ghost given = answer;
        let r = self.take_transactions(budget_id, answer);
        proof {
            assert(fetched(old(self)@.api, self@.api, fetch, asked_for, given, now as int));
        }
        r
    }

    /// Asks the cache for the categories of a budget and reconciles the
    /// category groups and their categories.
    pub fn load_categories<F>(
        &mut self,
        budget_id: &str,
        fetch: &F,
        now: i64,
    ) -> (r: Result<(Pass, Pass), SyncError>)
        where F: Fn(&str) -> Result<String, TransportError>
        requires
            forall|endpoint: &str| #[trigger] fetch.requires((endpoint,)),
        ensures
            categories_loaded(old(self)@, final(self)@, budget_id@, fetch, now as int, r),
            r matches Ok(passes) ==> final(self)@.engine.category_groups.len() == old(
                self,
            )@.engine.category_groups.len() + passes.0.report.inserted
                && final(self)@.engine.categories.len() == old(self)@.engine.categories.len()
                + passes.1.report.inserted,
            final(self)@.engine == (MirrorView {
                category_groups: final(self)@.engine.category_groups,
                categories: final(self)@.engine.categories,
                ..old(self)@.engine
            }),
            final(self)@.api.refresh_duration == old(self)@.api.refresh_duration,
            final(self)@.api.force_refresh == old(self)@.api.force_refresh,
    {
        let endpoint = categories_endpoint(budget_id);
        let asked_for = endpoint.as_str();
        let answer = self.api.get(asked_for, fetch, now);
        let ghost given = answer;
        let r = self.take_categories(budget_id, answer);
        proof {
            assert(fetched(old(self)@.api, self@.api, fetch, asked_for, given, now as int));
        }
        r
    }

    /// Syncs what one budget owns, without emptying anything: its accounts,
    /// its category groups and categories, and its transactions are fetched
    /// through the cache and reconciled.
    ///
    /// The first listing that cannot be had ends the sync with its error;
    /// what was reconciled until then stays. What the listings hold depends on
    /// `fetch`: each answer is taken as the `take_` functions say. Whatever the
    /// answers were, the budgets stay as they are, and a sync that came to
    /// its end added to each table as many rows as it reports inserted.
    pub fn sync_budget<F>(&mut self, budget_id: &str, fetch: &F, now: i64) -> (r: Result<
        Refresh,
        SyncError,
    >)
        where F: Fn(&str) -> Result<String, TransportError>
        requires
            forall|endpoint: &str| #[trigger] fetch.requires((endpoint,)),
        ensures
            final(self)@.api.refresh_duration == old(self)@.api.refresh_duration,
            final(self)@.api.force_refresh == old(self)@.api.force_refresh,
            final(self)@.engine.budgets == old(self)@.engine.budgets,
            budget_synced(old(self)@, final(self)@, budget_id@, fetch, now as int, r),
            r matches Ok(done) ==> grown(old(self)@.engine, final(self)@.engine, done),
    {
        let a = self.load_accounts(budget_id, fetch, now);
        let ghost first = self@;
        let accounts = match a {
            Ok(pass) => pass,
            Err(e) => {
                return Err(e);
            },
        };
        let c = self.load_categories(budget_id, fetch, now);
        let ghost second = self@;
        let (category_groups, categories) = match c {
            Ok(passes) => passes,
            Err(e) => {
                proof {
                    assert(categories_loaded(first, second, budget_id@, fetch, now as int, c));
                }
                return Err(e);
            },
        };
        let t = self.load_transactions(budget_id, fetch, now);
        proof {
            assert(categories_loaded(first, second, budget_id@, fetch, now as int, c));
            assert(transactions_loaded(second, self@, budget_id@, fetch, now as int, t));
        }
        let transactions = match t {
            Ok(pass) => pass,
            Err(e) => {
                return Err(e);
            },
        };
        Ok(Refresh { budgets: no_pass(), accounts, category_groups, categories, transactions })
    }

    /// A sync pass that empties nothing. With a budget, syncs what that
    /// budget owns, as [`DataGateway::sync_budget`] does. Without one, syncs
    /// the budgets and then, budget by budget, what each owns.
    ///
    /// The first listing that cannot be had ends the pass with its error;
    /// what was reconciled until then stays. Whatever the answers were, a pass
    /// that came to its end added to each table as many rows as it reports
    /// inserted.
    pub fn refresh<F>(&mut self, budget_id: Option<&str>, fetch: &F, now: i64) -> (r: Result<
        Refresh,
        SyncError,
    >)
        where F: Fn(&str) -> Result<String, TransportError>
        requires
            forall|endpoint: &str| #[trigger] fetch.requires((endpoint,)),
        ensures
            final(self)@.api.refresh_duration == old(self)@.api.refresh_duration,
            final(self)@.api.force_refresh == old(self)@.api.force_refresh,
            budget_id is Some ==> final(self)@.engine.budgets == old(self)@.engine.budgets,
            refreshed(
                old(self)@,
                final(self)@,
                match budget_id {
                    Some(id) => Some(id@),
                    None => None,
                },
                fetch,
                now as int,
                r,
            ),
            r matches Ok(done) ==> grown(old(self)@.engine, final(self)@.engine, done),
    {
        match budget_id {
            Some(id) => {
                return self.sync_budget(id, fetch, now);
            },
            None => {},
        }
        let b = self.load_budgets(fetch, now);
        let ghost listed = self@;
        let budgets_pass = match b {
            Ok(pass) => pass,
            Err(e) => {
                return Err(e);
            },
        };
        let budgets = self.engine.get_all_budgets();
        let ghost ids = budget_ids(listed.engine.budgets);
        let mut done = Refresh {
            budgets: budgets_pass,
            accounts: no_pass(),
            category_groups: no_pass(),
            categories: no_pass(),
            transactions: no_pass(),
        };
        let ghost start = done;
        let mut i: usize = 0;
        proof {
            assert(ids.skip(0) =~= ids);
        }
        while i < budgets.len()
            invariant
                i <= budgets.len(),
                budget_id is None,
                forall|endpoint: &str| #[trigger] fetch.requires((endpoint,)),
                self@.api.refresh_duration == old(self)@.api.refresh_duration,
                self@.api.force_refresh == old(self)@.api.force_refresh,
                grown(old(self)@.engine, self@.engine, done),
                budgets_loaded(old(self)@, listed, fetch, now as int, b),
                b == Ok::<Pass, SyncError>(start.budgets),
                start == (Refresh {
                    budgets: start.budgets,
                    accounts: nothing_done(),
                    category_groups: nothing_done(),
                    categories: nothing_done(),
                    transactions: nothing_done(),
                }),
                ids == budget_ids(listed.engine.budgets),
                ids == budget_ids(row_views::<Budget>(budgets@)),
                ids.len() == budgets.len(),
                forall|after: GatewayView, r: Result<Refresh, SyncError>| #[trigger]
                    budgets_synced(self@, after, ids.skip(i as int), fetch, now as int, done, r)
                        ==> budgets_synced(listed, after, ids, fetch, now as int, start, r),
            decreases budgets.len() - i,
        {
            let ghost before = self@;
            let ghost sofar = done;
            let synced = self.sync_budget(budgets[i].id.as_str(), fetch, now);
            proof {
                let rest = ids.skip(i as int);
                assert(rest[0] == budgets@[i as int]@.id);
                assert(rest.drop_first() =~= ids.skip(i + 1));
                assert(budget_synced(before, self@, rest[0], fetch, now as int, synced));
            }
            let owned = match synced {
                Ok(owned) => owned,
                Err(e) => {
                    proof {
                        assert(budgets_synced(
                            before,
                            self@,
                            ids.skip(i as int),
                            fetch,
                            now as int,
                            sofar,
                            Err::<Refresh, SyncError>(e),
                        ));
                    }
                    return Err(e);
                },
            };
            // No table holds more rows than `usize` counts, so the inserted
            // rows add up below the cap.
            let _ = self.engine.row_counts();
            done = Refresh {
                budgets: done.budgets,
                accounts: add_passes(done.accounts, owned.accounts),
                category_groups: add_passes(done.category_groups, owned.category_groups),
                categories: add_passes(done.categories, owned.categories),
                transactions: add_passes(done.transactions, owned.transactions),
            };
            proof {
                assert(done == refresh_sum(sofar, owned));
                assert forall|after: GatewayView, r: Result<Refresh, SyncError>| #[trigger]
                    budgets_synced(self@, after, ids.skip(i + 1), fetch, now as int, done, r)
                    implies budgets_synced(listed, after, ids, fetch, now as int, start, r) by {
                    assert(budgets_synced(
                        before,
                        after,
                        ids.skip(i as int),
                        fetch,
                        now as int,
                        sofar,
                        r,
                    ));
                }
            }
            i += 1;
        }
        proof {
            assert(budgets_synced(
                self@,
                self@,
                ids.skip(i as int),
                fetch,
                now as int,
                done,
                Ok::<Refresh, SyncError>(done),
            ));
        }
        Ok(done)
    }

    /// A full resync: empties the mirror and rebuilds it with a sync pass
    /// over the budgets and what each owns.
    ///
    /// The first listing that cannot be had ends the resync with its error;
    /// what was reconciled until then stays, and what was emptied stays
    /// empty. Whatever the answers were, a resync that came to its end leaves
    /// a mirror in which every row was inserted by it.
    pub fn refresh_db<F>(&mut self, fetch: &F, now: i64) -> (r: Result<Refresh, SyncError>)
        where F: Fn(&str) -> Result<String, TransportError>
        requires
            forall|endpoint: &str| #[trigger] fetch.requires((endpoint,)),
        ensures
            final(self)@.api.refresh_duration == old(self)@.api.refresh_duration,
            final(self)@.api.force_refresh == old(self)@.api.force_refresh,
            refreshed(
                GatewayView { api: old(self)@.api, engine: MirrorView::empty() },
                final(self)@,
                None,
                fetch,
                now as int,
                r,
            ),
            r matches Ok(done) ==> rebuilt(final(self)@.engine, done),
    {
        self.engine.remigrate();
        self.refresh(None, fetch, now)
    }
}

} // verus!
