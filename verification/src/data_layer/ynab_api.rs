//! The response cache in front of the remote service.
//!
//! A response is trusted for `refresh_duration` milliseconds after it was
//! fetched. The cache never fetches by itself: the caller hands it the fetch
//! operation and the current time.

pub mod cache_file;
pub mod response_models;

use vstd::prelude::*;
use crate::data_layer::json::{Json, parsed_json};
use crate::data_layer::models::DecodeError;
use crate::data_layer::text::{decimal, decimal_text, join, same_text};

verus! {

/// One remembered response.
#[derive(Debug, PartialEq, Eq)]
pub struct CacheEntry {
    pub endpoint: String,
    pub payload: String,
    /// When the payload was fetched, in milliseconds since the Unix epoch.
    pub fetched_at: i64,
}

/// Why a fetch failed.
#[derive(Debug, PartialEq, Eq)]
pub struct TransportError {
    pub message: String,
}

/// Why a listing could not be had.
#[derive(Debug, PartialEq, Eq)]
pub enum SyncError {
    /// The listing could not be fetched.
    Transport(TransportError),
    /// The payload does not hold the listing.
    Decode(DecodeError),
}

/// What the cache remembers for one endpoint.
pub struct Stored {
    pub payload: Seq<char>,
    pub fetched_at: int,
}

/// A cache entry as a mathematical value.
pub struct EntryView {
    pub endpoint: Seq<char>,
    pub stored: Stored,
}

impl View for CacheEntry {
    type V = EntryView;

    open spec fn view(&self) -> EntryView {
        EntryView {
            endpoint: self.endpoint@,
            stored: Stored { payload: self.payload@, fetched_at: self.fetched_at as int },
        }
    }
}

/// The entries of a list as mathematical values.
pub open spec fn entry_views(entries: Seq<CacheEntry>) -> Seq<EntryView> {
    entries.map_values(|e: CacheEntry| e@)
}

/// The mapping that a list of entries stands for: a later entry overwrites
/// an earlier one for the same endpoint.
pub open spec fn entry_map(entries: Seq<EntryView>) -> Map<Seq<char>, Stored>
    decreases entries.len(),
{
    if entries.len() == 0 {
        Map::empty()
    } else {
        entry_map(entries.drop_last()).insert(entries.last().endpoint, entries.last().stored)
    }
}

/// No endpoint occurs twice.
pub open spec fn distinct_endpoints(entries: Seq<EntryView>) -> bool {
    forall|i: int, j: int|
        0 <= i < j < entries.len() ==> entries[i].endpoint != entries[j].endpoint
}

/// A counter that is one higher, and that stays at its maximum once there.
pub open spec fn bumped(n: u64) -> u64 {
    if n < u64::MAX {
        (n + 1) as u64
    } else {
        n
    }
}

/// The cache as a mathematical value.
pub struct CacheView {
    pub entries: Map<Seq<char>, Stored>,
    pub hits: u64,
    pub misses: u64,
    pub refresh_duration: int,
    pub force_refresh: bool,
}

impl CacheView {
    /// Whether a request for `endpoint` at time `now` is answered from the
    /// cache: there is an entry, it is younger than the refresh duration, and
    /// no refresh is forced.
    pub open spec fn is_fresh(self, endpoint: Seq<char>, now: int) -> bool {
        &&& self.entries.dom().contains(endpoint)
        &&& now - self.entries[endpoint].fetched_at < self.refresh_duration
        &&& !self.force_refresh
    }

    /// The cache after one more hit.
    pub open spec fn hit(self) -> CacheView {
        CacheView { hits: bumped(self.hits), ..self }
    }

    /// The cache after one more miss.
    pub open spec fn missed(self) -> CacheView {
        CacheView { misses: bumped(self.misses), ..self }
    }

    /// The cache after `payload` was fetched for `endpoint` at time `now`.
    pub open spec fn remembering(
        self,
        endpoint: Seq<char>,
        payload: Seq<char>,
        now: int,
    ) -> CacheView {
        CacheView {
            entries: self.entries.insert(endpoint, Stored { payload, fetched_at: now }),
            ..self
        }
    }

    /// The cache after a fetch for `endpoint` at time `now` ended with
    /// `outcome`: a payload is remembered, a failure changes nothing.
    pub open spec fn settled(
        self,
        endpoint: Seq<char>,
        outcome: Result<String, TransportError>,
        now: int,
    ) -> CacheView {
        match outcome {
            Ok(payload) => self.remembering(endpoint, payload@, now),
            Err(_) => self,
        }
    }
}

/// How the cache answers one request: from what it remembers where that is
/// fresh, and else with what the fetch gave, which it then remembers.
pub open spec fn asked(
    before: CacheView,
    after: CacheView,
    endpoint: Seq<char>,
    answer: Result<String, TransportError>,
    now: int,
) -> bool {
    if before.is_fresh(endpoint, now) {
        &&& answer matches Ok(payload)
        &&& payload@ == before.entries[endpoint].payload
        &&& after == before.hit()
    } else {
        after == before.missed().settled(endpoint, answer, now)
    }
}

/// How the cache answers one request with the help of `fetch`: as
/// [`asked`] says, where the answer, if it was fetched, is one that `fetch`
/// can give for the endpoint.
pub open spec fn fetched<F>(
    before: CacheView,
    after: CacheView,
    fetch: &F,
    endpoint: &str,
    answer: Result<String, TransportError>,
    now: int,
) -> bool
    where F: Fn(&str) -> Result<String, TransportError>
{
    &&& asked(before, after, endpoint@, answer, now)
    &&& before.is_fresh(endpoint@, now) || fetch.ensures((endpoint,), answer)
}

/// The document that an answer holds: a failed fetch and a payload that is
/// not JSON hold none.
pub open spec fn document_of(answer: Result<String, TransportError>) -> Result<Json, SyncError> {
    match answer {
        Err(e) => Err(SyncError::Transport(e)),
        Ok(payload) => match parsed_json(payload@) {
            None => Err(SyncError::Decode(DecodeError::NotJson)),
            Some(doc) => Ok(doc),
        },
    }
}

/// The endpoint of the settings of a budget.
pub open spec fn settings_path(budget_id: Seq<char>) -> Seq<char> {
    budget_path(budget_id) + "/settings"@
}

/// The endpoint of one account.
pub open spec fn account_path(budget_id: Seq<char>, account_id: Seq<char>) -> Seq<char> {
    accounts_path(budget_id) + "/"@ + account_id
}

/// The place of `endpoint` among `entries`, if it has one.
pub open spec fn holds_at(entries: Seq<EntryView>, endpoint: Seq<char>, i: int) -> bool {
    0 <= i < entries.len() && entries[i].endpoint == endpoint
}

/// An endpoint is in the mapping exactly if some entry names it.
pub proof fn lemma_entry_map_dom(entries: Seq<EntryView>, endpoint: Seq<char>)
    ensures
        entry_map(entries).dom().contains(endpoint) <==> exists|i: int| holds_at(entries, endpoint, i),
    decreases entries.len(),
{
    if entries.len() == 0 {
    } else {
        let front = entries.drop_last();
        lemma_entry_map_dom(front, endpoint);
        if entry_map(entries).dom().contains(endpoint) {
            if entries.last().endpoint == endpoint {
                assert(holds_at(entries, endpoint, entries.len() - 1));
            } else {
                let i = choose|i: int| holds_at(front, endpoint, i);
                assert(holds_at(entries, endpoint, i));
            }
        }
        if exists|i: int| holds_at(entries, endpoint, i) {
            let i = choose|i: int| holds_at(entries, endpoint, i);
            if i < entries.len() - 1 {
                assert(holds_at(front, endpoint, i));
            }
        }
    }
}

/// Where no endpoint occurs twice, the mapping gives for an endpoint what
/// its one entry holds.
pub proof fn lemma_entry_map_value(entries: Seq<EntryView>, i: int)
    requires
        distinct_endpoints(entries),
        0 <= i < entries.len(),
    ensures
        entry_map(entries).dom().contains(entries[i].endpoint),
        entry_map(entries)[entries[i].endpoint] == entries[i].stored,
    decreases entries.len(),
{
    if i == entries.len() - 1 {
    } else {
        let front = entries.drop_last();
        assert(distinct_endpoints(front));
        lemma_entry_map_value(front, i);
        assert(entries[i].endpoint != entries.last().endpoint);
    }
}

/// Where no endpoint occurs twice, replacing the entry of an endpoint in
/// its place is the same as overwriting the endpoint in the mapping.
pub proof fn lemma_entry_map_update(entries: Seq<EntryView>, i: int, e: EntryView)
    requires
        distinct_endpoints(entries),
        0 <= i < entries.len(),
        entries[i].endpoint == e.endpoint,
    ensures
        distinct_endpoints(entries.update(i, e)),
        entry_map(entries.update(i, e)) == entry_map(entries).insert(e.endpoint, e.stored),
    decreases entries.len(),
{
    let after = entries.update(i, e);
    let front = entries.drop_last();
    if i == entries.len() - 1 {
        assert(after.drop_last() =~= front);
        assert(entry_map(after) =~= entry_map(entries).insert(e.endpoint, e.stored));
    } else {
        assert(distinct_endpoints(front));
        lemma_entry_map_update(front, i, e);
        assert(after.drop_last() =~= front.update(i, e));
        assert(after.last() == entries.last());
        assert(entries[i].endpoint != entries.last().endpoint);
        assert(entry_map(after) =~= entry_map(entries).insert(e.endpoint, e.stored));
    }
}

/// The response cache.
pub struct YnabApi {
    cache: Vec<CacheEntry>,
    cache_hit: u64,
    cache_miss: u64,
    refresh_duration: i64,
    force_refresh: bool,
}

impl View for YnabApi {
    type V = CacheView;

    closed spec fn view(&self) -> CacheView {
        CacheView {
            entries: entry_map(entry_views(self.cache@)),
            hits: self.cache_hit,
            misses: self.cache_miss,
            refresh_duration: self.refresh_duration as int,
            force_refresh: self.force_refresh,
        }
    }
}

impl YnabApi {
    #[verifier::type_invariant]
    spec fn distinct(self) -> bool {
        distinct_endpoints(entry_views(self.cache@))
    }

    /// A cache that trusts a response for `refresh_duration` milliseconds.
    /// `stored` is what an earlier run left behind; `None`, where nothing
    /// readable was left, starts the cache empty.
    pub fn new(stored: Option<Vec<CacheEntry>>, refresh_duration: i64) -> (api: YnabApi)
        ensures
            api@.entries == (match stored {
                Some(entries) => entry_map(entry_views(entries@)),
                None => Map::<Seq<char>, Stored>::empty(),
            }),
            api@.hits == 0,
            api@.misses == 0,
            api@.refresh_duration == refresh_duration,
            !api@.force_refresh,
    {
        let mut api = YnabApi {
            cache: Vec::new(),
            cache_hit: 0,
            cache_miss: 0,
            refresh_duration,
            force_refresh: false,
        };
        match stored {
            None => api,
            Some(entries) => {
                let mut entries = entries;
                let ghost all = entry_views(entries@);
                let ghost mut done: Seq<EntryView> = Seq::empty();
                let n = entries.len();
                let mut rest: Vec<CacheEntry> = Vec::new();
                // Entries are taken from the back; `rest` collects them so
                // that they can be replayed front to back.
                while entries.len() > 0
                    invariant
                        entries.len() + rest.len() == n,
                        n == all.len(),
                        forall|k: int| 0 <= k < entries.len() ==> entries@[k]@ == all[k],
                        forall|k: int| 0 <= k < rest.len() ==> rest@[k]@ == all[n - 1 - k],
                    decreases entries.len(),
                {
                    let e = entries.pop().unwrap();
                    rest.push(e);
                }
                while rest.len() > 0
                    invariant
                        rest.len() <= n,
                        n == all.len(),
                        forall|k: int| 0 <= k < rest.len() ==> rest@[k]@ == all[n - 1 - k],
                        api@.entries == entry_map(all.take(n - rest.len())),
                        api@.hits == 0,
                        api@.misses == 0,
                        api@.refresh_duration == refresh_duration,
                        !api@.force_refresh,
                    decreases rest.len(),
                {
                    let ghost before = all.take(n - rest.len());
                    let e = rest.pop().unwrap();
                    proof {
                        let now = all.take(n - rest.len());
                        assert(now.drop_last() =~= before);
                        assert(now.last() == e@);
                    }
                    let CacheEntry { endpoint, payload, fetched_at } = e;
                    api.remember(endpoint, payload, fetched_at);
                }
                proof {
                    assert(all.take(n as int) =~= all);
                }
                api
            },
        }
    }

    /// The entries in the order in which they are kept.
    pub closed spec fn kept(self) -> Seq<EntryView> {
        entry_views(self.cache@)
    }

    /// How often a request was answered from the cache.
    pub fn cache_hit(&self) -> (n: u64)
        ensures
            n == self@.hits,
    {
        self.cache_hit
    }

    /// How often a request had to be fetched.
    pub fn cache_miss(&self) -> (n: u64)
        ensures
            n == self@.misses,
    {
        self.cache_miss
    }

    /// For how many milliseconds a response is trusted.
    pub fn refresh_duration(&self) -> (d: i64)
        ensures
            d == self@.refresh_duration,
    {
        self.refresh_duration
    }

    /// Whether every request is fetched anew.
    pub fn force_refresh(&self) -> (on: bool)
        ensures
            on == self@.force_refresh,
    {
        self.force_refresh
    }

    /// Switches forced refreshing on or off. Nothing else changes.
    pub fn set_force_refresh(&mut self, on: bool)
        ensures
            final(self)@ == (CacheView { force_refresh: on, ..old(self)@ }),
    {
        proof {
            use_type_invariant(&*self);
        }
        self.force_refresh = on;
    }

    /// Forgets every response. The counters and the settings stay.
    pub fn clear(&mut self)
        ensures
            final(self)@ == (CacheView { entries: Map::empty(), ..old(self)@ }),
    {
        self.cache = Vec::new();
        proof {
            assert(entry_views(self.cache@) =~= Seq::<EntryView>::empty());
        }
    }

    /// The number of endpoints for which a response is remembered.
    pub fn len(&self) -> (n: usize)
        ensures
            n == self.kept().len(),
            entry_map(self.kept()) == self@.entries,
            distinct_endpoints(self.kept()),
    {
        proof {
            use_type_invariant(self);
        }
        self.cache.len()
    }

    /// A copy of every entry, for writing the cache out.
    pub fn saved(&self) -> (entries: Vec<CacheEntry>)
        ensures
            entry_views(entries@) == self.kept(),
            entry_map(entry_views(entries@)) == self@.entries,
            distinct_endpoints(entry_views(entries@)),
    {
        proof {
            use_type_invariant(self);
        }
        let mut entries: Vec<CacheEntry> = Vec::new();
        let mut i: usize = 0;
        while i < self.cache.len()
            invariant
                i <= self.cache.len(),
                entries@.len() == i,
                forall|k: int| 0 <= k < i ==> entries@[k]@ == self.cache@[k]@,
            decreases self.cache.len() - i,
        {
            let e = &self.cache[i];
            entries.push(
                CacheEntry {
                    endpoint: e.endpoint.clone(),
                    payload: e.payload.clone(),
                    fetched_at: e.fetched_at,
                },
            );
            i += 1;
        }
        proof {
            assert(entry_views(entries@) =~= entry_views(self.cache@));
        }
        entries
    }

    /// Answers a request from the cache where the remembered response is
    /// still fresh, and counts a hit; otherwise counts a miss and answers
    /// nothing: the caller then fetches, and hands the outcome to
    /// [`YnabApi::settle`].
    pub fn lookup(&mut self, endpoint: &str, now: i64) -> (found: Option<String>)
        ensures
            old(self)@.is_fresh(endpoint@, now as int) ==> {
                &&& found matches Some(payload)
                &&& payload@ == old(self)@.entries[endpoint@].payload
                &&& final(self)@ == old(self)@.hit()
            },
            !old(self)@.is_fresh(endpoint@, now as int) ==> {
                &&& found is None
                &&& final(self)@ == old(self)@.missed()
            },
    {
        proof {
            use_type_invariant(&*self);
            lemma_entry_map_dom(entry_views(self.cache@), endpoint@);
        }
        let at = position(&self.cache, endpoint);
        match at {
            Some(i) => {
                proof {
                    lemma_entry_map_value(entry_views(self.cache@), i as int);
                }
                let entry = &self.cache[i];
                let age: i128 = now as i128 - entry.fetched_at as i128;
                if age < self.refresh_duration as i128 && !self.force_refresh {
                    let payload = entry.payload.clone();
                    if self.cache_hit < u64::MAX {
                        self.cache_hit = self.cache_hit + 1;
                    }
                    return Some(payload);
                }
            },
            None => {},
        }
        if self.cache_miss < u64::MAX {
            self.cache_miss = self.cache_miss + 1;
        }
        None
    }

    /// Takes the outcome of a fetch for `endpoint` made at time `now`: a
    /// payload is remembered in place of the old one, a failure leaves the
    /// cache as it was. The outcome is handed on unchanged.
    pub fn settle(
        &mut self,
        endpoint: &str,
        outcome: Result<String, TransportError>,
        now: i64,
    ) -> (answer: Result<String, TransportError>)
        ensures
            answer == outcome,
            final(self)@ == old(self)@.settled(endpoint@, outcome, now as int),
    {
        match outcome {
            Ok(payload) => {
                self.remember(endpoint.to_owned(), payload.clone(), now);
                Ok(payload)
            },
            Err(e) => Err(e),
        }
    }

    /// Answers a request for `endpoint` at time `now`.
    ///
    /// A fresh remembered response is returned and counted as a hit; `fetch`
    /// is not called. Otherwise a miss is counted and `fetch` is called once:
    /// its payload is remembered with `now` and returned, its failure is
    /// returned and leaves what was remembered untouched.
    pub fn get<F>(
        &mut self,
        endpoint: &str,
        fetch: &F,
        now: i64,
    ) -> (answer: Result<String, TransportError>)
        where F: Fn(&str) -> Result<String, TransportError>
        requires
            fetch.requires((endpoint,)),
        ensures
            old(self)@.is_fresh(endpoint@, now as int) ==> {
                &&& answer matches Ok(payload)
                &&& payload@ == old(self)@.entries[endpoint@].payload
                &&& final(self)@ == old(self)@.hit()
            },
            !old(self)@.is_fresh(endpoint@, now as int) ==> {
                &&& fetch.ensures((endpoint,), answer)
                &&& final(self)@ == old(self)@.missed().settled(endpoint@, answer, now as int)
            },
    {
        match self.lookup(endpoint, now) {
            Some(payload) => Ok(payload),
            None => {
                let outcome = fetch(endpoint);
                self.settle(endpoint, outcome, now)
            },
        }
    }

    /// Reads the document that an answer holds.
    pub fn document(answer: Result<String, TransportError>) -> (r: Result<Json, SyncError>)
        ensures
            r == document_of(answer),
    {
        match answer {
            Err(e) => Err(SyncError::Transport(e)),
            Ok(payload) => match Json::parse(payload.as_str()) {
                None => Err(SyncError::Decode(DecodeError::NotJson)),
                Some(doc) => Ok(doc),
            },
        }
    }

    /// Asks for `endpoint` and reads the document that the answer holds.
    /// What the answer is depends on `fetch`; whatever it is, it is read as
    /// [`YnabApi::document`] says.
    pub fn request<F>(
        &mut self,
        endpoint: &str,
        fetch: &F,
        now: i64,
    ) -> (r: Result<Json, SyncError>)
        where F: Fn(&str) -> Result<String, TransportError>
        requires
            fetch.requires((endpoint,)),
        ensures
            exists|answer: Result<String, TransportError>|
                {
                    &&& #[trigger] fetched(
                        old(self)@,
                        final(self)@,
                        fetch,
                        endpoint,
                        answer,
                        now as int,
                    )
                    &&& r == document_of(answer)
                },
    {
        let answer = self.get(endpoint, fetch, now);
        let ghost given = answer;
        let r = YnabApi::document(answer);
        proof {
            assert(fetched(old(self)@, self@, fetch, endpoint, given, now as int));
        }
        r
    }

    /// The listing of the budgets. The listing is the same whether or not the
    /// accounts are asked for with it.
    pub fn list_budgets<F>(
        &mut self,
        _include_accounts: bool,
        fetch: &F,
        now: i64,
    ) -> (r: Result<Json, SyncError>)
        where F: Fn(&str) -> Result<String, TransportError>
        requires
            forall|endpoint: &str| #[trigger] fetch.requires((endpoint,)),
        ensures
            exists|answer: Result<String, TransportError>, endpoint: &str|
                {
                    &&& #[trigger] fetched(
                        old(self)@,
                        final(self)@,
                        fetch,
                        endpoint,
                        answer,
                        now as int,
                    )
                    &&& endpoint@ == BUDGETS@
                    &&& r == document_of(answer)
                },
    {
        let endpoint = BUDGETS.to_owned();
        let asked_for = endpoint.as_str();
        let ghost before = self@;
        let r = self.request(asked_for, fetch, now);
        proof {
            let answer = choose|answer: Result<String, TransportError>|
                #[trigger] fetched(before, self@, fetch, asked_for, answer, now as int) && r
                    == document_of(answer);
            assert(fetched(before, self@, fetch, asked_for, answer, now as int));
        }
        r
    }

    /// One budget with all that it holds. The whole budget is asked for,
    /// whatever state of the server is known.
    pub fn budget_export<F>(
        &mut self,
        budget_id: &str,
        _last_knowledge_of_server: Option<i32>,
        fetch: &F,
        now: i64,
    ) -> (r: Result<Json, SyncError>)
        where F: Fn(&str) -> Result<String, TransportError>
        requires
            forall|endpoint: &str| #[trigger] fetch.requires((endpoint,)),
        ensures
            exists|answer: Result<String, TransportError>, endpoint: &str|
                {
                    &&& #[trigger] fetched(
                        old(self)@,
                        final(self)@,
                        fetch,
                        endpoint,
                        answer,
                        now as int,
                    )
                    &&& endpoint@ == budget_path(budget_id@)
                    &&& r == document_of(answer)
                },
    {
        let endpoint = budget_endpoint(budget_id);
        let asked_for = endpoint.as_str();
        let ghost before = self@;
        let r = self.request(asked_for, fetch, now);
        proof {
            let answer = choose|answer: Result<String, TransportError>|
                #[trigger] fetched(before, self@, fetch, asked_for, answer, now as int) && r
                    == document_of(answer);
            assert(fetched(before, self@, fetch, asked_for, answer, now as int));
        }
        r
    }

    /// The settings of a budget.
    pub fn budget_settings<F>(
        &mut self,
        budget_id: &str,
        fetch: &F,
        now: i64,
    ) -> (r: Result<Json, SyncError>)
        where F: Fn(&str) -> Result<String, TransportError>
        requires
            forall|endpoint: &str| #[trigger] fetch.requires((endpoint,)),
        ensures
            exists|answer: Result<String, TransportError>, endpoint: &str|
                {
                    &&& #[trigger] fetched(
                        old(self)@,
                        final(self)@,
                        fetch,
                        endpoint,
                        answer,
                        now as int,
                    )
                    &&& endpoint@ == settings_path(budget_id@)
                    &&& r == document_of(answer)
                },
    {
        let mut endpoint = budget_endpoint(budget_id);
        endpoint.append("/settings");
        let asked_for = endpoint.as_str();
        let ghost before = self@;
        let r = self.request(asked_for, fetch, now);
        proof {
            let answer = choose|answer: Result<String, TransportError>|
                #[trigger] fetched(before, self@, fetch, asked_for, answer, now as int) && r
                    == document_of(answer);
            assert(fetched(before, self@, fetch, asked_for, answer, now as int));
        }
        r
    }

    /// The listing of the accounts of a budget. The whole listing is asked
    /// for, whatever state of the server is known.
    pub fn list_accounts<F>(
        &mut self,
        budget_id: &str,
        _last_knowledge_of_server: Option<i32>,
        fetch: &F,
        now: i64,
    ) -> (r: Result<Json, SyncError>)
        where F: Fn(&str) -> Result<String, TransportError>
        requires
            forall|endpoint: &str| #[trigger] fetch.requires((endpoint,)),
        ensures
            exists|answer: Result<String, TransportError>, endpoint: &str|
                {
                    &&& #[trigger] fetched(
                        old(self)@,
                        final(self)@,
                        fetch,
                        endpoint,
                        answer,
                        now as int,
                    )
                    &&& endpoint@ == accounts_path(budget_id@)
                    &&& r == document_of(answer)
                },
    {
        let endpoint = accounts_endpoint(budget_id);
        let asked_for = endpoint.as_str();
        let ghost before = self@;
        let r = self.request(asked_for, fetch, now);
        proof {
            let answer = choose|answer: Result<String, TransportError>|
                #[trigger] fetched(before, self@, fetch, asked_for, answer, now as int) && r
                    == document_of(answer);
            assert(fetched(before, self@, fetch, asked_for, answer, now as int));
        }
        r
    }

    /// One account of a budget.
    pub fn get_account<F>(
        &mut self,
        budget_id: &str,
        account_id: &str,
        fetch: &F,
        now: i64,
    ) -> (r: Result<Json, SyncError>)
        where F: Fn(&str) -> Result<String, TransportError>
        requires
            forall|endpoint: &str| #[trigger] fetch.requires((endpoint,)),
        ensures
            exists|answer: Result<String, TransportError>, endpoint: &str|
                {
                    &&& #[trigger] fetched(
                        old(self)@,
                        final(self)@,
                        fetch,
                        endpoint,
                        answer,
                        now as int,
                    )
                    &&& endpoint@ == account_path(budget_id@, account_id@)
                    &&& r == document_of(answer)
                },
    {
        let mut endpoint = accounts_endpoint(budget_id);
        endpoint.append("/");
        endpoint.append(account_id);
        let asked_for = endpoint.as_str();
        let ghost before = self@;
        let r = self.request(asked_for, fetch, now);
        proof {
            let answer = choose|answer: Result<String, TransportError>|
                #[trigger] fetched(before, self@, fetch, asked_for, answer, now as int) && r
                    == document_of(answer);
            assert(fetched(before, self@, fetch, asked_for, answer, now as int));
        }
        r
    }

    /// The listing of the category groups of a budget with their categories.
    pub fn list_categories<F>(
        &mut self,
        budget_id: &str,
        fetch: &F,
        now: i64,
    ) -> (r: Result<Json, SyncError>)
        where F: Fn(&str) -> Result<String, TransportError>
        requires
            forall|endpoint: &str| #[trigger] fetch.requires((endpoint,)),
        ensures
            exists|answer: Result<String, TransportError>, endpoint: &str|
                {
                    &&& #[trigger] fetched(
                        old(self)@,
                        final(self)@,
                        fetch,
                        endpoint,
                        answer,
                        now as int,
                    )
                    &&& endpoint@ == categories_path(budget_id@)
                    &&& r == document_of(answer)
                },
    {
        let endpoint = categories_endpoint(budget_id);
        let asked_for = endpoint.as_str();
        let ghost before = self@;
        let r = self.request(asked_for, fetch, now);
        proof {
            let answer = choose|answer: Result<String, TransportError>|
                #[trigger] fetched(before, self@, fetch, asked_for, answer, now as int) && r
                    == document_of(answer);
            assert(fetched(before, self@, fetch, asked_for, answer, now as int));
        }
        r
    }

    /// The listing of the transactions of one category.
    pub fn get_category_transactions<F>(
        &mut self,
        budget_id: &str,
        category_id: &str,
        fetch: &F,
        now: i64,
    ) -> (r: Result<Json, SyncError>)
        where F: Fn(&str) -> Result<String, TransportError>
        requires
            forall|endpoint: &str| #[trigger] fetch.requires((endpoint,)),
        ensures
            exists|answer: Result<String, TransportError>, endpoint: &str|
                {
                    &&& #[trigger] fetched(
                        old(self)@,
                        final(self)@,
                        fetch,
                        endpoint,
                        answer,
                        now as int,
                    )
                    &&& endpoint@ == category_transactions_path(budget_id@, category_id@)
                    &&& r == document_of(answer)
                },
    {
        let endpoint = category_transactions_endpoint(budget_id, category_id);
        let asked_for = endpoint.as_str();
        let ghost before = self@;
        let r = self.request(asked_for, fetch, now);
        proof {
            let answer = choose|answer: Result<String, TransportError>|
                #[trigger] fetched(before, self@, fetch, asked_for, answer, now as int) && r
                    == document_of(answer);
            assert(fetched(before, self@, fetch, asked_for, answer, now as int));
        }
        r
    }

    /// The listing of the transactions of a budget; with a cursor, the changes
    /// since that state of the server. The listing does not depend on the date
    /// and on the type that are given.
    pub fn get_budget_transactions<F>(
        &mut self,
        budget_id: &str,
        _since_date: Option<i64>,
        _trans_type: Option<String>,
        last_knowledge: Option<usize>,
        fetch: &F,
        now: i64,
    ) -> (r: Result<Json, SyncError>)
        where F: Fn(&str) -> Result<String, TransportError>
        requires
            forall|endpoint: &str| #[trigger] fetch.requires((endpoint,)),
        ensures
            exists|answer: Result<String, TransportError>, endpoint: &str|
                {
                    &&& #[trigger] fetched(
                        old(self)@,
                        final(self)@,
                        fetch,
                        endpoint,
                        answer,
                        now as int,
                    )
                    &&& endpoint@ == transactions_path(budget_id@, last_knowledge)
                    &&& r == document_of(answer)
                },
    {
        let endpoint = transactions_endpoint(budget_id, last_knowledge);
        let asked_for = endpoint.as_str();
        let ghost before = self@;
        let r = self.request(asked_for, fetch, now);
        proof {
            let answer = choose|answer: Result<String, TransportError>|
                #[trigger] fetched(before, self@, fetch, asked_for, answer, now as int) && r
                    == document_of(answer);
            assert(fetched(before, self@, fetch, asked_for, answer, now as int));
        }
        r
    }

    /// Remembers `payload` for `endpoint`, in place of what was remembered
    /// for it before.
    fn remember(&mut self, endpoint: String, payload: String, now: i64)
        ensures
            final(self)@ == old(self)@.remembering(endpoint@, payload@, now as int),
    {
        proof {
            use_type_invariant(&*self);
        }
        let mut cache: Vec<CacheEntry> = Vec::new();
        std::mem::swap(&mut cache, &mut self.cache);
        let ghost before = entry_views(cache@);
        let at = position(&cache, endpoint.as_str());
        let entry = CacheEntry { endpoint, payload, fetched_at: now };
        match at {
            Some(i) => {
                proof {
                    lemma_entry_map_update(before, i as int, entry@);
                }
                cache.set(i, entry);
                proof {
                    assert(entry_views(cache@) =~= before.update(i as int, entry@));
                }
            },
            None => {
                cache.push(entry);
                proof {
                    let after = entry_views(cache@);
                    assert(after.drop_last() =~= before);
                    assert(after.last() == entry@);
                    assert forall|a: int, b: int| 0 <= a < b < after.len() implies after[a].endpoint
                        != after[b].endpoint by {
                        assert(after[a] == before[a]);
                        if b < before.len() {
                            assert(after[b] == before[b]);
                        } else {
                            assert(!holds_at(before, entry@.endpoint, a));
                        }
                    }
                }
            },
        }
        self.cache = cache;
    }
}

/// The endpoint that lists the budgets.
pub const BUDGETS: &'static str = "/budgets";

/// The endpoint of one budget.
pub open spec fn budget_path(budget_id: Seq<char>) -> Seq<char> {
    "/budgets/"@ + budget_id
}

/// The endpoint that lists the accounts of a budget.
pub open spec fn accounts_path(budget_id: Seq<char>) -> Seq<char> {
    budget_path(budget_id) + "/accounts"@
}

/// The endpoint that lists the category groups of a budget with their
/// categories.
pub open spec fn categories_path(budget_id: Seq<char>) -> Seq<char> {
    budget_path(budget_id) + "/categories"@
}

/// The endpoint that lists the transactions of a budget; with a cursor, the
/// changes since that state of the server.
pub open spec fn transactions_path(
    budget_id: Seq<char>,
    last_knowledge: Option<usize>,
) -> Seq<char> {
    match last_knowledge {
        None => budget_path(budget_id) + "/transactions"@,
        Some(cursor) => budget_path(budget_id) + "/transactions?last_knowledge_of_server="@
            + decimal_text(cursor as nat),
    }
}

/// The endpoint that lists the transactions of one account.
pub open spec fn account_transactions_path(
    budget_id: Seq<char>,
    account_id: Seq<char>,
) -> Seq<char> {
    accounts_path(budget_id) + "/"@ + account_id + "/transactions"@
}

/// The endpoint that lists the transactions of one category.
pub open spec fn category_transactions_path(
    budget_id: Seq<char>,
    category_id: Seq<char>,
) -> Seq<char> {
    categories_path(budget_id) + "/"@ + category_id + "/transactions"@
}

/// The endpoint of one budget.
pub fn budget_endpoint(budget_id: &str) -> (endpoint: String)
    ensures
        endpoint@ == budget_path(budget_id@),
{
    join("/budgets/", budget_id)
}

/// The endpoint that lists the accounts of a budget.
pub fn accounts_endpoint(budget_id: &str) -> (endpoint: String)
    ensures
        endpoint@ == accounts_path(budget_id@),
{
    let mut endpoint = budget_endpoint(budget_id);
    endpoint.append("/accounts");
    endpoint
}

/// The endpoint that lists the category groups of a budget.
pub fn categories_endpoint(budget_id: &str) -> (endpoint: String)
    ensures
        endpoint@ == categories_path(budget_id@),
{
    let mut endpoint = budget_endpoint(budget_id);
    endpoint.append("/categories");
    endpoint
}

/// The endpoint that lists the transactions of a budget.
pub fn transactions_endpoint(budget_id: &str, last_knowledge: Option<usize>) -> (endpoint: String)
    ensures
        endpoint@ == transactions_path(budget_id@, last_knowledge),
{
    let mut endpoint = budget_endpoint(budget_id);
    match last_knowledge {
        None => {
            endpoint.append("/transactions");
        },
        Some(cursor) => {
            endpoint.append("/transactions?last_knowledge_of_server=");
            let digits = decimal(cursor);
            endpoint.append(digits.as_str());
        },
    }
    endpoint
}

/// The endpoint that lists the transactions of one account.
pub fn account_transactions_endpoint(budget_id: &str, account_id: &str) -> (endpoint: String)
    ensures
        endpoint@ == account_transactions_path(budget_id@, account_id@),
{
    let mut endpoint = accounts_endpoint(budget_id);
    endpoint.append("/");
    endpoint.append(account_id);
    endpoint.append("/transactions");
    endpoint
}

/// The endpoint that lists the transactions of one category.
pub fn category_transactions_endpoint(budget_id: &str, category_id: &str) -> (endpoint: String)
    ensures
        endpoint@ == category_transactions_path(budget_id@, category_id@),
{
    let mut endpoint = categories_endpoint(budget_id);
    endpoint.append("/");
    endpoint.append(category_id);
    endpoint.append("/transactions");
    endpoint
}

/// Within the refresh window a request is a hit, after it a miss.
///
/// Let a response for `endpoint` be fetched at `t0` on a miss, with no refresh
/// forced. A request at `t` is then answered from the cache exactly if
/// `t - t0` is less than the refresh duration, and that answer is the payload
/// fetched at `t0`. The hit leaves the number of misses, and so of fetches,
/// as the first request left it.
pub proof fn lemma_fresh_within_window(
    cache: CacheView,
    endpoint: Seq<char>,
    payload: Seq<char>,
    t0: int,
    t: int,
)
    requires
        !cache.force_refresh,
    ensures
        ({
            let first = cache.missed().remembering(endpoint, payload, t0);
            &&& first.is_fresh(endpoint, t) <==> t - t0 < cache.refresh_duration
            &&& first.entries[endpoint].payload == payload
            &&& first.misses == bumped(cache.misses)
            &&& first.hit().misses == first.misses
            &&& !first.is_fresh(endpoint, t0 + cache.refresh_duration + 1)
        }),
{
}

/// While a refresh is forced nothing is fresh, and what a forced request
/// fetched is fresh again once the switch is off.
pub proof fn lemma_forced_refresh(
    cache: CacheView,
    endpoint: Seq<char>,
    payload: Seq<char>,
    t0: int,
    t: int,
)
    requires
        cache.force_refresh,
    ensures
        !cache.is_fresh(endpoint, t),
        ({
            let later = CacheView { force_refresh: false, ..cache.missed().remembering(endpoint, payload, t0) };
            later.is_fresh(endpoint, t) <==> t - t0 < cache.refresh_duration
        }),
{
}

/// A failed fetch destroys nothing: every endpoint keeps what was remembered.
pub proof fn lemma_failure_keeps_entries(
    cache: CacheView,
    endpoint: Seq<char>,
    error: TransportError,
    now: int,
)
    ensures
        cache.missed().settled(endpoint, Err(error), now).entries == cache.entries,
{
}

/// What a cache saves, a new cache restores: the same endpoints with the
/// same payloads and timestamps.
pub proof fn lemma_saved_is_restored(before: YnabApi, saved: Vec<CacheEntry>, after: YnabApi)
    requires
        entry_map(entry_views(saved@)) == before@.entries,
        after@.entries == entry_map(entry_views(saved@)),
    ensures
        after@.entries == before@.entries,
        forall|endpoint: Seq<char>| #[trigger]
            before@.entries.dom().contains(endpoint) ==> after@.entries.dom().contains(endpoint)
                && after@.entries[endpoint].payload == before@.entries[endpoint].payload
                && after@.entries[endpoint].fetched_at == before@.entries[endpoint].fetched_at,
{
}

/// The place of the entry for `endpoint`, if there is one.
fn position(cache: &Vec<CacheEntry>, endpoint: &str) -> (at: Option<usize>)
    ensures
        match at {
            Some(i) => holds_at(entry_views(cache@), endpoint@, i as int),
            None => forall|k: int| !holds_at(entry_views(cache@), endpoint@, k),
        },
{
    let mut i: usize = 0;
    while i < cache.len()
        invariant
            i <= cache.len(),
            forall|k: int| 0 <= k < i ==> !holds_at(entry_views(cache@), endpoint@, k),
        decreases cache.len() - i,
    {
        if same_text(cache[i].endpoint.as_str(), endpoint) {
            return Some(i);
        }
        i += 1;
    }
    None
}

} // verus!
