//! The cache file: one JSON document that maps each endpoint to the time of
//! its last fetch and to the payload that the fetch gave.
//!
//! ```text
//! {"/budgets":{"fetched_at":"2023-04-01T10:00:00+00:00","payload":"..."}}
//! ```
//!
//! Reading and writing the file itself is the caller's business: this module
//! turns the contents of the file into entries and entries into contents.

use vstd::prelude::*;
use crate::data_layer::json::{Json, parsed_json};
use crate::data_layer::ynab_api::{CacheEntry, EntryView, Stored, YnabApi, entry_map, entry_views};

verus! {

/// The time that an RFC 3339 timestamp gives, in milliseconds since the
/// Unix epoch; nothing where the text is no such timestamp.
pub uninterp spec fn rfc3339_millis(text: Seq<char>) -> Option<i64>;

/// The RFC 3339 timestamp of a time in milliseconds since the Unix epoch;
/// nothing where the time is out of the range of the calendar.
pub uninterp spec fn millis_rfc3339(millis: i64) -> Option<Seq<char>>;

/// A text as a JSON string: in quotes, with what needs it escaped.
pub uninterp spec fn json_quoted(text: Seq<char>) -> Seq<char>;

/// Calls `chrono::DateTime::parse_from_rfc3339` and takes the
/// `timestamp_millis` of what it gives. The contract only gives the outcome
/// its name, [`rfc3339_millis`]: the same text always gives the same time.
#[verifier::external_body]
fn parse_rfc3339(text: &str) -> (millis: Option<i64>)
    ensures
        millis == rfc3339_millis(text@),
{
    match chrono::DateTime::parse_from_rfc3339(text) {
        Ok(time) => Some(time.timestamp_millis()),
        Err(_) => None,
    }
}

/// Calls `chrono::DateTime::from_timestamp_millis` and takes the
/// `to_rfc3339` of what it gives. The contract only gives the outcome its
/// name, [`millis_rfc3339`]: the same time always gives the same text.
#[verifier::external_body]
fn format_rfc3339(millis: i64) -> (text: Option<String>)
    ensures
        crate::data_layer::text::opt_text(text) == millis_rfc3339(millis),
{
    match chrono::DateTime::from_timestamp_millis(millis) {
        Some(time) => Some(time.to_rfc3339()),
        None => None,
    }
}

/// Writes a text as a JSON string with `serde_json`: the `to_string` of a
/// `serde_json::Value::String`. The contract only gives the outcome its
/// name, [`json_quoted`]: the same text always gives the same string.
#[verifier::external_body]
fn quote_json(text: &str) -> (quoted: String)
    ensures
        quoted@ == json_quoted(text@),
{
    serde_json::Value::String(text.to_owned()).to_string()
}

/// The entry that one member of the document holds: the name of the member
/// is the endpoint, and its value is an object with the timestamp under
/// `fetched_at` and the payload under `payload`, both strings.
pub open spec fn entry_in(member: (String, Json)) -> Option<EntryView> {
    match (member.1.field("fetched_at"@), member.1.field("payload"@)) {
        (Some(Json::Text(stamp)), Some(Json::Text(payload))) => match rfc3339_millis(stamp@) {
            Some(millis) => Some(
                EntryView {
                    endpoint: member.0@,
                    stored: Stored { payload: payload@, fetched_at: millis as int },
                },
            ),
            None => None,
        },
        _ => None,
    }
}

/// The entries that the members of the document hold, in their order;
/// nothing where one of the members holds no entry.
pub open spec fn entries_in(members: Seq<(String, Json)>) -> Option<Seq<EntryView>>
    decreases members.len(),
{
    if members.len() == 0 {
        Some(Seq::empty())
    } else {
        match (entries_in(members.drop_last()), entry_in(members.last())) {
            (Some(front), Some(entry)) => Some(front.push(entry)),
            _ => None,
        }
    }
}

/// The entries that the contents of a cache file hold; nothing where the
/// contents are not JSON, not an object, or hold a member that is no entry.
pub open spec fn stored_in(contents: Seq<char>) -> Option<Seq<EntryView>> {
    match parsed_json(contents) {
        Some(Json::Object(members)) => entries_in(members@),
        _ => None,
    }
}

/// Reads the entry that one member of the document holds.
fn read_entry(endpoint: &String, value: &Json) -> (entry: Option<CacheEntry>)
    ensures
        match entry {
            Some(e) => entry_in((*endpoint, *value)) == Some(e@),
            None => entry_in((*endpoint, *value)) is None,
        },
{
    match (value.get("fetched_at"), value.get("payload")) {
        (Some(Json::Text(stamp)), Some(Json::Text(payload))) => match parse_rfc3339(stamp.as_str()) {
            Some(millis) => Some(
                CacheEntry {
                    endpoint: endpoint.clone(),
                    payload: payload.clone(),
                    fetched_at: millis,
                },
            ),
            None => None,
        },
        _ => None,
    }
}

/// Reads the contents of a cache file.
pub fn read_cache_file(contents: &str) -> (entries: Option<Vec<CacheEntry>>)
    ensures
        match entries {
            Some(e) => stored_in(contents@) == Some(entry_views(e@)),
            None => stored_in(contents@) is None,
        },
{
    match Json::parse(contents) {
        Some(Json::Object(members)) => {
            let mut entries: Vec<CacheEntry> = Vec::new();
            let mut i: usize = 0;
            proof {
                assert(entry_views(entries@) =~= Seq::<EntryView>::empty());
            }
            while i < members.len()
                invariant
                    i <= members.len(),
                    stored_in(contents@) == entries_in(members@),
                    entries_in(members@.take(i as int)) == Some(entry_views(entries@)),
                decreases members.len() - i,
            {
                proof {
                    let next = members@.take(i as int + 1);
                    assert(next.drop_last() =~= members@.take(i as int));
                    assert(next.last() == members@[i as int]);
                }
                match read_entry(&members[i].0, &members[i].1) {
                    None => {
                        proof {
                            lemma_entries_in_stays_none(members@, i as int + 1);
                        }
                        return None;
                    },
                    Some(entry) => {
                        let ghost before = entry_views(entries@);
                        entries.push(entry);
                        proof {
                            assert(entry_views(entries@) =~= before.push(entry@));
                        }
                    },
                }
                i += 1;
            }
            proof {
                assert(members@.take(members.len() as int) =~= members@);
            }
            Some(entries)
        },
        _ => None,
    }
}

/// Once a member holds no entry, no more members mend that.
proof fn lemma_entries_in_stays_none(members: Seq<(String, Json)>, k: int)
    requires
        0 <= k <= members.len(),
        entries_in(members.take(k)) is None,
    ensures
        entries_in(members) is None,
    decreases members.len() - k,
{
    if k < members.len() {
        let next = members.take(k + 1);
        assert(next.drop_last() =~= members.take(k));
        lemma_entries_in_stays_none(members, k + 1);
    } else {
        assert(members.take(k) =~= members);
    }
}

/// What one entry writes into the document; nothing where its time is out of
/// the range of the calendar.
pub open spec fn member_text(entry: CacheEntry) -> Option<Seq<char>> {
    match millis_rfc3339(entry.fetched_at) {
        None => None,
        Some(stamp) => Some(
            json_quoted(entry.endpoint@) + ":{\"fetched_at\":"@ + json_quoted(stamp)
                + ",\"payload\":"@ + json_quoted(entry.payload@) + "}"@,
        ),
    }
}

/// How many of the entries write something into the document.
pub open spec fn written(entries: Seq<CacheEntry>) -> nat
    decreases entries.len(),
{
    if entries.len() == 0 {
        0
    } else {
        let here: nat = if member_text(entries.last()) is Some {
            1
        } else {
            0
        };
        written(entries.drop_last()) + here
    }
}

/// What the entries write into the document, with commas between them.
pub open spec fn members_text(entries: Seq<CacheEntry>) -> Seq<char>
    decreases entries.len(),
{
    if entries.len() == 0 {
        Seq::empty()
    } else {
        let front = members_text(entries.drop_last());
        match member_text(entries.last()) {
            None => front,
            Some(text) => if written(entries.drop_last()) == 0 {
                front + text
            } else {
                front + ","@ + text
            },
        }
    }
}

/// The contents of the cache file that holds the entries.
pub open spec fn file_text(entries: Seq<CacheEntry>) -> Seq<char> {
    "{"@ + members_text(entries) + "}"@
}

/// Writes the contents of the cache file that holds the entries. An entry
/// whose time is out of the range of the calendar is left out.
pub fn write_cache_file(entries: &Vec<CacheEntry>) -> (contents: String)
    ensures
        contents@ == file_text(entries@),
{
    let mut contents = "{".to_owned();
    let mut any = false;
    let mut i: usize = 0;
    proof {
        assert("{"@ + members_text(entries@.take(0)) =~= "{"@);
    }
    while i < entries.len()
        invariant
            i <= entries.len(),
            contents@ == "{"@ + members_text(entries@.take(i as int)),
            any == (written(entries@.take(i as int)) > 0),
        decreases entries.len() - i,
    {
        let entry = &entries[i];
        let ghost before = members_text(entries@.take(i as int));
        proof {
            let next = entries@.take(i as int + 1);
            assert(next.drop_last() =~= entries@.take(i as int));
            assert(next.last() == *entry);
        }
        match format_rfc3339(entry.fetched_at) {
            None => {},
            Some(stamp) => {
                if any {
                    contents.append(",");
                }
                let endpoint = quote_json(entry.endpoint.as_str());
                let time = quote_json(stamp.as_str());
                let payload = quote_json(entry.payload.as_str());
                contents.append(endpoint.as_str());
                contents.append(":{\"fetched_at\":");
                contents.append(time.as_str());
                contents.append(",\"payload\":");
                contents.append(payload.as_str());
                contents.append("}");
                proof {
                    let text = member_text(*entry)->Some_0;
                    if any {
                        assert(contents@ =~= "{"@ + (before + ","@ + text));
                    } else {
                        assert(contents@ =~= "{"@ + (before + text));
                    }
                }
                any = true;
            },
        }
        i += 1;
    }
    proof {
        assert(entries@.take(entries.len() as int) =~= entries@);
    }
    contents.append("}");
    contents
}

impl YnabApi {
    /// The cache that a cache file restores. `contents` is what the file
    /// holds, or `None` where there is no file. A file that cannot be read
    /// as a cache file restores the empty cache: a damaged cache never stands
    /// in the way.
    pub fn restore(contents: Option<&str>, refresh_duration: i64) -> (api: YnabApi)
        ensures
            api@.entries == (match contents {
                Some(text) => match stored_in(text@) {
                    Some(entries) => entry_map(entries),
                    None => Map::<Seq<char>, Stored>::empty(),
                },
                None => Map::<Seq<char>, Stored>::empty(),
            }),
            api@.hits == 0,
            api@.misses == 0,
            api@.refresh_duration == refresh_duration,
            !api@.force_refresh,
    {
        match contents {
            None => YnabApi::new(None, refresh_duration),
            Some(text) => YnabApi::new(read_cache_file(text), refresh_duration),
        }
    }
}

/// A cache file that is not JSON restores the empty cache.
pub proof fn lemma_damaged_file_is_empty(contents: Seq<char>)
    requires
        parsed_json(contents) is None,
    ensures
        stored_in(contents) is None,
{
}

} // verus!
