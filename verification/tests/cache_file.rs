use ynab_tui::data_layer::ynab_api::cache_file::{read_cache_file, write_cache_file};
use ynab_tui::data_layer::ynab_api::{CacheEntry, TransportError, YnabApi};

fn entry(endpoint: &str, payload: &str, fetched_at: i64) -> CacheEntry {
    CacheEntry { endpoint: endpoint.to_string(), payload: payload.to_string(), fetched_at }
}

fn offline(_: &str) -> Result<String, TransportError> {
    Err(TransportError { message: "offline".to_string() })
}

#[test]
fn no_entries_write_an_empty_object() {
    assert_eq!(write_cache_file(&Vec::new()), "{}");
    assert_eq!(read_cache_file("{}"), Some(Vec::new()));
}

#[test]
fn one_entry_is_written_as_a_member() {
    let entries = vec![entry("/budgets", "{\"a\":1}", 0)];
    assert_eq!(
        write_cache_file(&entries),
        "{\"/budgets\":{\"fetched_at\":\"1970-01-01T00:00:00+00:00\",\"payload\":\"{\\\"a\\\":1}\"}}"
    );
}

#[test]
fn entries_are_written_with_commas_between_them() {
    let entries = vec![entry("a", "1", 1_680_343_200_000), entry("b", "2", 1_500), entry("c", "", -500)];
    assert_eq!(
        write_cache_file(&entries),
        "{\"a\":{\"fetched_at\":\"2023-04-01T10:00:00+00:00\",\"payload\":\"1\"},\
          \"b\":{\"fetched_at\":\"1970-01-01T00:00:01.500+00:00\",\"payload\":\"2\"},\
          \"c\":{\"fetched_at\":\"1969-12-31T23:59:59.500+00:00\",\"payload\":\"\"}}"
    );
}

#[test]
fn an_entry_with_a_time_beyond_the_calendar_is_left_out() {
    let entries = vec![
        entry("first", "1", i64::MAX),
        entry("kept", "2", 0),
        entry("last", "3", i64::MIN),
    ];
    assert_eq!(
        write_cache_file(&entries),
        "{\"kept\":{\"fetched_at\":\"1970-01-01T00:00:00+00:00\",\"payload\":\"2\"}}"
    );
    assert_eq!(write_cache_file(&vec![entry("only", "1", i64::MAX)]), "{}");
}

#[test]
fn timestamps_are_read_with_their_offset() {
    let contents = "{\"/budgets\": {\"fetched_at\": \"2023-04-01T12:00:00+02:00\", \"payload\": \"p\"},\
                     \"/other\": {\"payload\": \"q\", \"fetched_at\": \"2023-04-01T10:00:00.250Z\", \"more\": 1}}";
    assert_eq!(
        read_cache_file(contents),
        Some(vec![entry("/budgets", "p", 1_680_343_200_000), entry("/other", "q", 1_680_343_200_250)])
    );
}

#[test]
fn what_is_written_is_read_back() {
    let entries = vec![
        entry("/budgets", "{\"data\":{\"budgets\":[]}}", 1_680_343_200_123),
        entry("/budgets/b1/transactions?last_knowledge_of_server=7", "line\nbreak \"quoted\" \\ \u{1f600}", -1),
        entry("", "", 0),
        entry("\u{e9}\t", "\u{0}", 253_402_300_799_999),
    ];
    let contents = write_cache_file(&entries);
    let mut read = read_cache_file(&contents).unwrap();
    read.sort_by(|a, b| a.fetched_at.cmp(&b.fetched_at));
    let mut expected = entries;
    expected.sort_by(|a, b| a.fetched_at.cmp(&b.fetched_at));
    assert_eq!(read, expected);
}

#[test]
fn a_cache_survives_a_restart() {
    let mut api = YnabApi::new(None, 1000);
    for (i, endpoint) in ["/budgets", "/budgets/b1/accounts", "/budgets/b1/transactions"].iter().enumerate() {
        api.get(endpoint, &|e: &str| Ok(format!("payload of {e}")), 100 + i as i64).unwrap();
    }
    let contents = write_cache_file(&api.saved());

    let mut restarted = YnabApi::restore(Some(contents.as_str()), 1000);
    assert_eq!(restarted.len(), 3);
    let mut saved = restarted.saved();
    saved.sort_by(|a, b| a.fetched_at.cmp(&b.fetched_at));
    assert_eq!(saved, api.saved());
    assert_eq!((restarted.cache_hit(), restarted.cache_miss()), (0, 0));
    assert_eq!(
        restarted.get("/budgets/b1/accounts", &offline, 1100),
        Ok("payload of /budgets/b1/accounts".to_string())
    );
    assert!(restarted.get("/budgets/b1/accounts", &offline, 1101).is_err());
}

#[test]
fn a_damaged_file_restores_the_empty_cache() {
    for contents in [
        "",
        "{",
        "not json",
        "[]",
        "null",
        "{\"/budgets\": 1}",
        "{\"/budgets\": {\"fetched_at\": \"2023-04-01T12:00:00+02:00\"}}",
        "{\"/budgets\": {\"payload\": \"p\"}}",
        "{\"/budgets\": {\"fetched_at\": \"yesterday\", \"payload\": \"p\"}}",
        "{\"/budgets\": {\"fetched_at\": \"2023-04-01\", \"payload\": \"p\"}}",
        "{\"/budgets\": {\"fetched_at\": 5, \"payload\": \"p\"}}",
        "{\"/budgets\": {\"fetched_at\": \"2023-04-01T12:00:00+02:00\", \"payload\": {}}}",
        "{\"ok\": {\"fetched_at\": \"2023-04-01T12:00:00Z\", \"payload\": \"p\"}, \"bad\": {}}",
        "{\"/budgets\": {\"datetime\": \"2023-04-01T12:00:00+02:00\", \"response_json\": \"p\"}}",
    ] {
        assert_eq!(read_cache_file(contents), None, "{contents}");
        let mut api = YnabApi::restore(Some(contents), 1000);
        assert_eq!(api.len(), 0, "{contents}");
        assert!(api.get("/budgets", &offline, 0).is_err());
    }
    assert_eq!(YnabApi::restore(None, 1000).len(), 0);
}
