use codex_support::history::entry::HistoryConfig;
use codex_support::history::entry::HistoryEntry;
use codex_support::history::entry::Role;
use codex_support::history::export::export_entries;
use codex_support::history::export::ExportFormat;
use codex_support::history::rotation::rotate_entries_at;
use codex_support::history::search::search_entries;
use codex_support::history::search::SearchQuery;
use codex_support::history::session::SessionHistory;
use codex_support::history::storage::entries_of_records;
use codex_support::history::storage::entry_to_json;
use codex_support::history::storage::line_to_store;
use codex_support::history::storage::text_to_store;
use codex_support::history::storage::StorageBackend;
use codex_support::time::Fraction;
use codex_support::time::Timestamp;

/// 2024-02-29 12:34:56 UTC.
const NOON: i64 = 1_709_210_096;

fn at(secs: i64, nanos: u32) -> Timestamp {
    Timestamp::new(secs, nanos).unwrap()
}

fn entry(id: u64, session_id: &str, role: Role, content: &str, timestamp: Timestamp) -> HistoryEntry {
    HistoryEntry {
        id,
        session_id: session_id.to_string(),
        timestamp,
        role,
        content: content.to_string(),
        token_count: None,
        metadata: None,
    }
}

fn config(max_entries: usize, max_bytes: usize, max_age_seconds: u64) -> HistoryConfig {
    HistoryConfig {
        max_entries_in_memory: max_entries,
        max_bytes_in_memory: max_bytes,
        max_age_seconds,
        storage_path: None,
    }
}

fn ids(entries: &[HistoryEntry]) -> Vec<u64> {
    entries.iter().map(|e| e.id).collect()
}

fn found_ids(entries: &[&HistoryEntry]) -> Vec<u64> {
    entries.iter().map(|e| e.id).collect()
}

#[test]
fn timestamps_exist_within_the_range_of_dates() {
    assert!(Timestamp::new(-8_334_601_228_800, 0).is_some());
    assert!(Timestamp::new(-8_334_601_228_801, 0).is_none());
    assert!(Timestamp::new(8_210_266_876_799, 1_999_999_999).is_some());
    assert!(Timestamp::new(8_210_266_876_800, 0).is_none());
    assert!(Timestamp::new(0, 2_000_000_000).is_none());
    assert!(Timestamp::new(0, 1_000_000_000).is_none());
    assert!(Timestamp::new(59, 1_000_000_000).is_some());
    assert!(Timestamp::new(-1, 1_000_000_000).is_some());
    assert_eq!(
        chrono::DateTime::from_timestamp(-8_334_601_228_800, 0).is_some(),
        Timestamp::new(-8_334_601_228_800, 0).is_some()
    );
    assert_eq!(
        chrono::DateTime::from_timestamp(-8_334_601_228_801, 0).is_some(),
        Timestamp::new(-8_334_601_228_801, 0).is_some()
    );
    assert_eq!(
        chrono::DateTime::from_timestamp(8_210_266_876_800, 0).is_some(),
        Timestamp::new(8_210_266_876_800, 0).is_some()
    );
}

#[test]
fn current_time_is_that_of_the_clock() {
    let before = chrono::Utc::now().timestamp();
    let now = Timestamp::now();
    let after = chrono::Utc::now().timestamp();
    assert!(before <= now.seconds() && now.seconds() <= after);
    assert!(now.nanoseconds() < 1_000_000_000);
}

#[test]
fn timestamps_are_written_as_rfc3339() {
    assert_eq!(at(NOON, 0).to_rfc3339(Fraction::Omitted), "2024-02-29T12:34:56Z");
    assert_eq!(at(NOON, 0).to_rfc3339(Fraction::AsNeeded), "2024-02-29T12:34:56Z");
    assert_eq!(
        at(NOON, 120_000_000).to_rfc3339(Fraction::AsNeeded),
        "2024-02-29T12:34:56.120Z"
    );
    assert_eq!(
        at(NOON, 7_000).to_rfc3339(Fraction::AsNeeded),
        "2024-02-29T12:34:56.000007Z"
    );
    assert_eq!(at(NOON, 7).to_rfc3339(Fraction::Omitted), "2024-02-29T12:34:56Z");
    assert_eq!(at(NOON, 7).to_readable(), "2024-02-29 12:34:56 UTC");
}

#[test]
fn timestamps_are_ordered() {
    assert!(at(1, 5).is_before(&at(2, 0)));
    assert!(at(1, 5).is_before(&at(1, 6)));
    assert!(!at(1, 5).is_before(&at(1, 5)));
    assert!(!at(2, 0).is_before(&at(1, 999)));
}

#[test]
fn age_counts_whole_time() {
    assert!(!at(100, 0).is_older_than(&at(160, 0), 60));
    assert!(at(100, 0).is_older_than(&at(160, 1), 60));
    assert!(!at(100, 1).is_older_than(&at(160, 0), 60));
    assert!(!at(160, 0).is_older_than(&at(100, 0), 0));
    assert!(!at(160, 0).is_older_than(&at(159, 999_999_999), 0));
    assert!(!at(0, 0).is_older_than(&at(NOON, 0), u64::MAX));
}

#[test]
fn age_counts_leap_seconds_as_dates_do() {
    // Half a second into a leap second, and ten seconds of the next minute.
    let leap = at(59, 1_500_000_000);
    let later = at(70, 0);
    assert!(leap.is_older_than(&later, 10));
    assert!(!leap.is_older_than(&later, 11));
    let chrono_age = chrono::DateTime::from_timestamp(70, 0)
        .unwrap()
        .signed_duration_since(chrono::DateTime::from_timestamp(59, 1_500_000_000).unwrap());
    assert_eq!(chrono_age.num_milliseconds(), 10_500);
}

#[test]
fn default_configuration() {
    let config = HistoryConfig::default();
    assert_eq!(config.max_entries_in_memory, 1000);
    assert_eq!(config.max_bytes_in_memory, 10 * 1024 * 1024);
    assert_eq!(config.max_age_seconds, 86400);
    assert_eq!(config.storage_path, None);
}

#[test]
fn oldest_entries_go_first_and_no_more_than_needed() {
    let mut history = SessionHistory::new(config(10, 12, 60));
    for content in ["aaaa", "bbbb", "cccc", "dddd"] {
        history.add_entry_at(
            "s".to_string(),
            Role::User,
            content.to_string(),
            None,
            None,
            at(NOON, 0),
        );
    }
    assert_eq!(ids(history.entries()), vec![2, 3, 4]);
    assert_eq!(history.total_bytes(), 12);
}

#[test]
fn each_session_has_its_own_number_of_entries() {
    let mut history = SessionHistory::new(config(1, 1_000_000, 86400));
    assert_eq!(history.add_entry("s1".to_string(), Role::User, "a".to_string(), None, None), 1);
    assert_eq!(history.add_entry("s2".to_string(), Role::User, "b".to_string(), None, None), 2);
    assert_eq!(found_ids(&history.get_session_entries("s1")), vec![1]);
    assert_eq!(found_ids(&history.get_session_entries("s2")), vec![2]);

    let mut history = SessionHistory::new(config(2, 10, 60));
    for (session, content) in [("a", "1"), ("b", "22"), ("a", "3"), ("b", "44"), ("a", "5")] {
        history.add_entry(session.to_string(), Role::User, content.to_string(), None, None);
    }
    assert_eq!(ids(history.entries()), vec![2, 3, 4, 5]);
    assert_eq!(history.total_bytes(), 6);
    // The bytes are those of all sessions.
    history.add_entry("c".to_string(), Role::User, "666666".to_string(), None, None);
    assert_eq!(ids(history.entries()), vec![3, 4, 5, 6]);
    assert_eq!(history.total_bytes(), 10);
    // Rotation counts all entries.
    history.rotate();
    assert_eq!(ids(history.entries()), vec![5, 6]);
    assert_eq!(history.total_bytes(), 7);
}

#[test]
fn bytes_are_counted_not_characters() {
    let mut history = SessionHistory::new(config(10, 100, 60));
    history.add_entry("s".to_string(), Role::User, "h\u{e9}\u{4e16}".to_string(), None, None);
    assert_eq!(history.total_bytes(), 6);
}

#[test]
fn entry_beyond_the_limits_does_not_stay() {
    let mut history = SessionHistory::new(config(10, 3, 60));
    let id = history.add_entry("s".to_string(), Role::User, "abcd".to_string(), None, None);
    assert_eq!(id, 1);
    assert!(history.is_empty());
    assert_eq!(history.total_bytes(), 0);
    let id = history.add_entry("s".to_string(), Role::User, "abc".to_string(), None, None);
    assert_eq!(id, 2);
    assert_eq!(ids(history.entries()), vec![2]);

    let mut none = SessionHistory::new(config(0, 100, 60));
    none.add_entry("s".to_string(), Role::User, String::new(), None, None);
    assert!(none.is_empty());
}

#[test]
fn ids_go_on_after_clearing() {
    let mut history = SessionHistory::new(config(10, 100, 60));
    history.add_entry("s".to_string(), Role::User, "a".to_string(), None, None);
    history.clear_all();
    let id = history.add_entry("s".to_string(), Role::User, "b".to_string(), None, None);
    assert_eq!(id, 2);
    assert!(history.get_entry(1).is_none());
    assert_eq!(history.get_entry(2).unwrap().content, "b");
}

#[test]
fn clearing_a_session_keeps_the_others() {
    let mut history = SessionHistory::new(config(10, 100, 60));
    for (session, content) in [("a", "1"), ("b", "22"), ("a", "333"), ("b", "4444")] {
        history.add_entry(session.to_string(), Role::User, content.to_string(), None, None);
    }
    history.clear_session("a");
    assert!(history.get_session_entries("a").is_empty());
    assert_eq!(found_ids(&history.get_session_entries("b")), vec![2, 4]);
    assert_eq!(history.total_bytes(), 6);
}

#[test]
fn newest_entry_is_stored_where_there_is_a_file() {
    let mut history = SessionHistory::new(HistoryConfig {
        storage_path: Some("dir/history.jsonl".to_string()),
        ..config(2, 3, 60)
    });
    assert_eq!(history.storage().unwrap().path(), "dir/history.jsonl");
    assert!(history.entry_to_store().is_none());
    history.add_entry("s".to_string(), Role::User, "abc".to_string(), None, None);
    assert_eq!(history.entry_to_store().unwrap().id, 1);
    history.add_entry("s".to_string(), Role::User, "toolong".to_string(), None, None);
    assert!(history.entry_to_store().is_none());

    let mut unstored = SessionHistory::new(config(2, 3, 60));
    unstored.add_entry("s".to_string(), Role::User, "abc".to_string(), None, None);
    assert!(unstored.storage().is_none());
    assert!(unstored.entry_to_store().is_none());
}

#[test]
fn storage_file_that_is_empty_goes() {
    let storage = StorageBackend::new("history.jsonl");
    assert_eq!(storage.path(), "history.jsonl");
    assert!(storage.removes_on_compaction(0));
    assert!(!storage.removes_on_compaction(1));
}

#[test]
fn rotation_is_by_age_then_number_then_bytes() {
    let mut entries = vec![
        entry(1, "s", Role::User, "old", at(NOON - 61, 0)),
        entry(2, "s", Role::User, "four", at(NOON - 60, 0)),
        entry(3, "s", Role::User, "old too", at(NOON - 100, 0)),
        entry(4, "s", Role::User, "four", at(NOON - 2, 0)),
        entry(5, "s", Role::User, "four", at(NOON - 1, 0)),
        entry(6, "s", Role::User, "four", at(NOON + 5, 0)),
    ];
    let mut total: usize = entries.iter().map(|e| e.content.len()).sum();
    let result = rotate_entries_at(&mut entries, &mut total, &config(3, 8, 60), &at(NOON, 0));
    assert_eq!(ids(&entries), vec![5, 6]);
    assert_eq!(total, 8);
    assert_eq!(result.entries_removed, 4);
    assert_eq!(result.entries_remaining, 2);
    assert_eq!(result.bytes_freed, 18);

    let again = rotate_entries_at(&mut entries, &mut total, &config(3, 8, 60), &at(NOON, 0));
    assert_eq!(again.entries_removed, 0);
    assert_eq!(again.bytes_freed, 0);
    assert_eq!(ids(&entries), vec![5, 6]);
}

#[test]
fn rotation_does_not_free_more_than_is_on_record() {
    let mut entries = vec![entry(1, "s", Role::User, "12345678", at(NOON - 61, 0))];
    let mut total: usize = 5;
    let result = rotate_entries_at(&mut entries, &mut total, &config(3, 8, 60), &at(NOON, 0));
    assert!(entries.is_empty());
    assert_eq!(total, 0);
    assert_eq!(result.bytes_freed, 5);
}

#[test]
fn age_without_bound_rotates_nothing() {
    let mut entries = vec![entry(1, "s", Role::User, "x", at(0, 0))];
    let mut total: usize = 1;
    let result =
        rotate_entries_at(&mut entries, &mut total, &config(3, 8, u64::MAX), &at(NOON, 0));
    assert_eq!(result.entries_removed, 0);
    assert_eq!(ids(&entries), vec![1]);
    let beyond_durations: u64 = 1 << 62;
    let result =
        rotate_entries_at(&mut entries, &mut total, &config(3, 8, beyond_durations), &at(NOON, 0));
    assert_eq!(result.entries_removed, 0);
    assert_eq!(ids(&entries), vec![1]);
}

#[test]
fn history_rotates() {
    let mut history = SessionHistory::new(config(10, 100, 60));
    for (age, content) in [(120, "old"), (10, "new")] {
        history.add_entry_at(
            "s".to_string(),
            Role::User,
            content.to_string(),
            None,
            None,
            at(NOON - age, 0),
        );
    }
    let result = history.rotate_at(&at(NOON, 0));
    assert_eq!(result.entries_removed, 1);
    assert_eq!(result.bytes_freed, 3);
    assert_eq!(ids(history.entries()), vec![2]);
    // All entries are years old by now.
    let result = history.rotate();
    assert_eq!(result.entries_remaining, 0);
    assert!(history.is_empty());
}

#[test]
fn search_leaves_out_the_ends_of_the_time_range() {
    let entries = vec![
        entry(1, "s", Role::User, "a", at(NOON - 1, 0)),
        entry(2, "s", Role::User, "a", at(NOON, 0)),
        entry(3, "s", Role::User, "a", at(NOON + 1, 0)),
    ];
    let mut query = SearchQuery::new();
    query.after = Some(at(NOON, 0));
    assert_eq!(found_ids(&search_entries(&entries, &query)), vec![3]);
    query.before = Some(at(NOON, 0));
    assert!(search_entries(&entries, &query).is_empty());
    query.after = None;
    assert_eq!(found_ids(&search_entries(&entries, &query)), vec![1]);
    query.after = Some(at(NOON - 1, 0));
    query.before = Some(at(NOON + 1, 0));
    assert_eq!(found_ids(&search_entries(&entries, &query)), vec![2]);
    query.after = Some(at(NOON - 1, 999_999_999));
    query.before = Some(at(NOON, 1));
    assert_eq!(found_ids(&search_entries(&entries, &query)), vec![2]);
}

#[test]
fn search_combines_all_that_is_asked_for() {
    let mut history = SessionHistory::new(config(10, 1000, 60));
    for (session, role, content) in [
        ("a", Role::User, "Stra\u{df}e \u{c4}PFEL"),
        ("a", Role::Tool, "\u{e4}pfel"),
        ("b", Role::Tool, "\u{c4}pfel"),
        ("a", Role::Tool, "\u{c4}PFEL und mehr"),
        ("a", Role::Tool, "birne"),
    ] {
        history.add_entry(session.to_string(), role, content.to_string(), None, None);
    }
    let query = SearchQuery::new()
        .with_text("\u{c4}pfel")
        .with_role(Role::Tool)
        .with_session_id("a");
    assert_eq!(found_ids(&history.search(&query)), vec![2, 4]);
    assert_eq!(found_ids(&history.search(&query.clone().with_limit(1))), vec![2]);
    assert_eq!(found_ids(&history.search(&query.clone().with_limit(9))), vec![2, 4]);
    assert!(history.search(&query.with_limit(0)).is_empty());
}

#[test]
fn entries_are_stored_as_lines_of_json() {
    let mut first = entry(7, "s\n1", Role::Assistant, "say \"hi\"\n", at(NOON, 500_000_000));
    first.token_count = Some(42);
    assert_eq!(
        entry_to_json(&first),
        "{\"id\":7,\"session_id\":\"s\\n1\",\"timestamp\":\"2024-02-29T12:34:56.500Z\",\
         \"role\":\"assistant\",\"content\":\"say \\\"hi\\\"\\n\",\"token_count\":42,\
         \"metadata\":null}"
    );
    let mut second = entry(18446744073709551615, "", Role::System, "", at(0, 0));
    let mut object = serde_json::Map::new();
    object.insert("b".to_string(), serde_json::Value::from(vec![1, 2]));
    object.insert("a".to_string(), serde_json::Value::Null);
    second.metadata = Some(serde_json::Value::Object(object));
    assert_eq!(
        entry_to_json(&second),
        "{\"id\":18446744073709551615,\"session_id\":\"\",\"timestamp\":\"1970-01-01T00:00:00Z\",\
         \"role\":\"system\",\"content\":\"\",\"token_count\":null,\
         \"metadata\":{\"a\":null,\"b\":[1,2]}}"
    );
    let both = [first.clone(), second.clone()];
    let text = text_to_store(&both);
    assert_eq!(text, line_to_store(&first) + &line_to_store(&second));
    let lines: Vec<&str> = text.lines().collect();
    assert_eq!(lines, vec![entry_to_json(&first), entry_to_json(&second)]);
    let parsed: serde_json::Value = serde_json::from_str(lines[0]).unwrap();
    assert_eq!(parsed["id"], 7);
    assert_eq!(parsed["session_id"], "s\n1");
    assert_eq!(parsed["content"], "say \"hi\"\n");
    assert_eq!(parsed["token_count"], 42);
    assert_eq!(text_to_store(&[]), "");
    let control = entry(1, "\u{1}\u{8}\t\n\u{c}\r\u{1f}\u{7f}\\/\u{e9}", Role::User, "", at(0, 0));
    assert!(entry_to_json(&control).contains(
        "\"session_id\":\"\\u0001\\b\\t\\n\\f\\r\\u001f\u{7f}\\\\/\u{e9}\""
    ));
}

#[test]
fn stored_entries_are_loaded_and_other_lines_passed_over() {
    let known = [
        entry(1, "a", Role::User, "one\ntwo", at(NOON, 0)),
        entry(2, "b", Role::Tool, "\"three\"", at(NOON, 1)),
    ];
    let read = |text: &str| -> Vec<Option<HistoryEntry>> {
        text.lines()
            .map(|line| {
                let value: serde_json::Value = serde_json::from_str(line).ok()?;
                known
                    .iter()
                    .find(|e| value["id"] == e.id && value["content"] == e.content.as_str())
                    .cloned()
            })
            .collect()
    };
    let mut stored = text_to_store(&known[..1]);
    assert_eq!(ids(&entries_of_records(read(&stored))), vec![1]);
    stored.push_str("{\"id\":\n\n");
    stored.push_str(&line_to_store(&known[1]));
    let loaded = entries_of_records(read(&stored));
    assert_eq!(read(&stored).len(), 4);
    assert_eq!(ids(&loaded), vec![1, 2]);
    assert_eq!(loaded[0].content, "one\ntwo");
    assert_eq!(loaded[1].content, "\"three\"");
    assert!(entries_of_records(vec![None, None]).is_empty());
}

#[test]
fn names_of_roles() {
    for (role, name) in [
        (Role::User, "user"),
        (Role::Assistant, "assistant"),
        (Role::System, "system"),
        (Role::Tool, "tool"),
    ] {
        let json = entry_to_json(&entry(1, "s", role, "", at(0, 0)));
        let parsed: serde_json::Value = serde_json::from_str(&json).unwrap();
        assert_eq!(parsed["role"], name);
    }
}

#[test]
fn json_export_is_laid_out() {
    let mut with_metadata = entry(2, "s", Role::Tool, "x", at(NOON, 0));
    with_metadata.metadata = Some(serde_json::Value::from(vec![
        serde_json::Value::from("a\nb"),
        serde_json::Value::Array(Vec::new()),
    ]));
    let entries = vec![entry(1, "s", Role::User, "hi", at(NOON, 0)), with_metadata];
    let expected = "[\n  {\n    \"id\": 1,\n    \"session_id\": \"s\",\n    \
                    \"timestamp\": \"2024-02-29T12:34:56Z\",\n    \"role\": \"user\",\n    \
                    \"content\": \"hi\",\n    \"token_count\": null,\n    \"metadata\": null\n  },\n  \
                    {\n    \"id\": 2,\n    \"session_id\": \"s\",\n    \
                    \"timestamp\": \"2024-02-29T12:34:56Z\",\n    \"role\": \"tool\",\n    \
                    \"content\": \"x\",\n    \"token_count\": null,\n    \"metadata\": [\n      \
                    \"a\\nb\",\n      []\n    ]\n  }\n]";
    let json = export_entries(&entries, ExportFormat::Json).unwrap();
    assert_eq!(json, expected);
    let parsed: serde_json::Value = serde_json::from_str(&json).unwrap();
    assert_eq!(parsed[1]["metadata"][0], "a\nb");
}

#[test]
fn markdown_export_has_a_header_for_each_change_of_session() {
    let entries = vec![
        entry(1, "a", Role::User, "one", at(NOON, 0)),
        entry(2, "a", Role::Assistant, "two", at(NOON, 0)),
        entry(3, "b", Role::System, "three", at(NOON, 0)),
        entry(4, "a", Role::Tool, "four", at(NOON, 0)),
    ];
    assert_eq!(
        export_entries(&entries, ExportFormat::Markdown).unwrap(),
        "# Session History\n\n\
         ## Session: a\n\n\
         ### **User** (2024-02-29 12:34:56 UTC)\n\none\n\n---\n\n\
         ### **Assistant** (2024-02-29 12:34:56 UTC)\n\ntwo\n\n---\n\n\
         ## Session: b\n\n\
         ### **System** (2024-02-29 12:34:56 UTC)\n\nthree\n\n---\n\n\
         ## Session: a\n\n\
         ### **Tool** (2024-02-29 12:34:56 UTC)\n\nfour\n\n---\n\n"
    );
}

#[test]
fn history_exports_what_it_holds() {
    let mut history = SessionHistory::new(config(10, 100, 60));
    assert_eq!(history.export(ExportFormat::Json).unwrap(), "[]");
    assert_eq!(history.export(ExportFormat::Markdown).unwrap(), "# Session History\n\n");
    history.add_entry_at(
        "s".to_string(),
        Role::User,
        "hi".to_string(),
        Some(1),
        None,
        at(NOON, 0),
    );
    assert_eq!(
        history.export(ExportFormat::Markdown).unwrap(),
        "# Session History\n\n## Session: s\n\n### **User** (2024-02-29 12:34:56 UTC)\n\nhi\n\n---\n\n"
    );
}
