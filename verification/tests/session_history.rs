use codex_support::history::entry::HistoryConfig;
use codex_support::history::entry::HistoryEntry;
use codex_support::history::entry::Role;
use codex_support::history::export::export_entries;
use codex_support::history::export::ExportFormat;
use codex_support::history::rotation::rotate_entries;
use codex_support::history::search::search_entries;
use codex_support::history::search::SearchQuery;
use codex_support::history::session::SessionHistory;
use codex_support::time::Timestamp;

fn seconds_ago(seconds: i64) -> Timestamp {
    let now = Timestamp::now();
    Timestamp::new(now.seconds() - seconds, now.nanoseconds()).unwrap()
}

fn make_config(max_entries: usize, max_bytes: usize) -> HistoryConfig {
    HistoryConfig {
        max_entries_in_memory: max_entries,
        max_bytes_in_memory: max_bytes,
        max_age_seconds: 86400,
        storage_path: None,
    }
}

#[test]
fn test_add_and_retrieve_entry() {
    let mut history = SessionHistory::new(make_config(100, 1_000_000));
    let id = history.add_entry(
        "session-1".to_string(),
        Role::User,
        "Hello, world!".to_string(),
        Some(3),
        None,
    );
    assert_eq!(id, 1);
    assert_eq!(history.len(), 1);

    let entry = history.get_entry(id).unwrap();
    assert_eq!(entry.content, "Hello, world!");
    assert_eq!(entry.role, Role::User);
    assert_eq!(entry.session_id, "session-1");
}

#[test]
fn test_entry_count_limit_enforced() {
    let mut history = SessionHistory::new(make_config(3, 1_000_000));

    for i in 0..5 {
        history.add_entry(
            "s1".to_string(),
            Role::User,
            format!("message {}", i),
            None,
            None,
        );
    }

    assert_eq!(history.len(), 3);
    // Oldest entries should have been evicted
    assert!(history.get_entry(1).is_none());
    assert!(history.get_entry(2).is_none());
    assert!(history.get_entry(3).is_some());
}

#[test]
fn test_byte_limit_enforced() {
    let mut history = SessionHistory::new(make_config(1000, 50));

    // Add entries with ~20 bytes each
    for i in 0..5 {
        history.add_entry(
            "s1".to_string(),
            Role::User,
            format!("message number {}", i),
            None,
            None,
        );
    }

    assert!(history.total_bytes() <= 50);
}

#[test]
fn test_get_session_entries() {
    let mut history = SessionHistory::new(make_config(100, 1_000_000));
    history.add_entry("s1".to_string(), Role::User, "msg1".to_string(), None, None);
    history.add_entry("s2".to_string(), Role::User, "msg2".to_string(), None, None);
    history.add_entry("s1".to_string(), Role::Assistant, "reply".to_string(), None, None);

    let s1_entries = history.get_session_entries("s1");
    assert_eq!(s1_entries.len(), 2);

    let s2_entries = history.get_session_entries("s2");
    assert_eq!(s2_entries.len(), 1);
}

#[test]
fn test_clear_session() {
    let mut history = SessionHistory::new(make_config(100, 1_000_000));
    history.add_entry("s1".to_string(), Role::User, "msg1".to_string(), None, None);
    history.add_entry("s2".to_string(), Role::User, "msg2".to_string(), None, None);

    history.clear_session("s1");
    assert_eq!(history.len(), 1);
    assert!(history.get_session_entries("s1").is_empty());
}

#[test]
fn test_clear_all() {
    let mut history = SessionHistory::new(make_config(100, 1_000_000));
    history.add_entry("s1".to_string(), Role::User, "msg".to_string(), None, None);
    history.add_entry("s2".to_string(), Role::User, "msg".to_string(), None, None);

    history.clear_all();
    assert!(history.is_empty());
    assert_eq!(history.total_bytes(), 0);
}

#[test]
fn test_ids_are_sequential() {
    let mut history = SessionHistory::new(make_config(100, 1_000_000));
    let id1 = history.add_entry("s".to_string(), Role::User, "a".to_string(), None, None);
    let id2 = history.add_entry("s".to_string(), Role::User, "b".to_string(), None, None);
    let id3 = history.add_entry("s".to_string(), Role::User, "c".to_string(), None, None);
    assert_eq!(id1, 1);
    assert_eq!(id2, 2);
    assert_eq!(id3, 3);
}

fn make_entries() -> Vec<HistoryEntry> {
    vec![
        HistoryEntry {
            id: 1,
            session_id: "s1".to_string(),
            timestamp: Timestamp::now(),
            role: Role::User,
            content: "Hello world".to_string(),
            token_count: Some(2),
            metadata: None,
        },
        HistoryEntry {
            id: 2,
            session_id: "s1".to_string(),
            timestamp: Timestamp::now(),
            role: Role::Assistant,
            content: "Hi there, how can I help?".to_string(),
            token_count: Some(6),
            metadata: None,
        },
        HistoryEntry {
            id: 3,
            session_id: "s2".to_string(),
            timestamp: Timestamp::now(),
            role: Role::User,
            content: "Fix the bug in main.rs".to_string(),
            token_count: Some(6),
            metadata: None,
        },
    ]
}

#[test]
fn test_search_by_text() {
    let entries = make_entries();
    let query = SearchQuery::new().with_text("hello");
    let results = search_entries(&entries, &query);
    assert_eq!(results.len(), 1);
    assert_eq!(results[0].id, 1);
}

#[test]
fn test_search_by_role() {
    let entries = make_entries();
    let query = SearchQuery::new().with_role(Role::Assistant);
    let results = search_entries(&entries, &query);
    assert_eq!(results.len(), 1);
    assert_eq!(results[0].id, 2);
}

#[test]
fn test_search_by_session_id() {
    let entries = make_entries();
    let query = SearchQuery::new().with_session_id("s2");
    let results = search_entries(&entries, &query);
    assert_eq!(results.len(), 1);
    assert_eq!(results[0].id, 3);
}

#[test]
fn test_search_with_limit() {
    let entries = make_entries();
    let query = SearchQuery::new().with_limit(1);
    let results = search_entries(&entries, &query);
    assert_eq!(results.len(), 1);
}

#[test]
fn test_search_case_insensitive() {
    let entries = make_entries();
    let query = SearchQuery::new().with_text("HELLO");
    let results = search_entries(&entries, &query);
    assert_eq!(results.len(), 1);
}

#[test]
fn test_search_no_match() {
    let entries = make_entries();
    let query = SearchQuery::new().with_text("nonexistent");
    let results = search_entries(&entries, &query);
    assert!(results.is_empty());
}

#[test]
fn test_empty_query_returns_all() {
    let entries = make_entries();
    let query = SearchQuery::new();
    let results = search_entries(&entries, &query);
    assert_eq!(results.len(), 3);
}

fn make_test_entries() -> Vec<HistoryEntry> {
    vec![
        HistoryEntry {
            id: 1,
            session_id: "s1".to_string(),
            timestamp: Timestamp::now(),
            role: Role::User,
            content: "What is Rust?".to_string(),
            token_count: Some(3),
            metadata: None,
        },
        HistoryEntry {
            id: 2,
            session_id: "s1".to_string(),
            timestamp: Timestamp::now(),
            role: Role::Assistant,
            content: "Rust is a systems programming language.".to_string(),
            token_count: Some(6),
            metadata: None,
        },
    ]
}

#[test]
fn test_export_json() {
    let entries = make_test_entries();
    let result = export_entries(&entries, ExportFormat::Json);
    assert!(result.is_ok());
    let json = result.unwrap();
    assert!(json.contains("What is Rust?"));
    assert!(json.contains("systems programming"));
}

#[test]
fn test_export_markdown() {
    let entries = make_test_entries();
    let result = export_entries(&entries, ExportFormat::Markdown);
    assert!(result.is_ok());
    let md = result.unwrap();
    assert!(md.contains("# Session History"));
    assert!(md.contains("## Session: s1"));
    assert!(md.contains("**User**"));
    assert!(md.contains("**Assistant**"));
    assert!(md.contains("What is Rust?"));
}

#[test]
fn test_export_empty() {
    let result = export_entries(&[], ExportFormat::Json);
    assert!(result.is_ok());
    assert_eq!(result.unwrap(), "[]");
}

#[test]
fn test_export_markdown_empty() {
    let result = export_entries(&[], ExportFormat::Markdown);
    assert!(result.is_ok());
    assert!(result.unwrap().contains("# Session History"));
}

fn make_entry_with_age(id: u64, content: &str, age_secs: i64) -> HistoryEntry {
    HistoryEntry {
        id,
        session_id: "s1".to_string(),
        timestamp: seconds_ago(age_secs),
        role: Role::User,
        content: content.to_string(),
        token_count: None,
        metadata: None,
    }
}

#[test]
fn test_rotation_removes_old_entries() {
    let mut entries = vec![
        make_entry_with_age(1, "old message", 7200),   // 2 hours old
        make_entry_with_age(2, "new message", 100),    // recent
    ];
    let mut total_bytes: usize = entries.iter().map(|e| e.content.len()).sum();
    let config = HistoryConfig {
        max_entries_in_memory: 1000,
        max_bytes_in_memory: 1_000_000,
        max_age_seconds: 3600, // 1 hour
        storage_path: None,
    };

    let result = rotate_entries(&mut entries, &mut total_bytes, &config);
    assert_eq!(result.entries_removed, 1);
    assert_eq!(result.entries_remaining, 1);
    assert_eq!(entries[0].id, 2);
}

#[test]
fn test_rotation_enforces_count_limit() {
    let mut entries: Vec<HistoryEntry> = (0..10)
        .map(|i| make_entry_with_age(i, &format!("msg {}", i), 10))
        .collect();
    let mut total_bytes: usize = entries.iter().map(|e| e.content.len()).sum();
    let config = HistoryConfig {
        max_entries_in_memory: 5,
        max_bytes_in_memory: 1_000_000,
        max_age_seconds: 86400,
        storage_path: None,
    };

    let result = rotate_entries(&mut entries, &mut total_bytes, &config);
    assert_eq!(result.entries_remaining, 5);
    assert_eq!(result.entries_removed, 5);
}

#[test]
fn test_rotation_no_op_when_within_limits() {
    let mut entries = vec![
        make_entry_with_age(1, "msg", 10),
    ];
    let mut total_bytes: usize = entries.iter().map(|e| e.content.len()).sum();
    let config = HistoryConfig {
        max_entries_in_memory: 100,
        max_bytes_in_memory: 1_000_000,
        max_age_seconds: 86400,
        storage_path: None,
    };

    let result = rotate_entries(&mut entries, &mut total_bytes, &config);
    assert_eq!(result.entries_removed, 0);
    assert_eq!(result.entries_remaining, 1);
}

#[test]
fn test_rotation_empty_entries() {
    let mut entries: Vec<HistoryEntry> = Vec::new();
    let mut total_bytes: usize = 0;
    let config = HistoryConfig::default();

    let result = rotate_entries(&mut entries, &mut total_bytes, &config);
    assert_eq!(result.entries_removed, 0);
    assert_eq!(result.entries_remaining, 0);
    assert_eq!(result.bytes_freed, 0);
}
