use sync_copy::app::history::{make_text_history_entry, HistoryEntry, HistoryPayload, HistorySource, HistoryStore, MAX_HISTORY};

fn make_text_entry(id: &str, hash: Option<&str>, text: &str) -> HistoryEntry {
    HistoryEntry {
        id: id.to_string(),
        timestamp_ms: 1000,
        source: HistorySource::Local,
        content_hash: hash.map(|h| h.to_string()),
        payload: HistoryPayload::Text { text: text.to_string() },
    }
}

#[test]
fn push_and_snapshot() {
    let mut store = HistoryStore::new();
    store.push(make_text_entry("id-1", Some("hash-a"), "hello"));
    store.push(make_text_entry("id-2", Some("hash-b"), "world"));
    assert_eq!(store.count(), 2);
    let snap = store.snapshot();
    assert_eq!(snap[0].id, "id-2");
    assert_eq!(snap[1].id, "id-1");
}

#[test]
fn push_head_duplicate_skips() {
    let mut store = HistoryStore::new();
    store.push(make_text_entry("id-1", Some("hash-a"), "hello"));
    store.push(make_text_entry("id-2", Some("hash-a"), "hello again"));
    assert_eq!(store.count(), 1, "duplicate head hash must not push new entry");
    assert_eq!(store.snapshot()[0].id, "id-1");
}

#[test]
fn push_non_head_duplicate_moves_to_top() {
    let mut store = HistoryStore::new();
    store.push(make_text_entry("id-1", Some("hash-a"), "hello"));
    store.push(make_text_entry("id-2", Some("hash-b"), "world"));
    store.push(make_text_entry("id-3", Some("hash-a"), "hello again"));
    let snap = store.snapshot();
    assert_eq!(snap[0].id, "id-3", "new entry with old hash must be at front");
    assert!(snap.iter().all(|e| e.id != "id-1"), "old entry with same hash must be removed");
    assert_eq!(store.count(), 2);
}

#[test]
fn max_history_truncates_oldest() {
    let mut store = HistoryStore::new();
    for i in 0..(MAX_HISTORY + 5) {
        store.push(make_text_entry(&format!("id-{i}"), Some(&format!("hash-{i}")), &format!("text-{i}")));
    }
    assert_eq!(store.count(), MAX_HISTORY, "store must not exceed MAX_HISTORY");
    let snap = store.snapshot();
    assert_eq!(snap[0].id, format!("id-{}", MAX_HISTORY + 4));
    assert_eq!(snap[MAX_HISTORY - 1].id, "id-5", "the oldest entries are the ones dropped");
}

#[test]
fn remove_and_get() {
    let mut store = HistoryStore::new();
    store.push(make_text_entry("id-1", Some("hash-a"), "hello"));
    assert!(store.get("id-1").is_some(), "get must find existing entry");
    let removed = store.remove("id-1");
    assert!(removed, "remove must return true");
    assert!(store.get("id-1").is_none(), "get must return None after remove");
    let not_found = store.remove("nonexistent");
    assert!(!not_found, "remove nonexistent must return false");
}

#[test]
fn clear_empties_store() {
    let mut store = HistoryStore::new();
    store.push(make_text_entry("id-1", Some("hash-a"), "hello"));
    store.push(make_text_entry("id-2", Some("hash-b"), "world"));
    store.clear();
    assert_eq!(store.count(), 0, "clear must empty the store");
}

#[test]
fn make_text_history_entry_local_source() {
    let text = "hello world".to_string();
    let hash = "aabbcc".to_string();
    let entry = make_text_history_entry(text.clone(), HistorySource::Local, hash.clone());
    assert!(!entry.id.is_empty(), "entry.id must not be empty");
    assert!(entry.timestamp_ms > 0, "entry.timestamp_ms must be > 0");
    assert!(matches!(entry.source, HistorySource::Local), "source must be Local");
    assert_eq!(entry.content_hash.as_deref(), Some("aabbcc"), "content_hash must match");
    match entry.payload {
        HistoryPayload::Text { text: t } => {
            assert_eq!(t, text, "payload.text must match input");
        },
        _ => panic!("expected Text payload"),
    }
}

#[test]
fn make_text_history_entry_remote_source() {
    let entry = make_text_history_entry(
        "remote text".to_string(),
        HistorySource::Remote { device_name: "工作 Mac".to_string() },
        "deadbeef".to_string(),
    );
    match &entry.source {
        HistorySource::Remote { device_name } => {
            assert_eq!(device_name, "工作 Mac", "device_name must match");
        },
        HistorySource::Local => panic!("expected Remote source"),
    }
    assert_eq!(entry.content_hash.as_deref(), Some("deadbeef"), "content_hash must be passed through");
}

#[test]
fn entries_without_hash_are_all_kept() {
    let mut store = HistoryStore::new();
    store.push(make_text_entry("a", None, "x"));
    store.push(make_text_entry("b", None, "x"));
    assert_eq!(store.count(), 2);
}

#[test]
fn uuid_ids_are_36_chars_and_fresh() {
    let a = make_text_history_entry("t".into(), HistorySource::Local, "h".into());
    let b = make_text_history_entry("t".into(), HistorySource::Local, "h".into());
    assert_eq!(a.id.len(), 36);
    assert_ne!(a.id, b.id);
}

#[test]
fn remove_drops_every_entry_with_the_id() {
    let mut store = HistoryStore::new();
    store.push(make_text_entry("same", Some("h1"), "x"));
    store.push(make_text_entry("same", Some("h2"), "y"));
    store.push(make_text_entry("other", Some("h3"), "z"));
    assert!(store.remove("same"));
    assert_eq!(store.count(), 1);
    assert_eq!(store.snapshot()[0].id, "other");
}
