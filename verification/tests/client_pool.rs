use sync_copy::app::client_pool::ClientPool;

fn make_client() -> reqwest::Client {
    reqwest::Client::builder().no_proxy().build().expect("test client build should not fail")
}

#[test]
fn replace_drops_old_client() {
    let mut pool = ClientPool::new();
    pool.insert("peer-alpha", make_client());
    assert_eq!(pool.len(), 1, "pool should have 1 client after insert");
    pool.replace("peer-alpha").expect("a no-proxy client builds");
    assert_eq!(pool.len(), 1, "pool should still have 1 client after replace (no dup)");
    let got = pool.get("peer-alpha");
    assert!(got.is_some(), "get should return Some after replace");
}

#[test]
fn get_does_not_lazy_add() {
    let pool = ClientPool::new();
    let first = pool.get("nonexistent-peer");
    assert!(first.is_none(), "get on nonexistent id must return None (no lazy add)");
    let second = pool.get("nonexistent-peer");
    assert!(second.is_none(), "second get on same nonexistent id must still return None");
    assert_eq!(pool.len(), 0, "pool size must remain 0 after get misses (no lazy add)");
}

#[test]
fn remove_then_get_returns_none() {
    let mut pool = ClientPool::new();
    pool.insert("peer-beta", make_client());
    assert!(pool.get("peer-beta").is_some(), "should be present after insert");
    let removed = pool.remove("peer-beta");
    assert!(removed.is_some(), "remove should return Some for existing client");
    assert!(pool.get("peer-beta").is_none(), "get must return None after remove");
    assert_eq!(pool.len(), 0, "pool must be empty after remove");
}

#[test]
fn insert_overwrites_existing() {
    let mut pool = ClientPool::new();
    pool.insert("peer-gamma", make_client());
    pool.insert("peer-gamma", make_client());
    assert_eq!(pool.len(), 1, "re-insert should overwrite, not add duplicate");
    assert!(pool.get("peer-gamma").is_some());
}

#[test]
fn remove_nonexistent_returns_none() {
    let mut pool = ClientPool::new();
    let result = pool.remove("ghost-peer");
    assert!(result.is_none(), "remove on nonexistent id must return None");
    assert_eq!(pool.len(), 0);
}

#[test]
fn replace_adds_when_absent_and_contains_tracks_ids() {
    let mut pool = ClientPool::new();
    assert!(pool.is_empty());
    pool.replace("new-peer").expect("builds");
    assert!(pool.contains("new-peer"));
    assert!(!pool.contains("other"));
    assert_eq!(pool.len(), 1);
    assert!(!pool.is_empty());
}

#[test]
fn replace_with_built_client_installs_it() {
    let mut pool = ClientPool::new();
    assert_eq!(pool.replace_with("p", Ok(make_client())), Ok(()));
    assert!(pool.contains("p"));
    assert_eq!(pool.len(), 1);
}
