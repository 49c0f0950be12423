use simplsource::persistence::{find_connection, remove_connection, upsert_connection, ConnectionPersistence, PersistenceError};
use simplsource::query_history::{append_entry, list_entries, toggle_favorite, QueryHistoryEntry, QueryHistoryStore, MAX_ENTRIES};
use simplsource::schema_cache::SchemaCache;
use simplsource::transaction::TransactionManager;
use simplsource::types::{ConnectionConfig, DatabaseKind, SchemaMeta};

fn entry(id: u128, conn: u128) -> QueryHistoryEntry {
    QueryHistoryEntry {
        id,
        connection_id: conn,
        connection_name: "c".into(),
        sql: format!("SELECT {id}"),
        executed_at: "2024-01-01T00:00:00Z".into(),
        duration_ms: 1,
        row_count: 0,
        favorite: false,
    }
}

#[test]
fn history_is_newest_first_and_capped() {
    let mut h = Vec::new();
    for i in 0..(MAX_ENTRIES as u128 + 3) {
        append_entry(&mut h, entry(i, 1));
    }
    assert_eq!(h.len(), MAX_ENTRIES);
    assert_eq!(h[0].id, MAX_ENTRIES as u128 + 2);
    assert_eq!(h[MAX_ENTRIES - 1].id, 3);
}

#[test]
fn history_listing_filters_and_limits() {
    let mut h = Vec::new();
    append_entry(&mut h, entry(1, 10));
    append_entry(&mut h, entry(2, 20));
    append_entry(&mut h, entry(3, 10));
    let l = list_entries(&h, Some(10), 50);
    assert_eq!(l.iter().map(|e| e.id).collect::<Vec<_>>(), vec![3, 1]);
    let l = list_entries(&h, None, 2);
    assert_eq!(l.iter().map(|e| e.id).collect::<Vec<_>>(), vec![3, 2]);
    assert!(list_entries(&h, Some(99), 5).is_empty());
    assert!(list_entries(&h, None, 0).is_empty());
}

#[test]
fn favourites_toggle_back_and_forth() {
    let mut h = vec![entry(1, 1), entry(2, 1)];
    assert_eq!(toggle_favorite(&mut h, 2), Ok(true));
    assert!(h[1].favorite && !h[0].favorite);
    assert_eq!(toggle_favorite(&mut h, 2), Ok(false));
    assert!(!h[1].favorite);
    assert_eq!(toggle_favorite(&mut h, 5), Err("history entry not found".to_string()));
}

#[test]
fn store_locations() {
    assert_eq!(QueryHistoryStore::new("/d").path, "/d/query_history.json");
    assert_eq!(ConnectionPersistence::new("/d").file_path(), "/d/connections.json");
}

fn cfg(id: u128, name: &str) -> ConnectionConfig {
    ConnectionConfig::with_identity(name, DatabaseKind::Postgres, id, "t")
}

#[test]
fn saved_connections() {
    let mut all = vec![cfg(1, "a"), cfg(2, "b")];
    upsert_connection(&mut all, cfg(2, "b2"));
    assert_eq!(all.len(), 2);
    assert_eq!(all[1].name, "b2");
    upsert_connection(&mut all, cfg(3, "c"));
    assert_eq!(all.len(), 3);
    assert_eq!(find_connection(&all, 3).unwrap().name, "c");
    assert!(matches!(find_connection(&all, 9), Err(PersistenceError::NotFound)));
    assert!(remove_connection(&mut all, 1).is_ok());
    assert_eq!(all.iter().map(|c| c.id).collect::<Vec<_>>(), vec![2, 3]);
    assert!(matches!(remove_connection(&mut all, 1), Err(PersistenceError::NotFound)));
    assert_eq!(all.len(), 2);
    assert_eq!(PersistenceError::NotFound.describe(), "connection not found");
    assert_eq!(PersistenceError::Read("x".into()).describe(), "read failed: x");
    assert_eq!(PersistenceError::Write("y".into()).describe(), "write failed: y");
}

#[test]
fn transactions_queue_per_connection() {
    let mut t = TransactionManager::new();
    assert!(!t.status(1).active);
    t.begin_if_needed(1);
    assert!(t.status(1).active);
    assert_eq!(t.status(1).pending_count, 0);
    t.queue_sql(1, "A".into());
    t.queue_sql(1, "B".into());
    t.queue_sql(2, "C".into());
    t.begin_if_needed(1);
    assert_eq!(t.pending_sql(1), vec!["A".to_string(), "B".to_string()]);
    assert_eq!(t.pending_sql(2), vec!["C".to_string()]);
    t.clear(1);
    assert!(!t.status(1).active);
    assert!(t.pending_sql(1).is_empty());
    assert_eq!(t.status(2).pending_count, 1);
}

#[test]
fn schema_cache_per_connection() {
    let mut c = SchemaCache::new();
    assert!(c.get(1).is_none());
    c.set(1, SchemaMeta { databases: vec![] });
    c.set(2, SchemaMeta { databases: vec![] });
    assert!(c.get(1).is_some());
    c.invalidate(1);
    assert!(c.get(1).is_none());
    assert!(c.get(2).is_some());
}
