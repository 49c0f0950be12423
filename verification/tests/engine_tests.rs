use simplsource::engine::{app_info, history_limit, history_row_count, ping, schema_from_cache};
use simplsource::paths::default_data_dir;
use simplsource::results::{change_result, rows_result};
use simplsource::schema_cache::SchemaCache;
use simplsource::types::SchemaMeta;

#[test]
fn cached_schema_serves_unless_forced() {
    let mut c = SchemaCache::new();
    assert!(schema_from_cache(&c, 1, false).is_none());
    c.set(1, SchemaMeta { databases: vec![] });
    assert!(schema_from_cache(&c, 1, false).is_some());
    assert!(schema_from_cache(&c, 1, true).is_none());
    assert!(schema_from_cache(&c, 2, false).is_none());
}

#[test]
fn history_counts_all_statements() {
    let rs = vec![change_result(3, 0), rows_result(vec![], vec![vec![], vec![]], 0), change_result(0, 0)];
    assert_eq!(history_row_count(&rs), 5);
    assert_eq!(history_row_count(&vec![]), 0);
    assert_eq!(history_limit(None), 50);
    assert_eq!(history_limit(Some(7)), 7);
}

#[test]
fn app_answers() {
    assert_eq!(ping().message, "pong");
    let i = app_info("0.1.0", true, "/data");
    assert_eq!(i.name, "简源");
    assert_eq!(i.name_en, "SimplSource");
    assert_eq!(i.version, "0.1.0");
    assert!(i.uses_keyring);
    assert_eq!(i.data_dir, "/data");
}

#[test]
fn data_directory_choice() {
    assert_eq!(default_data_dir(Some("/custom".into()), Some("/home/u/.local/share".into())), "/custom");
    assert_eq!(default_data_dir(None, Some("/home/u/.local/share".into())), "/home/u/.local/share/SimplSource");
    assert_eq!(default_data_dir(None, None), ".simplsource/SimplSource");
}
