use mytop_tui::introspection::{
    ProcesslistRowLite, QueryCacheEntry, explain_from_processlist, explain_sql, full_query_info,
    full_query_info_from_processlist, merge_cache_from_processlist, print_table,
};
use mytop_tui::sorted_map::SortedMap;
use std::collections::BTreeMap;

#[test]
fn invalid_id_returns_error() {
    let cache = BTreeMap::new();
    assert_eq!(
        full_query_info(&cache, 1),
        Err("*** Invalid id. ***".to_string())
    );
}

#[test]
fn explain_uses_database_before_explain() {
    let mut cache = BTreeMap::new();
    cache.insert(
        1,
        QueryCacheEntry {
            db: Some("app".into()),
            sql: "select * from t".into(),
        },
    );

    let result = explain_sql(&cache, 1).unwrap();
    assert_eq!(result[0], "USE app");
    assert!(result[1].starts_with("EXPLAIN"));
}

#[test]
fn full_query_info_returns_sql_for_valid_id() {
    let mut cache = BTreeMap::new();
    cache.insert(
        7,
        QueryCacheEntry {
            db: None,
            sql: "select 1".into(),
        },
    );

    assert_eq!(full_query_info(&cache, 7).unwrap(), "select 1");
}

#[test]
fn explain_without_database_only_emits_explain() {
    let mut cache = BTreeMap::new();
    cache.insert(
        5,
        QueryCacheEntry {
            db: None,
            sql: "select * from metrics".into(),
        },
    );

    let result = explain_sql(&cache, 5).unwrap();
    assert_eq!(result, vec!["EXPLAIN select * from metrics".to_string()]);
}

#[test]
fn full_query_and_explain_work_with_processlist_cache_merge() {
    let mut cache = BTreeMap::new();
    let rows = vec![ProcesslistRowLite {
        id: 9,
        db: Some("analytics".into()),
        info: Some("select * from jobs".into()),
    }];

    assert_eq!(
        full_query_info_from_processlist(&mut cache, &rows, 9).unwrap(),
        "select * from jobs"
    );

    let explain = explain_from_processlist(&mut cache, &rows, 9).unwrap();
    assert_eq!(explain[0], "USE analytics");
    assert_eq!(explain[1], "EXPLAIN select * from jobs");
}

#[test]
fn print_table_joins_cells_and_rows() {
    let mut row1 = SortedMap::new();
    row1.insert("id".to_string(), "42".to_string());
    row1.insert("name".to_string(), "jobs".to_string());
    let mut row2 = SortedMap::new();
    row2.insert("state".to_string(), "running".to_string());
    let printed = print_table(&[row1, row2]);

    assert_eq!(printed, "id: 42, name: jobs\nstate: running");
}

#[test]
fn merge_keeps_latest_query_and_skips_rows_without_one() {
    let mut cache = BTreeMap::new();
    cache.insert(3, QueryCacheEntry { db: None, sql: "old".into() });
    let rows = vec![
        ProcesslistRowLite { id: 3, db: None, info: Some("first".into()) },
        ProcesslistRowLite { id: 4, db: None, info: None },
        ProcesslistRowLite { id: 3, db: Some("x".into()), info: Some("second".into()) },
        ProcesslistRowLite { id: 3, db: None, info: None },
    ];
    merge_cache_from_processlist(&mut cache, &rows);
    assert_eq!(cache.len(), 1);
    assert_eq!(cache.get(&3).unwrap().sql, "second");
    assert_eq!(cache.get(&3).unwrap().db, Some("x".to_string()));
    assert_eq!(full_query_info(&cache, 4), Err("*** Invalid id. ***".to_string()));
    assert_eq!(explain_sql(&cache, 4), Err("*** Invalid id. ***".to_string()));
}

#[test]
fn print_table_orders_cells_by_name_and_handles_empty() {
    let mut row = SortedMap::new();
    row.insert("b".to_string(), "2".to_string());
    row.insert("a".to_string(), "1".to_string());
    assert_eq!(print_table(&[row]), "a: 1, b: 2");
    assert_eq!(print_table(&[]), "");
}
