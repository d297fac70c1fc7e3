use mytop_tui::sorted_map::{KeyOrder, SortedMap, compare_keys};

#[test]
fn insert_keeps_key_order_and_overwrites() {
    let mut m = SortedMap::new();
    m.insert("b".to_string(), 2u64);
    m.insert("a".to_string(), 1u64);
    m.insert("c".to_string(), 3u64);
    m.insert("b".to_string(), 20u64);
    assert_eq!(m.len(), 3);
    assert_eq!(m.key_at(0), "a");
    assert_eq!(m.key_at(1), "b");
    assert_eq!(*m.value_at(1), 20);
    assert_eq!(m.key_at(2), "c");
    assert_eq!(m.get("b"), Some(&20));
    assert_eq!(m.get("z"), None);
    assert!(m.contains_key("a"));
    assert!(!m.contains_key(""));
}

#[test]
fn keys_compare_like_strings() {
    assert_eq!(compare_keys("a", "b"), KeyOrder::Less);
    assert_eq!(compare_keys("ab", "a"), KeyOrder::Greater);
    assert_eq!(compare_keys("", ""), KeyOrder::Equal);
    assert_eq!(compare_keys("Z", "a"), KeyOrder::Less);
    assert_eq!(compare_keys("é", "z"), KeyOrder::Greater);
}

#[test]
fn clone_keeps_entries() {
    let mut m: SortedMap<u64> = SortedMap::new();
    m.insert("b".to_string(), 2);
    m.insert("a".to_string(), 1);
    let c = m.clone();
    assert_eq!(c, m);
    assert_eq!(c.key_at(0), "a");
    let mut t: SortedMap<String> = SortedMap::new();
    t.insert("k".to_string(), "v".to_string());
    assert_eq!(t.clone().get("k"), Some(&"v".to_string()));
}
