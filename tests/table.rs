use simple_i18n::table::FlatTable;

#[test]
fn table_insert_then_get() {
    let mut t = FlatTable::new();
    t.insert("k".to_string(), "v".to_string());
    assert_eq!(t.get("k").map(|s| s.as_str()), Some("v"));
    assert!(t.contains_key("k"));
    assert!(!t.contains_key("other"));
}

#[test]
fn table_insert_replaces_value() {
    let mut t = FlatTable::new();
    t.insert("k".to_string(), "old".to_string());
    t.insert("k".to_string(), "new".to_string());
    assert_eq!(t.get("k").map(|s| s.as_str()), Some("new"));
    assert_eq!(t.keys(), vec!["k".to_string()]);
}

#[test]
fn table_copy_is_independent() {
    let mut t = FlatTable::new();
    t.insert("a".to_string(), "1".to_string());
    let c = t.copy();
    t.insert("a".to_string(), "2".to_string());
    assert_eq!(c.get("a").map(|s| s.as_str()), Some("1"));
    assert_eq!(t.get("a").map(|s| s.as_str()), Some("2"));
}
