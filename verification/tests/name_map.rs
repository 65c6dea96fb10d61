use pythonbuild::namemap::NameMap;

#[test]
fn insert_replaces_and_get_reads_back() {
    let mut m = NameMap::new();
    assert_eq!(m.len(), 0);
    m.insert("a".to_string(), "1".to_string());
    m.insert("b".to_string(), "2".to_string());
    m.insert("a".to_string(), "3".to_string());
    assert_eq!(m.len(), 2);
    assert_eq!(m.get("a").map(|s| s.as_str()), Some("3"));
    assert_eq!(m.get("b").map(|s| s.as_str()), Some("2"));
    assert_eq!(m.get("c"), None);
    assert_eq!(m.pairs().len(), 2);
}

#[test]
fn pairs_come_in_key_order() {
    let mut m = NameMap::new();
    for k in ["m", "b", "x", "a", "bb", "b"] {
        m.insert(k.to_string(), format!("v-{k}"));
    }
    let keys: Vec<&str> = m.pairs().iter().map(|(k, _)| k.as_str()).collect();
    assert_eq!(keys, vec!["a", "b", "bb", "m", "x"]);
    let mut by_std: Vec<String> = keys.iter().map(|k| k.to_string()).collect();
    by_std.sort();
    assert_eq!(keys, by_std);
    assert_eq!(m.get("b").map(|s| s.as_str()), Some("v-b"));
}
