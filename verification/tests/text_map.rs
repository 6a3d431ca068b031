use dendrite::text_map::TextMap;

#[test]
fn text_map_insert_get_remove() {
    let mut m: TextMap<u32> = TextMap::new();
    assert_eq!(m.len(), 0);
    assert!(m.get("a").is_none());
    m.insert("a".to_string(), 1);
    m.insert("b".to_string(), 2);
    m.insert("a".to_string(), 3);
    assert_eq!(m.len(), 2);
    assert_eq!(m.get("a"), Some(&3));
    assert_eq!(m.get("b"), Some(&2));
    assert!(m.contains_key("b"));
    assert_eq!(m.keys(), vec!["a".to_string(), "b".to_string()]);
    m.remove("a");
    assert!(!m.contains_key("a"));
    assert_eq!(m.keys(), vec!["b".to_string()]);
    m.remove("zzz");
    assert_eq!(m.len(), 1);
}

#[test]
fn text_map_duplicate_keeps_order_and_values() {
    let mut m: TextMap<String> = TextMap::new();
    m.insert("x".to_string(), "1".to_string());
    m.insert("y".to_string(), "2".to_string());
    let d = m.duplicate();
    assert_eq!(d.keys(), m.keys());
    assert_eq!(d.get("y"), Some(&"2".to_string()));
    assert_eq!(d.key_at(0), "x");
    assert_eq!(d.value_at(1), "2");
}
