use k8s_node_server::string_map::{str_eq, str_key_less, StringMap};

fn entries(m: &StringMap) -> Vec<(String, String)> {
    (0..m.len()).map(|i| (m.key_at(i).clone(), m.value_at(i).clone())).collect()
}

#[test]
fn insert_keeps_keys_sorted() {
    let mut m = StringMap::new();
    m.insert("kubernetes.io/os".to_string(), "linux".to_string());
    m.insert("app".to_string(), "web".to_string());
    m.insert("tier".to_string(), "frontend".to_string());
    m.insert("b".to_string(), "2".to_string());
    assert_eq!(
        entries(&m),
        vec![
            ("app".to_string(), "web".to_string()),
            ("b".to_string(), "2".to_string()),
            ("kubernetes.io/os".to_string(), "linux".to_string()),
            ("tier".to_string(), "frontend".to_string()),
        ]
    );
}

#[test]
fn insert_replaces_existing_value() {
    let mut m = StringMap::new();
    m.insert("k".to_string(), "1".to_string());
    m.insert("k".to_string(), "2".to_string());
    assert_eq!(m.len(), 1);
    assert_eq!(m.get("k").map(|s| s.as_str()), Some("2"));
}

#[test]
fn get_reads_back_what_insert_wrote() {
    let mut m = StringMap::new();
    assert!(m.is_empty());
    m.insert("x".to_string(), "1".to_string());
    m.insert("y".to_string(), "2".to_string());
    assert_eq!(m.get("x").map(|s| s.as_str()), Some("1"));
    assert_eq!(m.get("y").map(|s| s.as_str()), Some("2"));
    assert_eq!(m.get("z"), None);
}

#[test]
fn clone_has_same_entries() {
    let mut m = StringMap::new();
    m.insert("a".to_string(), "1".to_string());
    let c = m.clone();
    assert_eq!(entries(&c), entries(&m));
}

#[test]
fn key_order_matches_string_order() {
    let cases = ["", "a", "ab", "b", "B", "é", "가", "a/b", "a.b"];
    for x in cases {
        for y in cases {
            assert_eq!(str_key_less(x, y), x.to_string() < y.to_string(), "{x} {y}");
            assert_eq!(str_eq(x, y), x == y);
        }
    }
}

#[test]
fn non_ascii_keys_sort_by_code_point() {
    let mut m = StringMap::new();
    m.insert("가".to_string(), "1".to_string());
    m.insert("z".to_string(), "2".to_string());
    m.insert("é".to_string(), "3".to_string());
    let keys: Vec<String> = entries(&m).into_iter().map(|(k, _)| k).collect();
    assert_eq!(keys, vec!["z".to_string(), "é".to_string(), "가".to_string()]);
}
