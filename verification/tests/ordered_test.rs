use moon::ordered::{sort_by_key, sorted_upsert, str_lt};

#[test]
fn compares_text_by_code_points() {
    assert!(str_lt("a", "b"));
    assert!(str_lt("ab", "abc"));
    assert!(!str_lt("abc", "ab"));
    assert!(!str_lt("same", "same"));
    assert!(str_lt("B", "a"));
    assert!(str_lt("", "x"));
}

#[test]
fn sorted_upsert_keeps_order_and_replaces() {
    let mut v: Vec<(String, u32)> = vec![];
    sorted_upsert(&mut v, "b".into(), 1);
    sorted_upsert(&mut v, "a".into(), 2);
    sorted_upsert(&mut v, "c".into(), 3);
    sorted_upsert(&mut v, "a".into(), 4);
    assert_eq!(v, vec![("a".to_string(), 4), ("b".to_string(), 1), ("c".to_string(), 3)]);
}

#[test]
fn sort_by_key_is_stable() {
    let items = vec![
        ("b".to_string(), 1),
        ("a".to_string(), 2),
        ("b".to_string(), 3),
        ("a".to_string(), 4),
    ];
    assert_eq!(
        sort_by_key(items),
        vec![
            ("a".to_string(), 2),
            ("a".to_string(), 4),
            ("b".to_string(), 1),
            ("b".to_string(), 3),
        ]
    );
}
