use cc_agent::sort::{sort_strings, stable_order};
use cc_agent::strmap::StrMap;

#[test]
fn string_map_keeps_one_value_per_key() {
    let mut m = StrMap::new();
    m.insert("a".into(), "1".into());
    m.insert("b".into(), "2".into());
    m.insert("a".into(), "3".into());
    assert_eq!(m.get("a"), Some(&"3".to_string()));
    assert_eq!(m.entries().len(), 2);
    let n = StrMap::from_pairs(vec![("x".into(), "1".into()), ("x".into(), "2".into())]);
    assert_eq!(n.get("x"), Some(&"2".to_string()));
    let c = m.copy();
    assert_eq!(c.get("b"), Some(&"2".to_string()));
    assert_eq!(c.get("z"), None);
}

#[test]
fn sorting() {
    assert_eq!(sort_strings(vec!["b".into(), "a".into(), "ab".into(), "B".into()]), vec!["B", "a", "ab", "b"]);
    assert_eq!(stable_order(&vec![3, 1, 3, 2], false), vec![1, 3, 0, 2]);
    assert_eq!(stable_order(&vec![3, 1, 3, 2], true), vec![0, 2, 3, 1]);
}
