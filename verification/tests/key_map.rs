use mya::util::key_map::{compare_keys, KeyMap, KeyOrder};

#[test]
fn insert_then_get() {
    let mut m: KeyMap<u32> = KeyMap::new();
    m.insert(String::from("b"), 2);
    m.insert(String::from("a"), 1);
    m.insert(String::from("c"), 3);
    assert_eq!(m.get("a"), Some(&1));
    assert_eq!(m.get("b"), Some(&2));
    assert_eq!(m.get("c"), Some(&3));
    assert_eq!(m.get("d"), None);
    assert_eq!(m.len(), 3);
    m.insert(String::from("b"), 20);
    assert_eq!(m.get("b"), Some(&20));
    assert_eq!(m.len(), 3);
}

#[test]
fn keys_come_out_in_btree_order() {
    let names = ["zeta", "alpha", "Beta", "é", "a", "", "alphabet", "z"];
    let mut m: KeyMap<usize> = KeyMap::new();
    let mut reference = std::collections::BTreeMap::new();
    for (i, n) in names.iter().enumerate() {
        m.insert(String::from(*n), i);
        reference.insert(String::from(*n), i);
    }
    let got: Vec<(String, usize)> =
        (0..m.len()).map(|i| (m.key_at(i).clone(), *m.value_at(i))).collect();
    let want: Vec<(String, usize)> = reference.into_iter().collect();
    assert_eq!(got, want);
}

#[test]
fn contains_key() {
    let mut m: KeyMap<()> = KeyMap::new();
    assert!(!m.contains_key("x"));
    m.insert(String::from("x"), ());
    assert!(m.contains_key("x"));
    assert!(!m.contains_key("xx"));
}

#[test]
fn compare_keys_orders_by_code_point() {
    let c = |a: &str, b: &str| compare_keys(&a.chars().collect(), &b.chars().collect());
    assert_eq!(c("a", "b"), KeyOrder::Before);
    assert_eq!(c("b", "a"), KeyOrder::After);
    assert_eq!(c("ab", "ab"), KeyOrder::Same);
    assert_eq!(c("a", "ab"), KeyOrder::Before);
    assert_eq!(c("Z", "a"), KeyOrder::Before);
    assert_eq!(c("é", "z"), KeyOrder::After);
    assert_eq!(c("", ""), KeyOrder::Same);
}
