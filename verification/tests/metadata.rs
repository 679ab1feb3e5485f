use namespace_projects::Metadata;

#[test]
fn new_metadata_is_empty() {
    let m = Metadata::new();
    assert!(m.pairs().is_empty());
    assert_eq!(m.get(&"a".to_string()), None);
}

#[test]
fn insert_adds_a_new_key() {
    let mut m = Metadata::new();
    m.insert("a".to_string(), "1".to_string());
    m.insert("b".to_string(), "2".to_string());
    assert_eq!(m.get(&"a".to_string()), Some(&"1".to_string()));
    assert_eq!(m.get(&"b".to_string()), Some(&"2".to_string()));
    assert_eq!(m.get(&"c".to_string()), None);
    assert_eq!(m.pairs().len(), 2);
}

#[test]
fn insert_overwrites_an_old_value() {
    let mut m = Metadata::new();
    m.insert("a".to_string(), "1".to_string());
    m.insert("b".to_string(), "2".to_string());
    m.insert("a".to_string(), "3".to_string());
    assert_eq!(m.get(&"a".to_string()), Some(&"3".to_string()));
    assert_eq!(m.get(&"b".to_string()), Some(&"2".to_string()));
    assert_eq!(m.pairs().len(), 2);
}

#[test]
fn insert_of_the_same_pair_twice_is_one_entry() {
    let mut m = Metadata::new();
    m.insert("a".to_string(), "1".to_string());
    m.insert("a".to_string(), "1".to_string());
    assert_eq!(m.pairs(), vec![("a".to_string(), "1".to_string())]);
}

#[test]
fn pairs_hold_each_key_once() {
    let mut m = Metadata::new();
    m.insert("x".to_string(), "1".to_string());
    m.insert("y".to_string(), "2".to_string());
    m.insert("x".to_string(), "3".to_string());
    let mut pairs = m.pairs();
    pairs.sort();
    assert_eq!(
        pairs,
        vec![
            ("x".to_string(), "3".to_string()),
            ("y".to_string(), "2".to_string())
        ]
    );
}

#[test]
fn snapshot_is_independent_of_its_source() {
    let mut m = Metadata::new();
    m.insert("a".to_string(), "1".to_string());
    let mut copy = m.snapshot();
    copy.insert("a".to_string(), "2".to_string());
    copy.insert("b".to_string(), "3".to_string());
    assert_eq!(m.get(&"a".to_string()), Some(&"1".to_string()));
    assert_eq!(m.get(&"b".to_string()), None);
    assert_eq!(copy.get(&"a".to_string()), Some(&"2".to_string()));
    assert_eq!(copy.pairs().len(), 2);
}
