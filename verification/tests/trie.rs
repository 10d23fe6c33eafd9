use dock::trie::InsertError;
use dock::trie::Trie;

#[test]
fn test_insert_into_new_trie() {
    let mut t = Trie::new();

    let result = t.insert(&['a', 'b', 'c'], 1);

    assert!(result.is_ok());
}

#[test]
fn test_insert_with_empty_key_fails() {
    let mut t: Trie<u8, u8> = Trie::new();

    let result = t.insert(&[], 1);

    assert!(matches!(result, Err(InsertError::EmptyKey)));
}

#[test]
fn test_insert_at_dir_fails() {
    let mut t = Trie::new();
    t.insert(&['a', 'b'], 1)
        .expect("couldn't insert value");

    let result = t.insert(&['a'], 1);

    assert!(matches!(result, Err(InsertError::DirAtKey)));
}

#[test]
fn test_insert_at_nested_dir_fails() {
    let mut t = Trie::new();
    t.insert(&['a', 'b', 'c'], 1)
        .expect("couldn't insert value");

    let result = t.insert(&['a', 'b'], 1);

    assert!(matches!(result, Err(InsertError::DirAtKey)));
}

#[test]
fn test_insert_past_value_node() {
    let mut t = Trie::new();
    t.insert(&['a', 'b'], 1)
        .expect("couldn't insert value");

    let result = t.insert(&['a', 'b', 'c'], 1);

    assert!(matches!(result, Err(InsertError::PrefixContainsValue)));
}

#[test]
fn test_value_at_prefix_on_new_trie() {
    let t: Trie<u8, u8> = Trie::new();

    let result = t.value_at_prefix(&[1, 2]);

    assert_eq!(result, None);
}

#[test]
fn test_value_at_prefix_with_empty_key() {
    let mut t = Trie::new();
    t.insert(&['a', 'b'], 1)
        .expect("couldn't insert value");

    let result = t.value_at_prefix(&[]);

    assert_eq!(result, None);
}

#[test]
fn test_value_at_prefix_with_no_value_at_prefix() {
    let mut t = Trie::new();
    t.insert(&['a', 'b'], 1)
        .expect("couldn't insert value");

    let result = t.value_at_prefix(&['a']);

    assert_eq!(result, None);
}

#[test]
fn test_value_at_prefix_with_value_at_path() {
    let mut t = Trie::new();
    t.insert(&['a', 'b'], 1)
        .expect("couldn't insert value");

    let result = t.value_at_prefix(&['a', 'b']);

    assert_eq!(result, Some((vec![&'a', &'b'], &1)));
}

#[test]
fn test_value_at_prefix_with_value_at_prefix_of_path() {
    let mut t = Trie::new();
    t.insert(&['a', 'b'], 1)
        .expect("couldn't insert value");

    let result = t.value_at_prefix(&['a', 'b', 'c']);

    assert_eq!(result, Some((vec![&'a', &'b'], &1)));
}

#[test]
fn test_value_at_prefix_with_value_at_deeper_prefix_of_path() {
    let mut t = Trie::new();
    t.insert(&['a', 'b'], 1)
        .expect("couldn't insert value");

    let result = t.value_at_prefix(&['a', 'b', 'c', 'd']);

    assert_eq!(result, Some((vec![&'a', &'b'], &1)));
}

#[test]
fn test_value_at_prefix_first_of_two_paths() {
    let mut t = Trie::new();
    t.insert(&['a', 'x'], 1)
        .expect("couldn't insert value");
    t.insert(&['a', 'y'], 2)
        .expect("couldn't insert value");

    let result = t.value_at_prefix(&['a', 'x', 'a']);

    assert_eq!(result, Some((vec![&'a', &'x'], &1)));
}

#[test]
fn test_value_at_prefix_second_of_two_paths() {
    let mut t = Trie::new();
    t.insert(&['a', 'x'], 1)
        .expect("couldn't insert value");
    t.insert(&['a', 'y'], 2)
        .expect("couldn't insert value");

    let result = t.value_at_prefix(&['a', 'y', 'a']);

    assert_eq!(result, Some((vec![&'a', &'y'], &2)));
}

#[test]
fn read_after_insert_gives_value_below_key() {
    let mut t = Trie::new();
    t.insert(&['x'], 7).expect("couldn't insert value");
    t.insert(&['y', 'z'], 8).expect("couldn't insert value");

    assert_eq!(t.value_at_prefix(&['x', 'q', 'r']), Some((vec![&'x'], &7)));
    assert_eq!(t.value_at_prefix(&['y', 'z']), Some((vec![&'y', &'z'], &8)));
    assert_eq!(t.value_at_prefix(&['y']), None);
}

#[test]
fn failed_insert_leaves_trie_unchanged() {
    let mut t = Trie::new();
    t.insert(&['a', 'b'], 1).expect("couldn't insert value");

    assert!(matches!(t.insert(&['a'], 2), Err(InsertError::DirAtKey)));
    assert!(matches!(t.insert(&['a', 'b', 'c'], 3), Err(InsertError::PrefixContainsValue)));
    assert!(matches!(t.insert(&[], 4), Err(InsertError::EmptyKey)));

    assert_eq!(t.value_at_prefix(&['a', 'b', 'c']), Some((vec![&'a', &'b'], &1)));
    assert_eq!(t.value_at_prefix(&['a']), None);
}

#[test]
fn insert_error_messages() {
    assert_eq!(InsertError::EmptyKey.message(), "The key was empty");
    assert_eq!(InsertError::DirAtKey.message(), "There was a Trie \"directory\" at the key");
    assert_eq!(
        InsertError::PrefixContainsValue.message(),
        "A value was encountered at a prefix of the key",
    );
}

#[test]
fn trie_never_holds_empty_key() {
    let mut t = Trie::new();
    assert!(matches!(t.insert(&[], 1), Err(InsertError::EmptyKey)));
    assert!(t.insert(&['a'], 1).is_ok());
    assert!(matches!(t.insert(&[], 2), Err(InsertError::EmptyKey)));
    assert!(t.value_at_prefix(&[]).is_none());
}

#[test]
fn dirs_are_prefixes_of_held_keys() {
    let mut t = Trie::new();
    assert!(t.insert(&['a', 'b', 'c'], 1).is_ok());
    assert!(matches!(t.insert(&['a', 'b'], 2), Err(InsertError::DirAtKey)));
    assert!(matches!(t.insert(&['a'], 2), Err(InsertError::DirAtKey)));
    assert!(matches!(t.insert(&['a', 'b', 'c', 'd'], 2), Err(InsertError::PrefixContainsValue)));
    assert!(t.insert(&['a', 'b', 'd'], 3).is_ok());
    assert!(t.insert(&['a', 'b', 'c'], 4).is_ok());
    let key = ['a', 'b', 'c', 'e'];
    let (prefix, v) = t.value_at_prefix(&key).expect("expected a value");
    assert_eq!(prefix.len(), 3);
    assert_eq!(*v, 4);
}
