use nft_minter::ledger::TokenSet;
use nft_minter::records::Records;

fn text(s: &str) -> String {
    s.to_string()
}

#[test]
fn new_records_hold_nothing() {
    let records: Records<u64> = Records::new();
    assert_eq!(records.len(), 0);
    assert_eq!(records.get(&text("a")), None);
    assert!(!records.contains_key(&text("a")));
}

#[test]
fn insert_keeps_a_value_under_its_name() {
    let mut records: Records<u64> = Records::new();
    records.insert(text("a"), 1);
    records.insert(text("b"), 2);
    assert_eq!(records.len(), 2);
    assert_eq!(records.get(&text("a")), Some(&1));
    assert_eq!(records.get(&text("b")), Some(&2));
    assert_eq!(records.get(&text("c")), None);
    assert!(records.contains_key(&text("b")));
    assert!(!records.contains_key(&text("")));
}

#[test]
fn insert_under_a_name_in_use_replaces_the_value() {
    let mut records: Records<String> = Records::new();
    records.insert(text("a"), text("first"));
    records.insert(text("b"), text("other"));
    records.insert(text("a"), text("second"));
    assert_eq!(records.len(), 2);
    assert_eq!(records.get(&text("a")), Some(&text("second")));
    assert_eq!(records.get(&text("b")), Some(&text("other")));
}

#[test]
fn names_are_told_apart_exactly() {
    let mut records: Records<u64> = Records::new();
    records.insert(text("a"), 1);
    records.insert(text("A"), 2);
    records.insert(text("a "), 3);
    records.insert(text(""), 4);
    assert_eq!(records.len(), 4);
    assert_eq!(records.get(&text("a")), Some(&1));
    assert_eq!(records.get(&text("A")), Some(&2));
    assert_eq!(records.get(&text("a ")), Some(&3));
    assert_eq!(records.get(&text("")), Some(&4));
}

#[test]
fn new_token_set_is_empty() {
    let set = TokenSet::new(vec![5u8, 1]);
    assert_eq!(set.key, vec![5u8, 1]);
    assert!(set.tokens.is_empty());
    assert!(!set.contains(&text("a")));
}

#[test]
fn token_set_takes_each_token_once() {
    let mut set = TokenSet::new(vec![9u8]);
    assert!(set.insert(text("a")));
    assert!(set.insert(text("b")));
    assert!(!set.insert(text("a")));
    assert_eq!(set.tokens, vec![text("a"), text("b")]);
    assert_eq!(set.key, vec![9u8]);
    assert!(set.contains(&text("a")));
    assert!(set.contains(&text("b")));
    assert!(!set.contains(&text("c")));
}

#[test]
fn a_copy_of_a_token_set_is_equal_to_it() {
    let mut set = TokenSet::new(vec![1u8, 2, 3]);
    set.insert(text("x"));
    set.insert(text("y"));
    let copy = set.duplicate();
    assert_eq!(copy, set);
    assert_eq!(copy.key, vec![1u8, 2, 3]);
    assert_eq!(copy.tokens, vec![text("x"), text("y")]);
}

#[test]
fn a_token_that_is_held_is_not_put_in_again() {
    let mut set = TokenSet::new(vec![]);
    for token in ["a", "b", "a", "c", "b", "a"] {
        set.insert(text(token));
    }
    assert_eq!(set.tokens, vec![text("a"), text("b"), text("c")]);
}
