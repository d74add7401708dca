//! The containers by themselves: what they hold, what their views emit, and
//! the scopes they are bound to.

use scoped_serde::{HashMap, HashSet, Scope};
use seize::Collector;
use std::sync::Arc;

#[test]
fn map_insert_replaces_and_hands_back_the_previous_value() {
    let mut map: HashMap<u8, u8> = HashMap::new();
    assert!(map.is_empty());
    assert_eq!(map.insert(1, 10), None);
    assert_eq!(map.insert(2, 20), None);
    assert_eq!(map.insert(1, 11), Some(10));
    assert_eq!(map.len(), 2);
    assert!(!map.is_empty());
    assert_eq!(map.get(&1), Some(&11));
    assert_eq!(map.get(&2), Some(&20));
    assert_eq!(map.get(&3), None);
}

#[test]
fn set_insert_says_whether_the_element_was_new() {
    let mut set: HashSet<u8> = HashSet::new();
    assert!(set.is_empty());
    assert!(set.insert(1));
    assert!(set.insert(2));
    assert!(!set.insert(1));
    assert_eq!(set.len(), 2);
    assert!(set.contains(&1));
    assert!(set.contains(&2));
    assert!(!set.contains(&3));
}

#[test]
fn map_view_emits_each_entry_once() {
    let mut map: HashMap<u8, u8> = HashMap::with_capacity(16);
    for key in 0..5 {
        map.insert(key, 4 - key);
    }
    map.insert(2, 9);
    let view = map.pin();
    assert_eq!(view.len(), 5);
    assert_eq!(view.size_hint(), Some(5));
    assert_eq!(view.get(&2), Some(&9));
    assert_eq!(view.get(&7), None);
    let mut wire: Vec<(u8, u8)> = view.serialize().into_iter().map(|(k, v)| (*k, *v)).collect();
    wire.sort();
    assert_eq!(wire, vec![(0, 4), (1, 3), (2, 9), (3, 1), (4, 0)]);
    view.unpin();
    let mut again: Vec<(u8, u8)> = map.serialize().into_iter().map(|(k, v)| (*k, *v)).collect();
    again.sort();
    assert_eq!(again, wire);
    assert_eq!(map.len(), 5);
}

#[test]
fn set_view_emits_each_element_once() {
    let mut set: HashSet<u8> = HashSet::with_capacity(16);
    for key in [4, 2, 0, 2, 1, 3, 4] {
        set.insert(key);
    }
    let view = set.pin();
    assert_eq!(view.len(), 5);
    assert_eq!(view.size_hint(), Some(5));
    assert!(view.contains(&4));
    assert!(!view.contains(&5));
    let mut wire: Vec<u8> = view.serialize().into_iter().copied().collect();
    wire.sort();
    assert_eq!(wire, vec![0, 1, 2, 3, 4]);
    view.unpin();
    let mut again: Vec<u8> = set.serialize().into_iter().copied().collect();
    again.sort();
    assert_eq!(again, wire);
}

#[test]
fn empty_containers_emit_nothing() {
    let map: HashMap<u8, u8> = HashMap::default();
    assert!(map.serialize().is_empty());
    assert_eq!(map.pin().size_hint(), Some(0));
    let set: HashSet<u8> = HashSet::default();
    assert!(set.serialize().is_empty());
    assert_eq!(set.pin().size_hint(), Some(0));
}

#[test]
fn maps_are_equal_by_their_entries_alone() {
    let mut left: HashMap<u8, u8> = HashMap::new();
    let mut right: HashMap<u8, u8> = HashMap::with_capacity(100);
    for key in 0..5 {
        left.insert(key, key + 1);
    }
    for key in (0..5).rev() {
        right.insert(key, key + 1);
    }
    assert!(left == right);
    right.insert(2, 0);
    assert!(left != right);
    right.insert(2, 3);
    assert!(left == right);
    right.insert(9, 9);
    assert!(left != right);
    assert!(right != left);
    let moved: HashMap<u8, u8> = HashMap::from_parts(Scope::fresh_shared(), left.into_parts().1);
    let mut rebuilt: HashMap<u8, u8> = HashMap::new();
    for key in 0..5 {
        rebuilt.insert(key, key + 1);
    }
    assert!(moved.shared_mode());
    assert!(moved == rebuilt);
}

#[test]
fn maps_of_one_size_with_other_keys_differ() {
    let mut left: HashMap<u8, u8> = HashMap::new();
    let mut right: HashMap<u8, u8> = HashMap::new();
    left.insert(1, 1);
    right.insert(2, 1);
    assert!(left != right);
    let empty: HashMap<u8, u8> = HashMap::new();
    assert!(empty != left);
    assert!(empty == HashMap::new());
}

#[test]
fn sets_are_equal_by_their_elements_alone() {
    let mut left: HashSet<u8> = HashSet::new();
    let mut right: HashSet<u8> = HashSet::builder()
        .shared_collector(Arc::new(Collector::new()))
        .capacity(64)
        .build();
    for key in [1, 2, 3] {
        left.insert(key);
    }
    for key in [3, 2, 1, 1] {
        right.insert(key);
    }
    assert!(left == right);
    right.insert(4);
    assert!(left != right);
    left.insert(5);
    assert!(left != right);
    left.insert(4);
    right.insert(5);
    assert!(left == right);
}

#[test]
fn builder_joins_the_named_scope_or_makes_a_private_one() {
    let plain: HashSet<u8> = HashSet::builder().capacity(8).build();
    assert!(plain.is_empty());
    assert!(!plain.shared_mode());
    let collector = Arc::new(Collector::new());
    let first: HashSet<u8> = HashSet::builder()
        .shared_collector(collector.clone())
        .capacity(0)
        .build();
    let second: HashSet<u8> = HashSet::builder()
        .capacity(3)
        .shared_collector(collector.clone())
        .build();
    assert!(first.is_empty() && second.is_empty());
    assert!(first.shared_mode() && second.shared_mode());
    assert!(first.joint_with(&second));
    assert!(!first.joint_with(&plain));
    let elsewhere: HashSet<u8> = HashSet::builder()
        .shared_collector(Arc::new(Collector::new()))
        .build();
    assert!(!first.joint_with(&elsewhere));
}

#[test]
fn scopes_keep_their_mode() {
    let private = Scope::private();
    assert!(!private.shared_mode());
    let fresh = Scope::fresh_shared();
    assert!(fresh.shared_mode());
    let collector = Arc::new(Collector::new());
    let left = Scope::shared(collector.clone());
    let right = Scope::shared(collector.clone());
    assert!(left.shared_mode());
    assert!(left.joint_with(&right));
    assert!(!left.joint_with(&fresh));
    assert!(!left.joint_with(&private));
    assert!(!private.joint_with(&private));
    assert!(left.collector() == right.collector());
    assert!(left.collector() != fresh.collector());

    let mut set: HashSet<u8> = HashSet::from_parts(left, std::collections::HashSet::new());
    assert!(set.shared_mode());
    set.insert(1);
    set.insert(2);
    assert!(set.shared_mode());
    let (scope, table) = set.into_parts();
    assert!(scope.joint_with(&right));
    assert_eq!(table.len(), 2);

    let mut map: HashMap<u8, u8> = HashMap::new();
    map.insert(1, 1);
    assert!(!map.shared_mode());
    assert!(!map.joint_with(&map));
}

#[test]
fn joint_needs_two_shared_scopes_and_one_collector() {
    assert!(Scope::joint(true, true, true));
    assert!(!Scope::joint(true, true, false));
    assert!(!Scope::joint(true, false, true));
    assert!(!Scope::joint(false, true, true));
    assert!(!Scope::joint(false, false, true));
    assert!(!Scope::joint(false, false, false));
}

#[test]
fn other_keys_than_bytes_work_alike() {
    let mut wide: HashMap<u64, String> = HashMap::new();
    wide.insert(u64::MAX, String::from("max"));
    wide.insert(0, String::from("zero"));
    wide.insert(u64::MAX, String::from("again"));
    assert_eq!(wide.len(), 2);
    assert_eq!(wide.get(&u64::MAX).map(|text| text.as_str()), Some("again"));
    let mut signed: HashSet<i32> = HashSet::new();
    signed.insert(-1);
    signed.insert(1);
    signed.insert(-1);
    assert_eq!(signed.len(), 2);
    let mut flags: HashSet<bool> = HashSet::new();
    flags.insert(true);
    flags.insert(true);
    assert_eq!(flags.len(), 1);
}

fn shareable<T: Send + Sync>() -> bool {
    true
}

#[test]
fn containers_can_be_shared_between_threads() {
    assert!(shareable::<HashMap<u8, u8>>());
    assert!(shareable::<HashSet<u8>>());
    assert!(shareable::<Scope>());
}
