use gear_git::keys::{string_lt, ActorId};
use gear_git::sorted_map::SortedMap;

#[test]
fn sorted_map_keeps_keys_in_order() {
    let mut m: SortedMap<u32, &'static str> = SortedMap::new();
    m.insert(30, "c");
    m.insert(10, "a");
    m.insert(20, "b");
    assert_eq!(m.len(), 3);
    assert_eq!(*m.key_at(0), 10);
    assert_eq!(*m.key_at(1), 20);
    assert_eq!(*m.key_at(2), 30);
    assert_eq!(m.into_values(), vec!["a", "b", "c"]);
}

#[test]
fn sorted_map_insert_replaces_value_of_present_key() {
    let mut m: SortedMap<u32, u32> = SortedMap::new();
    m.insert(5, 1);
    m.insert(5, 2);
    assert_eq!(m.len(), 1);
    assert_eq!(m.get(&5), Some(&2));
}

#[test]
fn sorted_map_get_after_insert() {
    let mut m: SortedMap<u32, u32> = SortedMap::new();
    m.insert(7, 70);
    m.insert(3, 30);
    assert_eq!(m.get(&7), Some(&70));
    assert_eq!(m.get(&3), Some(&30));
    assert_eq!(m.get(&4), None);
    assert!(m.contains_key(&3));
    assert!(!m.contains_key(&4));
}

#[test]
fn sorted_map_remove() {
    let mut m: SortedMap<u32, u32> = SortedMap::new();
    m.insert(1, 10);
    m.insert(2, 20);
    m.insert(3, 30);
    assert_eq!(m.remove(&2), Some(20));
    assert_eq!(m.remove(&2), None);
    assert_eq!(m.len(), 2);
    assert_eq!(m.into_values(), vec![10, 30]);
}

#[test]
fn sorted_map_actor_keys_ordered_by_bytes() {
    let mut m: SortedMap<ActorId, u32> = SortedMap::new();
    m.insert(ActorId { hi: 1, lo: 0 }, 3);
    m.insert(ActorId { hi: 0, lo: 9 }, 2);
    m.insert(ActorId { hi: 0, lo: 1 }, 1);
    assert_eq!(m.into_values(), vec![1, 2, 3]);
}

#[test]
fn sorted_map_string_keys_ordered_lexicographically() {
    let mut m: SortedMap<String, u32> = SortedMap::new();
    m.insert("b".to_string(), 3);
    m.insert("ab".to_string(), 2);
    m.insert("a".to_string(), 1);
    m.insert("".to_string(), 0);
    assert_eq!(m.into_values(), vec![0, 1, 2, 3]);
}

#[test]
fn string_order_matches_std() {
    let words = ["", "a", "ab", "b", "Z", "é", "aé", "abc", "ab0"];
    for x in words.iter() {
        for y in words.iter() {
            let a = x.to_string();
            let b = y.to_string();
            assert_eq!(string_lt(&a, &b), a < b, "{:?} < {:?}", a, b);
        }
    }
}

#[test]
fn sorted_map_duplicate_is_equal() {
    let mut m: SortedMap<u32, String> = SortedMap::new();
    m.insert(2, "two".to_string());
    m.insert(1, "one".to_string());
    let d = m.duplicate();
    assert_eq!(d.into_values(), vec!["one".to_string(), "two".to_string()]);
    assert_eq!(m.len(), 2);
}

#[test]
fn sorted_map_listing_depends_only_on_contents() {
    let mut a: SortedMap<u32, u32> = SortedMap::new();
    let mut b: SortedMap<u32, u32> = SortedMap::new();
    for k in [4u32, 1, 3, 2] {
        a.insert(k, k * 10);
    }
    for k in [2u32, 3, 9, 1, 4] {
        b.insert(k, k * 10);
    }
    b.remove(&9);
    assert_eq!(a.into_values(), b.into_values());
}
