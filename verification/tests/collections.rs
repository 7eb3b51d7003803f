use cool_compiler::{
    Arena, CoolIndex, HashMapExt, Id, IdIndexedVec, NonZeroId, SmallString, SmallVecMap,
    SmallVecSet,
};
use std::collections::HashMap;

#[test]
fn small_vec_set_keeps_first_insertion_only() {
    let mut set: SmallVecSet<u32, 4> = SmallVecSet::default();
    assert!(set.is_empty());
    assert!(set.insert(3));
    assert!(set.insert(1));
    assert!(!set.insert(3));
    assert_eq!(set.len(), 2);
    assert_eq!(set.as_slice(), &[3, 1]);
    assert!(set.contains(&1));
    assert!(!set.contains(&2));
    assert_eq!(set.position_of(&1), Some(1));
    assert_eq!(set.position_of(&7), None);
}

#[test]
fn small_vec_set_clear_and_mutate() {
    let mut set: SmallVecSet<u32, 2> = SmallVecSet::default();
    set.insert(5);
    set.insert(6);
    set.as_mut_slice()[0] = 9;
    assert_eq!(set.as_slice(), &[9, 6]);
    set.clear();
    assert!(set.is_empty());
    assert_eq!(set.len(), 0);
}

#[test]
fn small_vec_map_insert_replaces_and_returns_old_value() {
    let mut map: SmallVecMap<u32, &str, 4> = SmallVecMap::default();
    assert_eq!(map.insert(1, "one"), None);
    assert_eq!(map.insert(2, "two"), None);
    assert_eq!(map.insert(1, "uno"), Some("one"));
    assert_eq!(map.len(), 2);
    assert_eq!(map.get(&1), Some(&"uno"));
    assert_eq!(map.get(&2), Some(&"two"));
    assert_eq!(map.get(&3), None);
    assert_eq!(map.iter(), &[(1, "uno"), (2, "two")]);
}

#[test]
fn small_vec_map_insert_if_not_exists_never_replaces() {
    let mut map: SmallVecMap<u32, u32, 2> = SmallVecMap::default();
    assert!(map.insert_if_not_exists(7, 70));
    assert!(!map.insert_if_not_exists(7, 71));
    assert_eq!(map.get(&7), Some(&70));
    assert!(map.contains_key(&7));
    assert!(!map.contains_key(&8));
}

#[test]
fn small_vec_map_unchecked_and_views() {
    let mut map: SmallVecMap<u32, u32, 2> = SmallVecMap::default();
    assert!(map.is_empty());
    map.insert_unchecked(1, 10);
    map.insert_unchecked(1, 11);
    assert_eq!(map.len(), 2);
    assert_eq!(map.get(&1), Some(&10));
    assert_eq!(map.keys(), vec![&1, &1]);
    assert_eq!(map.values(), vec![&10, &11]);
}

#[test]
fn small_vec_map_get_mut_changes_first_pair() {
    let mut map: SmallVecMap<u32, u32, 2> = SmallVecMap::default();
    map.insert(4, 40);
    if let Some(v) = map.get_mut(&4) {
        *v += 2;
    }
    assert_eq!(map.get(&4), Some(&42));
    assert!(map.get_mut(&5).is_none());
}

#[test]
fn arena_interns_values() {
    let mut arena: Arena<u32, u64> = Arena::default();
    assert!(arena.is_empty());
    let a = arena.insert(100);
    let b = arena.insert(200);
    let c = arena.insert(100);
    assert_eq!(a, 0);
    assert_eq!(b, 1);
    assert_eq!(c, 0);
    assert_eq!(arena.len(), 2);
    assert_eq!(arena.get(1), Some(&200));
    assert_eq!(arena.get(2), None);
    assert_eq!(arena.get_index(&200), Some(1));
    assert_eq!(arena.get_index(&300), None);
    assert!(arena.contains(&100));
    assert!(!arena.contains(&300));
    assert_eq!(arena.iter(), &[100, 200]);
    assert_eq!(arena.iter_indexes(), vec![0, 1]);
    arena.reset();
    assert_eq!(arena.len(), 0);
    assert_eq!(arena.insert(200), 0);
}

#[test]
fn arena_interns_strings() {
    let mut arena: Arena<u32, String> = Arena::default();
    let main = arena.insert_str("main");
    let printf = arena.insert_str("printf");
    assert_eq!(arena.insert_str("main"), main);
    assert_eq!(main, 0);
    assert_eq!(printf, 1);
    assert_eq!(arena.get(printf).map(|s| s.as_str()), Some("printf"));
    assert_eq!(arena.insert_str("héllo"), 2);
    assert_eq!(arena.insert_str("héllo"), 2);
    assert_eq!(arena.len(), 3);
}

#[test]
fn arena_interns_slices() {
    let mut arena: Arena<u32, Vec<u8>> = Arena::default();
    assert_eq!(arena.insert_slice(&[1, 2, 3]), 0);
    assert_eq!(arena.insert_slice(&[1, 2]), 1);
    assert_eq!(arena.insert_slice(&[1, 2, 3]), 0);
    assert_eq!(arena.insert_slice(&[]), 2);
    assert_eq!(arena.get(1), Some(&vec![1, 2]));
}

#[test]
fn cool_index_get_returns_what_new_was_given() {
    let index = <u32 as CoolIndex>::new(17);
    assert_eq!(CoolIndex::get(&index), 17);
}

#[test]
fn id_indexed_vec_ids_count_from_one() {
    let mut v: IdIndexedVec<NonZeroId, &str> = IdIndexedVec::new();
    let a = v.push("a");
    let b = v.push("b");
    assert_eq!(a.get(), 1);
    assert_eq!(b.get(), 2);
    assert_eq!(a.index(), 0);
    assert_eq!(b.index(), 1);
    assert_eq!(*v.get(b), "b");
    *v.get_mut(a) = "z";
    assert_eq!(v.as_slice(), &["z", "b"]);
    let c = NonZeroId::new(3).unwrap();
    v.push_checked(c, "c");
    assert_eq!(*v.get(c), "c");
    v.as_mut_slice()[2] = "d";
    assert_eq!(v.as_slice(), &["z", "b", "d"]);
    assert_eq!(NonZeroId::new(0), None);
}

#[test]
fn hash_map_insert_if_not_exists() {
    let mut map: HashMap<u32, u32> = HashMap::new();
    {
        let v = map.insert_if_not_exists(1, 10);
        assert_eq!(v.as_deref(), Some(&10));
        if let Some(v) = v {
            *v = 11;
        }
    }
    assert!(map.insert_if_not_exists(1, 12).is_none());
    assert_eq!(map.get(&1), Some(&11));
    assert_eq!(map.len(), 1);
}

#[test]
fn small_string_push_and_views() {
    let mut s = SmallString::new();
    assert!(s.is_empty());
    s.push('a');
    s.push_str("bé");
    assert_eq!(s.as_str(), "abé");
    assert_eq!(s.len(), 4);
    assert!(!s.is_empty());
    let t: SmallString<16> = SmallString::from_text("abé");
    assert!(s == t);
    let u = s.clone();
    assert!(u == s);
    s.clear();
    assert_eq!(s.as_str(), "");
    assert!(s != t);
}

#[test]
fn arena_stored_values_map_back_to_their_index() {
    let mut arena: Arena<u32, u64> = Arena::default();
    for v in [5u64, 9, 5, 2, 9, 7] {
        arena.insert(v);
    }
    assert_eq!(arena.iter(), &[5, 9, 2, 7]);
    for i in arena.iter_indexes() {
        let v = *arena.get(i).unwrap();
        assert_eq!(arena.get_index(&v), Some(i));
    }
    arena.reset();
    assert!(arena.is_empty());
    assert_eq!(arena.insert(7), 0);
    assert_eq!(arena.insert(5), 1);
}

#[test]
fn arena_new_slice_is_stored_and_found_again() {
    let mut arena: Arena<u32, Vec<u32>> = Arena::default();
    let a = arena.insert_slice(&[4, 5]);
    let b = arena.insert_slice(&[4]);
    assert_eq!((a, b), (0, 1));
    assert_eq!(arena.len(), 2);
    assert_eq!(arena.get(b), Some(&vec![4]));
    assert_eq!(arena.insert_slice(&[4]), b);
    assert_eq!(arena.insert_slice(&[4, 5]), a);
    assert_eq!(arena.len(), 2);
    assert_eq!(arena.iter(), &[vec![4, 5], vec![4]]);
}

#[test]
fn arena_strings_stay_distinct() {
    let mut arena: Arena<u32, String> = Arena::default();
    for s in ["a", "b", "a", "c", "b"] {
        arena.insert_str(s);
    }
    let stored: Vec<&str> = arena.iter().iter().map(|s| s.as_str()).collect();
    assert_eq!(stored, vec!["a", "b", "c"]);
    for i in arena.iter_indexes() {
        let s = arena.get(i).unwrap().clone();
        assert_eq!(arena.insert_str(&s), i);
    }
    assert_eq!(arena.len(), 3);
}

#[test]
fn small_string_orders_as_str() {
    let words = ["", "a", "ab", "b", "é", "z", "ab\u{0}"];
    for x in words {
        for y in words {
            let mut a: SmallString<16> = SmallString::default();
            a.push_str(x);
            let mut b: SmallString<16> = SmallString::default();
            b.push_str(y);
            assert_eq!(a.partial_cmp(&b), x.partial_cmp(y));
            assert_eq!(a < b, x < y);
        }
    }
}
