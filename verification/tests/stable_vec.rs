use al_structures::collections::stable_vec::{GenerationKey, StableVec, StableVecError, StableVecUnchecked};

#[test]
fn insert_and_get() {
    let mut vec = StableVec::new();
    let id0 = vec.insert("a");
    let id1 = vec.insert("b");
    let id2 = vec.insert("c");

    assert_eq!(vec.get(id0), Some(&"a"));
    assert_eq!(vec.get(id1), Some(&"b"));
    assert_eq!(vec.get(id2), Some(&"c"));
    assert_eq!(vec.len(), 3);
}

#[test]
fn remove_and_swap() {
    let mut vec = StableVec::new();
    let id0 = vec.insert("a");
    let id1 = vec.insert("b");
    let id2 = vec.insert("c");

    assert_eq!(vec.remove(id1), Some("b"));
    assert_eq!(vec.len(), 2);

    assert_eq!(vec.get(id0), Some(&"a"));
    assert_eq!(vec.get(id1), None);
    assert_eq!(vec.get(id2), Some(&"c"));
}

#[test]
fn remove_last() {
    let mut vec = StableVec::new();
    let id0 = vec.insert("a");
    let id1 = vec.insert("b");
    let id2 = vec.insert("c");

    assert_eq!(vec.remove(id2), Some("c"));
    assert_eq!(vec.len(), 2);
    assert_eq!(vec.get(id2), None);
    assert_eq!(vec.get(id0), Some(&"a"));
    assert_eq!(vec.get(id1), Some(&"b"));
}

#[test]
fn remove_first() {
    let mut vec = StableVec::new();
    let id0 = vec.insert("a");
    let id1 = vec.insert("b");
    let id2 = vec.insert("c");

    assert_eq!(vec.remove(id0), Some("a"));
    assert_eq!(vec.len(), 2);

    assert_eq!(vec.get(id2), Some(&"c"));
    assert_eq!(vec.get(id1), Some(&"b"));
}

#[test]
fn iteration() {
    let mut vec = StableVec::new();
    vec.insert("a");
    vec.insert("b");
    vec.insert("c");

    let collected: Vec<_> = vec.iter().copied().collect();
    assert_eq!(collected, vec!["a", "b", "c"]);
}

#[test]
fn iteration_after_removals() {
    let mut vec = StableVec::new();
    let id0 = vec.insert("a");
    let id1 = vec.insert("b");
    let id2 = vec.insert("c");
    let id3 = vec.insert("d");

    vec.remove(id1);
    vec.remove(id2);

    let collected: Vec<_> = vec.iter().copied().collect();
    assert_eq!(collected.len(), 2);
    assert!(collected.contains(&"a"));
    assert!(collected.contains(&"d"));
    assert_eq!(vec.get(id0), Some(&"a"));
    assert_eq!(vec.get(id3), Some(&"d"));
}

#[test]
fn stale_key() {
    let mut vec = StableVec::new();
    let id0 = vec.insert("a");

    assert!(vec.is_valid(id0));
    vec.remove(id0);
    assert!(!vec.is_valid(id0));
    assert!(vec.get(id0).is_none());
}

#[test]
fn reused_index() {
    let mut vec = StableVec::new();
    let k0 = vec.insert("first");
    vec.remove(k0);

    let k1 = vec.insert("second");
    assert_ne!(k0, k1, "generation should differ");
    assert!(vec.get(k0).is_none());
    assert_eq!(vec.get(k1), Some(&"second"));
}

#[test]
fn retain() {
    let mut vec = StableVec::new();
    let ka = vec.insert("a");
    let kb = vec.insert("b");
    let kc = vec.insert("c");
    let kd = vec.insert("d");

    vec.retain(|s| s.starts_with('a') || s.starts_with('d'));
    assert_eq!(vec.len(), 2);
    assert!(vec.get(ka).is_some());
    assert!(vec.get(kd).is_some());
    assert!(vec.get(kb).is_none());
    assert!(vec.get(kc).is_none());
}

#[test]
fn keys_iter() {
    let mut v = StableVec::new();
    let _k0 = v.insert(10);
    let k1 = v.insert(20);
    let _k2 = v.insert(30);
    v.remove(k1);
    let keys: Vec<GenerationKey> = v.keys().collect();
    assert_eq!(keys.len(), 2);
    for key in &keys {
        assert!(v.contains(*key));
    }
    assert!(!keys.contains(&k1));
}

#[test]
fn index_operator() {
    let mut v = StableVec::new();
    let k = v.insert("hello");
    assert_eq!(v[k], "hello");
    *v.get_mut(k).unwrap() = "world";
    assert_eq!(v[k], "world");
}

#[test]
fn unchecked_upgrade() {
    let svu = StableVecUnchecked::from_iters(
        vec!["a".to_string(), "b".to_string()],
        vec![0usize, 1usize],
        vec![0usize, 1usize],
        vec![1u64, 1u64],
    );

    let sv = svu.check().expect("unchecked should validate");
    assert_eq!(sv.len(), 2);
    let keys = sv.keys().collect::<Vec<_>>();
    assert_eq!(keys.len(), 2);
    assert_eq!(sv.get(keys[0]), Some(&"a".to_string()));
    assert_eq!(sv.get(keys[1]), Some(&"b".to_string()));
}

#[test]
fn insert_then_remove_gives_item_back() {
    let mut v = StableVec::new();
    let k = v.insert(7u32);
    assert_eq!(v.remove(k), Some(7));
    assert_eq!(v.remove(k), None);
    assert!(v.is_empty());
}

#[test]
fn compact_remaps_live_keys() {
    let mut v = StableVec::new();
    let a = v.insert('a');
    let b = v.insert('b');
    let c = v.insert('c');
    v.remove(b);
    let remap = v.compact();
    assert_eq!(remap.len(), 3);
    assert_eq!(remap[b.index()], None);
    let na = remap[a.index()].unwrap();
    let nc = remap[c.index()].unwrap();
    assert_eq!(v.get(na), Some(&'a'));
    assert_eq!(v.get(nc), Some(&'c'));
    assert_eq!(v.len(), 2);
}

#[test]
fn clear_retires_every_key() {
    let mut v = StableVec::new();
    let a = v.insert(1u8);
    v.clear();
    assert!(v.is_empty());
    assert!(!v.contains(a));
    assert_eq!(v.get(a), None);
}

#[test]
fn check_rejects_mismatched_lengths() {
    let svu = StableVecUnchecked::from_iters(vec![1u8], vec![0usize, 1usize], vec![0usize], vec![1u64]);
    assert_eq!(
        svu.check().err(),
        Some(StableVecError::LengthMismatch { data_index_len: 2, id_map_len: 1, generations_len: 1 })
    );
}

#[test]
fn generation_key_accessors() {
    let k = GenerationKey::new(3, 9);
    assert_eq!(k.index(), 3);
    assert_eq!(k.generation(), 9);
}

#[test]
fn fresh_key_has_generation_one() {
    let mut v = StableVec::new();
    let k = v.insert("a");
    assert_eq!(k.generation(), 1);
    assert_eq!(v.remove(k), Some("a"));
    assert!(v.is_empty());
}

#[test]
fn clear_never_reissues_a_key() {
    let mut v = StableVec::new();
    let k = v.insert("a");
    v.clear();
    let k2 = v.insert("b");
    assert_ne!(k, k2);
    assert_eq!(v.get(k), None);
    assert_eq!(v.get(k2), Some(&"b"));
}

#[test]
fn check_refuses_data_longer_than_metadata() {
    let svu = StableVecUnchecked::from_iters(vec![1u8, 2u8], vec![0usize], vec![0usize], vec![1u64]);
    assert!(matches!(svu.check(), Err(StableVecError::LengthMismatch { .. })));
}
