use al_structures::collections::storage::utils::keyed::{
    KeyedHandle, KeyedHandleRead, KeyedHandleReadExt, KeyedHandleWrite, KeyedHandleWriteExt,
};
use al_structures::collections::storage::utils::{HandleBulkRead, HandleBulkWrite};
use al_structures::collections::storage::RwLockStorage;
use std::collections::HashMap;

#[test]
fn rwlock_handle_keyed_read_write() {
    let storage = RwLockStorage::new(HashMap::new());
    assert_eq!(storage.len().unwrap(), 0);

    assert!(storage.insert("one".to_string(), 1).unwrap().is_none());
    assert!(storage.contains_key(&"one".to_string()).unwrap());
    assert_eq!(storage.get(&"one".to_string()).unwrap().unwrap(), 1);
    assert_eq!(storage.len().unwrap(), 1);

    assert_eq!(storage.remove(&"one".to_string()).unwrap().unwrap(), 1);
    assert_eq!(storage.len().unwrap(), 0);
}

#[test]
fn rwlock_handle_keyed_bulk_read_write() {
    let storage = RwLockStorage::new(HashMap::new());
    storage.insert_unwrap("a".to_string(), 10);

    let got = storage.with_read_unwrap(|map| *map.get("a").unwrap());
    assert_eq!(got, 10);

    let len = storage.with_write_unwrap(|map| {
        map.insert("b".to_string(), 20);
        map.len()
    });
    assert_eq!(len, 2);
    assert_eq!(storage.get_unwrap(&"b".to_string()).unwrap(), 20);
}

#[test]
fn rwlock_handle_keyed_snapshots() {
    let storage = RwLockStorage::<HashMap<String, u8>>::from_iter(vec![
        ("x".to_string(), 1),
        ("y".to_string(), 2),
        ("z".to_string(), 3),
    ]);

    assert_eq!(storage.len_unwrap(), 3);
    assert!(!storage.is_empty_unwrap());

    let mut keys = storage.keys_unwrap();
    keys.sort();
    assert_eq!(keys, vec!["x".to_string(), "y".to_string(), "z".to_string()]);

    let mut values = storage.values_unwrap();
    values.sort();
    assert_eq!(values, vec![1, 2, 3]);

    let mut entries = storage.entries_unwrap();
    entries.sort_by_key(|(k, _)| k.clone());
    assert_eq!(
        entries,
        vec![("x".to_string(), 1), ("y".to_string(), 2), ("z".to_string(), 3)]
    );
}

#[test]
fn rwlock_handle_keyed_merge_drain_extend_retain_clear() {
    let storage = RwLockStorage::<HashMap<String, u8>>::from_iter(vec![("a".to_string(), 10)]);
    assert_eq!(storage.len_unwrap(), 1);
    storage.merge_unwrap(&RwLockStorage::<HashMap<String, u8>>::from_iter(vec![("b".to_string(), 20)]));
    assert_eq!(storage.len_unwrap(), 2);

    let drained = storage.drain_unwrap();
    assert_eq!(drained.len(), 2);
    assert_eq!(storage.len_unwrap(), 0);

    storage.extend_unwrap(drained);
    assert_eq!(storage.len_unwrap(), 2);
    storage.retain_unwrap(|k, _| k == "a");
    assert_eq!(storage.len_unwrap(), 1);
    storage.clear_unwrap();
    assert_eq!(storage.len_unwrap(), 0);
}

#[test]
fn rwlock_handle_keyed_lazy_initialization() {
    let storage = RwLockStorage::new(HashMap::new());

    assert_eq!(storage.get_or_insert_with("x", || 100).unwrap(), 100);
    assert_eq!(storage.get_unwrap(&"x").unwrap(), 100);

    assert_eq!(storage.get_or_insert_with("x", || 999).unwrap(), 100);
}

#[test]
fn rwlock_handle_keyed_try_lazy_initialization() {
    let storage = RwLockStorage::new(HashMap::new());

    assert_eq!(storage.get_or_try_insert_with("y", || Ok(200)).unwrap(), 200);
}

#[test]
fn rwlock_handle_keyed_with_capacity() {
    let storage = RwLockStorage::<HashMap<String, u8>>::with_capacity(100);
    assert_eq!(storage.len_unwrap(), 0);
    storage.insert_unwrap("test".to_string(), 1);
    assert_eq!(storage.len_unwrap(), 1);
}

#[test]
fn rwlock_handle_keyed_from_iter() {
    let storage = RwLockStorage::<HashMap<String, u8>>::from_iter(vec![
        ("a".to_string(), 1),
        ("b".to_string(), 2),
    ]);
    assert_eq!(storage.len_unwrap(), 2);
}

#[test]
fn rwlock_handle_keyed_clone() {
    let storage_1 = RwLockStorage::new(HashMap::new());
    storage_1.insert_unwrap("x".to_string(), 1);

    let storage_2 = storage_1.clone();
    assert_eq!(storage_2.get_unwrap(&"x".to_string()).unwrap(), 1);

    storage_2.insert_unwrap("y".to_string(), 2);
    assert_eq!(storage_1.get_unwrap(&"y".to_string()).unwrap(), 2);
}

#[test]
fn rwlock_handle_keyed_find_and_with_mut() {
    let storage = RwLockStorage::<HashMap<u32, u32>>::from_iter(vec![(1, 10), (2, 20)]);
    assert_eq!(storage.find_key_unwrap(|(_, v)| *v == 20), Some(2));
    assert_eq!(storage.find_unwrap(|(k, _)| *k == 1), Some((1, 10)));
    assert_eq!(storage.find_unwrap(|(k, _)| *k == 3), None);
    assert_eq!(storage.with_mut_unwrap(&1, |v| { *v += 5; *v }), Some(15));
    assert_eq!(storage.with_ref_unwrap(&1, |v| *v * 2), Some(30));
    assert_eq!(storage.with_ref_unwrap(&9, |v| *v), None);
    let mut doubled = storage.map_unwrap(|(_, v)| *v * 2);
    doubled.sort();
    assert_eq!(doubled, vec![30, 40]);
}

#[test]
fn rwlock_handle_keyed_fold_and_map_mut() {
    let storage = RwLockStorage::<HashMap<u32, u32>>::from_iter(vec![(1, 10), (2, 20), (3, 30)]);
    let total = storage.fold_mut_unwrap(0u32, |acc, (_k, v)| {
        *v += 1;
        acc + *v
    });
    assert_eq!(total, 63);
    let mut doubled = storage.map_mut_unwrap(|(k, v)| {
        *v *= 2;
        *k + *v
    });
    doubled.sort();
    assert_eq!(doubled, vec![23, 44, 65]);
    assert_eq!(storage.get_unwrap(&2).unwrap(), 42);
    let empty = RwLockStorage::<HashMap<u32, u32>>::new(HashMap::new());
    assert_eq!(empty.fold_mut(7u32, |acc, _| acc + 1).unwrap(), 7);
}

#[test]
fn rwlock_handle_keyed_try_insert_with_unwrap() {
    let storage = RwLockStorage::<HashMap<u32, String>>::new(HashMap::new());
    let v = storage.try_insert_with_unwrap(1, || Ok("one".to_string()));
    assert_eq!(v, "one");
    let again = storage.try_insert_with_unwrap(1, || Ok("uno".to_string()));
    assert_eq!(again, "one");
}

