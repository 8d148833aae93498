use al_structures::collections::storage::utils::keyed::{
    KeyedHandle, KeyedHandleRead, KeyedHandleReadExt, KeyedHandleWrite, KeyedHandleWriteExt,
};
use al_structures::collections::storage::utils::{HandleBulkRead, HandleBulkWrite};
use al_structures::collections::storage::CowStorage;
use std::collections::HashMap;

#[test]
fn cow_handle_keyed_read_write() {
    let storage = CowStorage::new(HashMap::new());
    assert_eq!(storage.len().unwrap(), 0);

    assert!(storage.insert("one".to_string(), 1).unwrap().is_none());
    assert_eq!(storage.get(&"one".to_string()).unwrap().unwrap(), 1);
    assert!(storage.contains_key(&"one".to_string()).unwrap());

    assert_eq!(storage.remove(&"one".to_string()).unwrap().unwrap(), 1);
    assert_eq!(storage.len().unwrap(), 0);
}

#[test]
fn cow_handle_keyed_bulk_read_write() {
    let storage = CowStorage::new(HashMap::new());
    storage.insert_unwrap("a".to_string(), 10);

    let got = storage.with_read_unwrap(|map| *map.get(&"a".to_string()).unwrap());
    assert_eq!(got, 10);

    let len = storage.with_write_unwrap(|map| {
        map.insert("b".to_string(), 20);
        map.len()
    });
    assert_eq!(len, 2);
    assert_eq!(storage.get(&"b".to_string()).unwrap().unwrap(), 20);
}

#[test]
fn cow_handle_keyed_snapshots() {
    let storage = CowStorage::<HashMap<_, _>>::from_iter(vec![
        ("x".to_string(), 1),
        ("y".to_string(), 2),
        ("z".to_string(), 3),
    ]);

    assert_eq!(storage.len_unwrap(), 3);
    assert!(!storage.is_empty_unwrap());

    let mut keys = storage.keys_unwrap();
    keys.sort();
    assert_eq!(
        keys,
        vec!["x".to_string(), "y".to_string(), "z".to_string()]
    );

    let mut values = storage.values_unwrap();
    values.sort();
    assert_eq!(values, vec![1, 2, 3]);

    let mut entries = storage.entries_unwrap();
    entries.sort_by_key(|(k, _)| k.clone());
    assert_eq!(
        entries,
        vec![
            ("x".to_string(), 1),
            ("y".to_string(), 2),
            ("z".to_string(), 3),
        ]
    );
}

#[test]
fn cow_handle_keyed_merge_drain_extend_retain_clear() {
    let storage = CowStorage::<HashMap<_, _>>::from_iter(vec![("a".to_string(), 10)]);
    assert_eq!(storage.len_unwrap(), 1);
    storage.merge_unwrap(&CowStorage::<HashMap<_, _>>::from_iter(vec![(
        "b".to_string(),
        20,
    )]));
    assert_eq!(storage.len_unwrap(), 2);

    let drained = storage.drain().unwrap();
    assert_eq!(drained.len(), 2);
    assert_eq!(storage.len_unwrap(), 0);

    storage.extend_unwrap(drained);
    assert_eq!(storage.len_unwrap(), 2);
    storage.retain_unwrap(|k: &String, _: &mut i32| k == "a");
    assert_eq!(storage.len_unwrap(), 1);
    storage.clear_unwrap();
    assert_eq!(storage.len_unwrap(), 0);
}

#[test]
fn cow_handle_keyed_lazy_initialization() {
    let storage = CowStorage::new(HashMap::<String, _>::new());

    let value = storage.get_or_insert_with("x".to_string(), || 100).unwrap();
    assert_eq!(value, 100);
    assert_eq!(storage.get_unwrap(&"x".to_string()).unwrap(), 100);

    let value = storage
        .get_or_try_insert_with("y".to_string(), || Ok(200))
        .unwrap();
    assert_eq!(value, 200);
    assert_eq!(storage.get_unwrap(&"y".to_string()).unwrap(), 200);
}

#[test]
fn cow_handle_keyed_try_lazy_initialization() {
    let storage = CowStorage::new(HashMap::<String, _>::new());

    let value = storage
        .get_or_try_insert_with("y".to_string(), || Ok(200))
        .unwrap();
    assert_eq!(value, 200);
}

#[test]
fn cow_handle_keyed_with_capacity() {
    let storage = CowStorage::<HashMap<_, _>>::with_capacity(100);
    assert_eq!(storage.len_unwrap(), 0);
    storage.insert_unwrap("test".to_string(), 1);
    assert_eq!(storage.len_unwrap(), 1);
}

#[test]
fn cow_handle_keyed_from_iter() {
    let storage = CowStorage::<HashMap<_, _>>::from_iter(vec![
        ("a".to_string(), 1),
        ("b".to_string(), 2),
    ]);
    assert_eq!(storage.len_unwrap(), 2);
}

#[test]
fn cow_handle_keyed_clone() {
    let storage_1 = CowStorage::new(HashMap::new());
    storage_1.insert_unwrap("x".to_string(), 1);

    let storage_2 = storage_1.clone();
    assert_eq!(storage_2.get_unwrap(&"x".to_string()).unwrap(), 1);

    storage_2.insert_unwrap("y".to_string(), 2);
    assert_eq!(storage_1.get_unwrap(&"y".to_string()).unwrap(), 2);
}

#[test]
fn cow_handle_keyed_fold_and_map_mut() {
    let storage = CowStorage::<HashMap<String, i32>>::from_iter(vec![
        ("a".to_string(), 1),
        ("b".to_string(), 2),
    ]);
    let total = storage.fold_mut_unwrap(0, |acc, (_k, v)| {
        *v = -*v;
        acc + *v
    });
    assert_eq!(total, -3);
    let mut keys = storage.map_mut_unwrap(|(k, v)| {
        *v += 100;
        k.clone()
    });
    keys.sort();
    assert_eq!(keys, vec!["a".to_string(), "b".to_string()]);
    assert_eq!(storage.get_unwrap(&"b".to_string()).unwrap(), 98);
    let v = storage.try_insert_with_unwrap("c".to_string(), || Ok(3));
    assert_eq!(v, 3);
}
