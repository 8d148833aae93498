use al_structures::collections::storage::utils::keyed::{
    merge_dyn, KeyedDynHandle, KeyedHandle, KeyedStorage, KeyedStorageRead,
    KeyedStorageWrite,
};
use al_structures::collections::storage::{CowStorage, RwLockStorage};
use std::collections::HashMap;

#[test]
fn hashmap_read_write() {
    let mut map: HashMap<String, u32> = HashMap::new();
    assert_eq!(*KeyedStorageWrite::try_insert(&mut map, "a".to_string(), 1).unwrap(), 1);
    assert_eq!(*KeyedStorageWrite::try_insert(&mut map, "a".to_string(), 2).unwrap(), 1);

    assert!(KeyedStorageRead::contains_key(&map, &"a".to_string()).unwrap());
    assert_eq!(*KeyedStorageRead::get(&map, &"a".to_string()).unwrap().unwrap(), 1);

    if let Some(value) = KeyedStorageWrite::get_mut(&mut map, &"a".to_string()).unwrap() {
        *value = 10;
    }
    assert_eq!(*KeyedStorageRead::get(&map, &"a".to_string()).unwrap().unwrap(), 10);

    let keys = KeyedStorageRead::keys(&map).unwrap();
    assert_eq!(keys, vec!["a".to_string()]);

    let values = KeyedStorageRead::values(&map).unwrap();
    assert_eq!(values, vec![10]);

    let entries = KeyedStorageRead::entries(&map).unwrap();
    assert_eq!(entries, vec![("a".to_string(), 10)]);

    let drained = KeyedStorageWrite::drain(&mut map).unwrap();
    assert_eq!(drained, vec![("a".to_string(), 10)]);
    assert!(KeyedStorageRead::is_empty(&map).unwrap());

    KeyedStorageWrite::extend(&mut map, vec![("x".to_string(), 1), ("y".to_string(), 2)]).unwrap();
    assert_eq!(KeyedStorageRead::len(&map).unwrap(), 2);
}

#[test]
fn hashmap_edge_cases() {
    let mut map: HashMap<String, u32> = HashMap::new();

    assert_eq!(*KeyedStorageWrite::try_insert(&mut map, "a".to_string(), 1).unwrap(), 1);
    assert_eq!(*KeyedStorageWrite::try_insert(&mut map, "a".to_string(), 2).unwrap(), 1);
    assert_eq!(*KeyedStorageRead::get(&map, &"a".to_string()).unwrap().unwrap(), 1);

    let v = *KeyedStorage::get_or_insert_with(&mut map, "b".to_string(), || 10).unwrap();
    assert_eq!(v, 10);
    assert_eq!(*KeyedStorageRead::get(&map, &"b".to_string()).unwrap().unwrap(), 10);

    let res = KeyedStorage::get_or_try_insert_with(&mut map, "c".to_string(), || Err::<u32, _>("fail".into()));
    assert!(res.is_err());
    assert_eq!(KeyedStorageRead::get(&map, &"c".to_string()).unwrap(), None);

    assert_eq!(*KeyedStorageWrite::try_insert(&mut map, "s".to_string(), 7).unwrap(), 7);
    assert_eq!(*KeyedStorageRead::get(&map, &"s".to_string()).unwrap().unwrap(), 7);

    if let Some(v) = KeyedStorageWrite::get_mut(&mut map, &"s".to_string()).unwrap() {
        *v = 42;
    }
    assert_eq!(*KeyedStorageRead::get(&map, &"s".to_string()).unwrap().unwrap(), 42);
}

#[test]
fn keyed_dyn_handle_read_write() {
    let boxed: Box<dyn KeyedDynHandle<_, _>> = Box::new(RwLockStorage::new(HashMap::new()));
    let key = "alpha".to_string();
    boxed.insert(key.clone(), 42).unwrap();
    assert_eq!(boxed.get(&key).unwrap().unwrap(), 42);
    assert!(boxed.contains_key(&key).unwrap());
    assert_eq!(boxed.len().unwrap(), 1);
    assert_eq!(boxed.keys().unwrap(), vec![key]);
}

#[test]
fn keyed_dyn_handle_lazy_initialization() {
    let rwl = RwLockStorage::new(HashMap::new());
    let dyn_handle: &dyn KeyedDynHandle<_, _> = &rwl;

    let value = dyn_handle.get_or_insert_with("key".to_string(), 100).unwrap();
    assert_eq!(value, 100);
    assert_eq!(dyn_handle.get(&"key".to_string()).unwrap(), Some(100));

    let value = dyn_handle.get_or_insert_with("key".to_string(), 999).unwrap();
    assert_eq!(value, 100);
}

#[test]
fn hashmap_retain_and_for_each_mut() {
    let mut map: HashMap<u32, u32> = KeyedStorage::from_iter(vec![(1, 10), (2, 20), (3, 30), (1, 11)]);
    assert_eq!(KeyedStorageRead::len(&map).unwrap(), 3);
    assert_eq!(*KeyedStorageRead::get(&map, &1).unwrap().unwrap(), 11);
    KeyedStorageWrite::for_each_mut(&mut map, |(_, v)| *v += 1);
    KeyedStorageWrite::retain(&mut map, |k, _| *k != 2).unwrap();
    let mut entries = KeyedStorageRead::entries(&map).unwrap();
    entries.sort();
    assert_eq!(entries, vec![(1, 12), (3, 31)]);
    assert_eq!(KeyedStorageRead::fold(&map, 0, |acc, (_, v)| acc + *v), 43);
    assert_eq!(KeyedStorageWrite::remove(&mut map, &3).unwrap(), Some(31));
    assert_eq!(KeyedStorageWrite::insert(&mut map, 1, 5).unwrap(), Some(12));
}

#[test]
fn hashmap_try_insert_with_keeps_existing() {
    let mut map: HashMap<u8, u8> = KeyedStorage::new();
    assert_eq!(*KeyedStorageWrite::try_insert_with(&mut map, 1, || Ok(5)).unwrap(), 5);
    assert_eq!(*KeyedStorageWrite::try_insert_with(&mut map, 1, || Err("unused".into())).unwrap(), 5);
    assert!(KeyedStorageWrite::try_insert_with(&mut map, 2, || Err("no".into())).is_err());
    assert!(!KeyedStorageRead::contains_key(&map, &2).unwrap());
}

#[test]
fn keyed_dyn_handle_snapshots() {
    let cow = <CowStorage<HashMap<_, _>> as KeyedHandle<_, _>>::from_iter(vec![
        ("x".to_string(), 1),
        ("y".to_string(), 2),
    ]);
    let dyn_handle: &dyn KeyedDynHandle<_, _> = &cow;

    assert_eq!(dyn_handle.len().unwrap(), 2);
    assert!(!dyn_handle.is_empty().unwrap());

    let mut keys = dyn_handle.keys().unwrap();
    keys.sort();
    assert_eq!(keys, vec!["x".to_string(), "y".to_string()]);

    let mut values = dyn_handle.values().unwrap();
    values.sort();
    assert_eq!(values, vec![1, 2]);

    let mut entries = dyn_handle.entries().unwrap();
    entries.sort_by_key(|(k, _)| k.clone());
    assert_eq!(entries, vec![("x".to_string(), 1), ("y".to_string(), 2),]);
}

#[test]
fn keyed_dyn_handle_merge_drain_extend_retain_clear() {
    let rwl = RwLockStorage::new(HashMap::new());
    let cow = <CowStorage<HashMap<_, _>> as KeyedHandle<_, _>>::from_iter(vec![
        ("x".to_string(), 10),
        ("y".to_string(), 20),
    ]);

    let dyn1: &dyn KeyedDynHandle<_, _> = &cow;
    let dyn2: &dyn KeyedDynHandle<_, _> = &rwl;

    merge_dyn(dyn1, dyn2).unwrap();
    let drained = dyn1.drain().unwrap();
    assert_eq!(drained.len(), 2);
    assert_eq!(dyn1.len().unwrap(), 0);

    dyn1.extend(drained).unwrap();
    assert_eq!(dyn1.len().unwrap(), 2);
    assert_eq!(dyn1.get(&"x".to_string()).unwrap(), Some(10));
}

#[test]
fn keyed_dyn_handle_try_lazy_initialization() {
    let cow = CowStorage::new(HashMap::new());
    let dyn_handle: &dyn KeyedDynHandle<_, _> = &cow;

    let value = dyn_handle.get_or_try_insert_with("key".to_string(), Ok(200)).unwrap();
    assert_eq!(value, 200);
}

#[test]
fn keyed_dyn_handle_heterogeneous_storage() {
    let registries: Vec<Box<dyn KeyedDynHandle<_, _>>> = vec![
        Box::new(<RwLockStorage<HashMap<_, _>> as KeyedHandle<_, _>>::from_iter(vec![(
            "a".to_string(),
            1,
        )])),
        Box::new(<CowStorage<HashMap<_, _>> as KeyedHandle<_, _>>::from_iter(vec![(
            "b".to_string(),
            2,
        )])),
    ];

    assert_eq!(registries[0].get(&"a".to_string()).unwrap().unwrap(), 1);
    assert_eq!(registries[1].get(&"b".to_string()).unwrap().unwrap(), 2);
    assert_eq!(registries[0].get(&"b".to_string()).unwrap(), None);
}

#[test]
fn extend_later_entry_wins_and_drain_extend_restores() {
    let mut map: HashMap<String, u32> = HashMap::new();
    KeyedStorageWrite::extend(
        &mut map,
        vec![("k".to_string(), 1), ("j".to_string(), 5), ("k".to_string(), 2)],
    )
    .unwrap();
    assert_eq!(*KeyedStorageRead::get(&map, &"k".to_string()).unwrap().unwrap(), 2);
    assert_eq!(*KeyedStorageRead::get(&map, &"j".to_string()).unwrap().unwrap(), 5);

    let before = map.clone();
    let drained = KeyedStorageWrite::drain(&mut map).unwrap();
    let mut restored: HashMap<String, u32> = HashMap::new();
    KeyedStorageWrite::extend(&mut restored, drained).unwrap();
    assert_eq!(restored, before);
}
