use al_structures::collections::storage::utils::indexed::{
    drain_span, Edge,
    merge_dyn, IndexedDynHandle, IndexedHandle, IndexedStorage, IndexedStorageRead,
    IndexedStorageWrite,
};
use al_structures::collections::storage::utils::StorageError;
use al_structures::collections::storage::{CowStorage, RwLockStorage};

#[test]
fn vec_read_and_write() {
    let mut vec: Vec<u32> = Vec::new();
    assert_eq!(IndexedStorageWrite::push(&mut vec, 10).unwrap(), 0);
    assert_eq!(IndexedStorageWrite::push(&mut vec, 20).unwrap(), 1);

    assert_eq!(*IndexedStorageRead::get(&vec, &0).unwrap().unwrap(), 10);
    assert!(IndexedStorageRead::contains_key(&vec, &1).unwrap());
    assert!(!IndexedStorageRead::contains_key(&vec, &2).unwrap());

    assert_eq!(IndexedStorageRead::keys(&vec).unwrap(), vec![0, 1]);
    assert_eq!(IndexedStorageRead::values(&vec).unwrap(), vec![10, 20]);

    assert_eq!(*IndexedStorageWrite::try_insert(&mut vec, 2, 30).unwrap(), 30);
    assert_eq!(*IndexedStorageWrite::try_insert(&mut vec, 1, 40).unwrap(), 20);

    assert_eq!(IndexedStorageWrite::insert(&mut vec, 1, 25).unwrap().unwrap(), 20);
    assert_eq!(*IndexedStorageRead::get(&vec, &1).unwrap().unwrap(), 25);

    if let Some(value) = IndexedStorageWrite::get_mut(&mut vec, &0).unwrap() {
        *value = 15;
    }
    assert_eq!(*IndexedStorageRead::get(&vec, &0).unwrap().unwrap(), 15);

    let removed = IndexedStorageWrite::remove(&mut vec, &2).unwrap().unwrap();
    assert_eq!(removed, 30);
    assert_eq!(IndexedStorageRead::len(&vec).unwrap(), 2);

    let drained = IndexedStorageWrite::drain(&mut vec, ..).unwrap();
    assert_eq!(drained, vec![(0, 15), (1, 25)]);
    assert!(IndexedStorageRead::is_empty(&vec).unwrap());

    IndexedStorageWrite::extend(&mut vec, vec![100, 200]).unwrap();
    assert_eq!(IndexedStorageRead::keys(&vec).unwrap(), vec![0usize, 1]);
}

#[test]
fn vec_edge_cases() {
    let mut vec: Vec<u32> = Vec::new();

    assert_eq!(IndexedStorageWrite::push(&mut vec, 5).unwrap(), 0);
    assert_eq!(IndexedStorageWrite::push(&mut vec, 6).unwrap(), 1);

    assert_eq!(IndexedStorageWrite::insert(&mut vec, 2, 7).unwrap(), None);
    assert_eq!(IndexedStorageRead::len(&vec).unwrap(), 3);

    match IndexedStorageWrite::insert(&mut vec, 5, 9) {
        Err(StorageError::OutOfBounds(i, l)) => {
            assert_eq!(i, 5);
            assert_eq!(l, 3);
        }
        other => panic!("expected OutOfBounds, got {:?}", other),
    }

    assert_eq!(*IndexedStorageWrite::try_insert(&mut vec, 1, 10).unwrap(), 6);
    assert_eq!(*IndexedStorageWrite::try_insert(&mut vec, 3, 11).unwrap(), 11);

    assert_eq!(*IndexedStorage::get_or_insert_with(&mut vec, 1, || 99).unwrap(), 6);

    let v2 = {
        let v2 = *IndexedStorage::get_or_insert_with(&mut vec, 4, || 100).unwrap();
        assert_eq!(v2, 100);
        v2
    };
    assert_eq!(*IndexedStorageRead::get(&vec, &4).unwrap().unwrap(), v2);

    let before = IndexedStorageRead::len(&vec).unwrap();
    let res = IndexedStorage::get_or_try_insert_with(&mut vec, 20, || Err::<u32, _>("err".into()));
    assert!(res.is_err());
    assert_eq!(IndexedStorageRead::len(&vec).unwrap(), before);
}

#[test]
fn indexed_dyn_handle_read_write() {
    let boxed: Box<dyn IndexedDynHandle<_, Key = _>> = Box::new(RwLockStorage::new(Vec::new()));
    let k1 = boxed.push(42).unwrap();
    let k2 = boxed.push(24).unwrap();
    assert_eq!(boxed.get(&k1).unwrap().unwrap(), 42);
    assert!(boxed.contains_key(&k2).unwrap());
    assert_eq!(boxed.len().unwrap(), 2);
    assert_eq!(boxed.keys().unwrap(), vec![0, 1]);
}

#[test]
fn indexed_dyn_handle_lazy_initialization() {
    let rwl = RwLockStorage::new(Vec::new());
    let dyn_handle: &dyn IndexedDynHandle<_, Key = _> = &rwl;

    let value = dyn_handle.get_or_insert_with(0, "value".to_string()).unwrap();
    assert_eq!(value, "value".to_string());
    assert_eq!(dyn_handle.get(&0).unwrap().unwrap(), "value".to_string());

    let value = dyn_handle.get_or_insert_with(0, "new_value".to_string()).unwrap();
    assert_eq!(value, "value".to_string());
}

#[test]
fn vec_drain_range_and_retain() {
    let mut vec: Vec<u32> = vec![1, 2, 3, 4, 5];
    let drained = IndexedStorageWrite::drain(&mut vec, 1..3).unwrap();
    assert_eq!(drained, vec![(0, 2), (1, 3)]);
    assert_eq!(vec, vec![1, 4, 5]);
    match IndexedStorageWrite::drain(&mut vec, 2..9) {
        Err(StorageError::OutOfBounds(_, l)) => assert_eq!(l, 3),
        other => panic!("expected OutOfBounds, got {:?}", other),
    }
    IndexedStorageWrite::retain(&mut vec, |(_, v): (usize, &u32)| *v % 2 == 1).unwrap();
    assert_eq!(vec, vec![1, 5]);
    assert_eq!(IndexedStorageRead::fold(&vec, 0u32, |acc, (_, v): (usize, &u32)| acc + *v), 6);
    assert_eq!(IndexedStorageRead::map(&vec, |(i, v): (usize, &u32)| i as u32 + *v), vec![1, 6]);
}

#[test]
fn vec_remove_out_of_range_is_none() {
    let mut vec: Vec<u32> = vec![7];
    assert_eq!(IndexedStorageWrite::remove(&mut vec, &3).unwrap(), None);
    assert_eq!(IndexedStorageRead::get(&vec, &3).unwrap(), None);
    assert_eq!(vec, vec![7]);
}

#[test]
fn indexed_dyn_handle_snapshots() {
    let cow = <CowStorage<Vec<_>> as IndexedHandle<_>>::from_iter(vec!["x".to_string(), "y".to_string()]);
    let dyn_handle: &dyn IndexedDynHandle<_, Key = _> = &cow;

    assert_eq!(dyn_handle.len().unwrap(), 2);
    assert!(!dyn_handle.is_empty().unwrap());

    let mut keys = dyn_handle.keys().unwrap();
    keys.sort();
    assert_eq!(keys, vec![0, 1]);

    let mut values = dyn_handle.values().unwrap();
    values.sort();
    assert_eq!(values, vec!["x".to_string(), "y".to_string()]);

    let mut entries = dyn_handle.entries().unwrap();
    entries.sort_by_key(|(k, _)| k.clone());
    assert_eq!(entries, vec![(0, "x".to_string()), (1, "y".to_string()),]);
}

#[test]
fn indexed_dyn_handle_merge_drain_extend_retain_clear() {
    let rwl = RwLockStorage::new(Vec::new());
    let cow = <CowStorage<Vec<_>> as IndexedHandle<_>>::from_iter(vec!["x".to_string(), "y".to_string()]);

    let dyn1: &dyn IndexedDynHandle<_, Key = _> = &cow;
    let dyn2: &dyn IndexedDynHandle<_, Key = _> = &rwl;

    merge_dyn(dyn1, dyn2).unwrap();
    let drained = dyn1.drain().unwrap();
    assert_eq!(drained.len(), 2);
    assert_eq!(dyn1.len().unwrap(), 0);

    dyn1.extend(drained.into_iter().map(|(_, v)| v).collect()).unwrap();
    assert_eq!(dyn1.len().unwrap(), 2);
    assert_eq!(dyn1.get(&0).unwrap().unwrap(), "x".to_string());
}

#[test]
fn indexed_dyn_handle_try_lazy_initialization() {
    let cow = CowStorage::new(Vec::new());
    let dyn_handle: &dyn IndexedDynHandle<_, Key = _> = &cow;

    let value = dyn_handle.get_or_try_insert_with(0, Ok("value".to_string())).unwrap();
    assert_eq!(value, "value".to_string());
}

#[test]
fn indexed_dyn_handle_heterogeneous_storage() {
    let registries: Vec<Box<dyn IndexedDynHandle<_, Key = _>>> = vec![
        Box::new(<RwLockStorage<Vec<_>> as IndexedHandle<_>>::from_iter(vec!["a".to_string()])),
        Box::new(<CowStorage<Vec<_>> as IndexedHandle<_>>::from_iter(vec!["b".to_string()])),
    ];

    assert_eq!(registries[0].get(&0).unwrap().unwrap(), "a".to_string());
    assert_eq!(registries[1].get(&0).unwrap().unwrap(), "b".to_string());
    assert_eq!(registries[0].get(&1).unwrap(), None);
    assert_eq!(registries[1].get(&1).unwrap(), None);
}

#[test]
fn retain_everything_keeps_every_value() {
    let mut vec: Vec<u32> = vec![3, 1, 4, 1, 5];
    IndexedStorageWrite::retain(&mut vec, |(_, _): (usize, &u32)| true).unwrap();
    assert_eq!(vec, vec![3, 1, 4, 1, 5]);
    IndexedStorageWrite::retain(&mut vec, |(i, _): (usize, &u32)| i % 2 == 0).unwrap();
    assert_eq!(vec, vec![3, 4, 5]);
}

#[test]
fn drain_span_takes_exactly_the_span() {
    let mut v = vec![10, 20, 30, 40];
    assert_eq!(drain_span(&mut v, Edge::Included(1), Edge::Excluded(3)), Ok(vec![(0, 20), (1, 30)]));
    assert_eq!(v, vec![10, 40]);

    let mut v = vec![10, 20, 30, 40];
    assert_eq!(drain_span(&mut v, Edge::Excluded(0), Edge::Included(1)), Ok(vec![(0, 20)]));
    assert_eq!(v, vec![10, 30, 40]);

    let mut v = vec![10, 20];
    assert_eq!(drain_span(&mut v, Edge::Unbounded, Edge::Unbounded), Ok(vec![(0, 10), (1, 20)]));
    assert!(v.is_empty());

    let mut v = vec![10, 20, 30, 40];
    assert_eq!(drain_span(&mut v, Edge::Included(3), Edge::Excluded(1)), Err(StorageError::OutOfBounds(3, 1)));
    assert_eq!(drain_span(&mut v, Edge::Included(0), Edge::Excluded(5)), Err(StorageError::OutOfBounds(5, 4)));
    assert_eq!(drain_span(&mut v, Edge::Unbounded, Edge::Included(usize::MAX)), Err(StorageError::OutOfBounds(usize::MAX, 4)));
    assert_eq!(v, vec![10, 20, 30, 40]);
}
