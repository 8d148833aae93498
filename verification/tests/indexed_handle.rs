use al_structures::collections::storage::utils::indexed::{
    IndexedHandle, IndexedHandleReadExt, IndexedHandleWrite, IndexedHandleWriteExt,
};
use al_structures::collections::storage::utils::{HandleError, StorageError};
use al_structures::collections::storage::{CowStorage, RwLockStorage};
use std::ops::ControlFlow;

#[test]
fn rwlock_handle_indexed_mut_traversals() {
    let storage = RwLockStorage::<Vec<u32>>::new(Vec::new());
    assert_eq!(storage.push_unwrap(5), 0);
    assert_eq!(storage.push_clone_unwrap(6), (1, 6));
    assert_eq!(storage.push_unwrap(7), 2);
    let sum = storage.fold_mut_unwrap(0u32, |acc, (i, v)| {
        *v += i as u32;
        acc + *v
    });
    assert_eq!(sum, 5 + 7 + 9);
    let pairs = storage.map_mut_unwrap(|(i, v)| (i, *v));
    assert_eq!(pairs, vec![(0, 5), (1, 7), (2, 9)]);
    let found = storage.try_for_each_mut_unwrap(|(i, v)| {
        *v = 0;
        if i == 1 {
            ControlFlow::Break(i)
        } else {
            ControlFlow::Continue(())
        }
    });
    assert_eq!(found, ControlFlow::Break(1));
    assert_eq!(storage.values_unwrap(), vec![0, 0, 9]);
    assert_eq!(storage.len_unwrap(), 3);
    let _ = <RwLockStorage<Vec<u32>> as IndexedHandle<u32>>::with_capacity(2);
    assert!(IndexedHandleWrite::insert(&storage, 9, 1).is_err());
}

#[test]
fn cow_handle_indexed_mut_traversals() {
    let storage = CowStorage::<Vec<u32>>::from_iter(vec![1, 2, 3]);
    let sum = storage.fold_mut_unwrap(0u32, |acc, (_i, v)| {
        *v *= 10;
        acc + *v
    });
    assert_eq!(sum, 60);
    let outs = storage.map_mut_unwrap(|(i, v)| {
        *v += 1;
        i
    });
    assert_eq!(outs, vec![0, 1, 2]);
    assert_eq!(storage.values_unwrap(), vec![11, 21, 31]);
    let c = storage.try_for_each_mut_unwrap(|(_i, v)| {
        if *v > 20 {
            ControlFlow::Break(*v)
        } else {
            ControlFlow::Continue(())
        }
    });
    assert_eq!(c, ControlFlow::Break(21));
    let none: ControlFlow<u32> = storage.try_for_each_mut_unwrap(|_| ControlFlow::Continue(()));
    assert_eq!(none, ControlFlow::Continue(()));
}

#[test]
fn indexed_handle_insert_past_end_is_refused() {
    let storage = CowStorage::<Vec<u32>>::from_iter(vec![1]);
    match IndexedHandleWrite::insert(&storage, 3, 9) {
        Err(HandleError::Storage(StorageError::OutOfBounds(i, n))) => {
            assert_eq!(i, 3);
            assert_eq!(n, 1);
        }
        other => panic!("unexpected {:?}", other),
    }
    assert_eq!(IndexedHandleWrite::insert(&storage, 1, 9).unwrap(), None);
    assert_eq!(IndexedHandleWrite::try_insert(&storage, 0, 5).unwrap(), 1);
    assert_eq!(storage.values_unwrap(), vec![1, 9]);
}
