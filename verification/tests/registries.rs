use al_structures::collections::registries::{
    merge_dyn, DynRegistry, DynRegistryBox, Registry, RegistryBulkRead, RegistryBulkWrite,
    RegistryError, RegistryRead, RegistryReadExt, RegistryWrite, RegistryWriteExt,
    RwLockRegistry, CowRegistry,
};

#[test]
fn rwlock_registry_read_write() {
    let registry = RwLockRegistry::new();
    assert_eq!(registry.len().unwrap(), 0);

    assert!(registry.insert("one".to_string(), 1).unwrap().is_none());
    assert_eq!(registry.get(&"one".to_string()).unwrap(), Some(1));
    assert!(registry.contains_key(&"one".to_string()).unwrap());
    assert_eq!(registry.len().unwrap(), 1);

    assert_eq!(registry.remove(&"one".to_string()).unwrap(), Some(1));
    assert_eq!(registry.len().unwrap(), 0);
}

#[test]
fn rwlock_registry_bulk_read_write() {
    let registry = RwLockRegistry::new();
    registry.insert_unwrap("a".to_string(), 10);

    let got = registry.with_read_unwrap(|map| *map.get("a").unwrap());
    assert_eq!(got, 10);

    let len = registry.with_write_unwrap(|map| {
        map.insert("b".to_string(), 20);
        map.len()
    });
    assert_eq!(len, 2);
    assert_eq!(registry.get_unwrap(&"b".to_string()), Some(20));
}

#[test]
fn rwlock_registry_snapshots() {
    let registry = RwLockRegistry::from_iter(vec![
        ("x".to_string(), 1),
        ("y".to_string(), 2),
        ("z".to_string(), 3),
    ]);

    assert_eq!(registry.len_unwrap(), 3);
    assert!(!registry.is_empty_unwrap());

    let mut keys = registry.keys_unwrap();
    keys.sort();
    assert_eq!(keys, vec!["x".to_string(), "y".to_string(), "z".to_string()]);

    let mut values = registry.values_unwrap();
    values.sort();
    assert_eq!(values, vec![1, 2, 3]);

    let mut entries = registry.entries_unwrap();
    entries.sort_by_key(|(k, _)| k.clone());
    assert_eq!(
        entries,
        vec![("x".to_string(), 1), ("y".to_string(), 2), ("z".to_string(), 3)]
    );
}

#[test]
fn rwlock_registry_merge_drain_extend_retain_clear() {
    let registry = RwLockRegistry::from_iter(vec![("a".to_string(), 10)]);
    assert_eq!(registry.len_unwrap(), 1);
    registry.merge_unwrap(&RwLockRegistry::from_iter(vec![("b".to_string(), 20)]));
    assert_eq!(registry.len_unwrap(), 2);

    let drained = registry.drain_unwrap();
    assert_eq!(drained.len(), 2);
    assert_eq!(registry.len_unwrap(), 0);

    registry.extend_unwrap(drained);
    assert_eq!(registry.len_unwrap(), 2);
    registry.retain_unwrap(|k: &String, _: &mut i32| k == "a");
    assert_eq!(registry.len_unwrap(), 1);
    registry.clear_unwrap();
    assert_eq!(registry.len_unwrap(), 0);
}

#[test]
fn rwlock_registry_lazy_initialization() {
    let registry = RwLockRegistry::new();

    let value = registry.get_or_insert_with("x".to_string(), || 100).unwrap();
    assert_eq!(value, 100);
    assert_eq!(registry.get_unwrap(&"x".to_string()), Some(100));

    let value = registry.get_or_insert_with("x".to_string(), || 999).unwrap();
    assert_eq!(value, 100);
}

#[test]
fn rwlock_registry_try_lazy_initialization() {
    let registry = RwLockRegistry::new();

    let value = registry.get_or_try_insert_with("y".to_string(), || Ok(200)).unwrap();
    assert_eq!(value, 200);
}

#[test]
fn rwlock_registry_with_capacity() {
    let registry = RwLockRegistry::with_capacity(100);
    assert_eq!(registry.len_unwrap(), 0);
    registry.insert_unwrap("test".to_string(), 1);
    assert_eq!(registry.len_unwrap(), 1);
}

#[test]
fn rwlock_registry_from_iter() {
    let registry = RwLockRegistry::from_iter(vec![("a".to_string(), 1), ("b".to_string(), 2)]);
    assert_eq!(registry.len_unwrap(), 2);
}

#[test]
fn rwlock_registry_clone() {
    let reg1 = RwLockRegistry::new();
    reg1.insert_unwrap("x".to_string(), 1);

    let reg2 = reg1.clone();
    assert_eq!(reg2.get_unwrap(&"x".to_string()), Some(1));

    reg2.insert_unwrap("y".to_string(), 2);
    assert_eq!(reg1.get_unwrap(&"y".to_string()), Some(2));
}

#[test]
fn mod_read_write() {
    let boxed = DynRegistryBox::new(RwLockRegistry::new());
    let dyn_registry: &dyn DynRegistry<_, _> = &boxed;

    dyn_registry.insert("alpha".to_string(), 42).unwrap();
    assert_eq!(dyn_registry.get(&"alpha".to_string()).unwrap(), Some(42));
    assert!(dyn_registry.contains_key(&"alpha".to_string()).unwrap());
    assert_eq!(dyn_registry.len().unwrap(), 1);
    assert_eq!(dyn_registry.keys().unwrap(), vec!["alpha".to_string()]);
}

#[test]
fn mod_lazy_initialization() {
    let boxed = DynRegistryBox::new(RwLockRegistry::new());
    let dyn_registry: &dyn DynRegistry<_, _> = &boxed;

    let value = dyn_registry.get_or_insert_with("key".to_string(), 100).unwrap();
    assert_eq!(value, 100);
    assert_eq!(dyn_registry.get(&"key".to_string()).unwrap(), Some(100));

    let value = dyn_registry.get_or_insert_with("key".to_string(), 999).unwrap();
    assert_eq!(value, 100);
}

#[test]
fn box_into_inner() {
    let registry = RwLockRegistry::new();
    registry.insert("x".to_string(), 42).unwrap();

    let boxed = DynRegistryBox::new(registry);
    let recovered = boxed.into_inner();
    assert_eq!(recovered.get_unwrap(&"x".to_string()), Some(42));
}

#[test]
fn mod_snapshots() {
    let boxed = DynRegistryBox::new(CowRegistry::from_iter(vec![
        ("x".to_string(), 1),
        ("y".to_string(), 2),
    ]));
    let dyn_registry: &dyn DynRegistry<_, _> = &boxed;

    assert_eq!(dyn_registry.len().unwrap(), 2);
    assert!(!dyn_registry.is_empty().unwrap());

    let mut keys = dyn_registry.keys().unwrap();
    keys.sort();
    assert_eq!(keys, vec!["x".to_string(), "y".to_string()]);

    let mut values = dyn_registry.values().unwrap();
    values.sort();
    assert_eq!(values, vec![1, 2]);

    let mut entries = dyn_registry.entries().unwrap();
    entries.sort_by_key(|(k, _)| k.clone());
    assert_eq!(entries, vec![("x".to_string(), 1), ("y".to_string(), 2),]);
}

#[test]
fn mod_merge_drain_extend_retain_clear() {
    let boxed1 = DynRegistryBox::new(RwLockRegistry::new());
    let boxed2 = DynRegistryBox::new(CowRegistry::from_iter(vec![
        ("x".to_string(), 10),
        ("y".to_string(), 20),
    ]));

    let dyn1: &dyn DynRegistry<_, _> = &boxed1;
    let dyn2: &dyn DynRegistry<_, _> = &boxed2;

    merge_dyn(dyn1, dyn2).unwrap();
    let drained = dyn1.drain().unwrap();
    assert_eq!(drained.len(), 2);
    assert_eq!(dyn1.len().unwrap(), 0);

    dyn1.extend(drained).unwrap();
    assert_eq!(dyn1.len().unwrap(), 2);
    assert_eq!(dyn1.get(&"x".to_string()).unwrap(), Some(10));
}

#[test]
fn mod_try_lazy_initialization() {
    let boxed = DynRegistryBox::new(CowRegistry::new());
    let dyn_registry: &dyn DynRegistry<_, _> = &boxed;

    let value = dyn_registry.get_or_try_insert_with("key".to_string(), Ok(200)).unwrap();
    assert_eq!(value, 200);
}

#[test]
fn heterogeneous_storage() {
    let registries: Vec<Box<dyn DynRegistry<String, i32>>> = vec![
        Box::new(DynRegistryBox::new(RwLockRegistry::from_iter(vec![("a".to_string(), 1)]))),
        Box::new(DynRegistryBox::new(CowRegistry::from_iter(vec![("b".to_string(), 2)]))),
    ];

    assert_eq!(registries[0].get(&"a".to_string()).unwrap(), Some(1));
    assert_eq!(registries[1].get(&"b".to_string()).unwrap(), Some(2));
    assert_eq!(registries[0].get(&"b".to_string()).unwrap(), None);
}

#[test]
fn cow_registry_reports_initialiser_error_as_is() {
    let registry: CowRegistry<String, i32> = CowRegistry::new();
    let res = registry.get_or_try_insert_with("k".to_string(), || Err(RegistryError::from("boom")));
    assert_eq!(res, Err(RegistryError::Custom("boom".to_string())));
    assert_eq!(registry.get_unwrap(&"k".to_string()), None);
}

#[test]
fn try_lazy_initialization_failure_is_reported() {
    let registry: RwLockRegistry<String, i32> = RwLockRegistry::new();
    let res = registry.get_or_try_insert_with("k".to_string(), || Err(RegistryError::from("boom")));
    assert_eq!(
        res,
        Err(RegistryError::InitializationFailed("Custom registry error: boom".to_string()))
    );
    assert_eq!(registry.get_unwrap(&"k".to_string()), None);

    let boxed = DynRegistryBox::new(RwLockRegistry::<String, i32>::new());
    let dyn_registry: &dyn DynRegistry<_, _> = &boxed;
    let res = dyn_registry.get_or_try_insert_with("k".to_string(), Err(RegistryError::from("late")));
    assert_eq!(
        res,
        Err(RegistryError::InitializationFailed("Custom registry error: late".to_string()))
    );
}

#[test]
fn registry_error_messages() {
    assert_eq!(
        RegistryError::LockPoisoned("x".to_string()).message(),
        "Registry lock poisoned: x"
    );
    assert_eq!(
        RegistryError::InitializationFailed("y".to_string()).message(),
        "Initialization failed: y"
    );
    assert_eq!(RegistryError::from("z".to_string()).message(), "Custom registry error: z");
}

#[test]
fn cow_registry_read_write() {
    let registry = CowRegistry::new();
    assert_eq!(registry.len().unwrap(), 0);

    assert!(registry.insert("one".to_string(), 1).unwrap().is_none());
    assert_eq!(registry.get(&"one".to_string()).unwrap(), Some(1));
    assert!(registry.contains_key(&"one".to_string()).unwrap());

    assert_eq!(registry.remove(&"one".to_string()).unwrap(), Some(1));
    assert_eq!(registry.len().unwrap(), 0);
}

#[test]
fn cow_registry_bulk_read_write() {
    let registry = CowRegistry::new();
    registry.insert_unwrap("a".to_string(), 10);

    let got = registry.with_read_unwrap(|map| *map.get("a").unwrap());
    assert_eq!(got, 10);

    let len = registry.with_write_unwrap(|map| {
        map.insert("b".to_string(), 20);
        map.len()
    });
    assert_eq!(len, 2);
    assert_eq!(registry.get_unwrap(&"b".to_string()), Some(20));
}

#[test]
fn cow_registry_snapshots() {
    let registry = CowRegistry::from_iter(vec![
        ("x".to_string(), 1),
        ("y".to_string(), 2),
        ("z".to_string(), 3),
    ]);

    assert_eq!(registry.len_unwrap(), 3);
    assert!(!registry.is_empty_unwrap());

    let mut keys = registry.keys_unwrap();
    keys.sort();
    assert_eq!(
        keys,
        vec!["x".to_string(), "y".to_string(), "z".to_string()]
    );

    let mut values = registry.values_unwrap();
    values.sort();
    assert_eq!(values, vec![1, 2, 3]);

    let mut entries = registry.entries_unwrap();
    entries.sort_by_key(|(k, _)| k.clone());
    assert_eq!(
        entries,
        vec![
            ("x".to_string(), 1),
            ("y".to_string(), 2),
            ("z".to_string(), 3),
        ]
    );
}

#[test]
fn cow_registry_merge_drain_extend_retain_clear() {
    let registry = CowRegistry::from_iter(vec![("a".to_string(), 10)]);
    assert_eq!(registry.len_unwrap(), 1);
    registry.merge_unwrap(&CowRegistry::from_iter(vec![("b".to_string(), 20)]));
    assert_eq!(registry.len_unwrap(), 2);

    let drained = registry.drain().unwrap();
    assert_eq!(drained.len(), 2);
    assert_eq!(registry.len_unwrap(), 0);

    registry.extend_unwrap(drained);
    assert_eq!(registry.len_unwrap(), 2);
    registry.retain_unwrap(|k: &String, _: &mut i32| k == "a");
    assert_eq!(registry.len_unwrap(), 1);
    registry.clear_unwrap();
    assert_eq!(registry.len_unwrap(), 0);
}

#[test]
fn cow_registry_lazy_initialization() {
    let registry = CowRegistry::new();

    let value = registry
        .get_or_insert_with("x".to_string(), || 100)
        .unwrap();
    assert_eq!(value, 100);
    assert_eq!(registry.get_unwrap(&"x".to_string()), Some(100));

    let value = registry
        .get_or_try_insert_with("y".to_string(), || Ok(200))
        .unwrap();
    assert_eq!(value, 200);
    assert_eq!(registry.get_unwrap(&"y".to_string()), Some(200));
}

#[test]
fn cow_registry_try_lazy_initialization() {
    let registry = CowRegistry::new();

    let value = registry
        .get_or_try_insert_with("y".to_string(), || Ok(200))
        .unwrap();
    assert_eq!(value, 200);
}

#[test]
fn cow_registry_with_capacity() {
    let registry = CowRegistry::with_capacity(100);
    assert_eq!(registry.len_unwrap(), 0);
    registry.insert_unwrap("test".to_string(), 1);
    assert_eq!(registry.len_unwrap(), 1);
}

#[test]
fn cow_registry_from_iter() {
    let registry = CowRegistry::from_iter(vec![("a".to_string(), 1), ("b".to_string(), 2)]);
    assert_eq!(registry.len_unwrap(), 2);
}

#[test]
fn cow_registry_clone() {
    let reg1 = CowRegistry::new();
    reg1.insert_unwrap("x".to_string(), 1);

    let reg2 = reg1.clone();
    assert_eq!(reg2.get_unwrap(&"x".to_string()), Some(1));

    reg2.insert_unwrap("y".to_string(), 2);
    assert_eq!(reg1.get_unwrap(&"y".to_string()), Some(2));
}
