use al_structures::collections::stable_vec::StableVecError;
use al_structures::collections::storage::utils::{HandleError, StorageError};
use al_structures::text::decimal_string;

#[test]
fn decimal_text_of_integers() {
    assert_eq!(decimal_string(0), "0");
    assert_eq!(decimal_string(7), "7");
    assert_eq!(decimal_string(10), "10");
    assert_eq!(decimal_string(4096), "4096");
    assert_eq!(decimal_string(usize::MAX), usize::MAX.to_string());
}

#[test]
fn stable_vec_error_messages() {
    assert_eq!(
        StableVecError::ZeroGeneration { index: 3, position: 1 }.message(),
        "live element at data position 1 references key index 3, which has generation 0"
    );
    assert_eq!(
        StableVecError::DataIndexMismatch { position: 2, index: 5, expected: 2, actual: 7 }.message(),
        "data position 2 (key index 5) has data_index = 7 but expected 2"
    );
    assert_eq!(
        StableVecError::UndeadElement { dead_index: 4, data_index_value: 0, data_len: 3 }.message(),
        "dead key index 4 points to live element at position 0 (data length is 3)"
    );
    assert_eq!(
        StableVecError::LengthMismatch { data_index_len: 1, id_map_len: 2, generations_len: 3 }.message(),
        "metadata vector length mismatch: data_index=1, id_map=2, generations=3"
    );
    assert_eq!(
        StableVecError::OutOfBounds { position: 0, id_map_value: 9, generations_len: 2 }.message(),
        "id_map[0] = 9 is out of bounds (generations length = 2)"
    );
}

#[test]
fn storage_and_handle_error_messages() {
    assert_eq!(
        StorageError::OutOfBounds(5, 3).message(),
        "Index '5' is out of bounds for length '3'"
    );
    assert_eq!(StorageError::MissingValue("gone".to_string()).message(), "gone");
    assert_eq!(StorageError::from("custom").message(), "custom");
    assert_eq!(
        HandleError::LockPoisoned("x".to_string()).message(),
        "Handle lock poisoned: x"
    );
    assert_eq!(
        HandleError::InitializationFailed("y".to_string()).message(),
        "Initialization failed: y"
    );
    assert_eq!(
        HandleError::Storage(StorageError::OutOfBounds(1, 0)).message(),
        "Index '1' is out of bounds for length '0'"
    );
}
