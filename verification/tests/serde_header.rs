use al_structures::collections::storage::utils::HandleError;
use al_structures::collections::storage::RwLockStorage;
use al_structures::serde_utils::header::{decode_header, encode_header, BeBytes, PayloadHeader};
use al_structures::serde_utils::registries::{format_id_at, type_id_at, FormatRegistry, TypeDispatcher, TypeIdRegistry};
use al_structures::serde_utils::registry_error::RegistryError;
use std::collections::HashMap;

#[test]
fn header_round_trip() {
    let mut out = Vec::new();
    encode_header(3, 0x0102_0304, &mut out);
    assert_eq!(out, vec![3, 1, 2, 3, 4]);
    out.extend_from_slice(b"payload");
    assert_eq!(decode_header(&out).unwrap(), (3, 0x0102_0304, 5));
    assert_eq!(&out[5..], b"payload");
}

#[test]
fn be_bytes_of_type_ids() {
    let mut out = Vec::new();
    BeBytes::to_be_bytes(&0xdead_beefu32, &mut out);
    assert_eq!(out, vec![0xde, 0xad, 0xbe, 0xef]);
    assert_eq!(<u32 as BeBytes>::from_be_bytes(&out).unwrap(), 0xdead_beef);
    assert_eq!(<u32 as BeBytes>::len(), 4);
    assert_eq!(<u8 as BeBytes>::len(), 1);
    assert_eq!(
        <u8 as BeBytes>::from_be_bytes(&[1, 2]),
        Err(HandleError::Deserialization("could not convert slice to array".to_string()))
    );
}

#[test]
fn decode_length_and_offset_errors() {
    assert_eq!(
        <u32 as PayloadHeader>::decode(&[1, 2, 3]),
        Err(HandleError::Deserialization("Expected '4' bytes, got '3'".to_string()))
    );
    let buf = [9u8, 0, 0, 0, 7, 1];
    let mut offset = 0usize;
    assert_eq!(<u8 as PayloadHeader>::decode_at(&mut offset, &buf).unwrap(), 9);
    assert_eq!(offset, 1);
    assert_eq!(<u32 as PayloadHeader>::decode_at(&mut offset, &buf).unwrap(), 7);
    assert_eq!(offset, 5);
    assert_eq!(
        <u32 as PayloadHeader>::decode_at(&mut offset, &buf),
        Err(HandleError::Deserialization(
            "Buffer length too small for header with end index '9.'".to_string()
        ))
    );
    assert_eq!(offset, 5);
    let mut far = usize::MAX - 1;
    assert_eq!(
        <u32 as PayloadHeader>::decode_at(&mut far, &buf),
        Err(HandleError::Deserialization("header offset overflow".to_string()))
    );
    assert_eq!(far, usize::MAX - 1);
    assert!(decode_header(&[1, 2]).is_err());
}

#[test]
fn type_id_registry_assigns_ids_in_order() {
    let ids = TypeIdRegistry::new(RwLockStorage::new(HashMap::new()), RwLockStorage::new(Vec::new()));
    assert_eq!(ids.register_named("a::A").unwrap(), 0);
    assert_eq!(ids.register_named("b::B").unwrap(), 1);
    assert_eq!(ids.register_named("a::A").unwrap(), 0);
    assert_eq!(ids.get_id_by_name("b::B").unwrap(), Some(1));
    assert_eq!(ids.get_id_by_name("c::C").unwrap(), None);
    assert_eq!(ids.get_name_by_id(1).unwrap(), Some("b::B".to_string()));
    assert_eq!(ids.get_name_by_id(7).unwrap(), None);
}

struct Echo;

impl TypeDispatcher<String, (String, u32, Vec<u8>)> for Echo {
    fn deserialize_slice(
        &self,
        format: &String,
        type_id: u32,
        data: &[u8],
    ) -> Result<(String, u32, Vec<u8>), HandleError> {
        Ok((format.clone(), type_id, data.to_vec()))
    }
}

#[test]
fn format_registry_frames_and_dispatches() {
    let formats = FormatRegistry::new(RwLockStorage::new(Vec::new()), RwLockStorage::new(HashMap::new()));
    assert_eq!(formats.register_named("json".to_string(), "JSON".to_string()).unwrap(), 0);
    assert_eq!(formats.register_named("bin".to_string(), "BIN".to_string()).unwrap(), 1);
    assert_eq!(formats.register_named("json".to_string(), "OTHER".to_string()).unwrap(), 0);
    assert_eq!(formats.get_format(1).unwrap(), Some("BIN".to_string()));
    assert_eq!(formats.get_format(2).unwrap(), None);
    assert_eq!(formats.get_format_by_name("json".to_string()).unwrap(), Some("JSON".to_string()));
    assert_eq!(formats.get_format_by_name("xml".to_string()).unwrap(), None);

    let mut out = Vec::new();
    assert_eq!(formats.serialize_header(1, 42, &mut out).unwrap(), "BIN".to_string());
    out.extend_from_slice(&[7, 8]);
    assert_eq!(
        formats.deserialize_slice(&Echo, &out).unwrap(),
        ("BIN".to_string(), 42, vec![7, 8])
    );

    let mut none = Vec::new();
    assert_eq!(
        formats.serialize_header(9, 1, &mut none),
        Err(HandleError::Custom("No format found for the id '9'".to_string()))
    );
    assert!(none.is_empty());
    assert_eq!(
        formats.deserialize_slice(&Echo, &[9, 0, 0, 0, 1]),
        Err(HandleError::Deserialization("No format found for id '9'".to_string()))
    );
}

#[test]
fn serde_registry_error_messages() {
    assert_eq!(RegistryError::LockPoisoned("m".to_string()).message(), "Regitry lock poisoned: m");
    assert_eq!(
        RegistryError::AlreadyRegistered("T".to_string()).message(),
        "A registration already exists (consider using a custom name): T"
    );
    assert_eq!(
        RegistryError::IoError("eof".to_string(), "UnexpectedEof".to_string()).message(),
        "Registry I/O error: eof (Kind: UnexpectedEof)"
    );
    assert_eq!(RegistryError::InvalidId("7".to_string()).message(), "Invalid Id: 7");
    assert_eq!(RegistryError::Serialization("s".to_string()).message(), "Serialization failed: s");
    assert_eq!(RegistryError::Deserialization("d".to_string()).message(), "Deserialization failed: d");
    assert_eq!(RegistryError::from("c".to_string()).message(), "c");
    assert_eq!(
        RegistryError::from(HandleError::LockPoisoned("h".to_string())).message(),
        "Handle lock poisoned: h"
    );
}

#[test]
fn ids_are_positions_that_fit() {
    assert_eq!(type_id_at(0), Ok(0));
    assert_eq!(type_id_at(0xffff_ffff), Ok(0xffff_ffff));
    assert_eq!(format_id_at(7), Ok(7));
    assert_eq!(format_id_at(0xff), Ok(0xff));
    match format_id_at(0x100) {
        Err(HandleError::ConversionFailed(m)) => assert_eq!(m, "out of range integral type conversion attempted"),
        other => panic!("unexpected {:?}", other),
    }
    if usize::BITS > 32 {
        match type_id_at((u32::MAX as usize) + 1) {
            Err(HandleError::ConversionFailed(m)) => assert_eq!(m, "out of range integral type conversion attempted"),
            other => panic!("unexpected {:?}", other),
        }
    }
}
