//! End-to-end scenarios over the snapshot registry and the controller
//! endpoint compute functions.

use canister_tools::codec::EmptyData;
use canister_tools::{
    controller_append_state_snapshot, controller_clear_state_snapshot,
    controller_create_state_snapshot, controller_download_state_snapshot,
    controller_load_state_snapshot, init, Error, PairData, Registry, Serializable,
};

#[test]
fn empty_snapshot_round_trips_through_upload_and_download() {
    let mut registry = Registry::new();
    init(&mut registry, 0).unwrap();
    assert_eq!(controller_create_state_snapshot(&mut registry, true, 0, &EmptyData), Ok(0));
    assert_eq!(controller_download_state_snapshot(&registry, true, 0, 0, 0), Ok(Vec::new()));
    controller_clear_state_snapshot(&mut registry, true, 0).unwrap();
    controller_append_state_snapshot(&mut registry, true, 0, Vec::new()).unwrap();
    assert_eq!(controller_load_state_snapshot::<EmptyData>(&registry, true, 0), Ok(EmptyData));
}

#[test]
fn duplicate_register_is_refused() {
    let mut registry = Registry::new();
    assert!(init(&mut registry, 0).is_ok());
    assert_eq!(init(&mut registry, 0), Err(Error::MemoryIdAlreadyRegistered));
    // a different id is still free
    assert!(init(&mut registry, 1).is_ok());
}

#[test]
fn create_snapshot_of_unknown_id_is_refused() {
    let mut registry = Registry::new();
    let value = PairData { field_one: 1, field_two: 2 };
    assert_eq!(
        controller_create_state_snapshot(&mut registry, true, 7, &value),
        Err(Error::MemoryIdNotRegistered)
    );
}

#[test]
fn create_reports_the_snapshot_length() {
    let mut registry = Registry::new();
    init(&mut registry, 0).unwrap();
    let value = PairData { field_one: 3, field_two: 55 };
    assert_eq!(controller_create_state_snapshot(&mut registry, true, 0, &value), Ok(16));
}

#[test]
fn snapshot_download_upload_load_round_trip() {
    let mut registry = Registry::new();
    init(&mut registry, 0).unwrap();
    let mut value = PairData { field_one: 3, field_two: 55 };

    let len = controller_create_state_snapshot(&mut registry, true, 0, &value).unwrap();
    assert_eq!(len, 16);

    let first_half = controller_download_state_snapshot(&registry, true, 0, 0, len / 2).unwrap();
    let second_half =
        controller_download_state_snapshot(&registry, true, 0, len / 2, len - len / 2).unwrap();
    assert_eq!(first_half.len() + second_half.len(), len as usize);

    // mutate the in-memory value, then upload the downloaded snapshot back
    value.field_two = 77;
    controller_clear_state_snapshot(&mut registry, true, 0).unwrap();
    controller_append_state_snapshot(&mut registry, true, 0, first_half).unwrap();
    controller_append_state_snapshot(&mut registry, true, 0, second_half).unwrap();
    let restored: PairData = controller_load_state_snapshot(&registry, true, 0).unwrap();
    assert_eq!(restored, PairData { field_one: 3, field_two: 55 });
}

#[test]
fn upload_in_three_chunks_matches_create() {
    let mut registry = Registry::new();
    init(&mut registry, 0).unwrap();
    let value = PairData { field_one: 5, field_two: 6 };
    let encoded = value.forward().unwrap();
    controller_clear_state_snapshot(&mut registry, true, 0).unwrap();
    controller_append_state_snapshot(&mut registry, true, 0, encoded[..5].to_vec()).unwrap();
    controller_append_state_snapshot(&mut registry, true, 0, encoded[5..11].to_vec()).unwrap();
    controller_append_state_snapshot(&mut registry, true, 0, encoded[11..].to_vec()).unwrap();
    let restored: PairData = controller_load_state_snapshot(&registry, true, 0).unwrap();
    assert_eq!(restored, value);
}

#[test]
fn download_concatenation_is_the_snapshot() {
    let mut registry = Registry::new();
    init(&mut registry, 9).unwrap();
    let value = PairData { field_one: 0x0102030405060708, field_two: 0x1112131415161718 };
    let len = controller_create_state_snapshot(&mut registry, true, 9, &value).unwrap();

    let whole = controller_download_state_snapshot(&registry, true, 9, 0, len).unwrap();
    let mut rebuilt: Vec<u8> = Vec::new();
    for (start, count) in [(0u64, 5u64), (5, 3), (8, 7), (15, 1)] {
        let chunk = controller_download_state_snapshot(&registry, true, 9, start, count).unwrap();
        rebuilt.extend_from_slice(&chunk);
    }
    assert_eq!(rebuilt, whole);
    assert_eq!(
        whole,
        vec![1, 2, 3, 4, 5, 6, 7, 8, 0x11, 0x12, 0x13, 0x14, 0x15, 0x16, 0x17, 0x18]
    );
}

#[test]
fn download_out_of_range_is_refused() {
    let mut registry = Registry::new();
    init(&mut registry, 0).unwrap();
    let value = PairData { field_one: 1, field_two: 2 };
    controller_create_state_snapshot(&mut registry, true, 0, &value).unwrap();
    assert_eq!(
        controller_download_state_snapshot(&registry, true, 0, 10, 7),
        Err(Error::OutOfRange)
    );
    assert_eq!(
        controller_download_state_snapshot(&registry, true, 0, 17, 0),
        Err(Error::OutOfRange)
    );
}

#[test]
fn load_of_undecodable_snapshot_is_refused() {
    let mut registry = Registry::new();
    init(&mut registry, 0).unwrap();
    controller_append_state_snapshot(&mut registry, true, 0, vec![1, 2, 3]).unwrap();
    match controller_load_state_snapshot::<PairData>(&registry, true, 0) {
        Err(Error::Deserialize(_)) => {},
        other => panic!("a three-byte snapshot must not decode: {:?}", other),
    }
}

#[test]
fn unauthorized_snapshot_endpoints_trap_and_change_nothing() {
    let mut registry = Registry::new();
    init(&mut registry, 0).unwrap();
    let value = PairData { field_one: 8, field_two: 9 };
    controller_create_state_snapshot(&mut registry, true, 0, &value).unwrap();

    assert_eq!(
        controller_create_state_snapshot(&mut registry, false, 0, &value),
        Err(Error::CallerMustBeController)
    );
    assert_eq!(
        controller_download_state_snapshot(&registry, false, 0, 0, 1),
        Err(Error::CallerMustBeController)
    );
    assert_eq!(
        controller_clear_state_snapshot(&mut registry, false, 0),
        Err(Error::CallerMustBeController)
    );
    assert_eq!(
        controller_append_state_snapshot(&mut registry, false, 0, vec![1]),
        Err(Error::CallerMustBeController)
    );
    assert_eq!(
        controller_load_state_snapshot::<PairData>(&registry, false, 0),
        Err(Error::CallerMustBeController)
    );

    // no state change is observable: the staged snapshot still decodes
    let restored: PairData = controller_load_state_snapshot(&registry, true, 0).unwrap();
    assert_eq!(restored, value);
}

/// A value whose serializer always fails.
struct Unserializable;

impl Serializable for Unserializable {
    fn forward(&self) -> Result<Vec<u8>, String> {
        Err("this value cannot be serialized".to_string())
    }

    fn backward(_b: &[u8]) -> Result<Self, String> {
        Err("this value cannot be deserialized".to_string())
    }
}

#[test]
fn create_then_load_restores_the_value() {
    let mut registry = Registry::new();
    init(&mut registry, 0).unwrap();
    let value = PairData { field_one: 21, field_two: 42 };
    controller_create_state_snapshot(&mut registry, true, 0, &value).unwrap();
    let restored: PairData = controller_load_state_snapshot(&registry, true, 0).unwrap();
    assert_eq!(restored, value);
}

#[test]
fn failing_serializer_clears_the_staged_snapshot() {
    let mut registry = Registry::new();
    init(&mut registry, 0).unwrap();
    controller_append_state_snapshot(&mut registry, true, 0, vec![1, 2, 3]).unwrap();
    match controller_create_state_snapshot(&mut registry, true, 0, &Unserializable) {
        Err(Error::Serialize(_)) => {},
        other => panic!("the serializer must fail: {:?}", other),
    }
    // the buffer was cleared before serialization was attempted
    let staged = controller_download_state_snapshot(&registry, true, 0, 0, 0).unwrap();
    assert!(staged.is_empty());
    assert_eq!(
        controller_download_state_snapshot(&registry, true, 0, 0, 1),
        Err(Error::OutOfRange)
    );
}

#[test]
fn codec_round_trips_through_bytes() {
    let value = PairData { field_one: u64::MAX, field_two: 0 };
    let encoded = value.forward().unwrap();
    assert_eq!(encoded.len(), 16);
    let decoded = PairData::backward(&encoded).unwrap();
    assert_eq!(decoded, value);
    assert!(PairData::backward(&encoded[..15]).is_err());
}
