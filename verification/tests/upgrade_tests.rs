//! Upgrade scenarios over stable-memory regions: pre-upgrade writes the
//! framed encoding, post-upgrade restores the value, optionally through
//! a schema conversion.

use canister_tools::bytes::{u64_from_be_byte_slice, u64_to_be_byte_vec};
use canister_tools::codec::EmptyData;
use canister_tools::{
    controller_stable_memory_grow, controller_stable_memory_read, controller_stable_memory_size,
    controller_stable_memory_write, get_virtual_memory, init, new_memory_hub, post_upgrade,
    pre_upgrade, read_framed, write_framed, Error, PairData, Registry, Serializable,
};

#[test]
fn basic_upgrade_restores_the_value() {
    let mut hub = new_memory_hub();
    let mut region = get_virtual_memory(&mut hub, 0);

    // version A: register, then serialize onto the region
    let mut registry = Registry::new();
    init(&mut registry, 0).unwrap();
    let value = PairData { field_one: 8, field_two: 55 };
    pre_upgrade(&mut registry, 0, &value, &mut region).unwrap();

    // version B: a fresh registry, the same region
    let mut registry = Registry::new();
    let restored: PairData =
        post_upgrade(&mut registry, 0, &region, None::<fn(PairData) -> PairData>).unwrap();
    assert_eq!(restored, PairData { field_one: 8, field_two: 55 });

    // post_upgrade re-registered the id
    assert_eq!(init(&mut registry, 0), Err(Error::MemoryIdAlreadyRegistered));
}

#[test]
fn schema_evolution_converts_the_old_value() {
    let mut hub = new_memory_hub();
    let mut region = get_virtual_memory(&mut hub, 0);

    // version A: the value type encodes to nothing
    let mut registry = Registry::new();
    init(&mut registry, 0).unwrap();
    pre_upgrade(&mut registry, 0, &EmptyData, &mut region).unwrap();

    // version B: decode as EmptyData, then convert to the new shape
    let mut registry = Registry::new();
    let restored: PairData = post_upgrade(
        &mut registry,
        0,
        &region,
        Some(|_old: EmptyData| PairData { field_one: 8, field_two: 55 }),
    )
    .unwrap();
    assert_eq!(restored, PairData { field_one: 8, field_two: 55 });
}

#[test]
fn pre_upgrade_frames_the_encoding_after_the_header() {
    let mut hub = new_memory_hub();
    let mut region = get_virtual_memory(&mut hub, 0);
    let mut registry = Registry::new();
    init(&mut registry, 3).unwrap();
    let value = PairData { field_one: 0x0102030405060708, field_two: 9 };
    pre_upgrade(&mut registry, 3, &value, &mut region).unwrap();

    // the framed payload after the 1024-byte header is forward(value)
    assert_eq!(read_framed(&region, 1024).unwrap(), value.forward().unwrap());

    // raw view: 8 length bytes big-endian, then the payload
    let length_bytes = controller_stable_memory_read(&region, true, 1024, 8).unwrap();
    assert_eq!(u64_from_be_byte_slice(&length_bytes, 0), 16);
    let payload = controller_stable_memory_read(&region, true, 1032, 16).unwrap();
    assert_eq!(payload, value.forward().unwrap());

    // the reserved header bytes stay zero
    let header = controller_stable_memory_read(&region, true, 0, 1024).unwrap();
    assert!(header.iter().all(|b| *b == 0));
}

#[test]
fn empty_payload_round_trips_through_the_frame() {
    let mut hub = new_memory_hub();
    let mut region = get_virtual_memory(&mut hub, 0);
    write_framed(&mut region, 1024, &Vec::new()).unwrap();
    assert_eq!(read_framed(&region, 1024).unwrap(), Vec::<u8>::new());
}

#[test]
fn framed_write_grows_by_the_minimum_pages_plus_one() {
    let mut hub = new_memory_hub();
    let mut region = get_virtual_memory(&mut hub, 0);
    assert_eq!(controller_stable_memory_size(&region, true), Ok(0));

    // want 1024 + 8 + 100 = 1132 bytes from 0: 1132/65536 + 1 = 1 page
    write_framed(&mut region, 1024, &vec![7u8; 100]).unwrap();
    assert_eq!(controller_stable_memory_size(&region, true), Ok(1));

    // a payload whose frame crosses the 65536-byte boundary: the write
    // grows by the page shortfall plus one page of headroom
    let mut hub = new_memory_hub();
    let mut region = get_virtual_memory(&mut hub, 1);
    write_framed(&mut region, 1024, &vec![7u8; 65536]).unwrap();
    // want 1024 + 8 + 65536 = 66568 bytes from 0: 66568/65536 + 1 = 2 pages
    assert_eq!(controller_stable_memory_size(&region, true), Ok(2));

    // large enough already: a second write grows nothing
    write_framed(&mut region, 1024, &vec![9u8; 65536]).unwrap();
    assert_eq!(controller_stable_memory_size(&region, true), Ok(2));
}

#[test]
fn fresh_region_has_size_zero_and_read_framed_is_refused() {
    let mut hub = new_memory_hub();
    let region = get_virtual_memory(&mut hub, 7);
    assert_eq!(controller_stable_memory_size(&region, true), Ok(0));
    assert_eq!(read_framed(&region, 1024), Err(Error::OutOfRange));
}

#[test]
fn raw_stable_memory_endpoints_read_back_what_they_wrote() {
    let mut hub = new_memory_hub();
    let mut region = get_virtual_memory(&mut hub, 2);

    // write without auto-grow is refused on an empty region
    assert_eq!(
        controller_stable_memory_write(&mut region, true, 0, &vec![1, 2, 3]),
        Err(Error::OutOfRange)
    );

    // grow replies with the new size in pages
    assert_eq!(controller_stable_memory_grow(&mut region, true, 2), Ok(2));
    assert_eq!(controller_stable_memory_grow(&mut region, true, 1), Ok(3));
    assert_eq!(controller_stable_memory_size(&region, true), Ok(3));

    controller_stable_memory_write(&mut region, true, 65530, &vec![1, 2, 3, 4]).unwrap();
    assert_eq!(
        controller_stable_memory_read(&region, true, 65529, 6).unwrap(),
        vec![0, 1, 2, 3, 4, 0]
    );

    // fresh pages read as zeroes
    assert_eq!(controller_stable_memory_read(&region, true, 0, 4).unwrap(), vec![0, 0, 0, 0]);
}

#[test]
fn unauthorized_memory_endpoints_trap_and_change_nothing() {
    let mut hub = new_memory_hub();
    let mut region = get_virtual_memory(&mut hub, 0);
    assert_eq!(
        controller_stable_memory_read(&region, false, 0, 1),
        Err(Error::CallerMustBeController)
    );
    assert_eq!(
        controller_stable_memory_write(&mut region, false, 0, &vec![1]),
        Err(Error::CallerMustBeController)
    );
    assert_eq!(controller_stable_memory_size(&region, false), Err(Error::CallerMustBeController));
    assert_eq!(
        controller_stable_memory_grow(&mut region, false, 1),
        Err(Error::CallerMustBeController)
    );
    // the refused grow allocated nothing
    assert_eq!(controller_stable_memory_size(&region, true), Ok(0));
}

#[test]
fn upgrade_restores_the_value_written_at_pre_upgrade() {
    // pre_upgrade then post_upgrade round-trips independently of later
    // in-memory mutation
    let mut hub = new_memory_hub();
    let mut region = get_virtual_memory(&mut hub, 0);
    let mut registry = Registry::new();
    init(&mut registry, 0).unwrap();
    let mut value = PairData { field_one: 1, field_two: 2 };
    pre_upgrade(&mut registry, 0, &value, &mut region).unwrap();
    value.field_one = 99;
    assert_eq!(value, PairData { field_one: 99, field_two: 2 });

    let mut registry = Registry::new();
    let restored: PairData =
        post_upgrade(&mut registry, 0, &region, None::<fn(PairData) -> PairData>).unwrap();
    assert_eq!(restored, PairData { field_one: 1, field_two: 2 });
}

#[test]
fn big_endian_bytes_round_trip() {
    let bytes = u64_to_be_byte_vec(0x0102030405060708);
    assert_eq!(bytes, vec![1, 2, 3, 4, 5, 6, 7, 8]);
    assert_eq!(u64_from_be_byte_slice(&bytes, 0), 0x0102030405060708);
    assert_eq!(u64_to_be_byte_vec(0), vec![0; 8]);
}
