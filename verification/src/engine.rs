//! The upgrade engine: registration in the init hook, serialization of a
//! registered value onto its stable-memory region before an upgrade, and
//! restoration (optionally through a schema conversion) after it.

use vstd::prelude::*;

use crate::codec::Serializable;
use crate::region::{
    framed_at, framed_payload, lemma_framed_round_trip, read_framed, region_view, write_framed,
    Region, STABLE_MEMORY_HEADER_SIZE_BYTES,
};
use crate::registry::Registry;
use crate::Error;

verus! {

/// Call this function in the canister_init hook: it registers the memory
/// id for the upgrades and the snapshots, with an empty staged buffer.
///
/// Registration is one-shot: an id that is already registered is refused
/// and the registry is unchanged.
pub fn init(registry: &mut Registry, memory_id: u8) -> (res: Result<(), Error>)
    requires
        old(registry).wf(),
    ensures
        final(registry).wf(),
        match res {
            Ok(()) => {
                &&& !old(registry).contains_id(memory_id)
                &&& final(registry).staged_opt(memory_id) == Some(Seq::<u8>::empty())
                &&& forall|other: u8|
                    other != memory_id ==> final(registry).staged_opt(other) == old(
                        registry,
                    ).staged_opt(other)
            },
            Err(e) => {
                &&& e == Error::MemoryIdAlreadyRegistered
                &&& old(registry).contains_id(memory_id)
                &&& *final(registry) == *old(registry)
            },
        },
{
    registry.register(memory_id)
}

/// Call this function in the pre_upgrade hook, once per registered value:
/// it clears the staged buffer, serializes the value into it, and writes
/// it length-framed onto the region after the reserved header, which it
/// never touches.
pub fn pre_upgrade<T: Serializable>(
    registry: &mut Registry,
    memory_id: u8,
    value: &T,
    region: &mut Region,
) -> (res: Result<(), Error>)
    requires
        old(registry).wf(),
    ensures
        final(registry).wf(),
        match res {
            Ok(()) => {
                &&& old(registry).contains_id(memory_id)
                &&& value.spec_forward() is Some
                &&& STABLE_MEMORY_HEADER_SIZE_BYTES + 8 + value.spec_forward()->Some_0.len()
                    <= u64::MAX
                &&& final(registry).staged_opt(memory_id) == value.spec_forward()
                &&& framed_at(
                    region_view(*final(region)),
                    STABLE_MEMORY_HEADER_SIZE_BYTES as int,
                    value.spec_forward()->Some_0,
                )
                &&& forall|i: int|
                    0 <= i < STABLE_MEMORY_HEADER_SIZE_BYTES && i < region_view(
                        *old(region),
                    ).len() ==> region_view(*final(region))[i] == region_view(*old(region))[i]
                &&& forall|other: u8|
                    other != memory_id ==> final(registry).staged_opt(other) == old(
                        registry,
                    ).staged_opt(other)
            },
            Err(e) => match e {
                Error::MemoryIdNotRegistered => {
                    &&& !old(registry).contains_id(memory_id)
                    &&& *final(registry) == *old(registry)
                    &&& region_view(*final(region)) == region_view(*old(region))
                },
                Error::Serialize(_) => {
                    &&& old(registry).contains_id(memory_id)
                    &&& value.spec_forward() is None
                    &&& final(registry).staged_opt(memory_id) == Some(Seq::<u8>::empty())
                    &&& forall|other: u8|
                        other != memory_id ==> final(registry).staged_opt(other) == old(
                            registry,
                        ).staged_opt(other)
                    &&& region_view(*final(region)) == region_view(*old(region))
                },
                Error::StableMemoryGrowFailed => {
                    &&& old(registry).contains_id(memory_id)
                    &&& value.spec_forward() is Some
                    &&& final(registry).staged_opt(memory_id) == value.spec_forward()
                    &&& forall|other: u8|
                        other != memory_id ==> final(registry).staged_opt(other) == old(
                            registry,
                        ).staged_opt(other)
                    &&& region_view(*final(region)) == region_view(*old(region))
                    &&& region_view(*old(region)).len() < STABLE_MEMORY_HEADER_SIZE_BYTES + 8
                        + value.spec_forward()->Some_0.len() || STABLE_MEMORY_HEADER_SIZE_BYTES + 8
                        + value.spec_forward()->Some_0.len() > u64::MAX
                },
                _ => false,
            },
        },
{
    // Clear first so the heap holds at most one copy of the encoding.
    match registry.clear(memory_id) {
        Err(e) => {
            return Err(e);
        },
        Ok(()) => {},
    }
    let staged: Vec<u8> = match value.forward() {
        Err(msg) => {
            return Err(Error::Serialize(msg));
        },
        Ok(b) => b,
    };
    match registry.set_staged(memory_id, staged) {
        Err(e) => {
            proof {
                assert(false);
            }
            return Err(e);
        },
        Ok(()) => {},
    }
    let staged_ref: &Vec<u8> = match registry.staged_bytes(memory_id) {
        None => {
            proof {
                assert(false);
            }
            return Err(Error::MemoryIdNotRegistered);
        },
        Some(v) => v,
    };
    match write_framed(region, STABLE_MEMORY_HEADER_SIZE_BYTES, staged_ref) {
        Err(e) => {
            return Err(e);
        },
        Ok(()) => {},
    }
    Ok(())
}

/// Call this function in the post_upgrade hook: it reads the framed
/// payload the previous code wrote after the reserved header, decodes it
/// (through `opt_old_as_new_convert` when the type changed shape across
/// the upgrade), returns the restored value, and registers the memory id
/// again for the next upgrade and for the snapshots.
#[verifier::rlimit(30)]
pub fn post_upgrade<Data: Serializable, OldData: Serializable, F: Fn(OldData) -> Data>(
    registry: &mut Registry,
    memory_id: u8,
    region: &Region,
    opt_old_as_new_convert: Option<F>,
) -> (res: Result<Data, Error>)
    requires
        old(registry).wf(),
        opt_old_as_new_convert matches Some(f) ==> forall|o: OldData| #[trigger] f.requires((o,)),
    ensures
        final(registry).wf(),
        res is Ok ==> {
            &&& framed_payload(
                region_view(*region),
                STABLE_MEMORY_HEADER_SIZE_BYTES as int,
            ) is Some
            &&& !old(registry).contains_id(memory_id)
            &&& final(registry).staged_opt(memory_id) == Some(Seq::<u8>::empty())
            &&& forall|other: u8|
                other != memory_id ==> final(registry).staged_opt(other) == old(
                    registry,
                ).staged_opt(other)
        },
        res is Ok && opt_old_as_new_convert is None ==> Data::spec_backward(
            framed_payload(region_view(*region), STABLE_MEMORY_HEADER_SIZE_BYTES as int)->Some_0,
        ) == Some(res->Ok_0),
        (res is Ok && opt_old_as_new_convert is Some) ==> exists|o: OldData|
            OldData::spec_backward(
                framed_payload(
                    region_view(*region),
                    STABLE_MEMORY_HEADER_SIZE_BYTES as int,
                )->Some_0,
            ) == Some(o) && #[trigger] (opt_old_as_new_convert->Some_0).ensures(
                (o,),
                res->Ok_0,
            ),
        match res {
            Ok(_) => true,
            Err(e) => match e {
                Error::OutOfRange => {
                    &&& framed_payload(
                        region_view(*region),
                        STABLE_MEMORY_HEADER_SIZE_BYTES as int,
                    ) is None
                    &&& *final(registry) == *old(registry)
                },
                Error::Deserialize(_) => {
                    &&& framed_payload(
                        region_view(*region),
                        STABLE_MEMORY_HEADER_SIZE_BYTES as int,
                    ) is Some
                    &&& match opt_old_as_new_convert {
                        None => Data::spec_backward(
                            framed_payload(
                                region_view(*region),
                                STABLE_MEMORY_HEADER_SIZE_BYTES as int,
                            )->Some_0,
                        ) is None,
                        Some(_) => OldData::spec_backward(
                            framed_payload(
                                region_view(*region),
                                STABLE_MEMORY_HEADER_SIZE_BYTES as int,
                            )->Some_0,
                        ) is None,
                    }
                    &&& *final(registry) == *old(registry)
                },
                Error::MemoryIdAlreadyRegistered => {
                    &&& old(registry).contains_id(memory_id)
                    &&& *final(registry) == *old(registry)
                },
                _ => false,
            },
        },
{
    let stable_bytes: Vec<u8> = match read_framed(region, STABLE_MEMORY_HEADER_SIZE_BYTES) {
        Err(e) => {
            return Err(e);
        },
        Ok(b) => b,
    };
    let ghost entry_convert = opt_old_as_new_convert;
    let ghost mut the_old: OldData = vstd::pervasive::arbitrary();
    let data: Data = match opt_old_as_new_convert {
        Some(old_as_new_convert) => {
            let ghost the_convert = old_as_new_convert;
            let old_data: OldData = match OldData::backward(stable_bytes.as_slice()) {
                Err(msg) => {
                    return Err(Error::Deserialize(msg));
                },
                Ok(v) => v,
            };
            proof {
                the_old = old_data;
            }
            let converted: Data = old_as_new_convert(old_data);
            proof {
                assert(entry_convert == Some(the_convert));
                assert(OldData::spec_backward(stable_bytes@) == Some(the_old));
                assert(the_convert.ensures((the_old,), converted));
            }
            converted
        },
        None => match Data::backward(stable_bytes.as_slice()) {
            Err(msg) => {
                return Err(Error::Deserialize(msg));
            },
            Ok(v) => v,
        },
    };
    match registry.register(memory_id) {
        Err(e) => {
            return Err(e);
        },
        Ok(()) => {},
    }
    let result: Result<Data, Error> = Ok(data);
    proof {
        if entry_convert is Some {
            assert((entry_convert->Some_0).ensures((the_old,), result->Ok_0));
            assert(exists|o: OldData|
                OldData::spec_backward(
                    framed_payload(
                        region_view(*region),
                        STABLE_MEMORY_HEADER_SIZE_BYTES as int,
                    )->Some_0,
                ) == Some(o) && #[trigger] (entry_convert->Some_0).ensures(
                    (o,),
                    result->Ok_0,
                ));
        }
    }
    result
}

/// Upgrade round-trip: when a value's codec decodes its own encoding back
/// to the value, the framed payload that `pre_upgrade` leaves on the
/// region decodes to the value again, as `post_upgrade` without a
/// conversion reads it.
pub proof fn lemma_upgrade_round_trip<T: Serializable>(mem: Seq<u8>, v: T, b: Seq<u8>)
    requires
        v.spec_forward() == Some(b),
        T::spec_backward(b) == Some(v),
        b.len() <= u64::MAX,
        framed_at(mem, STABLE_MEMORY_HEADER_SIZE_BYTES as int, b),
    ensures
        framed_payload(mem, STABLE_MEMORY_HEADER_SIZE_BYTES as int) == Some(b),
        T::spec_backward(
            framed_payload(mem, STABLE_MEMORY_HEADER_SIZE_BYTES as int)->Some_0,
        ) == Some(v),
{
    lemma_framed_round_trip(mem, STABLE_MEMORY_HEADER_SIZE_BYTES as int, b);
}

/// Schema-migration round-trip: when the old type's codec decodes its own
/// encoding back to the old value, the framed payload that `pre_upgrade`
/// wrote against the old type decodes to exactly that old value, which
/// `post_upgrade` then hands to the conversion; its result is the
/// conversion's image of the old value.
pub proof fn lemma_schema_migration_round_trip<OldData: Serializable>(
    mem: Seq<u8>,
    old_value: OldData,
    b: Seq<u8>,
)
    requires
        old_value.spec_forward() == Some(b),
        OldData::spec_backward(b) == Some(old_value),
        b.len() <= u64::MAX,
        framed_at(mem, STABLE_MEMORY_HEADER_SIZE_BYTES as int, b),
    ensures
        framed_payload(mem, STABLE_MEMORY_HEADER_SIZE_BYTES as int) == Some(b),
        OldData::spec_backward(
            framed_payload(mem, STABLE_MEMORY_HEADER_SIZE_BYTES as int)->Some_0,
        ) == Some(old_value),
{
    lemma_framed_round_trip(mem, STABLE_MEMORY_HEADER_SIZE_BYTES as int, b);
}

} // verus!
