//! The compute parts of the nine controller maintenance endpoints: five
//! over the snapshot registry, four over raw stable memory.
//!
//! Each takes the host's controller verdict on the caller as a boolean
//! and refuses everything, changing nothing, when the caller is not a
//! controller. The host boundary decodes the arguments, turns an `Err`
//! into a trap, and encodes the reply.

use vstd::prelude::*;

use crate::codec::Serializable;
use crate::region::{
    region_grow, region_read, region_size, region_view, region_write, spliced, Region,
    MAX_REGION_PAGES, WASM_PAGE_SIZE_BYTES,
};
use crate::registry::Registry;
use crate::Error;

verus! {

/// Takes a snapshot of the data structure registered at the given memory
/// id: clears the staged buffer, then stages the value's fresh encoding.
/// Replies with the staged snapshot's length.
pub fn controller_create_state_snapshot<T: Serializable>(
    registry: &mut Registry,
    caller_is_controller: bool,
    memory_id: u8,
    value: &T,
) -> (res: Result<u64, Error>)
    requires
        old(registry).wf(),
    ensures
        final(registry).wf(),
        !caller_is_controller ==> res == Err::<u64, Error>(Error::CallerMustBeController)
            && *final(registry) == *old(registry),
        match res {
            Ok(n) => {
                &&& caller_is_controller
                &&& old(registry).contains_id(memory_id)
                &&& value.spec_forward() is Some
                &&& final(registry).staged_opt(memory_id) == value.spec_forward()
                &&& n == value.spec_forward()->Some_0.len()
                &&& forall|other: u8|
                    other != memory_id ==> final(registry).staged_opt(other) == old(
                        registry,
                    ).staged_opt(other)
            },
            Err(e) => match e {
                Error::CallerMustBeController => !caller_is_controller && *final(registry) == *old(
                    registry,
                ),
                Error::MemoryIdNotRegistered => {
                    &&& caller_is_controller
                    &&& !old(registry).contains_id(memory_id)
                    &&& *final(registry) == *old(registry)
                },
                Error::Serialize(_) => {
                    &&& caller_is_controller
                    &&& old(registry).contains_id(memory_id)
                    &&& value.spec_forward() is None
                    &&& final(registry).staged_opt(memory_id) == Some(Seq::<u8>::empty())
                    &&& forall|other: u8|
                        other != memory_id ==> final(registry).staged_opt(other) == old(
                            registry,
                        ).staged_opt(other)
                },
                _ => false,
            },
        },
{
    if !caller_is_controller {
        return Err(Error::CallerMustBeController);
    }
    // Clear first so the heap holds at most one copy of the encoding.
    match registry.clear(memory_id) {
        Err(e) => {
            return Err(e);
        },
        Ok(()) => {},
    }
    let staged: Vec<u8> = match value.forward() {
        Err(msg) => {
            return Err(Error::Serialize(msg));
        },
        Ok(b) => b,
    };
    let snapshot_len: u64 = staged.len() as u64;
    match registry.set_staged(memory_id, staged) {
        Err(e) => {
            proof {
                assert(false);
            }
            return Err(e);
        },
        Ok(()) => {},
    }
    Ok(snapshot_len)
}

/// Downloads one chunk of the staged snapshot of the given memory id:
/// the `length` staged bytes from `offset` on.
pub fn controller_download_state_snapshot(
    registry: &Registry,
    caller_is_controller: bool,
    memory_id: u8,
    offset: u64,
    length: u64,
) -> (res: Result<Vec<u8>, Error>)
    ensures
        !caller_is_controller ==> res == Err::<Vec<u8>, Error>(Error::CallerMustBeController),
        match res {
            Ok(v) => {
                &&& caller_is_controller
                &&& registry.contains_id(memory_id)
                &&& offset + length <= registry.staged(memory_id).len()
                &&& v@ == registry.staged(memory_id).subrange(offset as int, offset + length)
            },
            Err(e) => match e {
                Error::CallerMustBeController => !caller_is_controller,
                Error::MemoryIdNotRegistered => caller_is_controller && !registry.contains_id(
                    memory_id,
                ),
                Error::OutOfRange => {
                    &&& caller_is_controller
                    &&& registry.contains_id(memory_id)
                    &&& offset + length > registry.staged(memory_id).len()
                },
                _ => false,
            },
        },
{
    if !caller_is_controller {
        return Err(Error::CallerMustBeController);
    }
    registry.read_chunk(memory_id, offset, length)
}

/// Clears the staged snapshot of the given memory id, ahead of the
/// chunked upload of a customized snapshot.
pub fn controller_clear_state_snapshot(
    registry: &mut Registry,
    caller_is_controller: bool,
    memory_id: u8,
) -> (res: Result<(), Error>)
    requires
        old(registry).wf(),
    ensures
        final(registry).wf(),
        !caller_is_controller ==> res == Err::<(), Error>(Error::CallerMustBeController)
            && *final(registry) == *old(registry),
        match res {
            Ok(()) => {
                &&& caller_is_controller
                &&& old(registry).contains_id(memory_id)
                &&& final(registry).staged_opt(memory_id) == Some(Seq::<u8>::empty())
                &&& forall|other: u8|
                    other != memory_id ==> final(registry).staged_opt(other) == old(
                        registry,
                    ).staged_opt(other)
            },
            Err(e) => match e {
                Error::CallerMustBeController => !caller_is_controller && *final(registry) == *old(
                    registry,
                ),
                Error::MemoryIdNotRegistered => {
                    &&& caller_is_controller
                    &&& !old(registry).contains_id(memory_id)
                    &&& *final(registry) == *old(registry)
                },
                _ => false,
            },
        },
{
    if !caller_is_controller {
        return Err(Error::CallerMustBeController);
    }
    registry.clear(memory_id)
}

/// Appends one uploaded chunk to the staged snapshot of the given memory
/// id.
pub fn controller_append_state_snapshot(
    registry: &mut Registry,
    caller_is_controller: bool,
    memory_id: u8,
    bytes: Vec<u8>,
) -> (res: Result<(), Error>)
    requires
        old(registry).wf(),
    ensures
        final(registry).wf(),
        !caller_is_controller ==> res == Err::<(), Error>(Error::CallerMustBeController)
            && *final(registry) == *old(registry),
        match res {
            Ok(()) => {
                &&& caller_is_controller
                &&& old(registry).contains_id(memory_id)
                &&& final(registry).staged_opt(memory_id) == Some(
                    old(registry).staged(memory_id) + bytes@,
                )
                &&& forall|other: u8|
                    other != memory_id ==> final(registry).staged_opt(other) == old(
                        registry,
                    ).staged_opt(other)
            },
            Err(e) => match e {
                Error::CallerMustBeController => !caller_is_controller && *final(registry) == *old(
                    registry,
                ),
                Error::MemoryIdNotRegistered => {
                    &&& caller_is_controller
                    &&& !old(registry).contains_id(memory_id)
                    &&& *final(registry) == *old(registry)
                },
                _ => false,
            },
        },
{
    if !caller_is_controller {
        return Err(Error::CallerMustBeController);
    }
    registry.append(memory_id, bytes)
}

/// Decodes the staged snapshot of the given memory id and returns the
/// decoded value, for the host boundary to store into the canister's
/// global variable.
pub fn controller_load_state_snapshot<T: Serializable>(
    registry: &Registry,
    caller_is_controller: bool,
    memory_id: u8,
) -> (res: Result<T, Error>)
    ensures
        !caller_is_controller ==> (res matches Err(e) && e == Error::CallerMustBeController),
        match res {
            Ok(v) => {
                &&& caller_is_controller
                &&& registry.contains_id(memory_id)
                &&& T::spec_backward(registry.staged(memory_id)) == Some(v)
            },
            Err(e) => match e {
                Error::CallerMustBeController => !caller_is_controller,
                Error::MemoryIdNotRegistered => caller_is_controller && !registry.contains_id(
                    memory_id,
                ),
                Error::Deserialize(_) => {
                    &&& caller_is_controller
                    &&& registry.contains_id(memory_id)
                    &&& T::spec_backward(registry.staged(memory_id)) is None
                },
                _ => false,
            },
        },
{
    if !caller_is_controller {
        return Err(Error::CallerMustBeController);
    }
    let staged: &Vec<u8> = match registry.staged_bytes(memory_id) {
        None => {
            return Err(Error::MemoryIdNotRegistered);
        },
        Some(b) => b,
    };
    match T::backward(staged.as_slice()) {
        Err(msg) => Err(Error::Deserialize(msg)),
        Ok(v) => Ok(v),
    }
}

/// Reads `length` bytes of the region's stable memory from `offset` on.
pub fn controller_stable_memory_read(
    region: &Region,
    caller_is_controller: bool,
    offset: u64,
    length: u64,
) -> (res: Result<Vec<u8>, Error>)
    ensures
        !caller_is_controller ==> res == Err::<Vec<u8>, Error>(Error::CallerMustBeController),
        match res {
            Ok(v) => {
                &&& caller_is_controller
                &&& offset + length <= region_view(*region).len()
                &&& v@ == region_view(*region).subrange(offset as int, offset + length)
            },
            Err(e) => match e {
                Error::CallerMustBeController => !caller_is_controller,
                Error::OutOfRange => caller_is_controller && offset + length > region_view(
                    *region,
                ).len(),
                _ => false,
            },
        },
{
    if !caller_is_controller {
        return Err(Error::CallerMustBeController);
    }
    let size_pages: u64 = region_size(region);
    let size_bytes: u64 = size_pages * WASM_PAGE_SIZE_BYTES;
    if offset > size_bytes || length > size_bytes - offset {
        return Err(Error::OutOfRange);
    }
    let mut buf: Vec<u8> = Vec::new();
    let mut i: u64 = 0;
    while i < length
        invariant
            i <= length,
            buf@ == Seq::new(i as nat, |j: int| 0u8),
        decreases length - i,
    {
        buf.push(0);
        proof {
            assert(buf@ =~= Seq::new((i + 1) as nat, |j: int| 0u8));
        }
        i = i + 1;
    }
    region_read(region, offset, &mut buf);
    Ok(buf)
}

/// Writes the bytes over the region's stable memory at `offset`. The
/// region is not grown: a write past its current size is refused.
pub fn controller_stable_memory_write(
    region: &mut Region,
    caller_is_controller: bool,
    offset: u64,
    bytes: &Vec<u8>,
) -> (res: Result<(), Error>)
    ensures
        !caller_is_controller ==> res == Err::<(), Error>(Error::CallerMustBeController)
            && region_view(*final(region)) == region_view(*old(region)),
        match res {
            Ok(()) => {
                &&& caller_is_controller
                &&& offset + bytes@.len() <= region_view(*old(region)).len()
                &&& region_view(*final(region)) == spliced(
                    region_view(*old(region)),
                    offset as int,
                    bytes@,
                )
            },
            Err(e) => match e {
                Error::CallerMustBeController => !caller_is_controller && region_view(
                    *final(region),
                ) == region_view(*old(region)),
                Error::OutOfRange => {
                    &&& caller_is_controller
                    &&& offset + bytes@.len() > region_view(*old(region)).len()
                    &&& region_view(*final(region)) == region_view(*old(region))
                },
                _ => false,
            },
        },
{
    if !caller_is_controller {
        return Err(Error::CallerMustBeController);
    }
    let size_pages: u64 = region_size(region);
    let size_bytes: u64 = size_pages * WASM_PAGE_SIZE_BYTES;
    if offset > size_bytes || bytes.len() as u64 > size_bytes - offset {
        return Err(Error::OutOfRange);
    }
    region_write(region, offset, bytes);
    Ok(())
}

/// Replies with the region's current size in 64 KiB pages.
pub fn controller_stable_memory_size(region: &Region, caller_is_controller: bool) -> (res: Result<
    u64,
    Error,
>)
    ensures
        !caller_is_controller ==> res == Err::<u64, Error>(Error::CallerMustBeController),
        match res {
            Ok(pages) => caller_is_controller && pages * WASM_PAGE_SIZE_BYTES == region_view(
                *region,
            ).len(),
            Err(e) => e == Error::CallerMustBeController && !caller_is_controller,
        },
{
    if !caller_is_controller {
        return Err(Error::CallerMustBeController);
    }
    Ok(region_size(region))
}

/// Grows the region's stable memory by the given number of pages,
/// replying with the new size in pages, or with -1, changing nothing,
/// when the pages cannot be had.
pub fn controller_stable_memory_grow(
    region: &mut Region,
    caller_is_controller: bool,
    pages: u64,
) -> (res: Result<i64, Error>)
    ensures
        !caller_is_controller ==> res == Err::<i64, Error>(Error::CallerMustBeController)
            && region_view(*final(region)) == region_view(*old(region)),
        caller_is_controller && region_view(*old(region)).len() / (WASM_PAGE_SIZE_BYTES as nat)
            + pages > u64::MAX ==> res == Ok::<i64, Error>(-1i64),
        match res {
            Ok(r) => {
                &&& caller_is_controller
                &&& r == -1 ==> region_view(*final(region)) == region_view(*old(region))
                &&& r != -1 ==> {
                    &&& r >= 0
                    &&& r * WASM_PAGE_SIZE_BYTES == region_view(*final(region)).len()
                    &&& region_view(*final(region)) == region_view(*old(region)) + Seq::new(
                        (pages * WASM_PAGE_SIZE_BYTES) as nat,
                        |i: int| 0u8,
                    )
                }
            },
            Err(e) => {
                &&& e == Error::CallerMustBeController
                &&& !caller_is_controller
                &&& region_view(*final(region)) == region_view(*old(region))
            },
        },
{
    if !caller_is_controller {
        return Err(Error::CallerMustBeController);
    }
    let size_pages: u64 = region_size(region);
    proof {
        vstd::arithmetic::div_mod::lemma_fundamental_div_mod(
            region_view(*region).len() as int,
            WASM_PAGE_SIZE_BYTES as int,
        );
        assert((size_pages * WASM_PAGE_SIZE_BYTES) as int / (WASM_PAGE_SIZE_BYTES as int)
            == size_pages as int) by (nonlinear_arith);
    }
    if pages > u64::MAX - size_pages {
        // more pages than stable memory can ever address
        return Ok(-1);
    }
    let previous_pages: i64 = region_grow(region, pages);
    if previous_pages == -1 {
        return Ok(-1);
    }
    proof {
        assert((previous_pages + pages) * WASM_PAGE_SIZE_BYTES == previous_pages
            * WASM_PAGE_SIZE_BYTES + pages * WASM_PAGE_SIZE_BYTES) by (nonlinear_arith);
        assert(previous_pages + pages <= MAX_REGION_PAGES) by (nonlinear_arith)
            requires
                (previous_pages + pages) * WASM_PAGE_SIZE_BYTES <= MAX_REGION_PAGES
                    * WASM_PAGE_SIZE_BYTES,
                previous_pages >= 0,
        ;
    }
    Ok(previous_pages + pages as i64)
}

/// Round-trip: when a value's codec decodes its own encoding back to the
/// value, loading right after creating a snapshot decodes the staged
/// bytes to that same value.
pub proof fn lemma_snapshot_then_load_restores<T: Serializable>(
    after_create: Registry,
    memory_id: u8,
    v: T,
)
    requires
        v.spec_forward() is Some,
        T::spec_backward(v.spec_forward()->Some_0) == Some(v),
        after_create.staged_opt(memory_id) == v.spec_forward(),
    ensures
        T::spec_backward(after_create.staged(memory_id)) == Some(v),
{
}

/// Chunked download is a projection: two adjacent downloaded chunks
/// concatenate to the one covering their union, and the chunk covering
/// the whole staged snapshot is the snapshot itself.
pub proof fn lemma_download_chunks_concatenate(s: Seq<u8>, a: int, b: int, c: int)
    requires
        0 <= a <= b <= c <= s.len(),
    ensures
        s.subrange(a, b) + s.subrange(b, c) == s.subrange(a, c),
        s.subrange(0, s.len() as int) == s,
{
    assert(s.subrange(a, b) + s.subrange(b, c) =~= s.subrange(a, c));
    assert(s.subrange(0, s.len() as int) =~= s);
}

/// The staged buffer after a cleared snapshot takes `chunks` in order,
/// one `append` each: starting from the empty buffer that `clear`
/// leaves, each step appends the next chunk, as `append`'s contract
/// states.
pub open spec fn staged_after_uploads(chunks: Seq<Seq<u8>>) -> Seq<u8>
    decreases chunks.len(),
{
    if chunks.len() == 0 {
        Seq::empty()
    } else {
        staged_after_uploads(chunks.drop_last()) + chunks.last()
    }
}

/// Appending chunks one by one stages exactly their concatenation.
pub proof fn lemma_uploads_concatenate(chunks: Seq<Seq<u8>>)
    ensures
        staged_after_uploads(chunks) == chunks.flatten(),
    decreases chunks.len(),
{
    if chunks.len() == 0 {
        assert(chunks.flatten() =~= Seq::<u8>::empty());
    } else {
        lemma_uploads_concatenate(chunks.drop_last());
        chunks.lemma_flatten_and_flatten_alt_are_equivalent();
        chunks.drop_last().lemma_flatten_and_flatten_alt_are_equivalent();
    }
}

/// Chunked upload is identity, for any number of chunks: a registry
/// that cleared the staged snapshot and appended the chunks in order
/// holds exactly the staged bytes of a registry that created a snapshot
/// of a value encoding to the chunks' concatenation, so loading from
/// either decodes the same value.
pub proof fn lemma_chunked_upload_is_identity<T: Serializable>(
    uploaded: Registry,
    created: Registry,
    memory_id: u8,
    v: T,
    chunks: Seq<Seq<u8>>,
)
    requires
        uploaded.staged_opt(memory_id) == Some(staged_after_uploads(chunks)),
        created.staged_opt(memory_id) == v.spec_forward(),
        v.spec_forward() == Some(chunks.flatten()),
    ensures
        uploaded.staged_opt(memory_id) == created.staged_opt(memory_id),
        T::spec_backward(uploaded.staged(memory_id)) == T::spec_backward(
            created.staged(memory_id),
        ),
{
    lemma_uploads_concatenate(chunks);
}

} // verus!
