//! Byte-addressable stable-memory regions, vended per 8-bit memory id by
//! the memory manager, and the length-framed payload layout on them.
//!
//! A region grows in pages of 64 KiB. The upgrade engine never touches the
//! first `STABLE_MEMORY_HEADER_SIZE_BYTES` bytes of a region: it writes an
//! eight-byte big-endian payload length there-after, then the payload.

use vstd::prelude::*;

use crate::bytes::{
    lemma_u64_be_bytes_round_trip, u64_be_bytes, u64_from_be_byte_slice, u64_from_be_bytes,
    u64_to_be_byte_vec,
};
use crate::Error;

verus! {

/// Bytes in one WebAssembly page of stable memory.
pub const WASM_PAGE_SIZE_BYTES: u64 = 65536;

/// Reserved bytes at the start of every region the upgrade engine uses.
pub const STABLE_MEMORY_HEADER_SIZE_BYTES: u64 = 1024;

/// The most pages one region vended by [`new_memory_hub`] can reach: the
/// manager allocates at most 32768 buckets of 128 pages each.
pub const MAX_REGION_PAGES: u64 = 32768 * 128;

/// The memory manager over the canister's stable memory. It vends one
/// independent [`Region`] per 8-bit memory id.
#[verifier::external_body]
pub struct MemoryHub {
    manager: ic_stable_structures::memory_manager::MemoryManager<
        ic_stable_structures::DefaultMemoryImpl,
    >,
}

/// A handle on one stable-memory region.
///
/// The hub vends at most one handle per memory id, so a held handle is
/// the region's only window: its view is the region's bytes.
#[verifier::external_body]
pub struct Region {
    memory: ic_stable_structures::memory_manager::VirtualMemory<
        ic_stable_structures::DefaultMemoryImpl,
    >,
}

/// The bytes a region holds: its size in pages times 64 KiB of them.
pub uninterp spec fn region_view(r: Region) -> Seq<u8>;

/// The bytes the hub's region of this memory id holds, as of the moment
/// no handle onto it has been vended yet.
pub uninterp spec fn hub_region(hub: MemoryHub, memory_id: u8) -> Seq<u8>;

/// The memory ids the hub has already vended a handle for. After an id
/// is vended, the handle is the one window onto that region.
pub uninterp spec fn hub_vended(hub: MemoryHub) -> Set<u8>;

/// Relies on MemoryManager::init over the default memory: it adopts a
/// manager image already present there, or lays out a fresh one. What
/// the regions hold at that point is an environmental given — on a
/// canister the default memory is the persistent stable memory, where
/// each region holds what the previous instance wrote — so nothing is
/// claimed of their contents; no handle has been vended yet.
#[verifier::external_body]
pub fn new_memory_hub() -> (hub: MemoryHub)
    ensures
        hub_vended(hub) == Set::<u8>::empty(),
{
    MemoryHub {
        manager: ic_stable_structures::memory_manager::MemoryManager::init(
            ic_stable_structures::DefaultMemoryImpl::default(),
        ),
    }
}

/// Gets the stable memory of the memory_id.
///
/// Relies on MemoryManager::get, which hands out the virtual memory bound
/// to this id; its size in pages stays under the manager's bucket
/// capacity. Handles to one id alias one underlying memory, so the hub
/// vends each id at most once: the handle is then the region's only
/// window, and its view starts as the hub's bytes for that id.
/// MemoryId::new refuses the one reserved id, 255.
#[verifier::external_body]
pub fn get_virtual_memory(hub: &mut MemoryHub, memory_id: u8) -> (r: Region)
    requires
        memory_id != 255,
        !hub_vended(*old(hub)).contains(memory_id),
    ensures
        region_view(r) == hub_region(*old(hub), memory_id),
        region_view(r).len() % (WASM_PAGE_SIZE_BYTES as nat) == 0,
        region_view(r).len() <= MAX_REGION_PAGES * WASM_PAGE_SIZE_BYTES,
        hub_vended(*final(hub)) == hub_vended(*old(hub)).insert(memory_id),
        forall|other: u8| hub_region(*final(hub), other) == hub_region(*old(hub), other),
{
    Region {
        memory: hub.manager.get(
            ic_stable_structures::memory_manager::MemoryId::new(memory_id),
        ),
    }
}

/// Relies on Memory::size for VirtualMemory: the current size in 64 KiB
/// pages; the region's contents are exactly that many pages of bytes, and
/// the manager's bucket capacity bounds the page count.
#[verifier::external_body]
pub(crate) fn region_size(r: &Region) -> (pages: u64)
    ensures
        pages * WASM_PAGE_SIZE_BYTES == region_view(*r).len(),
        pages <= MAX_REGION_PAGES,
{
    ic_stable_structures::Memory::size(&r.memory)
}

/// Relies on Memory::grow for VirtualMemory: on success it appends
/// `pages` zero-filled pages and returns the previous size in pages; it
/// returns -1, changing nothing, when the manager cannot allocate.
#[verifier::external_body]
pub(crate) fn region_grow(r: &mut Region, pages: u64) -> (res: i64)
    requires
        region_view(*old(r)).len() / (WASM_PAGE_SIZE_BYTES as nat) + pages <= u64::MAX,
    ensures
        res == -1 ==> region_view(*final(r)) == region_view(*old(r)),
        res != -1 ==> {
            &&& res >= 0
            &&& res * WASM_PAGE_SIZE_BYTES == region_view(*old(r)).len()
            &&& region_view(*final(r)) == region_view(*old(r)) + Seq::new(
                (pages * WASM_PAGE_SIZE_BYTES) as nat,
                |i: int| 0u8,
            )
            &&& region_view(*final(r)).len() <= MAX_REGION_PAGES * WASM_PAGE_SIZE_BYTES
        },
{
    ic_stable_structures::Memory::grow(&r.memory, pages)
}

/// Relies on Memory::read for VirtualMemory: fills `dst` with the
/// `dst.len()` bytes of the region starting at `offset`.
#[verifier::external_body]
pub(crate) fn region_read(r: &Region, offset: u64, dst: &mut Vec<u8>)
    requires
        offset + old(dst)@.len() <= region_view(*r).len(),
    ensures
        final(dst)@ == region_view(*r).subrange(
            offset as int,
            offset + old(dst)@.len(),
        ),
{
    ic_stable_structures::Memory::read(&r.memory, offset, dst.as_mut_slice())
}

/// Relies on Memory::write for VirtualMemory: overwrites the bytes of the
/// region from `offset` on with `src`, leaving the rest as it was.
#[verifier::external_body]
pub(crate) fn region_write(r: &mut Region, offset: u64, src: &Vec<u8>)
    requires
        offset + src@.len() <= region_view(*old(r)).len(),
    ensures
        region_view(*final(r)) == spliced(region_view(*old(r)), offset as int, src@),
{
    ic_stable_structures::Memory::write(&r.memory, offset, src.as_slice())
}

/// `mem` with `bytes` written over the range starting at `at`.
pub open spec fn spliced(mem: Seq<u8>, at: int, bytes: Seq<u8>) -> Seq<u8>
    recommends
        0 <= at,
        at + bytes.len() <= mem.len(),
{
    Seq::new(mem.len(), |i: int| if at <= i < at + bytes.len() { bytes[i - at] } else { mem[i] })
}

/// `payload` lies length-framed at `base` in `mem`: eight big-endian
/// length bytes, then the payload itself.
pub open spec fn framed_at(mem: Seq<u8>, base: int, payload: Seq<u8>) -> bool {
    &&& 0 <= base
    &&& base + 8 + payload.len() <= mem.len()
    &&& mem.subrange(base, base + 8) == u64_be_bytes(payload.len() as u64)
    &&& mem.subrange(base + 8, base + 8 + payload.len()) == payload
}

/// The payload a length-framed read at `base` recovers from `mem`, if the
/// frame lies within the bytes of `mem`.
pub open spec fn framed_payload(mem: Seq<u8>, base: int) -> Option<Seq<u8>> {
    if base < 0 || base + 8 > mem.len() {
        None
    } else {
        let n = u64_from_be_bytes(mem.subrange(base, base + 8)) as int;
        if base + 8 + n > mem.len() {
            None
        } else {
            Some(mem.subrange(base + 8, base + 8 + n))
        }
    }
}

/// Pages to grow by when `current_len` bytes must become `want_bytes`:
/// one more than the shortfall needs, as deliberate headroom.
pub open spec fn grow_pages_needed(current_len: nat, want_bytes: u64) -> int {
    (want_bytes - current_len) / (WASM_PAGE_SIZE_BYTES as int) + 1
}

/// Grows the region so that it holds at least `want_bytes` bytes.
///
/// If the region is already large enough nothing changes; otherwise it
/// grows by exactly the page shortfall plus one page of headroom. Fails
/// with `StableMemoryGrowFailed`, changing nothing, when the memory
/// manager cannot allocate the pages.
pub fn ensure_capacity(region: &mut Region, want_bytes: u64) -> (res: Result<(), Error>)
    ensures
        match res {
            Ok(()) => {
                &&& region_view(*final(region)).len() >= want_bytes
                &&& region_view(*old(region)).len() >= want_bytes ==> region_view(
                    *final(region),
                ) == region_view(*old(region))
                &&& region_view(*old(region)).len() < want_bytes ==> region_view(
                    *final(region),
                ) == region_view(*old(region)) + Seq::new(
                    (grow_pages_needed(region_view(*old(region)).len(), want_bytes)
                        * WASM_PAGE_SIZE_BYTES) as nat,
                    |i: int| 0u8,
                )
            },
            Err(e) => {
                &&& e == Error::StableMemoryGrowFailed
                &&& region_view(*final(region)) == region_view(*old(region))
                &&& region_view(*old(region)).len() < want_bytes
            },
        },
{
    let size_pages: u64 = region_size(region);
    let size_bytes: u64 = size_pages * WASM_PAGE_SIZE_BYTES;
    if size_bytes < want_bytes {
        let shortfall: u64 = want_bytes - size_bytes;
        let grow_by: u64 = shortfall / WASM_PAGE_SIZE_BYTES + 1;
        proof {
            vstd::arithmetic::div_mod::lemma_fundamental_div_mod(
                shortfall as int,
                WASM_PAGE_SIZE_BYTES as int,
            );
        }
        let grow_result: i64 = region_grow(region, grow_by);
        if grow_result == -1 {
            return Err(Error::StableMemoryGrowFailed);
        }
    }
    Ok(())
}

/// Writes `payload` length-framed at `base_offset`, growing the region to
/// fit first. On failure the region is unchanged.
pub fn write_framed(region: &mut Region, base_offset: u64, payload: &Vec<u8>) -> (res: Result<
    (),
    Error,
>)
    ensures
        match res {
            Ok(()) => {
                &&& base_offset + 8 + payload@.len() <= u64::MAX
                &&& framed_at(region_view(*final(region)), base_offset as int, payload@)
                &&& region_view(*final(region)).len() >= region_view(*old(region)).len()
                &&& forall|i: int|
                    0 <= i < region_view(*old(region)).len() && !(base_offset <= i < base_offset + 8
                        + payload@.len()) ==> region_view(*final(region))[i] == region_view(
                        *old(region),
                    )[i]
            },
            Err(e) => {
                &&& e == Error::StableMemoryGrowFailed
                &&& region_view(*final(region)) == region_view(*old(region))
                &&& region_view(*old(region)).len() < base_offset + 8 + payload@.len()
                    || base_offset + 8 + payload@.len() > u64::MAX
            },
        },
{
    if base_offset > u64::MAX - 8 || payload.len() as u64 > u64::MAX - 8 - base_offset {
        return Err(Error::StableMemoryGrowFailed);
    }
    let payload_len: u64 = payload.len() as u64;
    let needed: u64 = base_offset + 8 + payload_len;
    ensure_capacity(region, needed)?;
    let length_bytes: Vec<u8> = u64_to_be_byte_vec(payload_len);
    region_write(region, base_offset, &length_bytes);
    region_write(region, base_offset + 8, payload);
    proof {
        lemma_u64_be_bytes_round_trip(payload_len);
        assert(region_view(*region).subrange(base_offset as int, base_offset + 8)
            =~= u64_be_bytes(payload_len));
        assert(region_view(*region).subrange(
            base_offset + 8,
            base_offset + 8 + payload@.len(),
        ) =~= payload@);
    }
    Ok(())
}

/// Reads the length-framed payload at `base_offset`: eight big-endian
/// length bytes, then that many payload bytes. Fails with `OutOfRange`
/// when the frame reaches outside the region's current bytes.
pub fn read_framed(region: &Region, base_offset: u64) -> (res: Result<Vec<u8>, Error>)
    ensures
        match res {
            Ok(v) => framed_payload(region_view(*region), base_offset as int) == Some(v@),
            Err(e) => {
                &&& e == Error::OutOfRange
                &&& framed_payload(region_view(*region), base_offset as int) is None
            },
        },
{
    let size_pages: u64 = region_size(region);
    let size_bytes: u64 = size_pages * WASM_PAGE_SIZE_BYTES;
    if base_offset > size_bytes || size_bytes - base_offset < 8 {
        return Err(Error::OutOfRange);
    }
    let mut length_buf: Vec<u8> = Vec::new();
    length_buf.push(0);
    length_buf.push(0);
    length_buf.push(0);
    length_buf.push(0);
    length_buf.push(0);
    length_buf.push(0);
    length_buf.push(0);
    length_buf.push(0);
    region_read(region, base_offset, &mut length_buf);
    let payload_len: u64 = u64_from_be_byte_slice(length_buf.as_slice(), 0);
    if payload_len > size_bytes - base_offset - 8 {
        return Err(Error::OutOfRange);
    }
    let mut payload: Vec<u8> = Vec::new();
    let mut i: u64 = 0;
    while i < payload_len
        invariant
            i <= payload_len,
            payload@ == Seq::new(i as nat, |j: int| 0u8),
        decreases payload_len - i,
    {
        payload.push(0);
        proof {
            assert(payload@ =~= Seq::new((i + 1) as nat, |j: int| 0u8));
        }
        i = i + 1;
    }
    region_read(region, base_offset + 8, &mut payload);
    Ok(payload)
}

/// A length-framed write is read back exactly: the payload recovered at
/// `base` is the payload that was framed there.
pub proof fn lemma_framed_round_trip(mem: Seq<u8>, base: int, payload: Seq<u8>)
    requires
        framed_at(mem, base, payload),
        payload.len() <= u64::MAX,
    ensures
        framed_payload(mem, base) == Some(payload),
{
    lemma_u64_be_bytes_round_trip(payload.len() as u64);
}

} // verus!
