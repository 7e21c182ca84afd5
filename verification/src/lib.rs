//! Snapshot and upgrade tooling for canisters: a registry of staged
//! state snapshots keyed by an 8-bit memory id, a length-framed layout on
//! stable memory, pre/post-upgrade serialization, and the compute parts of
//! the controller maintenance endpoints.

use vstd::prelude::*;

pub mod bytes;
pub mod codec;
pub mod endpoints;
pub mod engine;
pub mod region;
pub mod registry;

pub use codec::{PairData, Serializable};
pub use endpoints::{
    controller_append_state_snapshot, controller_clear_state_snapshot,
    controller_create_state_snapshot, controller_download_state_snapshot,
    controller_load_state_snapshot, controller_stable_memory_grow, controller_stable_memory_read,
    controller_stable_memory_size, controller_stable_memory_write,
};
pub use engine::{init, post_upgrade, pre_upgrade};
pub use region::{
    ensure_capacity, get_virtual_memory, new_memory_hub, read_framed, write_framed, MemoryHub,
    Region, MAX_REGION_PAGES, STABLE_MEMORY_HEADER_SIZE_BYTES, WASM_PAGE_SIZE_BYTES,
};
pub use registry::Registry;

verus! {

/// Why an operation was refused. Callers at the host boundary turn these
/// into traps, which roll back the message.
#[derive(Debug, PartialEq, Eq)]
pub enum Error {
    /// The caller of a controller endpoint is not a controller.
    CallerMustBeController,
    /// No data structure is registered under this memory id.
    MemoryIdNotRegistered,
    /// A data structure is already registered under this memory id.
    MemoryIdAlreadyRegistered,
    /// The user-supplied serializer failed with this message.
    Serialize(String),
    /// The user-supplied deserializer failed with this message.
    Deserialize(String),
    /// The stable memory could not be grown to the needed size.
    StableMemoryGrowFailed,
    /// An offset/length pair reaches outside the addressed bytes.
    OutOfRange,
}

} // verus!
