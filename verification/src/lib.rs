//! Host-side block storage for an oblivious RAM that runs inside an enclave.
//!
//! The enclave keeps its encrypted blocks and their metadata outside, in
//! allocations that it names by handle. It reads a batch of blocks by index
//! with a checkout, works on them inside, and writes the batch back with a
//! checkin. This crate is the outside half: it keeps the protocol and moves
//! the blocks between the regions, which its caller reserves, and the
//! enclave's buffers.
//!
//! No operation fails. Each states what it needs in its `requires`, and for
//! each there is a test that names the first need that is not met, so that a
//! caller that cannot show the needs can test them and stop.
//!
//! * [`registry`] holds the table of allocations and the four operations:
//!   [`allocate_oram_storage`], [`release_oram_storage`],
//!   [`checkout_oram_storage`] and [`checkin_oram_storage`].
//! * [`allocation`] is one allocation: the shape of its two regions and its
//!   state.
//! * [`transfer`] moves batches of items between a region and a buffer.
//! * [`footprint`] computes what an allocation costs in kilobytes.
//! * [`handle`] says how a handle names a slot of the table.
//! * [`debug_checks`] is the set of valid handles that a registry may keep.
//! * [`error`] lists the refusals.
//! * [`laws`] states what holds of the operations taken together.
//!
//! The crate does not choose the indices, does not read or encrypt the blocks
//! and does not defend itself against its caller: the enclave is the trusted
//! party.

pub mod allocation;
pub mod debug_checks;
pub mod error;
pub mod footprint;
pub mod handle;
pub mod laws;
pub mod registry;
pub mod transfer;

pub use allocation::UntrustedAllocation;
pub use error::{ErrorClass, StorageError};
pub use registry::{
    allocate_oram_storage, checkin_oram_storage, checkout_oram_storage, release_oram_storage,
    AllocationRegistry,
};
