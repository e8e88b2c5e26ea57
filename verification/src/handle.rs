//! Handles: the 64-bit identifiers by which callers name allocations.
//!
//! A handle names a slot of the registry's table and the generation of that
//! slot at the time the handle was issued. The slot is the low half of the
//! handle and the generation the high half. A slot's generation is raised
//! whenever its allocation is released, so a handle that has been released
//! never matches its slot again.

use vstd::prelude::*;

verus! {

/// The number of slots that a handle can tell apart, and the factor by which
/// the generation is scaled within a handle.
pub const SLOT_LIMIT: u64 = 0x1_0000_0000;

/// The slot that a handle names.
pub open spec fn handle_slot(handle: u64) -> u32 {
    (handle % 0x1_0000_0000) as u32
}

/// The generation that a handle was issued in.
pub open spec fn handle_generation(handle: u64) -> u32 {
    (handle / 0x1_0000_0000) as u32
}

/// The handle for a slot in a generation.
pub open spec fn handle_from_parts(generation: u32, slot: u32) -> u64 {
    (generation * 0x1_0000_0000 + slot) as u64
}

/// A handle is made of its two parts and of nothing else.
pub proof fn lemma_handle_parts(handle: u64)
    ensures
        handle_from_parts(handle_generation(handle), handle_slot(handle)) == handle,
{
}

/// The two parts of a handle are the parts it was made from.
pub proof fn lemma_parts_of_handle(generation: u32, slot: u32)
    ensures
        handle_generation(handle_from_parts(generation, slot)) == generation,
        handle_slot(handle_from_parts(generation, slot)) == slot,
{
}

/// The slot that `handle` names.
pub fn slot_of(handle: u64) -> (slot: u32)
    ensures
        slot == handle_slot(handle),
{
    (handle % SLOT_LIMIT) as u32
}

/// The generation that `handle` was issued in.
pub fn generation_of(handle: u64) -> (generation: u32)
    ensures
        generation == handle_generation(handle),
{
    (handle / SLOT_LIMIT) as u32
}

/// The handle for `slot` in `generation`.
pub fn make_handle(generation: u32, slot: u32) -> (handle: u64)
    ensures
        handle == handle_from_parts(generation, slot),
{
    generation as u64 * SLOT_LIMIT + slot as u64
}

} // verus!
