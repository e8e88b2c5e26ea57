//! Accounting of the memory that allocations reserve, in kilobytes.

use vstd::prelude::*;

verus! {

/// The footprint of an allocation of `count` items: the bytes of its two
/// regions together, in kilobytes, rounded up.
pub open spec fn mem_kb(count: nat, data_item_size: nat, meta_item_size: nat) -> nat {
    (count * (data_item_size + meta_item_size) + 1023) / 1024
}

/// Computes the footprint of an allocation of `count` items of the given sizes.
///
/// The footprint has to fit the counter's width.
pub fn compute_mem_kb(count: usize, data_item_size: usize, meta_item_size: usize) -> (kb: u64)
    requires
        mem_kb(count as nat, data_item_size as nat, meta_item_size as nat) <= u64::MAX,
    ensures
        kb == mem_kb(count as nat, data_item_size as nat, meta_item_size as nat),
{
    let item_bytes: u128 = data_item_size as u128 + meta_item_size as u128;
    let num_bytes: u128 = (count as u128) * item_bytes;
    // Divide by 1024 and round up.
    ((num_bytes + 1023) / 1024) as u64
}

} // verus!
