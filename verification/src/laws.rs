//! What holds of the operations taken together.
//!
//! Each law is stated over the views by which the operations' own contracts
//! describe them: the `_result` functions say whether a call may be made, and
//! [`RegistryView::after_allocate`] and its companions say what a call leaves
//! behind. Where a law says that a call is refused, it says that the call's
//! `requires` cannot be met, and which need the call's refusal test names.

use crate::allocation::{reservation_check, AllocationView};
use crate::error::StorageError;
use crate::footprint::mem_kb;
use crate::handle::{handle_slot, SLOT_LIMIT};
use crate::registry::{
    lemma_live_mem_kb_insert, lemma_live_mem_kb_remove, lemma_live_mem_kb_replace, RegistryView,
};
use crate::transfer::{indices_distinct, lemma_in_bounds_items_within, lemma_scatter_then_gather};
use vstd::prelude::*;

verus! {

/// An allocation may be followed by the release of its handle, and the two
/// together restore the footprint counter to the value it had before.
pub proof fn law_allocate_then_release_restores_footprint(
    before: RegistryView,
    handle: u64,
    count: nat,
    data_item_size: nat,
    meta_item_size: nat,
)
    ensures
        before.after_allocate(handle, count, data_item_size, meta_item_size).release_result(handle)
            is Ok,
        before.after_allocate(handle, count, data_item_size, meta_item_size).after_release(
            handle,
        ).total_mem_footprint_kb == before.total_mem_footprint_kb,
{
}

/// Two allocations raise the footprint counter by exactly the sum of their
/// footprints, and releasing either of them leaves exactly the other's
/// footprint on top of what was there before. From an empty registry the
/// counter is therefore the sum of the two, and then the footprint of the one
/// that remains.
pub proof fn law_footprints_add_up(
    before: RegistryView,
    first: u64,
    first_count: nat,
    first_data_item_size: nat,
    first_meta_item_size: nat,
    second: u64,
    second_count: nat,
    second_data_item_size: nat,
    second_meta_item_size: nat,
)
    requires
        first != second,
    ensures
        ({
            let x = mem_kb(first_count, first_data_item_size, first_meta_item_size);
            let y = mem_kb(second_count, second_data_item_size, second_meta_item_size);
            let both = before.after_allocate(
                first,
                first_count,
                first_data_item_size,
                first_meta_item_size,
            ).after_allocate(second, second_count, second_data_item_size, second_meta_item_size);
            &&& both.total_mem_footprint_kb == before.total_mem_footprint_kb + x + y
            &&& both.release_result(first) is Ok
            &&& both.after_release(first).total_mem_footprint_kb == before.total_mem_footprint_kb
                + y
            &&& both.release_result(second) is Ok
            &&& both.after_release(second).total_mem_footprint_kb == before.total_mem_footprint_kb
                + x
        }),
        RegistryView::empty(true).total_mem_footprint_kb == 0,
        RegistryView::empty(false).total_mem_footprint_kb == 0,
{
}

/// A checkin may be followed at once by a checkout with the same index list,
/// and that checkout returns the two buffers that were checked in, provided
/// the list names no item twice.
pub proof fn law_checkin_then_checkout_round_trip(
    before: RegistryView,
    handle: u64,
    data_region: Seq<u64>,
    meta_region: Seq<u64>,
    indices: Seq<u64>,
    data: Seq<u64>,
    meta: Seq<u64>,
)
    requires
        before.well_formed(),
        before.checkin_result(
            handle,
            data_region.len(),
            meta_region.len(),
            indices,
            data.len(),
            meta.len(),
        ) is Ok,
        indices_distinct(indices),
    ensures
        ({
            let after = before.after_checkin(handle);
            let allocation = before.allocations[handle];
            let data_after = allocation.checkin_data(data_region, indices, data);
            let meta_after = allocation.checkin_meta(meta_region, indices, meta);
            &&& after.checkout_result(
                handle,
                data_after.len(),
                meta_after.len(),
                indices,
                data.len(),
                meta.len(),
            ) is Ok
            &&& after.allocations[handle].checkout_data(data_after, indices) == data
            &&& after.allocations[handle].checkout_meta(meta_after, indices) == meta
        }),
{
    let allocation = before.allocations[handle];
    lemma_in_bounds_items_within(indices, allocation.count, allocation.data_item_words());
    lemma_in_bounds_items_within(indices, allocation.count, allocation.meta_item_words());
    lemma_scatter_then_gather(data_region, indices, allocation.data_item_words(), data);
    lemma_scatter_then_gather(meta_region, indices, allocation.meta_item_words(), meta);
}

/// After a checkout, a second checkout on the same handle, with no checkin in
/// between, is refused as an illegal checkout, whatever its arguments.
pub proof fn law_checkout_twice_is_refused(
    before: RegistryView,
    handle: u64,
    data_region_len: nat,
    meta_region_len: nat,
    indices: Seq<u64>,
    data_len: nat,
    meta_len: nat,
)
    requires
        before.begin_checkout_result(handle) is Ok,
    ensures
        before.after_checkout(handle).begin_checkout_result(handle) == Err::<(), StorageError>(
            StorageError::IllegalCheckout,
        ),
        before.after_checkout(handle).checkout_result(
            handle,
            data_region_len,
            meta_region_len,
            indices,
            data_len,
            meta_len,
        ) == Err::<(), StorageError>(StorageError::IllegalCheckout),
{
}

/// A checkin on a handle that has no checkout outstanding is refused as an
/// illegal checkin, whatever its arguments: on a new allocation, on any
/// allocation that is `Idle` with its critical section free, and so after a
/// checkin.
pub proof fn law_checkin_without_checkout_is_refused(
    before: RegistryView,
    handle: u64,
    data_region_len: nat,
    meta_region_len: nat,
    indices: Seq<u64>,
    data_len: nat,
    meta_len: nat,
    count: nat,
    data_item_size: nat,
    meta_item_size: nat,
)
    ensures
        before.after_allocate(handle, count, data_item_size, meta_item_size).checkin_result(
            handle,
            data_region_len,
            meta_region_len,
            indices,
            data_len,
            meta_len,
        ) == Err::<(), StorageError>(StorageError::IllegalCheckin),
        before.allocations.contains_key(handle) && !before.allocations[handle].in_critical_section
            && !before.allocations[handle].checked_out ==> before.checkin_result(
            handle,
            data_region_len,
            meta_region_len,
            indices,
            data_len,
            meta_len,
        ) == Err::<(), StorageError>(StorageError::IllegalCheckin),
        before.begin_checkin_result(handle) is Ok ==> before.after_checkin(handle).checkin_result(
            handle,
            data_region_len,
            meta_region_len,
            indices,
            data_len,
            meta_len,
        ) == Err::<(), StorageError>(StorageError::IllegalCheckin),
{
}

/// A checkout or a checkin whose buffers do not hold exactly one item per
/// index is refused for the length of the first buffer that is wrong. This
/// holds of every call that gets as far as its buffers: a checkout of an
/// `Idle` allocation and a checkin of a `CheckedOut` one, with the critical
/// section free and the regions of the allocation's size. As neither call can
/// then be made, nothing is copied.
pub proof fn law_length_mismatch_is_refused(
    before: RegistryView,
    handle: u64,
    indices: Seq<u64>,
    data_len: nat,
    meta_len: nat,
)
    requires
        before.allocations.contains_key(handle),
        !before.allocations[handle].in_critical_section,
        data_len != indices.len() * before.allocations[handle].data_item_words() || meta_len
            != indices.len() * before.allocations[handle].meta_item_words(),
    ensures
        ({
            let allocation = before.allocations[handle];
            let refusal = if data_len != indices.len() * allocation.data_item_words() {
                StorageError::DataLengthMismatch
            } else {
                StorageError::MetaLengthMismatch
            };
            &&& !allocation.checked_out ==> before.checkout_result(
                handle,
                allocation.data_region_words(),
                allocation.meta_region_words(),
                indices,
                data_len,
                meta_len,
            ) == Err::<(), StorageError>(refusal)
            &&& allocation.checked_out ==> before.checkin_result(
                handle,
                allocation.data_region_words(),
                allocation.meta_region_words(),
                indices,
                data_len,
                meta_len,
            ) == Err::<(), StorageError>(refusal)
        }),
{
}

/// Every call on `handle` is refused as re-entrant: a checkout and a checkin,
/// whole or begun, and a release.
pub open spec fn every_call_is_refused(
    view: RegistryView,
    handle: u64,
    data_region_len: nat,
    meta_region_len: nat,
    indices: Seq<u64>,
    data_len: nat,
    meta_len: nat,
) -> bool {
    let refused = Err::<(), StorageError>(StorageError::ReentrantCriticalSection);
    &&& view.release_result(handle) == refused
    &&& view.begin_checkout_result(handle) == refused
    &&& view.begin_checkin_result(handle) == refused
    &&& view.checkout_result(handle, data_region_len, meta_region_len, indices, data_len, meta_len)
        == refused
    &&& view.checkin_result(handle, data_region_len, meta_region_len, indices, data_len, meta_len)
        == refused
}

/// While a checkout or a checkin is in the critical section of an allocation,
/// every other call on the handle is refused as re-entrant, whatever its
/// arguments. Leaving the critical section completes the call that was under
/// way.
pub proof fn law_critical_section_excludes(
    before: RegistryView,
    handle: u64,
    data_region_len: nat,
    meta_region_len: nat,
    indices: Seq<u64>,
    data_len: nat,
    meta_len: nat,
)
    requires
        before.allocations.contains_key(handle),
    ensures
        every_call_is_refused(
            before.during_checkout(handle),
            handle,
            data_region_len,
            meta_region_len,
            indices,
            data_len,
            meta_len,
        ),
        every_call_is_refused(
            before.during_checkin(handle),
            handle,
            data_region_len,
            meta_region_len,
            indices,
            data_len,
            meta_len,
        ),
        before.during_checkout(handle).after_end(handle) == before.after_checkout(handle),
        before.during_checkin(handle).after_end(handle) == before.after_checkin(handle),
{
    assert(before.during_checkout(handle).after_end(handle).allocations =~= before.after_checkout(
        handle,
    ).allocations);
    assert(before.during_checkin(handle).after_end(handle).allocations =~= before.after_checkin(
        handle,
    ).allocations);
}

/// A release ends the handle's life: the handle names no allocation
/// afterwards, it counts as released, and every later call on it is refused
/// as naming no allocation.
pub proof fn law_release_ends_the_handle(before: RegistryView, handle: u64)
    requires
        before.release_result(handle) is Ok,
    ensures
        ({
            let after = before.after_release(handle);
            let refused = Err::<(), StorageError>(StorageError::InvalidId);
            &&& !after.allocations.contains_key(handle)
            &&& after.released.contains(handle)
            &&& after.release_result(handle) == refused
            &&& after.begin_checkout_result(handle) == refused
            &&& after.begin_checkin_result(handle) == refused
        }),
{
}

/// Every step of a checkout and of a checkin, and a release, keep a
/// well-formed view well formed.
pub proof fn law_operations_preserve_well_formedness(before: RegistryView, handle: u64)
    requires
        before.well_formed(),
        before.allocations.contains_key(handle),
    ensures
        before.during_checkout(handle).well_formed(),
        before.during_checkin(handle).well_formed(),
        before.after_end(handle).well_formed(),
        before.after_checkout(handle).well_formed(),
        before.after_checkin(handle).well_formed(),
        before.after_release(handle).well_formed(),
{
    let allocation = before.allocations[handle];
    lemma_replace_preserves(before, handle, allocation.during_checkout());
    lemma_replace_preserves(before, handle, allocation.during_checkin());
    lemma_replace_preserves(before, handle, allocation.after_end());
    lemma_replace_preserves(before, handle, allocation.after_checkout());
    lemma_replace_preserves(before, handle, allocation.after_checkin());
    assert(before.after_release(handle).allocations.dom() =~= before.allocations.dom().remove(
        handle,
    ));
    lemma_live_mem_kb_remove(before.allocations, handle);
}

/// Replacing a live allocation by one of the same shape keeps a well-formed
/// view well formed.
proof fn lemma_replace_preserves(before: RegistryView, handle: u64, allocation: AllocationView)
    requires
        before.well_formed(),
        before.allocations.contains_key(handle),
        allocation.count == before.allocations[handle].count,
        allocation.data_item_size == before.allocations[handle].data_item_size,
        allocation.meta_item_size == before.allocations[handle].meta_item_size,
    ensures
        before.with_allocation(handle, allocation).well_formed(),
{
    let after = before.with_allocation(handle, allocation);
    assert(after.allocations.dom() =~= before.allocations.dom());
    lemma_live_mem_kb_replace(before.allocations, handle, allocation);
    assert forall|h: u64| #[trigger]
        after.allocations.contains_key(h) implies after.allocations[h].well_formed() by {
        assert(before.allocations.contains_key(h));
    }
}

/// An allocation keeps a well-formed view well formed, where its regions can
/// be reserved and its handle is new: neither live nor released, and naming
/// either a slot of the table or, while the table can grow, the next one.
pub proof fn law_allocate_preserves_well_formedness(
    before: RegistryView,
    handle: u64,
    count: nat,
    data_item_size: nat,
    meta_item_size: nat,
)
    requires
        before.well_formed(),
        reservation_check(count, data_item_size, meta_item_size) is Ok,
        !before.allocations.contains_key(handle),
        !before.released.contains(handle),
        handle_slot(handle) < before.slots || (handle_slot(handle) == before.slots && before.slots
            < SLOT_LIMIT),
    ensures
        before.after_allocate(handle, count, data_item_size, meta_item_size).well_formed(),
{
    lemma_live_mem_kb_insert(
        before.allocations,
        handle,
        AllocationView::fresh(count, data_item_size, meta_item_size),
    );
}

} // verus!
